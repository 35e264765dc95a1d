//! Addresses of the collection endpoint's two reports.

use vstd::prelude::*;
use vstd::string::StringExecFns;
use vstd::utf8::encode_utf8;

verus! {

/// Where the liveness ping is posted.
pub const PING_URL: &'static str = "https://api.kognise.dev/ping/desktop";

/// What the address of a list update starts with; the host's name follows.
pub const LIST_URL_PREFIX: &'static str = "https://api.kognise.dev/list/apps/";

/// Bytes that percent-encoding leaves as they are: ASCII letters and
/// digits, and `-`, `.`, `_`, `~`.
pub open spec fn is_unreserved(b: u8) -> bool {
    ||| 0x30 <= b <= 0x39
    ||| 0x41 <= b <= 0x5a
    ||| 0x61 <= b <= 0x7a
    ||| b == 0x2d
    ||| b == 0x2e
    ||| b == 0x5f
    ||| b == 0x7e
}

/// The upper-case hexadecimal digit for a value below sixteen.
pub open spec fn hex_digit(nibble: u8) -> char {
    if nibble < 10 {
        ((0x30 + nibble) as u8) as char
    } else {
        ((0x41 + nibble - 10) as u8) as char
    }
}

/// One byte, percent-encoded: itself if unreserved, else `%` and its two
/// hexadecimal digits.
pub open spec fn escape_byte(b: u8) -> Seq<char> {
    if is_unreserved(b) {
        seq![b as char]
    } else {
        seq!['%', hex_digit(b / 16), hex_digit(b % 16)]
    }
}

/// A run of bytes, percent-encoded byte by byte.
pub open spec fn escape_bytes(bytes: Seq<u8>) -> Seq<char>
    decreases bytes.len(),
{
    if bytes.len() == 0 {
        Seq::empty()
    } else {
        escape_bytes(bytes.drop_last()) + escape_byte(bytes.last())
    }
}

/// A text, percent-encoded over its UTF-8 bytes.
pub open spec fn percent_encoded(text: Seq<char>) -> Seq<char> {
    escape_bytes(encode_utf8(text))
}

/// The address of the list update for a host whose name is already
/// percent-encoded.
pub open spec fn list_url_spec(encoded_host: Seq<char>) -> Seq<char> {
    LIST_URL_PREFIX@ + encoded_host
}

/// Calls `urlencoding::encode`. That function walks the UTF-8 bytes of its
/// argument, keeps ASCII letters, digits and `-`, `.`, `_`, `~`, and writes
/// every other byte as `%` followed by its two upper-case hexadecimal
/// digits; the contract says the same.
#[verifier::external_body]
fn percent_encode(text: &str) -> (encoded: String)
    ensures
        encoded@ == percent_encoded(text@),
{
    urlencoding::encode(text).into_owned()
}

/// The address of the list update, given the host's name in its
/// percent-encoded form.
pub fn list_url_for(encoded_host: &str) -> (url: String)
    ensures
        url@ == list_url_spec(encoded_host@),
{
    let mut url = String::from_str(LIST_URL_PREFIX);
    url.append(encoded_host);
    url
}

/// The address of the list update for the host named `hostname`.
pub fn list_url(hostname: &str) -> (url: String)
    ensures
        url@ == list_url_spec(percent_encoded(hostname@)),
{
    let encoded = percent_encode(hostname);
    list_url_for(encoded.as_str())
}

/// Characters that percent-encoding writes: the unreserved ones and `%`.
pub open spec fn is_segment_char(c: char) -> bool {
    c == '%' || ((c as u32) < 0x80 && is_unreserved(c as u8))
}

/// A percent-encoded run of bytes holds nothing but unreserved characters
/// and `%`.
pub proof fn lemma_escape_bytes_chars(bytes: Seq<u8>)
    ensures
        forall|i: int|
            0 <= i < escape_bytes(bytes).len() ==> is_segment_char(
                #[trigger] escape_bytes(bytes)[i],
            ),
    decreases bytes.len(),
{
    if bytes.len() > 0 {
        lemma_escape_bytes_chars(bytes.drop_last());
        let b = bytes.last();
        let tail = escape_byte(b);
        assert(forall|i: int| 0 <= i < tail.len() ==> is_segment_char(#[trigger] tail[i]));
        let head = escape_bytes(bytes.drop_last());
        let all = escape_bytes(bytes);
        assert(all == head + tail);
        assert forall|i: int| 0 <= i < all.len() implies is_segment_char(#[trigger] all[i]) by {
            if i < head.len() {
                assert(all[i] == head[i]);
            } else {
                assert(all[i] == tail[i - head.len()]);
            }
        }
    }
}

/// A percent-encoded host name stays within one path segment of the
/// address: it holds no `/`, `?` or `#`.
pub proof fn law_encoded_host_is_one_segment(hostname: Seq<char>)
    ensures
        !percent_encoded(hostname).contains('/'),
        !percent_encoded(hostname).contains('?'),
        !percent_encoded(hostname).contains('#'),
{
    lemma_escape_bytes_chars(encode_utf8(hostname));
}

} // verus!
