//! Paths as the classification rules read them: split into components at
//! the separator `/`, as on the systems the agent runs on.

use vstd::prelude::*;
use crate::text::{chars_equal, to_chars};

verus! {

/// The runs of characters between the separators `/` of a path, empty runs
/// included. A path without a separator is one piece.
pub open spec fn path_pieces(path: Seq<char>) -> Seq<Seq<char>>
    decreases path.len(),
{
    if path.len() == 0 {
        seq![Seq::empty()]
    } else {
        let before = path_pieces(path.drop_last());
        if path.last() == '/' {
            before.push(Seq::empty())
        } else {
            before.drop_last().push(before.last().push(path.last()))
        }
    }
}

/// A piece that names something: neither empty nor the single dot that
/// stands for the directory itself.
pub open spec fn is_name(piece: Seq<char>) -> bool {
    piece.len() > 0 && !(piece.len() == 1 && piece[0] == '.')
}

/// The pieces of a list that are names, in order.
pub open spec fn path_names(pieces: Seq<Seq<char>>) -> Seq<Seq<char>> {
    pieces.filter(|piece: Seq<char>| is_name(piece))
}

/// The path starts at the root directory.
pub open spec fn is_rooted(path: Seq<char>) -> bool {
    path.len() > 0 && path[0] == '/'
}

/// The path starts with a dot that stands for the current directory.
pub open spec fn is_dotted(path: Seq<char>) -> bool {
    path.len() > 0 && path[0] == '.' && (path.len() == 1 || path[1] == '/')
}

/// The components of a path. A leading `/` gives the root marker `/`,
/// and a leading `.` component the marker `.`; then come the names between
/// the separators. Repeated separators, a trailing separator and `.`
/// components further in do not count.
pub open spec fn path_components(path: Seq<char>) -> Seq<Seq<char>> {
    let names = path_names(path_pieces(path));
    if is_rooted(path) {
        seq![seq!['/']] + names
    } else if is_dotted(path) {
        seq![seq!['.']] + names
    } else {
        names
    }
}

/// The components of `suffix` are the last components of `path`.
pub open spec fn is_path_suffix(suffix: Seq<char>, path: Seq<char>) -> bool {
    let tail = path_components(suffix);
    let all = path_components(path);
    &&& tail.len() <= all.len()
    &&& all.subrange(all.len() - tail.len(), all.len() as int) == tail
}

/// The characters of each of a list of components.
pub open spec fn components_view(components: Seq<Vec<char>>) -> Seq<Seq<char>> {
    components.map_values(|component: Vec<char>| component@)
}

/// Adding a piece to a list adds it to the names if it is one.
pub proof fn lemma_path_names_push(pieces: Seq<Seq<char>>, piece: Seq<char>)
    ensures
        path_names(pieces.push(piece)) == if is_name(piece) {
            path_names(pieces).push(piece)
        } else {
            path_names(pieces)
        },
{
    reveal(Seq::filter);
    assert(pieces.push(piece).drop_last() =~= pieces);
}

/// Whether a piece of a path is a name.
pub fn piece_is_name(piece: &[char]) -> (named: bool)
    ensures
        named == is_name(piece@),
{
    piece.len() > 0 && !(piece.len() == 1 && piece[0] == '.')
}

/// Splits a path into its components.
pub fn split_path(path: &str) -> (components: Vec<Vec<char>>)
    ensures
        components_view(components@) == path_components(path@),
{
    let chars = to_chars(path);
    let n = chars.len();
    let mut components: Vec<Vec<char>> = Vec::new();
    if n > 0 && chars[0] == '/' {
        let mut root: Vec<char> = Vec::new();
        root.push('/');
        assert(root@ =~= seq!['/']);
        components.push(root);
        assert(components_view(components@) =~= seq![seq!['/']]);
    } else if n > 0 && chars[0] == '.' && (n == 1 || chars[1] == '/') {
        let mut dot: Vec<char> = Vec::new();
        dot.push('.');
        assert(dot@ =~= seq!['.']);
        components.push(dot);
        assert(components_view(components@) =~= seq![seq!['.']]);
    } else {
        assert(components_view(components@) =~= Seq::<Seq<char>>::empty());
    }
    let ghost marker = components_view(components@);
    let ghost mut closed: Seq<Seq<char>> = Seq::empty();
    let mut piece: Vec<char> = Vec::new();
    let mut i: usize = 0;
    proof {
        reveal(Seq::filter);
        assert(path_names(closed) =~= Seq::<Seq<char>>::empty());
        assert(chars@.take(0) =~= Seq::<char>::empty());
        assert(path_pieces(chars@.take(0)) =~= closed.push(piece@));
        assert(marker + path_names(closed) =~= marker);
    }
    while i < n
        invariant
            i <= n,
            n == chars.len(),
            path_pieces(chars@.take(i as int)) == closed.push(piece@),
            components_view(components@) == marker + path_names(closed),
        decreases n - i,
    {
        let c = chars[i];
        proof {
            let upto = chars@.take(i + 1);
            assert(upto.drop_last() =~= chars@.take(i as int));
            assert(upto.last() == c);
            assert(closed.push(piece@).drop_last() =~= closed);
        }
        if c == '/' {
            let ghost before = components_view(components@);
            let ghost names = path_names(closed);
            let ghost ended = piece@;
            proof {
                lemma_path_names_push(closed, ended);
                closed = closed.push(ended);
            }
            if piece_is_name(piece.as_slice()) {
                components.push(piece);
                assert(components_view(components@) =~= before.push(ended));
                assert((marker + names).push(ended) =~= marker + names.push(ended));
            }
            piece = Vec::new();
        } else {
            piece.push(c);
        }
        i += 1;
    }
    let ghost before = components_view(components@);
    let ghost names = path_names(closed);
    let ghost ended = piece@;
    proof {
        assert(chars@.take(n as int) =~= chars@);
        lemma_path_names_push(closed, ended);
    }
    if piece_is_name(piece.as_slice()) {
        components.push(piece);
        assert(components_view(components@) =~= before.push(ended));
        assert((marker + names).push(ended) =~= marker + names.push(ended));
    }
    components
}

/// Whether the path `path` ends with the path `suffix`, component by
/// component. The texts need not be in normal form: `a//b/` ends with
/// `a/./b`.
pub fn path_ends_with(path: &str, suffix: &str) -> (found: bool)
    ensures
        found == is_path_suffix(suffix@, path@),
{
    let all = split_path(path);
    let tail = split_path(suffix);
    if tail.len() > all.len() {
        return false;
    }
    let skip: usize = all.len() - tail.len();
    let ghost all_view = components_view(all@);
    let ghost tail_view = components_view(tail@);
    let mut k: usize = 0;
    while k < tail.len()
        invariant
            k <= tail.len(),
            skip + tail.len() == all.len(),
            all_view == components_view(all@),
            tail_view == components_view(tail@),
            all_view == path_components(path@),
            tail_view == path_components(suffix@),
            forall|j: int| 0 <= j < k ==> all_view[skip + j] == tail_view[j],
        decreases tail.len() - k,
    {
        if !chars_equal(all[skip + k].as_slice(), tail[k].as_slice()) {
            assert(all_view.subrange(skip as int, all_view.len() as int)[k as int]
                != tail_view[k as int]);
            return false;
        }
        k += 1;
    }
    assert(all_view.subrange(skip as int, all_view.len() as int) =~= tail_view);
    true
}

/// Every path has at least one piece.
pub proof fn lemma_path_pieces_nonempty(path: Seq<char>)
    ensures
        path_pieces(path).len() >= 1,
    decreases path.len(),
{
    if path.len() > 0 {
        lemma_path_pieces_nonempty(path.drop_last());
    }
}

/// A text without a separator is a single piece.
pub proof fn lemma_path_pieces_of_name(name: Seq<char>)
    requires
        !name.contains('/'),
    ensures
        path_pieces(name) == seq![name],
    decreases name.len(),
{
    if name.len() == 0 {
        assert(name =~= Seq::<char>::empty());
        assert(path_pieces(name) =~= seq![name]);
    } else {
        let before = name.drop_last();
        assert forall|i: int| 0 <= i < name.len() implies name[i] != '/' by {
            if name[i] == '/' {
                assert(name.contains('/'));
            }
        }
        assert(!before.contains('/')) by {
            if before.contains('/') {
                let i = choose|i: int| 0 <= i < before.len() && before[i] == '/';
                assert(name[i] == '/');
            }
        }
        lemma_path_pieces_of_name(before);
        let pieces = path_pieces(before);
        assert(pieces.drop_last() =~= Seq::<Seq<char>>::empty());
        assert(pieces.last() == before);
        assert(before.push(name.last()) =~= name);
        assert(name.last() == name[name.len() - 1]);
        assert(path_pieces(name) =~= seq![name]);
    }
}

/// The pieces of two paths joined by a separator are the pieces of the
/// first followed by the pieces of the second.
pub proof fn lemma_path_pieces_join(head: Seq<char>, tail: Seq<char>)
    ensures
        path_pieces(head + seq!['/'] + tail) == path_pieces(head) + path_pieces(tail),
    decreases tail.len(),
{
    let path = head + seq!['/'] + tail;
    if tail.len() == 0 {
        assert(path.drop_last() =~= head);
        assert(path_pieces(tail) =~= seq![Seq::<char>::empty()]);
        assert(path_pieces(path) =~= path_pieces(head) + path_pieces(tail));
    } else {
        let shorter = tail.drop_last();
        lemma_path_pieces_join(head, shorter);
        lemma_path_pieces_nonempty(shorter);
        assert(path.drop_last() =~= head + seq!['/'] + shorter);
        assert(path.last() == tail.last());
        let before = path_pieces(head) + path_pieces(shorter);
        assert(before.last() == path_pieces(shorter).last());
        assert(before.drop_last() =~= path_pieces(head) + path_pieces(shorter).drop_last());
        assert(path_pieces(path) =~= path_pieces(head) + path_pieces(tail));
    }
}

/// The names of the pieces of two paths joined by a separator are the
/// names of the first followed by the names of the second.
pub proof fn lemma_path_names_join(head: Seq<char>, tail: Seq<char>)
    ensures
        path_names(path_pieces(head + seq!['/'] + tail)) == path_names(path_pieces(head))
            + path_names(path_pieces(tail)),
{
    lemma_path_pieces_join(head, tail);
    Seq::filter_distributes_over_add(
        path_pieces(head),
        path_pieces(tail),
        |piece: Seq<char>| is_name(piece),
    );
}

/// The empty path and the path `.` have no names.
pub proof fn lemma_path_names_of_nothing()
    ensures
        path_names(path_pieces(Seq::empty())) == Seq::<Seq<char>>::empty(),
        path_names(path_pieces(seq!['.'])) == Seq::<Seq<char>>::empty(),
{
    let none = Seq::<Seq<char>>::empty();
    reveal(Seq::filter);
    assert(path_names(none) =~= none);
    lemma_path_names_push(none, Seq::<char>::empty());
    assert(none.push(Seq::<char>::empty()) =~= path_pieces(Seq::empty()));
    let dot = seq!['.'];
    assert(!dot.contains('/')) by {
        assert forall|i: int| 0 <= i < dot.len() implies dot[i] != '/' by {}
    }
    lemma_path_pieces_of_name(dot);
    lemma_path_names_push(none, dot);
    assert(none.push(dot) =~= seq![dot]);
}

/// A path under any directory ends with itself: whatever `dir` is, the
/// path `dir/suffix` ends with `suffix`, provided that `suffix` starts
/// neither at the root nor with a dot for the current directory.
pub proof fn law_path_under_directory_ends_with(dir: Seq<char>, suffix: Seq<char>)
    requires
        !is_rooted(suffix),
        !is_dotted(suffix),
    ensures
        is_path_suffix(suffix, dir + seq!['/'] + suffix),
{
    lemma_path_names_join(dir, suffix);
    let tail = path_components(suffix);
    let all = path_components(dir + seq!['/'] + suffix);
    assert(all.subrange(all.len() - tail.len(), all.len() as int) =~= tail);
}

/// A repeated separator does not count: `head//tail` has the components
/// of `head/tail`.
pub proof fn law_repeated_separator(head: Seq<char>, tail: Seq<char>)
    ensures
        path_components(head + seq!['/', '/'] + tail) == path_components(
            head + seq!['/'] + tail,
        ),
{
    let doubled = head + seq!['/', '/'] + tail;
    let single = head + seq!['/'] + tail;
    let rest = Seq::<char>::empty() + seq!['/'] + tail;
    assert(doubled =~= head + seq!['/'] + rest);
    lemma_path_names_join(head, rest);
    lemma_path_names_join(Seq::empty(), tail);
    lemma_path_names_join(head, tail);
    lemma_path_names_of_nothing();
    assert(path_names(path_pieces(doubled)) =~= path_names(path_pieces(single)));
    assert(is_rooted(doubled) == is_rooted(single));
    assert(is_dotted(doubled) == is_dotted(single));
}

/// A dot between separators does not count: `head/./tail` has the
/// components of `head/tail`.
pub proof fn law_inner_dot(head: Seq<char>, tail: Seq<char>)
    ensures
        path_components(head + seq!['/', '.', '/'] + tail) == path_components(
            head + seq!['/'] + tail,
        ),
{
    let dotted = head + seq!['/', '.', '/'] + tail;
    let single = head + seq!['/'] + tail;
    let rest = seq!['.'] + seq!['/'] + tail;
    assert(dotted =~= head + seq!['/'] + rest);
    lemma_path_names_join(head, rest);
    lemma_path_names_join(seq!['.'], tail);
    lemma_path_names_join(head, tail);
    lemma_path_names_of_nothing();
    assert(path_names(path_pieces(dotted)) =~= path_names(path_pieces(single)));
    assert(is_rooted(dotted) == is_rooted(single));
    assert(is_dotted(dotted) == is_dotted(single));
}

/// A trailing separator does not count: `path/` has the components of
/// `path`, unless `path` is empty.
pub proof fn law_trailing_separator(path: Seq<char>)
    requires
        path.len() > 0,
    ensures
        path_components(path + seq!['/']) == path_components(path),
{
    let longer = path + seq!['/'];
    assert(longer =~= path + seq!['/'] + Seq::<char>::empty());
    lemma_path_names_join(path, Seq::empty());
    lemma_path_names_of_nothing();
    assert(path_names(path_pieces(longer)) =~= path_names(path_pieces(path)));
    assert(is_rooted(longer) == is_rooted(path));
    assert(is_dotted(longer) == is_dotted(path));
}

/// A list of names written as a path: the names with one separator
/// between each two.
pub open spec fn join_names(names: Seq<Seq<char>>) -> Seq<char>
    decreases names.len(),
{
    if names.len() == 0 {
        Seq::empty()
    } else if names.len() == 1 {
        names[0]
    } else {
        join_names(names.drop_last()) + seq!['/'] + names.last()
    }
}

/// Every entry is a name and holds no separator.
pub open spec fn are_plain_names(names: Seq<Seq<char>>) -> bool {
    forall|i: int| 0 <= i < names.len() ==> is_name(#[trigger] names[i]) && !names[i].contains('/')
}

/// A name written alone is its own only name.
pub proof fn lemma_path_names_of_name(name: Seq<char>)
    requires
        is_name(name),
        !name.contains('/'),
    ensures
        path_names(path_pieces(name)) == seq![name],
{
    let none = Seq::<Seq<char>>::empty();
    reveal(Seq::filter);
    assert(path_names(none) =~= none);
    lemma_path_pieces_of_name(name);
    lemma_path_names_push(none, name);
    assert(none.push(name) =~= seq![name]);
}

/// Names written as a path are read back as they were written.
pub proof fn lemma_path_names_of_joined(names: Seq<Seq<char>>)
    requires
        are_plain_names(names),
    ensures
        path_names(path_pieces(join_names(names))) == names,
    decreases names.len(),
{
    if names.len() == 0 {
        lemma_path_names_of_nothing();
        assert(names =~= Seq::<Seq<char>>::empty());
    } else if names.len() == 1 {
        lemma_path_names_of_name(names[0]);
        assert(names =~= seq![names[0]]);
    } else {
        let before = names.drop_last();
        assert(are_plain_names(before)) by {
            assert forall|i: int| 0 <= i < before.len() implies is_name(#[trigger] before[i])
                && !before[i].contains('/') by {
                assert(before[i] == names[i]);
            }
        }
        lemma_path_names_of_joined(before);
        lemma_path_names_of_name(names.last());
        lemma_path_names_join(join_names(before), names.last());
        assert(before + seq![names.last()] =~= names);
    }
}

/// Names written as a path start with the first name, which the end of
/// the path or a separator follows.
pub proof fn lemma_joined_starts_with_first(names: Seq<Seq<char>>)
    requires
        names.len() > 0,
    ensures
        names[0].len() <= join_names(names).len(),
        join_names(names).subrange(0, names[0].len() as int) == names[0],
        names.len() == 1 ==> join_names(names) == names[0],
        names.len() > 1 ==> names[0].len() < join_names(names).len() && join_names(
            names,
        )[names[0].len() as int] == '/',
    decreases names.len(),
{
    let joined = join_names(names);
    if names.len() == 1 {
        assert(joined.subrange(0, names[0].len() as int) =~= names[0]);
    } else {
        let before = names.drop_last();
        lemma_joined_starts_with_first(before);
        assert(before[0] == names[0]);
        let head = join_names(before);
        assert(joined == head + seq!['/'] + names.last());
        assert(joined.subrange(0, names[0].len() as int) =~= head.subrange(
            0,
            names[0].len() as int,
        ));
        if before.len() == 1 {
            assert(joined[head.len() as int] == '/');
        } else {
            assert(joined[names[0].len() as int] == head[names[0].len() as int]);
        }
    }
}

/// The components of a path written in normal form are the names it was
/// written from: behind the root marker for `/a/b`, alone for `a/b`.
pub proof fn law_components_of_joined_names(names: Seq<Seq<char>>)
    requires
        are_plain_names(names),
    ensures
        path_components(seq!['/'] + join_names(names)) == seq![seq!['/']] + names,
        path_components(join_names(names)) == names,
{
    let joined = join_names(names);
    lemma_path_names_of_joined(names);
    let rooted = seq!['/'] + joined;
    assert(rooted =~= Seq::<char>::empty() + seq!['/'] + joined);
    lemma_path_names_join(Seq::empty(), joined);
    lemma_path_names_of_nothing();
    assert(path_names(path_pieces(rooted)) =~= names);
    assert(is_rooted(rooted));
    if names.len() > 0 {
        lemma_joined_starts_with_first(names);
        let first = names[0];
        assert(is_name(first) && !first.contains('/'));
        assert(joined[0] == joined.subrange(0, first.len() as int)[0]);
        assert(joined[0] == first[0]);
        assert(first[0] != '/') by {
            if first[0] == '/' {
                assert(first.contains('/'));
            }
        }
        if first[0] == '.' {
            assert(first.len() >= 2);
            assert(joined[1] == joined.subrange(0, first.len() as int)[1]);
            assert(first[1] != '/') by {
                if first[1] == '/' {
                    assert(first.contains('/'));
                }
            }
        }
        assert(!is_rooted(joined));
        assert(!is_dotted(joined));
    }
}

} // verus!
