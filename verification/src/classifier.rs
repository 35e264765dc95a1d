//! Process classifier: maps the running processes to the small fixed
//! vocabulary of tracked applications.
//!
//! Recognition is driven by a closed table of rules. A rule names a process,
//! may refine the match by a look at the command line or at the executable's
//! path, and gives the tag to report. Rules are tried in table order and each
//! process is judged on its own.

use vstd::prelude::*;
use crate::path::{is_path_suffix, path_ends_with};
use crate::text::{chars_contain, is_infix, str_eq, to_chars};

verus! {

/// A tracked application.
#[derive(Clone, Copy, Debug, PartialEq, Eq, Hash, Structural)]
pub enum AppTag {
    Ableton,
    Terminal,
    MuseScore,
    Max,
    Zoom,
    Figma,
    AndroidStudio,
    Celeste,
    Factorio,
    RimWorld,
    Minecraft,
    VsCode,
}

impl AppTag {
    /// The canonical short string under which the application is reported.
    pub open spec fn spec_name(self) -> Seq<char> {
        match self {
            AppTag::Ableton => "ableton"@,
            AppTag::Terminal => "terminal"@,
            AppTag::MuseScore => "musescore"@,
            AppTag::Max => "max"@,
            AppTag::Zoom => "zoom"@,
            AppTag::Figma => "figma"@,
            AppTag::AndroidStudio => "android-studio"@,
            AppTag::Celeste => "celeste"@,
            AppTag::Factorio => "factorio"@,
            AppTag::RimWorld => "rimworld"@,
            AppTag::Minecraft => "minecraft"@,
            AppTag::VsCode => "vscode"@,
        }
    }

    /// The canonical short string under which the application is reported.
    pub fn name(self) -> (s: &'static str)
        ensures
            s@ == self.spec_name(),
    {
        match self {
            AppTag::Ableton => "ableton",
            AppTag::Terminal => "terminal",
            AppTag::MuseScore => "musescore",
            AppTag::Max => "max",
            AppTag::Zoom => "zoom",
            AppTag::Figma => "figma",
            AppTag::AndroidStudio => "android-studio",
            AppTag::Celeste => "celeste",
            AppTag::Factorio => "factorio",
            AppTag::RimWorld => "rimworld",
            AppTag::Minecraft => "minecraft",
            AppTag::VsCode => "vscode",
        }
    }
}

/// What the classifier reads of one live process.
#[derive(Clone, Debug)]
pub struct ProcessInfo {
    /// Process name as the operating system reports it.
    pub name: String,
    /// Path of the executable.
    pub exe: String,
    /// Command line, one entry per argument.
    pub cmd: Vec<String>,
}

/// Mathematical model of a [`ProcessInfo`].
pub struct ProcessView {
    pub name: Seq<char>,
    pub exe: Seq<char>,
    pub cmd: Seq<Seq<char>>,
}

impl View for ProcessInfo {
    type V = ProcessView;

    open spec fn view(&self) -> ProcessView {
        ProcessView { name: self.name@, exe: self.exe@, cmd: self.cmd.deep_view() }
    }
}

/// Model of a snapshot: the model of each process, in enumeration order.
pub open spec fn snapshot_view(snapshot: Seq<ProcessInfo>) -> Seq<ProcessView> {
    snapshot.map_values(|p: ProcessInfo| p@)
}

/// The extra condition a rule may put on a process whose name it matched.
#[derive(Clone, Copy, Debug)]
pub enum Refinement {
    /// The name alone decides.
    Always,
    /// Some command-line argument must contain the given text.
    ArgContains(&'static str),
    /// The executable's path must end with the given trailing components.
    ExeEndsWith(&'static str),
}

impl Refinement {
    /// Whether the condition holds of the process.
    pub open spec fn holds(self, p: ProcessView) -> bool {
        match self {
            Refinement::Always => true,
            Refinement::ArgContains(needle) => exists|i: int|
                0 <= i < p.cmd.len() && is_infix(needle@, #[trigger] p.cmd[i]),
            Refinement::ExeEndsWith(suffix) => is_path_suffix(suffix@, p.exe),
        }
    }
}

/// One recognition rule: process name, refinement, resulting tag.
#[derive(Clone, Copy, Debug)]
pub struct Rule {
    pub name: &'static str,
    pub refinement: Refinement,
    pub tag: AppTag,
}

impl Rule {
    /// The rule recognises the process: the name is exactly the rule's and
    /// the refinement holds.
    pub open spec fn matches(self, p: ProcessView) -> bool {
        p.name == self.name@ && self.refinement.holds(p)
    }
}

/// The closed rule set, in evaluation order.
pub open spec fn rule_table() -> Seq<Rule> {
    seq![
        Rule { name: "Live", refinement: Refinement::Always, tag: AppTag::Ableton },
        Rule { name: "Terminal", refinement: Refinement::Always, tag: AppTag::Terminal },
        Rule { name: "mscore", refinement: Refinement::Always, tag: AppTag::MuseScore },
        Rule { name: "Max", refinement: Refinement::Always, tag: AppTag::Max },
        Rule { name: "zoom.us", refinement: Refinement::Always, tag: AppTag::Zoom },
        Rule { name: "Figma", refinement: Refinement::Always, tag: AppTag::Figma },
        Rule { name: "studio", refinement: Refinement::Always, tag: AppTag::AndroidStudio },
        Rule { name: "Celeste", refinement: Refinement::Always, tag: AppTag::Celeste },
        Rule { name: "factorio", refinement: Refinement::Always, tag: AppTag::Factorio },
        Rule {
            name: "RimWorld by Ludeon Studios",
            refinement: Refinement::Always,
            tag: AppTag::RimWorld,
        },
        Rule {
            name: "java",
            refinement: Refinement::ArgContains("minecraft"),
            tag: AppTag::Minecraft,
        },
        Rule {
            name: "Electron",
            refinement: Refinement::ExeEndsWith("Visual Studio Code.app/Contents/MacOS/Electron"),
            tag: AppTag::VsCode,
        },
    ]
}

/// The closed rule set, in evaluation order.
pub fn rules() -> (table: Vec<Rule>)
    ensures
        table@ == rule_table(),
{
    let table = vec![
        Rule { name: "Live", refinement: Refinement::Always, tag: AppTag::Ableton },
        Rule { name: "Terminal", refinement: Refinement::Always, tag: AppTag::Terminal },
        Rule { name: "mscore", refinement: Refinement::Always, tag: AppTag::MuseScore },
        Rule { name: "Max", refinement: Refinement::Always, tag: AppTag::Max },
        Rule { name: "zoom.us", refinement: Refinement::Always, tag: AppTag::Zoom },
        Rule { name: "Figma", refinement: Refinement::Always, tag: AppTag::Figma },
        Rule { name: "studio", refinement: Refinement::Always, tag: AppTag::AndroidStudio },
        Rule { name: "Celeste", refinement: Refinement::Always, tag: AppTag::Celeste },
        Rule { name: "factorio", refinement: Refinement::Always, tag: AppTag::Factorio },
        Rule {
            name: "RimWorld by Ludeon Studios",
            refinement: Refinement::Always,
            tag: AppTag::RimWorld,
        },
        Rule {
            name: "java",
            refinement: Refinement::ArgContains("minecraft"),
            tag: AppTag::Minecraft,
        },
        Rule {
            name: "Electron",
            refinement: Refinement::ExeEndsWith("Visual Studio Code.app/Contents/MacOS/Electron"),
            tag: AppTag::VsCode,
        },
    ];
    assert(table@ =~= rule_table());
    table
}

/// Tag of the first rule in `rules` that recognises the process, if any.
pub open spec fn first_match(rules: Seq<Rule>, p: ProcessView) -> Option<AppTag>
    decreases rules.len(),
{
    if rules.len() == 0 {
        None
    } else if rules[0].matches(p) {
        Some(rules[0].tag)
    } else {
        first_match(rules.drop_first(), p)
    }
}

/// The tag the rule table gives a process, if it recognises it.
pub open spec fn tag_of(p: ProcessView) -> Option<AppTag> {
    first_match(rule_table(), p)
}

/// The tags of the recognised processes of a snapshot, in enumeration order.
/// Two processes with the same tag give the tag twice.
pub open spec fn classify_spec(snapshot: Seq<ProcessView>) -> Seq<AppTag>
    decreases snapshot.len(),
{
    if snapshot.len() == 0 {
        Seq::empty()
    } else {
        let before = classify_spec(snapshot.drop_last());
        match tag_of(snapshot.last()) {
            Some(tag) => before.push(tag),
            None => before,
        }
    }
}

/// Whether some command-line argument contains `needle`.
pub fn any_arg_contains(cmd: &Vec<String>, needle: &str) -> (found: bool)
    ensures
        found == exists|i: int|
            0 <= i < cmd.deep_view().len() && is_infix(needle@, #[trigger] cmd.deep_view()[i]),
{
    let wanted = to_chars(needle);
    let mut i: usize = 0;
    while i < cmd.len()
        invariant
            i <= cmd.len(),
            wanted@ == needle@,
            forall|j: int| 0 <= j < i ==> !is_infix(needle@, #[trigger] cmd.deep_view()[j]),
        decreases cmd.len() - i,
    {
        let arg = to_chars(cmd[i].as_str());
        assert(cmd.deep_view()[i as int] == cmd@[i as int]@);
        if chars_contain(arg.as_slice(), wanted.as_slice()) {
            return true;
        }
        i += 1;
    }
    false
}

impl Refinement {
    /// Whether the condition holds of the process.
    pub fn check(&self, p: &ProcessInfo) -> (ok: bool)
        ensures
            ok == self.holds(p@),
    {
        match self {
            Refinement::Always => true,
            Refinement::ArgContains(needle) => any_arg_contains(&p.cmd, needle),
            Refinement::ExeEndsWith(suffix) => path_ends_with(p.exe.as_str(), suffix),
        }
    }
}

impl Rule {
    /// Whether the rule recognises the process.
    pub fn recognises(&self, p: &ProcessInfo) -> (ok: bool)
        ensures
            ok == self.matches(p@),
    {
        str_eq(p.name.as_str(), self.name) && self.refinement.check(p)
    }
}

/// Classifies one process against `rules`, tried in order.
pub fn classify_with(rules: &[Rule], p: &ProcessInfo) -> (tag: Option<AppTag>)
    ensures
        tag == first_match(rules@, p@),
{
    let mut i: usize = 0;
    assert(rules@.skip(0) =~= rules@);
    while i < rules.len()
        invariant
            i <= rules.len(),
            first_match(rules@, p@) == first_match(rules@.skip(i as int), p@),
        decreases rules.len() - i,
    {
        if rules[i].recognises(p) {
            return Some(rules[i].tag);
        }
        assert(rules@.skip(i as int).drop_first() =~= rules@.skip(i + 1));
        i += 1;
    }
    None
}

/// Classifies one process against the rule table.
pub fn classify_process(p: &ProcessInfo) -> (tag: Option<AppTag>)
    ensures
        tag == tag_of(p@),
{
    let table = rules();
    classify_with(table.as_slice(), p)
}

/// Classifies every process of a snapshot. Unrecognised processes are
/// passed over; the tags come in the order of the snapshot, one per
/// recognised process.
pub fn classify(snapshot: &[ProcessInfo]) -> (tags: Vec<AppTag>)
    ensures
        tags@ == classify_spec(snapshot_view(snapshot@)),
{
    let table = rules();
    let ghost views = snapshot_view(snapshot@);
    let mut tags: Vec<AppTag> = Vec::new();
    let mut i: usize = 0;
    while i < snapshot.len()
        invariant
            i <= snapshot.len(),
            table@ == rule_table(),
            views == snapshot_view(snapshot@),
            tags@ == classify_spec(views.take(i as int)),
        decreases snapshot.len() - i,
    {
        let found = classify_with(table.as_slice(), &snapshot[i]);
        proof {
            let upto = views.take(i + 1);
            assert(upto.drop_last() =~= views.take(i as int));
            assert(upto.last() == snapshot@[i as int]@);
        }
        if let Some(tag) = found {
            tags.push(tag);
        }
        i += 1;
    }
    assert(views.take(i as int) =~= views);
    tags
}

/// The tags that one process contributes: its tag, if it has one.
pub open spec fn tags_of(p: ProcessView) -> Seq<AppTag> {
    match tag_of(p) {
        Some(tag) => seq![tag],
        None => Seq::empty(),
    }
}

/// Classification goes process by process: the tags of two snapshots put
/// end to end are the tags of the first followed by those of the second.
pub proof fn lemma_classify_concat(first: Seq<ProcessView>, second: Seq<ProcessView>)
    ensures
        classify_spec(first + second) == classify_spec(first) + classify_spec(second),
    decreases second.len(),
{
    if second.len() == 0 {
        assert(first + second =~= first);
        assert(classify_spec(first) + classify_spec(second) =~= classify_spec(first));
    } else {
        lemma_classify_concat(first, second.drop_last());
        assert((first + second).drop_last() =~= first + second.drop_last());
        assert((first + second).last() == second.last());
        assert(classify_spec(first + second) =~= classify_spec(first) + classify_spec(second));
    }
}

/// A snapshot of one process has the tags of that process.
pub proof fn lemma_classify_single(p: ProcessView)
    ensures
        classify_spec(seq![p]) == tags_of(p),
{
    let one = seq![p];
    assert(one.drop_last() =~= Seq::<ProcessView>::empty());
    assert(classify_spec(one.drop_last()) =~= Seq::<AppTag>::empty());
    assert(one.last() == p);
    assert(classify_spec(one) =~= tags_of(p));
}

/// Every tag in a classification is the tag of some process of the
/// snapshot, and no process gives more than one.
pub proof fn lemma_classify_sound(snapshot: Seq<ProcessView>)
    ensures
        classify_spec(snapshot).len() <= snapshot.len(),
        forall|k: int|
            0 <= k < classify_spec(snapshot).len() ==> exists|i: int|
                0 <= i < snapshot.len() && tag_of(snapshot[i]) == Some(
                    #[trigger] classify_spec(snapshot)[k],
                ),
    decreases snapshot.len(),
{
    if snapshot.len() > 0 {
        let before = snapshot.drop_last();
        lemma_classify_sound(before);
        let tags = classify_spec(snapshot);
        assert forall|k: int| 0 <= k < tags.len() implies exists|i: int|
            0 <= i < snapshot.len() && tag_of(snapshot[i]) == Some(#[trigger] tags[k]) by {
            if k < classify_spec(before).len() {
                assert(tags[k] == classify_spec(before)[k]);
                let i = choose|i: int|
                    0 <= i < before.len() && tag_of(before[i]) == Some(classify_spec(before)[k]);
                assert(snapshot[i] == before[i]);
            } else {
                assert(tag_of(snapshot[snapshot.len() - 1]) == Some(tags[k]));
            }
        }
    }
}

/// Taking one process out of a snapshot takes exactly its tags out of the
/// classification, as far as the multiset of tags goes.
proof fn lemma_classify_remove(snapshot: Seq<ProcessView>, i: int)
    requires
        0 <= i < snapshot.len(),
    ensures
        classify_spec(snapshot).to_multiset() == classify_spec(
            snapshot.remove(i),
        ).to_multiset().add(tags_of(snapshot[i]).to_multiset()),
{
    broadcast use vstd::seq_lib::lemma_multiset_commutative;

    let left = snapshot.subrange(0, i);
    let right = snapshot.subrange(i + 1, snapshot.len() as int);
    let mid = seq![snapshot[i]];
    assert(snapshot =~= left + mid + right);
    assert(snapshot.remove(i) =~= left + right);
    lemma_classify_concat(left, mid);
    lemma_classify_concat(left + mid, right);
    lemma_classify_concat(left, right);
    lemma_classify_single(snapshot[i]);
    let l = classify_spec(left);
    let m = tags_of(snapshot[i]);
    let r = classify_spec(right);
    assert((l + m + r).to_multiset() =~= (l + r).to_multiset().add(m.to_multiset()));
}

/// A snapshot has no order. Two enumerations of the same processes, each
/// process as often in one as in the other, are classified to the same
/// multiset of tags; in particular classifying one snapshot twice gives
/// the same tags both times.
pub proof fn law_classification_ignores_order(first: Seq<ProcessView>, second: Seq<ProcessView>)
    requires
        first.to_multiset() == second.to_multiset(),
    ensures
        classify_spec(first).to_multiset() == classify_spec(second).to_multiset(),
    decreases first.len(),
{
    if first.len() == 0 {
        vstd::seq_lib::to_multiset_len(first);
        vstd::seq_lib::to_multiset_len(second);
        assert(second.len() == 0);
        assert(first =~= second);
    } else {
        let p = first.last();
        let at = first.len() - 1;
        vstd::seq_lib::to_multiset_contains(first, p);
        vstd::seq_lib::to_multiset_contains(second, p);
        assert(first[at] == p);
        assert(first.contains(p));
        let j = choose|j: int| 0 <= j < second.len() && second[j] == p;
        vstd::seq_lib::to_multiset_remove(first, at);
        vstd::seq_lib::to_multiset_remove(second, j);
        law_classification_ignores_order(first.remove(at), second.remove(j));
        lemma_classify_remove(first, at);
        lemma_classify_remove(second, j);
    }
}

/// Classifying is a function of the snapshot: two results for the same
/// snapshot are the same list, and so the same multiset.
pub proof fn law_classify_idempotent(
    snapshot: Seq<ProcessInfo>,
    first: Seq<AppTag>,
    second: Seq<AppTag>,
)
    requires
        first == classify_spec(snapshot_view(snapshot)),
        second == classify_spec(snapshot_view(snapshot)),
    ensures
        first == second,
        first.to_multiset() == second.to_multiset(),
{
}

/// What trying rules in order comes to: no tag exactly when no rule
/// recognises the process, and otherwise the tag of the earliest rule
/// that does.
pub proof fn lemma_first_match(rules: Seq<Rule>, p: ProcessView)
    ensures
        first_match(rules, p) is None <==> forall|i: int|
            0 <= i < rules.len() ==> !(#[trigger] rules[i]).matches(p),
        first_match(rules, p) matches Some(tag) ==> exists|i: int|
            {
                &&& 0 <= i < rules.len()
                &&& (#[trigger] rules[i]).matches(p)
                &&& rules[i].tag == tag
                &&& forall|j: int| 0 <= j < i ==> !(#[trigger] rules[j]).matches(p)
            },
    decreases rules.len(),
{
    if rules.len() > 0 {
        let rest = rules.drop_first();
        lemma_first_match(rest, p);
        assert(forall|i: int| 0 <= i < rest.len() ==> rest[i] == rules[i + 1]);
        if rules[0].matches(p) {
            assert(forall|j: int| 0 <= j < 0 ==> !(#[trigger] rules[j]).matches(p));
        } else {
            if first_match(rest, p) is None {
                assert forall|i: int| 0 <= i < rules.len() implies !(#[trigger] rules[i]).matches(
                    p,
                ) by {
                    if i > 0 {
                        assert(rest[i - 1] == rules[i]);
                    }
                }
            } else {
                let tag = first_match(rest, p)->Some_0;
                let i = choose|i: int|
                    {
                        &&& 0 <= i < rest.len()
                        &&& (#[trigger] rest[i]).matches(p)
                        &&& rest[i].tag == tag
                        &&& forall|j: int| 0 <= j < i ==> !(#[trigger] rest[j]).matches(p)
                    };
                assert(rules[i + 1].matches(p));
                assert forall|j: int| 0 <= j < i + 1 implies !(#[trigger] rules[j]).matches(
                    p,
                ) by {
                    if j > 0 {
                        assert(rest[j - 1] == rules[j]);
                    }
                }
            }
        }
    }
}

/// No two rules of the table name the same process.
pub proof fn law_rule_names_distinct()
    ensures
        forall|i: int, j: int|
            0 <= i < j < rule_table().len() ==> (#[trigger] rule_table()[i]).name@
                != (#[trigger] rule_table()[j]).name@,
{
    reveal_strlit("Live");
    reveal_strlit("Terminal");
    reveal_strlit("mscore");
    reveal_strlit("Max");
    reveal_strlit("zoom.us");
    reveal_strlit("Figma");
    reveal_strlit("studio");
    reveal_strlit("Celeste");
    reveal_strlit("factorio");
    reveal_strlit("RimWorld by Ludeon Studios");
    reveal_strlit("java");
    reveal_strlit("Electron");
    let t = rule_table();
    assert(t[0].name@[0] == 'L');
    assert(t[1].name@[0] == 'T');
    assert(t[2].name@[0] == 'm');
    assert(t[3].name@.len() == 3);
    assert(t[4].name@[0] == 'z');
    assert(t[5].name@.len() == 5);
    assert(t[6].name@[0] == 's');
    assert(t[7].name@[0] == 'C');
    assert(t[8].name@[0] == 'f');
    assert(t[9].name@.len() == 26);
    assert(t[10].name@[0] == 'j');
    assert(t[11].name@[0] == 'E');
}

/// A process is recognised by at most one rule of the table, so the
/// order of the table does not matter to the result: a process has tag
/// `tag` exactly when some rule with that tag recognises it.
pub proof fn law_at_most_one_rule(p: ProcessView)
    ensures
        forall|i: int, j: int|
            0 <= i < rule_table().len() && 0 <= j < rule_table().len() && (
            #[trigger] rule_table()[i]).matches(p) && (#[trigger] rule_table()[j]).matches(p)
                ==> i == j,
        tag_of(p) is None <==> forall|i: int|
            0 <= i < rule_table().len() ==> !(#[trigger] rule_table()[i]).matches(p),
        forall|tag: AppTag|
            tag_of(p) == Some(tag) <==> exists|i: int|
                0 <= i < rule_table().len() && (#[trigger] rule_table()[i]).matches(p)
                    && rule_table()[i].tag == tag,
{
    law_rule_names_distinct();
    lemma_first_match(rule_table(), p);
    let t = rule_table();
    assert forall|i: int, j: int|
        0 <= i < t.len() && 0 <= j < t.len() && (#[trigger] t[i]).matches(p) && (
        #[trigger] t[j]).matches(p) implies i == j by {
        if i < j {
            assert(t[i].name@ != t[j].name@);
        } else if j < i {
            assert(t[j].name@ != t[i].name@);
        }
    }
}

} // verus!
