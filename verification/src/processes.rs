//! Taking a snapshot of the live processes and reporting the tracked
//! applications among them.

use vstd::prelude::*;
use vstd::multiset::Multiset;
use sysinfo::{ProcessExt, System, SystemExt};
use crate::classifier::{
    classify, classify_spec, law_classification_ignores_order, snapshot_view, AppTag, ProcessInfo,
    ProcessView,
};

verus! {

/// Handle on the operating system's process table, as `sysinfo` keeps it.
/// Nothing inside it is visible to the proofs.
#[verifier::external_type_specification]
#[verifier::external_body]
pub struct ExSystem(sysinfo::System);

/// The reported names of a list of tags, in the same order.
pub open spec fn names_of(tags: Seq<AppTag>) -> Seq<Seq<char>> {
    tags.map_values(|tag: AppTag| tag.spec_name())
}

/// The characters of each of a list of names.
pub open spec fn names_view(names: Seq<&'static str>) -> Seq<Seq<char>> {
    names.map_values(|name: &'static str| name@)
}

/// `names` is what classifying `snapshot` reports.
pub open spec fn reports_snapshot(names: Seq<&'static str>, snapshot: Seq<ProcessView>) -> bool {
    names_view(names) == names_of(classify_spec(snapshot))
}

/// The processes that a `System` holds in its process table, each as the
/// classifier reads it. The table has no order.
pub uninterp spec fn process_table(system: System) -> Multiset<ProcessView>;

/// `names` is what classifying the processes of `table` reports, for some
/// order in which they are enumerated.
pub open spec fn reports_table(names: Seq<&'static str>, table: Multiset<ProcessView>) -> bool {
    exists|snapshot: Seq<ProcessView>|
        #[trigger] snapshot.to_multiset() == table && reports_snapshot(names, snapshot)
}

/// Refreshes the process table through `sysinfo`'s
/// `SystemExt::refresh_processes` and copies out of `SystemExt::processes`,
/// for every process, what `ProcessExt::name`, `ProcessExt::exe` and
/// `ProcessExt::cmd` return. A path that is not valid UTF-8 is copied with
/// the replacement character in place of the invalid bytes. The contract
/// claims that the processes handed out are those of the table as it is
/// after the refresh, each once and in no particular order; nothing is
/// claimed about which processes the refresh finds.
#[verifier::external_body]
fn read_snapshot(system: &mut System) -> (snapshot: Vec<ProcessInfo>)
    ensures
        snapshot_view(snapshot@).to_multiset() == process_table(*final(system)),
{
    system.refresh_processes();
    system.processes().values().map(|p| ProcessInfo {
        name: p.name().to_string(),
        exe: p.exe().to_string_lossy().into_owned(),
        cmd: p.cmd().to_vec(),
    }).collect()
}

/// The reported name of each tag, in order.
pub fn app_names(tags: &[AppTag]) -> (names: Vec<&'static str>)
    ensures
        names_view(names@) == names_of(tags@),
{
    let mut names: Vec<&'static str> = Vec::new();
    let mut i: usize = 0;
    while i < tags.len()
        invariant
            i <= tags.len(),
            names@.len() == i,
            forall|j: int| 0 <= j < i ==> (#[trigger] names@[j])@ == tags@[j].spec_name(),
        decreases tags.len() - i,
    {
        names.push(tags[i].name());
        i += 1;
    }
    assert(names_view(names@) =~= names_of(tags@));
    names
}

/// Classifies a snapshot and gives the reported names.
pub fn report_apps(snapshot: &[ProcessInfo]) -> (apps: Vec<&'static str>)
    ensures
        reports_snapshot(apps@, snapshot_view(snapshot@)),
{
    let tags = classify(snapshot);
    app_names(tags.as_slice())
}

/// Refreshes the process table and reports the tracked applications that
/// are running, one name per recognised process. Which processes the
/// refresh finds is up to the operating system; the result is the
/// classification of the table as it then is, in the order in which the
/// table was walked.
pub fn collect_processes(system: &mut System) -> (apps: Vec<&'static str>)
    ensures
        reports_table(apps@, process_table(*final(system))),
{
    let snapshot = read_snapshot(system);
    let apps = report_apps(snapshot.as_slice());
    assert(snapshot_view(snapshot@).to_multiset() == process_table(*system));
    assert(reports_snapshot(apps@, snapshot_view(snapshot@)));
    apps
}

/// Lists of the same tags, in whatever order, have the same names.
pub proof fn lemma_names_ignore_order(first: Seq<AppTag>, second: Seq<AppTag>)
    requires
        first.to_multiset() == second.to_multiset(),
    ensures
        names_of(first).to_multiset() == names_of(second).to_multiset(),
    decreases first.len(),
{
    vstd::seq_lib::to_multiset_len(first);
    vstd::seq_lib::to_multiset_len(second);
    if first.len() == 0 {
        assert(names_of(first) =~= names_of(second));
    } else {
        let at = first.len() - 1;
        let tag = first[at];
        vstd::seq_lib::to_multiset_contains(first, tag);
        vstd::seq_lib::to_multiset_contains(second, tag);
        assert(first.contains(tag));
        let j = choose|j: int| 0 <= j < second.len() && second[j] == tag;
        vstd::seq_lib::to_multiset_remove(first, at);
        vstd::seq_lib::to_multiset_remove(second, j);
        lemma_names_ignore_order(first.remove(at), second.remove(j));
        assert(names_of(first).remove(at) =~= names_of(first.remove(at)));
        assert(names_of(second).remove(j) =~= names_of(second.remove(j)));
        vstd::seq_lib::to_multiset_remove(names_of(first), at);
        vstd::seq_lib::to_multiset_remove(names_of(second), j);
        let name = tag.spec_name();
        let left = names_of(first).to_multiset();
        let right = names_of(second).to_multiset();
        vstd::seq_lib::to_multiset_contains(names_of(first), name);
        vstd::seq_lib::to_multiset_contains(names_of(second), name);
        assert(names_of(first)[at] == name);
        assert(names_of(second)[j] == name);
        assert(names_of(first).contains(name));
        assert(names_of(second).contains(name));
        assert(left.remove(name) == right.remove(name));
        assert(left =~= right) by {
            assert forall|other: Seq<char>| left.count(other) == right.count(other) by {
                assert(left.remove(name).count(other) == right.remove(name).count(other));
            }
        }
    }
}

/// The process table decides the report up to order: two reports of the
/// same table hold the same names, each as often in one as in the other.
pub proof fn law_reports_of_one_table_agree(
    first: Seq<&'static str>,
    second: Seq<&'static str>,
    table: Multiset<ProcessView>,
)
    requires
        reports_table(first, table),
        reports_table(second, table),
    ensures
        names_view(first).to_multiset() == names_view(second).to_multiset(),
{
    let one = choose|snapshot: Seq<ProcessView>|
        #[trigger] snapshot.to_multiset() == table && reports_snapshot(first, snapshot);
    let other = choose|snapshot: Seq<ProcessView>|
        #[trigger] snapshot.to_multiset() == table && reports_snapshot(second, snapshot);
    law_classification_ignores_order(one, other);
    lemma_names_ignore_order(classify_spec(one), classify_spec(other));
}

} // verus!
