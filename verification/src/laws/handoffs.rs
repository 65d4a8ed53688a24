//! What a reconciliation finds, what it hands over, and what the handoff file says.

use vstd::prelude::*;

use crate::clock::{elapsed, instant_of, Instant};
use crate::index::IndexView;
use crate::laws::reconciling::entries_text_adds;
use crate::layout::{handoff_path, LayoutView};
use crate::reconcile::{
    entries_text, entry_text, handed_over, handing_over_reconciles, handoff_text, reconcile_outcome,
    scan_report, stale_reports, HandoffsView, ReportView, StaleView,
};
use crate::schema::EntryView;
use crate::table::walks;
use crate::text::decimal;
use crate::tracker::TrackerView;

verus! {

// ---- What is found ------------------------------------------------------------------------

/// For how many nanoseconds nothing was done on an entry: since its last activity, or since its start
/// where the time of the activity cannot be read.
pub open spec fn unattended(e: EntryView, now: Instant) -> Option<int> {
    if instant_of(e.last_activity_at) is Some {
        Some(elapsed(now, instant_of(e.last_activity_at)->0))
    } else if instant_of(e.started_at) is Some {
        Some(elapsed(now, instant_of(e.started_at)->0))
    } else {
        None
    }
}

/// Whether nothing was done on an entry for more than the given hours, and for more than half an
/// hour.
pub open spec fn ripe(e: EntryView, hours: u64, now: Instant) -> bool {
    unattended(e, now) matches Some(n) && n > hours as int * 3_600_000_000_000 && n
        > 1_800_000_000_000
}

/// Whether `x` tells of the entry `e` under `id`: its name and last activity, its project or that it
/// has none, and the whole hours for which nothing was done on it.
pub open spec fn tells(x: StaleView, id: Seq<char>, e: EntryView, now: Instant) -> bool {
    &&& x.id == id && x.name == e.name && x.last_activity_at == e.last_activity_at
    &&& e.project_id matches Some(p) ==> x.project_id == p
    &&& e.project_id is None ==> x.project_id == "ungrouped"@
    &&& unattended(e, now) matches Some(n) && x.hours_stale * 3_600_000_000_000 <= n < (x.hours_stale
        + 1) * 3_600_000_000_000
}

proof fn reports_tell_ripe_entries(
    keys: Seq<Seq<char>>,
    index: IndexView,
    hours: u64,
    now: Instant,
)
    ensures
        ({
            let found = stale_reports(keys, index, hours, now);
            let ids = keys.filter(|id: Seq<char>| ripe(index[id], hours, now));
            &&& found.len() == ids.len()
            &&& forall|j: int|
                0 <= j < found.len() ==> tells(#[trigger] found[j], ids[j], index[ids[j]], now)
        }),
    decreases keys.len(),
{
    reveal(Seq::filter);
    let f = |id: Seq<char>| ripe(index[id], hours, now);
    if keys.len() > 0 {
        let rest = keys.drop_last();
        reports_tell_ripe_entries(rest, index, hours, now);
        let before = stale_reports(rest, index, hours, now);
        let found = stale_reports(keys, index, hours, now);
        let ids = keys.filter(f);
        assert forall|j: int| 0 <= j < found.len() implies tells(
            #[trigger] found[j],
            ids[j],
            index[ids[j]],
            now,
        ) by {
            if j < before.len() {
                assert(found[j] == before[j]);
                assert(ids[j] == rest.filter(f)[j]);
            }
        }
    }
}

/// A scan counts all entries of the index, and tells of those on which nothing was done for longer
/// than the threshold and half an hour, each once, in the order in which it met them. It hands
/// nothing over yet.
pub proof fn scan_tells_ripe_entries(
    keys: Seq<Seq<char>>,
    index: IndexView,
    hours: u64,
    now: Instant,
)
    ensures
        ({
            let r = scan_report(keys, index, hours, now);
            let ids = keys.filter(|id: Seq<char>| ripe(index[id], hours, now));
            &&& r.scanned == index.len()
            &&& r.handoff_path is None && r.handoff_entries_written == 0
            &&& r.stale_found.len() == ids.len()
            &&& forall|j: int|
                0 <= j < ids.len() ==> tells(
                    #[trigger] r.stale_found[j],
                    ids[j],
                    index[ids[j]],
                    now,
                )
        }),
{
    reports_tell_ripe_entries(keys, index, hours, now);
}

// ---- What the handoff file says -----------------------------------------------------------

/// The section of the handoff file on one entry.
pub open spec fn section(x: StaleView) -> Seq<char> {
    "## "@ + x.name + "\n- ID: "@ + x.id + "\n- Last activity: "@ + x.last_activity_at
        + "\n- Hours stale: "@ + decimal(x.hours_stale) + "\n- Project: "@ + x.project_id
        + "\n\n---\n\n"@
}

/// The sections on entries, the first one first.
pub open spec fn sections(found: Seq<StaleView>) -> Seq<char>
    decreases found.len(),
{
    if found.len() == 0 {
        Seq::empty()
    } else {
        section(found[0]) + sections(found.skip(1))
    }
}

proof fn sections_are_said(found: Seq<StaleView>)
    ensures
        entries_text(found) == sections(found),
    decreases found.len(),
{
    if found.len() > 0 {
        let first = seq![found[0]];
        let rest = found.skip(1);
        assert(found =~= first + rest);
        entries_text_adds(first, rest);
        sections_are_said(rest);
        reveal_with_fuel(entries_text, 2);
        assert(first.drop_last() =~= Seq::<StaleView>::empty());
        assert(entries_text(first) =~= entry_text(found[0]));
    }
}

/// A handoff file has one section for each entry, in order, after what it held before, which ends
/// with a line end. A new file starts with the date.
pub proof fn handoff_has_a_section_for_each(
    existing: Seq<char>,
    date: Seq<char>,
    found: Seq<StaleView>,
)
    ensures
        ({
            let text = handoff_text(existing, date, found);
            &&& existing.len() == 0 ==> text == "# Pending Breadcrumbs - "@ + date + "\n\n"@
                + sections(found)
            &&& existing.len() > 0 && existing.last() == '\n' ==> text == existing + sections(found)
            &&& existing.len() > 0 && existing.last() != '\n' ==> text == existing + seq!['\n']
                + sections(found)
        }),
{
    sections_are_said(found);
    assert(existing.push('\n') =~= existing + seq!['\n']);
}

// ---- What is handed over ------------------------------------------------------------------

/// A report says where its entries stand, and how many of them, exactly if there are any and the
/// file that is to hold them does; the entries themselves stay in it.
pub proof fn reports_name_the_file(report: ReportView, path: Seq<char>)
    ensures
        ({
            let r = handed_over(report, Some(path));
            &&& r.scanned == report.scanned && r.stale_found == report.stale_found
            &&& report.stale_found.len() > 0 ==> r.handoff_path == Some(path)
                && r.handoff_entries_written == report.stale_found.len()
            &&& report.stale_found.len() == 0 ==> r.handoff_path is None
                && r.handoff_entries_written == 0
        }),
        ({
            let r = handed_over(report, None);
            &&& r.scanned == report.scanned && r.stale_found == report.stale_found
            &&& r.handoff_path is None && r.handoff_entries_written == 0
        }),
{
}

/// A reconciliation takes exactly those entries out of the index on which nothing was done for longer
/// than the threshold and half an hour. Projects, files and other handoffs stay as they are.
pub proof fn reconcile_takes_ripe_entries(
    t: TrackerView,
    keys: Seq<Seq<char>>,
    handoffs: HandoffsView,
    l: LayoutView,
    hours: u64,
    now: Instant,
    date: Seq<char>,
)
    requires
        walks(keys, t.index),
    ensures
        ({
            let scan = scan_report(keys, t.index, hours, now);
            let (t2, files, r) = reconcile_outcome(t, handoffs, l, scan, date);
            let path = handoff_path(l, date);
            &&& t2.projects == t.projects && t2.storage == t.storage
            &&& forall|id: Seq<char>| #[trigger]
                t2.index.contains_key(id) <==> t.index.contains_key(id) && !ripe(
                    t.index[id],
                    hours,
                    now,
                )
            &&& forall|id: Seq<char>| #[trigger]
                t2.index.contains_key(id) ==> t2.index[id] == t.index[id]
            &&& r.scanned == t.index.len() && r.stale_found == scan.stale_found
            &&& files.remove(path) == handoffs.remove(path)
            &&& r.stale_found.len() > 0 ==> {
                &&& r.handoff_path == Some(path)
                &&& r.handoff_entries_written == r.stale_found.len()
                &&& files.contains_key(path)
                &&& handoffs.contains_key(path) ==> files[path] == handoff_text(
                    handoffs[path],
                    date,
                    r.stale_found,
                )
                &&& !handoffs.contains_key(path) ==> files[path] == handoff_text(
                    Seq::empty(),
                    date,
                    r.stale_found,
                )
            }
            &&& r.stale_found.len() == 0 ==> t2 == t && files == handoffs && r.handoff_path is None
                && r.handoff_entries_written == 0
        }),
{
    handing_over_reconciles(keys, t.index, hours, now);
    let scan = scan_report(keys, t.index, hours, now);
    let (t2, files, r) = reconcile_outcome(t, handoffs, l, scan, date);
    let path = handoff_path(l, date);
    assert(files.remove(path) =~= handoffs.remove(path));
    if scan.stale_found.len() == 0 {
        reports_tell_ripe_entries(keys, t.index, hours, now);
        let f = |id: Seq<char>| ripe(t.index[id], hours, now);
        assert forall|id: Seq<char>| #[trigger] t.index.contains_key(id) implies !ripe(
            t.index[id],
            hours,
            now,
        ) by {
            assert(keys.contains(id));
            if f(id) {
                keys.lemma_filter_contains(f, keys.index_of(id));
                assert(keys.filter(f).contains(id));
            }
        }
    }
}

}
