//! What a reconciliation takes out of the index and what it leaves, and what the handoff file
//! holds.

use vstd::prelude::*;

use crate::clock::{older_than, Instant, NANOS_PER_HOUR};
use crate::index::IndexView;
use crate::laws::tracking::{active_breadcrumb, sound};
use crate::layout::LayoutView;
use crate::reconcile::{
    entries_text, entry_age, entry_text, handed_over, handing_over_reconciles, handoff_opening,
    handoff_text, held_at, reconcile_outcome, reconciled, reported_ids, reports_name_stale_keys,
    scan_report, stale_report, stale_reports, HandoffsView, StaleView,
};
use crate::table::walks;
use crate::tracker::{entry_of, TrackerView};

verus! {

/// Whether the reports name the identifier `id`.
pub open spec fn reported(reports: Seq<StaleView>, id: Seq<char>) -> bool {
    exists|j: int| 0 <= j < reports.len() && (#[trigger] reports[j]).id == id
}

proof fn count_stale(keys: Seq<Seq<char>>, index: IndexView, hours: u64, now: Instant)
    requires
        keys.no_duplicates(),
    ensures
        ({
            let stale = keys.to_set().filter(
                |id: Seq<char>| stale_report(id, index[id], hours, now) is Some,
            );
            stale.finite() && stale.len() == stale_reports(keys, index, hours, now).len()
        }),
    decreases keys.len(),
{
    let p = |id: Seq<char>| stale_report(id, index[id], hours, now) is Some;
    let stale = keys.to_set().filter(p);
    if keys.len() == 0 {
        assert(stale =~= Set::<Seq<char>>::empty());
    } else {
        let rest = keys.drop_last();
        let last = keys.last();
        count_stale(rest, index, hours, now);
        let before = rest.to_set().filter(p);
        assert forall|x: Seq<char>| keys.contains(x) <==> rest.contains(x) || x == last by {
            if rest.contains(x) {
                assert(keys[rest.index_of(x)] == x);
            }
            if x == last {
                assert(keys[keys.len() - 1] == x);
            }
            if keys.contains(x) && x != last {
                assert(rest[keys.index_of(x)] == x);
            }
        }
        assert(!rest.contains(last)) by {
            if rest.contains(last) {
                assert(keys[rest.index_of(last)] == keys[keys.len() - 1]);
            }
        }
        if p(last) {
            assert(stale =~= before.insert(last));
        } else {
            assert(stale =~= before);
        }
    }
}

/// A reconciliation splits the index: each entry is either reported or kept as it is, never both,
/// and none is lost.
pub proof fn reconcile_splits_index(
    keys: Seq<Seq<char>>,
    index: IndexView,
    hours: u64,
    now: Instant,
)
    requires
        walks(keys, index),
    ensures
        ({
            let reports = stale_reports(keys, index, hours, now);
            let kept = reconciled(index, hours, now);
            &&& forall|id: Seq<char>| #[trigger]
                index.contains_key(id) ==> kept.contains_key(id) != reported(reports, id)
            &&& forall|id: Seq<char>| #[trigger]
                kept.contains_key(id) ==> index.contains_key(id) && kept[id] == index[id]
            &&& forall|id: Seq<char>| #[trigger] reported(reports, id) ==> index.contains_key(id)
            &&& reports.len() + kept.len() == index.len()
        }),
{
    let reports = stale_reports(keys, index, hours, now);
    let kept = reconciled(index, hours, now);
    assert forall|id: Seq<char>| #[trigger] index.contains_key(id) implies kept.contains_key(id)
        != reported(reports, id) by {
        reports_name_stale_keys(keys, index, hours, now, id);
        assert(keys.contains(id));
    }
    assert forall|id: Seq<char>| #[trigger] reported(reports, id) implies index.contains_key(id) by {
        reports_name_stale_keys(keys, index, hours, now, id);
        assert(keys.contains(id));
    }
    let p = |id: Seq<char>| stale_report(id, index[id], hours, now) is Some;
    count_stale(keys, index, hours, now);
    let stale = keys.to_set().filter(p);
    assert(index.dom() =~= keys.to_set()) by {
        assert forall|id: Seq<char>| index.dom().contains(id) <==> keys.to_set().contains(id) by {
            assert(keys.contains(id) <==> index.contains_key(id));
        }
    }
    assert(kept.dom() =~= index.dom().difference(stale));
    assert(kept.dom() + stale =~= index.dom());
    assert(kept.dom().disjoint(stale));
    vstd::set_lib::lemma_set_disjoint_lens(kept.dom(), stale);
}

/// An entry stays if it was active within the last thirty minutes, if it is not older than the
/// threshold, or if neither of its time stamps can be read.
pub proof fn recent_entries_stay(index: IndexView, hours: u64, now: Instant, id: Seq<char>)
    requires
        index.contains_key(id),
        entry_age(index[id], now) matches Some(n) ==> n <= NANOS_PER_HOUR / 2 || !older_than(
            n,
            hours,
        ),
    ensures
        reconciled(index, hours, now).contains_key(id),
        reconciled(index, hours, now)[id] == index[id],
{
}

/// A reconciliation that is run again at the same time finds nothing and changes nothing.
pub proof fn reconcile_is_idempotent(
    index: IndexView,
    hours: u64,
    now: Instant,
    keys: Seq<Seq<char>>,
)
    requires
        walks(keys, reconciled(index, hours, now)),
    ensures
        reconciled(reconciled(index, hours, now), hours, now) == reconciled(index, hours, now),
        stale_reports(keys, reconciled(index, hours, now), hours, now) == Seq::<StaleView>::empty(),
{
    let kept = reconciled(index, hours, now);
    assert(reconciled(kept, hours, now) =~= kept);
    let again = stale_reports(keys, kept, hours, now);
    if again.len() > 0 {
        let id = again[0].id;
        reports_name_stale_keys(keys, kept, hours, now, id);
        assert(keys.contains(id));
        assert(kept.contains_key(id));
    }
    assert(again =~= Seq::<StaleView>::empty());
}

/// A reconciliation leaves the tracker sound, and the breadcrumbs that stay active as they are.
pub proof fn reconcile_keeps_sound(t: TrackerView, hours: u64, now: Instant)
    requires
        sound(t),
    ensures
        ({
            let t2 = TrackerView { index: reconciled(t.index, hours, now), ..t };
            &&& sound(t2)
            &&& forall|id: Seq<char>| #[trigger]
                t2.index.contains_key(id) ==> active_breadcrumb(t2, id) == active_breadcrumb(t, id)
        }),
{
    let t2 = TrackerView { index: reconciled(t.index, hours, now), ..t };
    assert(t2.index.dom().subset_of(t.index.dom()));
    vstd::set_lib::lemma_len_subset(t2.index.dom(), t.index.dom());
    assert forall|id: Seq<char>| #[trigger] t2.index.contains_key(id) implies (active_breadcrumb(
        t2,
        id,
    ) matches Some(bc) && entry_of(bc) == t2.index[id]) by {
        assert(t.index.contains_key(id));
    }
}

// ---- The handoff file ---------------------------------------------------------------------

proof fn entries_end_a_line(entries: Seq<StaleView>)
    requires
        entries.len() > 0,
    ensures
        entries_text(entries).len() > 0,
        entries_text(entries).last() == '\n',
{
    reveal_strlit("\n\n---\n\n");
    let e = entries.last();
    assert(entry_text(e).last() == "\n\n---\n\n"@.last());
}

proof fn handoff_ends_a_line(existing: Seq<char>, date: Seq<char>, entries: Seq<StaleView>)
    ensures
        handoff_text(existing, date, entries).len() > 0,
        handoff_text(existing, date, entries).last() == '\n',
{
    reveal_strlit("\n\n");
    let opening = handoff_opening(existing, date);
    assert(opening.len() > 0 && opening.last() == '\n');
    if entries.len() == 0 {
        assert(handoff_text(existing, date, entries) =~= opening);
    } else {
        entries_end_a_line(entries);
    }
}

/// What is said of two rows of entries is what is said of the first, then of the second.
pub proof fn entries_text_adds(a: Seq<StaleView>, b: Seq<StaleView>)
    ensures
        entries_text(a + b) == entries_text(a) + entries_text(b),
    decreases b.len(),
{
    if b.len() == 0 {
        assert(a + b =~= a);
        assert(entries_text(a) + entries_text(b) =~= entries_text(a));
    } else {
        entries_text_adds(a, b.drop_last());
        assert((a + b).drop_last() =~= a + b.drop_last());
        assert((a + b).last() == b.last());
        assert(entries_text(a + b) =~= entries_text(a) + entries_text(b));
    }
}

/// What the handoff file holds already is kept at its start.
pub proof fn handoff_keeps_existing(
    existing: Seq<char>,
    date: Seq<char>,
    entries: Seq<StaleView>,
)
    ensures
        handoff_text(existing, date, entries).len() >= existing.len(),
        handoff_text(existing, date, entries).take(existing.len() as int) == existing,
{
    assert(handoff_text(existing, date, entries).take(existing.len() as int) =~= existing);
}

/// Handing over entries in two rounds gives the same file as handing them over in one.
pub proof fn handoffs_add_up(
    existing: Seq<char>,
    date: Seq<char>,
    first: Seq<StaleView>,
    second: Seq<StaleView>,
)
    ensures
        handoff_text(handoff_text(existing, date, first), date, second) == handoff_text(
            existing,
            date,
            first + second,
        ),
{
    handoff_ends_a_line(existing, date, first);
    entries_text_adds(first, second);
    assert(handoff_text(handoff_text(existing, date, first), date, second) =~= handoff_text(
        existing,
        date,
        first + second,
    ));
}

/// Whether `part` stands somewhere in `text`.
pub open spec fn stands_in(part: Seq<char>, text: Seq<char>) -> bool {
    exists|i: int|
        0 <= i && i + part.len() <= text.len() && #[trigger] text.subrange(i, i + part.len())
            == part
}

proof fn entry_stands_in_entries(entries: Seq<StaleView>, j: int)
    requires
        0 <= j < entries.len(),
    ensures
        stands_in(entry_text(entries[j]), entries_text(entries)),
    decreases entries.len(),
{
    let rest = entries.drop_last();
    let before = entries_text(rest);
    let all = entries_text(entries);
    let part = entry_text(entries[j]);
    if j == entries.len() - 1 {
        assert(all.subrange(before.len() as int, (before.len() + part.len()) as int) =~= part);
    } else {
        entry_stands_in_entries(rest, j);
        assert(rest[j] == entries[j]);
        let i = choose|i: int|
            0 <= i && i + part.len() <= before.len() && #[trigger] before.subrange(
                i,
                i + part.len(),
            ) == part;
        assert(all.subrange(i, i + part.len()) =~= before.subrange(i, i + part.len()));
    }
}

/// An entry leaves the index only if the handoff file has its section: after a reconciliation, each
/// entry of the index is still there as it was, or what is reported of it stands in the file that the
/// report names.
pub proof fn entries_are_kept_or_handed_over(
    t: TrackerView,
    keys: Seq<Seq<char>>,
    handoffs: HandoffsView,
    l: LayoutView,
    hours: u64,
    now: Instant,
    date: Seq<char>,
    id: Seq<char>,
)
    requires
        walks(keys, t.index),
        t.index.contains_key(id),
    ensures
        ({
            let (t2, files, r) = reconcile_outcome(
                t,
                handoffs,
                l,
                scan_report(keys, t.index, hours, now),
                date,
            );
            if t2.index.contains_key(id) {
                t2.index[id] == t.index[id]
            } else {
                &&& stale_report(id, t.index[id], hours, now) is Some
                &&& r.handoff_path matches Some(path) && files.contains_key(path) && stands_in(
                    entry_text(stale_report(id, t.index[id], hours, now)->0),
                    files[path],
                )
            }
        }),
{
    let report = scan_report(keys, t.index, hours, now);
    let stale = report.stale_found;
    let (t2, files, r) = reconcile_outcome(t, handoffs, l, report, date);
    if !t2.index.contains_key(id) {
        reports_name_stale_keys(keys, t.index, hours, now, id);
        assert(reported_ids(stale).contains(id));
        let j = choose|j: int| 0 <= j < stale.len() && (#[trigger] stale[j]).id == id;
        report_is_of_its_key(keys, t.index, hours, now, j);
        let path = r.handoff_path->0;
        let opening = handoff_opening(held_at(handoffs, path), date);
        let part = entry_text(stale[j]);
        entry_stands_in_entries(stale, j);
        let i = choose|i: int|
            0 <= i && i + part.len() <= entries_text(stale).len() && #[trigger] entries_text(
                stale,
            ).subrange(i, i + part.len()) == part;
        let at = opening.len() + i;
        assert(files[path].subrange(at, at + part.len()) =~= entries_text(stale).subrange(
            i,
            i + part.len(),
        ));
    }
}

proof fn report_is_of_its_key(
    keys: Seq<Seq<char>>,
    index: IndexView,
    hours: u64,
    now: Instant,
    j: int,
)
    requires
        0 <= j < stale_reports(keys, index, hours, now).len(),
    ensures
        ({
            let r = stale_reports(keys, index, hours, now)[j];
            stale_report(r.id, index[r.id], hours, now) == Some(r)
        }),
    decreases keys.len(),
{
    let before = stale_reports(keys.drop_last(), index, hours, now);
    if j < before.len() {
        report_is_of_its_key(keys.drop_last(), index, hours, now, j);
    }
}

/// Where the handoff file could not be written, handing over changes nothing and counts nothing as
/// written; where it could, a second scan at the same time finds nothing.
pub proof fn handing_over_follows_the_file(
    keys: Seq<Seq<char>>,
    index: IndexView,
    hours: u64,
    now: Instant,
    path: Option<Seq<char>>,
)
    requires
        walks(keys, index),
    ensures
        ({
            let report = scan_report(keys, index, hours, now);
            let r = handed_over(report, path);
            &&& path is None ==> r.handoff_path is None && r.handoff_entries_written == 0
            &&& path is Some ==> reconciled(
                index.remove_keys(reported_ids(report.stale_found)),
                hours,
                now,
            ) == index.remove_keys(reported_ids(report.stale_found))
        }),
{
    handing_over_reconciles(keys, index, hours, now);
    let kept = reconciled(index, hours, now);
    assert(reconciled(kept, hours, now) =~= kept);
}

}
