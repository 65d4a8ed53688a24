//! What the rows of a list and of the status say of the breadcrumbs they stand for.

use vstd::prelude::*;

use crate::clock::{date_reading, date_writing, elapsed, instant_of, stamp, Instant};
use crate::error::ErrorView;
use crate::index::IndexView;
use crate::laws::lists::{
    archived_among, archived_in_scope, archived_is_listed, ordering_keeps_rows, row_after_days,
    row_after_files,
};
use crate::laws::requests::{means, stands_at};
use crate::laws::work::{abort_archives_work, complete_archives_work};
use crate::layout::LayoutView;
use crate::listing::{
    active_rows, has_row, lists, reaches, rows_of_scope, scope_or_active, status_answer, status_entries,
    walks_archive, walks_files, with_days, with_files, ArchiveWalk, FileWalk, ListView, RowView,
    StatusEntryView,
};
use crate::schema::{BreadcrumbView, EntryView, WriterView};
use crate::storage::{day_files, is_json, reading, DirView, FileView};
use crate::table::walks;
use crate::text::{less_at, text_less};
use crate::tracker::{
    abort_outcome, complete_outcome, planned_abort, planned_completion, TrackerView,
};

verus! {

// ---- Rows ---------------------------------------------------------------------------------

/// Whether a row says of an active breadcrumb what its entry says, and nothing of its progress.
pub open spec fn shows_entry(row: RowView, e: EntryView) -> bool {
    &&& row.id == e.id && row.name == e.name && row.project_id == e.project_id
    &&& row.owner == e.owner && row.started_at == e.started_at
    &&& row.last_activity_at == e.last_activity_at
    &&& row.steps_completed is None && row.total_steps is None
    &&& row.active && !row.aborted
}

/// Whether a row says of an archived breadcrumb what its record says: whose it is and of when, how
/// many steps it recorded out of how many, and whether it was aborted.
pub open spec fn shows_archived(row: RowView, bc: BreadcrumbView) -> bool {
    &&& row.id == bc.id && row.name == bc.name && row.project_id == bc.project_id
    &&& row.owner == bc.owner && row.started_at == bc.started_at
    &&& row.last_activity_at == bc.last_activity_at
    &&& row.steps_completed matches Some(n) && (bc.step_results.len() <= usize::MAX ==> n
        == bc.step_results.len())
    &&& row.total_steps == Some(bc.total_steps)
    &&& !row.active && row.aborted == bc.aborted
}

/// Whether a row stands for a breadcrumb in one of the files.
pub open spec fn shown_in_files(row: RowView, files: FileWalk) -> bool {
    exists|k: int|
        0 <= k < files.len() && is_json((#[trigger] files[k]).0) && (
        files[k].1 matches FileView::Parsed(bc) && shows_archived(row, bc))
}

/// Whether a row stands for a breadcrumb in one of the days that the scope reaches.
pub open spec fn shown_in_days(
    row: RowView,
    days: ArchiveWalk,
    scope: Seq<char>,
    today: int,
) -> bool {
    exists|i: int|
        0 <= i < days.len() && reaches(scope, (#[trigger] days[i]).0, today) && shown_in_files(
            row,
            days[i].1,
        )
}

/// Whether a row stands for one of the active breadcrumbs that a walk over the index meets.
pub open spec fn shown_in_index(row: RowView, keys: Seq<Seq<char>>, index: IndexView) -> bool {
    exists|k: int| 0 <= k < keys.len() && shows_entry(row, index[#[trigger] keys[k]])
}

/// Whether some row says what the entry says.
pub open spec fn has_row_of(rows: Seq<RowView>, e: EntryView) -> bool {
    exists|j: int| 0 <= j < rows.len() && shows_entry(#[trigger] rows[j], e)
}

proof fn file_rows_are_true(rows: Seq<RowView>, files: FileWalk)
    ensures
        forall|j: int|
            0 <= j < with_files(rows, files).len() ==> j < rows.len() && (
            #[trigger] with_files(rows, files)[j]) == rows[j] || shown_in_files(
                with_files(rows, files)[j],
                files,
            ),
        with_files(rows, files).len() >= rows.len(),
    decreases files.len(),
{
    if files.len() > 0 {
        let rest = files.drop_last();
        file_rows_are_true(rows, rest);
        let before = with_files(rows, rest);
        let after = with_files(rows, files);
        assert forall|j: int| 0 <= j < after.len() implies j < rows.len() && (#[trigger] after[j])
            == rows[j] || shown_in_files(after[j], files) by {
            if j < before.len() {
                assert(after[j] == before[j]);
                if !(j < rows.len() && before[j] == rows[j]) {
                    let k = choose|k: int|
                        0 <= k < rest.len() && is_json((#[trigger] rest[k]).0) && (
                        rest[k].1 matches FileView::Parsed(bc) && shows_archived(before[j], bc));
                    assert(files[k] == rest[k]);
                }
            } else {
                let last = files[files.len() - 1];
                assert(last == files.last());
                assert(is_json(last.0));
            }
        }
    }
}

proof fn day_rows_are_true(rows: Seq<RowView>, days: ArchiveWalk, scope: Seq<char>, today: int)
    ensures
        forall|j: int|
            0 <= j < with_days(rows, days, scope, today).len() ==> j < rows.len() && (
            #[trigger] with_days(rows, days, scope, today)[j]) == rows[j] || shown_in_days(
                with_days(rows, days, scope, today)[j],
                days,
                scope,
                today,
            ),
        with_days(rows, days, scope, today).len() >= rows.len(),
        forall|j: int|
            0 <= j < rows.len() ==> #[trigger] with_days(rows, days, scope, today)[j] == rows[j],
    decreases days.len(),
{
    if days.len() > 0 {
        let rest = days.drop_last();
        day_rows_are_true(rows, rest, scope, today);
        let before = with_days(rows, rest, scope, today);
        let after = with_days(rows, days, scope, today);
        let last = days[days.len() - 1];
        assert(last == days.last());
        if reaches(scope, last.0, today) {
            file_rows_are_true(before, last.1);
            files_keep_rows(before, last.1);
        }
        assert forall|j: int| 0 <= j < after.len() implies j < rows.len() && (#[trigger] after[j])
            == rows[j] || shown_in_days(after[j], days, scope, today) by {
            if j < before.len() && after[j] == before[j] {
                if !(j < rows.len() && before[j] == rows[j]) {
                    let k = choose|k: int|
                        0 <= k < rest.len() && reaches(scope, (#[trigger] rest[k]).0, today)
                            && shown_in_files(before[j], rest[k].1);
                    assert(days[k] == rest[k]);
                }
            } else {
                assert(shown_in_files(after[j], last.1));
            }
        }
    }
}

proof fn files_keep_rows(rows: Seq<RowView>, files: FileWalk)
    ensures
        with_files(rows, files).len() >= rows.len(),
        forall|j: int| 0 <= j < rows.len() ==> #[trigger] with_files(rows, files)[j] == rows[j],
    decreases files.len(),
{
    if files.len() > 0 {
        files_keep_rows(rows, files.drop_last());
    }
}

/// Every row of a list is true: it says what the entry of an active breadcrumb says, or what the
/// record of an archived one says, on a day that the scope reaches. Every entry of the index has its
/// row. The list names its scope, that of the active ones where none is given, and counts its rows.
pub proof fn rows_are_true(
    r: ListView,
    keys: Seq<Seq<char>>,
    index: IndexView,
    days: ArchiveWalk,
    scope: Option<Seq<char>>,
    today: int,
)
    requires
        lists(r, keys, index, days, scope, today),
    ensures
        scope matches Some(s) ==> r.scope == s,
        scope is None ==> r.scope == "active"@,
        r.count == r.breadcrumbs.len(),
        forall|j: int|
            0 <= j < r.breadcrumbs.len() ==> shown_in_index(
                #[trigger] r.breadcrumbs[j],
                keys,
                index,
            ) || (r.scope != "active"@ && shown_in_days(
                r.breadcrumbs[j],
                days,
                r.scope,
                today,
            )),
        forall|k: int|
            0 <= k < keys.len() ==> has_row_of(r.breadcrumbs, index[#[trigger] keys[k]]),
{
    let s = scope_or_active(scope);
    let first = active_rows(keys, index);
    let rows = rows_of_scope(keys, index, days, s, today);
    ordering_keeps_rows(rows, r.breadcrumbs);
    if s != "active"@ {
        day_rows_are_true(first, days, s, today);
    }
    assert forall|j: int| 0 <= j < r.breadcrumbs.len() implies shown_in_index(
        #[trigger] r.breadcrumbs[j],
        keys,
        index,
    ) || (r.scope != "active"@ && shown_in_days(r.breadcrumbs[j], days, r.scope, today)) by {
        assert(r.breadcrumbs.contains(r.breadcrumbs[j]));
        assert(rows.contains(r.breadcrumbs[j]));
        let m = rows.index_of(r.breadcrumbs[j]);
        assert(rows[m] == r.breadcrumbs[j]);
        if m < first.len() && rows[m] == first[m] {
            assert(shows_entry(r.breadcrumbs[j], index[keys[m]]));
        }
    }
    assert forall|k: int| 0 <= k < keys.len() implies has_row_of(
        r.breadcrumbs,
        index[#[trigger] keys[k]],
    ) by {
        assert(rows[k] == first[k]);
        assert(rows.contains(rows[k]));
        assert(r.breadcrumbs.contains(rows[k]));
        let j = r.breadcrumbs.index_of(rows[k]);
        assert(r.breadcrumbs[j] == first[k]);
        assert(shows_entry(r.breadcrumbs[j], index[keys[k]]));
    }
}

/// The active breadcrumbs have one row each, in the order of the index, which says what the entry
/// says.
pub proof fn active_rows_follow_index(keys: Seq<Seq<char>>, index: IndexView)
    ensures
        active_rows(keys, index).len() == keys.len(),
        forall|i: int|
            0 <= i < keys.len() ==> shows_entry(
                #[trigger] active_rows(keys, index)[i],
                index[keys[i]],
            ),
{
}

/// The breadcrumb that was started later comes first: of two rows whose start times part at some
/// character, the one with the greater character stands before the other.
pub proof fn later_start_comes_first(
    r: ListView,
    keys: Seq<Seq<char>>,
    index: IndexView,
    days: ArchiveWalk,
    scope: Option<Seq<char>>,
    today: int,
    a: int,
    b: int,
    at: int,
)
    requires
        lists(r, keys, index, days, scope, today),
        0 <= a < r.breadcrumbs.len(),
        0 <= b < r.breadcrumbs.len(),
        0 <= at < r.breadcrumbs[a].started_at.len(),
        at < r.breadcrumbs[b].started_at.len(),
        forall|j: int|
            0 <= j < at ==> #[trigger] r.breadcrumbs[a].started_at[j]
                == r.breadcrumbs[b].started_at[j],
        r.breadcrumbs[a].started_at[at] < r.breadcrumbs[b].started_at[at],
    ensures
        b < a,
{
    let x = r.breadcrumbs[a].started_at;
    let y = r.breadcrumbs[b].started_at;
    assert(less_at(x, y, at));
    assert(text_less(x, y));
    if a < b {
        assert(!text_less(r.breadcrumbs[a].started_at, r.breadcrumbs[b].started_at));
    }
}

/// The scope `today` reaches the directories of today and later, `week` also those of the seven days
/// before, every other scope all; a directory that is not named after a day is always reached.
pub proof fn scopes_reach_back(scope: Seq<char>, date: Seq<char>, today: int)
    ensures
        date_reading(date) is None ==> reaches(scope, date, today),
        date_reading(date) matches Some(day) ==> {
            &&& day >= today ==> reaches(scope, date, today)
            &&& day < today && scope == "today"@ ==> !reaches(scope, date, today)
            &&& today - 7 <= day && scope != "today"@ ==> reaches(scope, date, today)
            &&& day < today - 7 && scope == "week"@ ==> !reaches(scope, date, today)
            &&& scope != "today"@ && scope != "week"@ ==> reaches(scope, date, today)
        },
{
    reveal_strlit("today");
    reveal_strlit("week");
    assert("today"@.len() == 5 && "week"@.len() == 4);
}

// ---- What was done is listed --------------------------------------------------------------

/// Whether the archive holds `bc` under its identifier on `date`, and no other record with that
/// identifier on any date.
pub open spec fn only_copy(
    completed: Map<Seq<char>, DirView>,
    date: Seq<char>,
    bc: BreadcrumbView,
) -> bool {
    &&& completed.contains_key(date)
    &&& completed[date].contains_key(bc.id + ".json"@)
    &&& completed[date][bc.id + ".json"@] == FileView::Parsed(bc)
    &&& forall|d: Seq<char>, name: Seq<char>|
        completed.contains_key(d) && #[trigger] completed[d].contains_key(name) ==> (
        completed[d][name] matches FileView::Parsed(b) ==> b.id == bc.id ==> b == bc)
}

/// Whether a list of the scope on the day `today` shows what was archived on `day`.
pub open spec fn in_scope(scope: Seq<char>, day: int, today: int) -> bool {
    &&& scope != "active"@
    &&& scope == "today"@ ==> today <= day
    &&& scope == "week"@ ==> today <= day + 7
}

/// What is archived, and not active, has a row in every list that reaches its day, and the row tells
/// its record.
pub proof fn archived_work_is_listed(
    completed: Map<Seq<char>, DirView>,
    index: IndexView,
    day: i32,
    bc: BreadcrumbView,
    keys: Seq<Seq<char>>,
    days: ArchiveWalk,
    scope: Seq<char>,
    today: int,
    r: ListView,
)
    requires
        only_copy(completed, date_writing(day), bc),
        bc.id.len() > 0,
        forall|k: Seq<char>| #[trigger] index.contains_key(k) ==> index[k].id != bc.id,
        date_reading(date_writing(day)) == Some(day),
        in_scope(scope, day as int, today),
        walks(keys, index),
        walks_archive(days, completed),
        lists(r, keys, index, days, Some(scope), today),
    ensures
        exists|j: int|
            0 <= j < r.breadcrumbs.len() && shows_archived(#[trigger] r.breadcrumbs[j], bc),
{
    let date = date_writing(day);
    scopes_reach_back(scope, date, today);
    assert(reading(day_files(completed, date), bc.id) == Ok::<BreadcrumbView, ErrorView>(bc));
    archived_is_listed(completed, date, bc, keys, index, days, scope, today, r);
    rows_are_true(r, keys, index, days, Some(scope), today);
    let j = choose|j: int| 0 <= j < r.breadcrumbs.len() && (#[trigger] r.breadcrumbs[j]).id == bc.id;
    let row = r.breadcrumbs[j];
    if shown_in_index(row, keys, index) {
        let k = choose|k: int| 0 <= k < keys.len() && shows_entry(row, index[#[trigger] keys[k]]);
        assert(keys.contains(keys[k]));
        assert(index.contains_key(keys[k]));
    } else {
        assert(shown_in_days(row, days, scope, today));
        let i = choose|i: int|
            0 <= i < days.len() && reaches(scope, (#[trigger] days[i]).0, today) && shown_in_files(
                row,
                days[i].1,
            );
        let files = days[i].1;
        let k = choose|k: int|
            0 <= k < files.len() && is_json((#[trigger] files[k]).0) && (
            files[k].1 matches FileView::Parsed(b) && shows_archived(row, b));
        let d = days[i].0;
        let dates = Seq::new(days.len(), |n: int| days[n].0);
        assert(dates[i] == d);
        assert(dates.contains(d));
        assert(completed.contains_key(d));
        assert(walks_files(files, completed[d]));
        let names = Seq::new(files.len(), |n: int| files[n].0);
        assert(names[k] == files[k].0);
        assert(names.contains(files[k].0));
        assert(completed[d].contains_key(files[k].0));
        assert(shows_archived(row, bc));
    }
}

proof fn files_extend_rows(rows: Seq<RowView>, files: FileWalk, k: int)
    requires
        0 <= k <= files.len(),
    ensures
        with_files(rows, files.take(k)).len() <= with_files(rows, files).len(),
        forall|j: int|
            0 <= j < with_files(rows, files.take(k)).len() ==> #[trigger] with_files(rows, files)[j]
                == with_files(rows, files.take(k))[j],
    decreases files.len(),
{
    if k == files.len() {
        assert(files.take(k) =~= files);
    } else {
        let rest = files.drop_last();
        files_extend_rows(rows, rest, k);
        assert(rest.take(k) =~= files.take(k));
    }
}

proof fn days_extend_rows(
    rows: Seq<RowView>,
    days: ArchiveWalk,
    scope: Seq<char>,
    today: int,
    i: int,
)
    requires
        0 <= i <= days.len(),
    ensures
        ({
            let some = with_days(rows, days.take(i), scope, today);
            let all = with_days(rows, days, scope, today);
            &&& some.len() <= all.len()
            &&& forall|j: int| 0 <= j < some.len() ==> #[trigger] all[j] == some[j]
        }),
    decreases days.len(),
{
    if i == days.len() {
        assert(days.take(i) =~= days);
    } else {
        let rest = days.drop_last();
        days_extend_rows(rows, rest, scope, today, i);
        assert(rest.take(i) =~= days.take(i));
        files_keep_rows(with_days(rows, rest, scope, today), days.last().1);
    }
}

/// Whether a walk over the archive meets `bc` first of all with its identifier, in file `k` of day
/// `i`, of the days that the scope reaches.
pub open spec fn met_first(
    days: ArchiveWalk,
    scope: Seq<char>,
    today: int,
    i: int,
    k: int,
    bc: BreadcrumbView,
) -> bool {
    &&& 0 <= i < days.len() && reaches(scope, days[i].0, today)
    &&& 0 <= k < days[i].1.len() && is_json(days[i].1[k].0)
    &&& days[i].1[k].1 == FileView::Parsed(bc)
    &&& !archived_among(days[i].1.take(k), bc.id)
    &&& !archived_in_scope(days.take(i), scope, today, bc.id)
}

/// Of several records with one identifier, the first that the walk over the archive meets is the one
/// that the list tells of, unless a breadcrumb with that identifier is active.
pub proof fn first_record_is_listed(
    r: ListView,
    keys: Seq<Seq<char>>,
    index: IndexView,
    days: ArchiveWalk,
    scope: Seq<char>,
    today: int,
    i: int,
    k: int,
    bc: BreadcrumbView,
)
    requires
        lists(r, keys, index, days, Some(scope), today),
        scope != "active"@,
        met_first(days, scope, today, i, k, bc),
        forall|m: int| 0 <= m < keys.len() ==> index[#[trigger] keys[m]].id != bc.id,
    ensures
        exists|j: int|
            0 <= j < r.breadcrumbs.len() && shows_archived(#[trigger] r.breadcrumbs[j], bc),
{
    let active = active_rows(keys, index);
    let files = days[i].1;
    let before = with_days(active, days.take(i), scope, today);
    let all = with_days(active, days, scope, today);
    assert(!has_row(active, bc.id)) by {
        if has_row(active, bc.id) {
            let m = choose|m: int| 0 <= m < active.len() && (#[trigger] active[m]).id == bc.id;
            assert(index[keys[m]].id == bc.id);
        }
    }
    row_after_days(active, days.take(i), scope, today, bc.id);
    row_after_files(before, files.take(k), bc.id);
    let some = with_files(before, files.take(k));
    let more = with_files(before, files.take(k + 1));
    assert(files.take(k + 1).drop_last() =~= files.take(k));
    assert(files.take(k + 1).last() == files[k]);
    let row = more[some.len() as int];
    assert(more.len() == some.len() + 1);
    assert(shows_archived(row, bc));
    files_extend_rows(before, files, k + 1);
    assert(days.take(i + 1).drop_last() =~= days.take(i));
    assert(days.take(i + 1).last() == days[i]);
    let day = with_days(active, days.take(i + 1), scope, today);
    assert(day == with_files(before, files));
    assert(day[some.len() as int] == row);
    days_extend_rows(active, days, scope, today, i + 1);
    assert(all[some.len() as int] == row);
    assert(all.contains(row));
    ordering_keeps_rows(rows_of_scope(keys, index, days, scope, today), r.breadcrumbs);
    assert(r.breadcrumbs.contains(row));
    let j = r.breadcrumbs.index_of(row);
    assert(shows_archived(r.breadcrumbs[j], bc));
}

/// Whether the identifier `id` is that of no other entry than its own, and of no archived record.
pub open spec fn id_is_new(t: TrackerView, id: Seq<char>) -> bool {
    &&& id.len() > 0
    &&& forall|k: Seq<char>| #[trigger] t.index.contains_key(k) && t.index[k].id == id ==> k == id
    &&& forall|d: Seq<char>, name: Seq<char>|
        t.storage.completed.contains_key(d) && #[trigger] t.storage.completed[d].contains_key(name)
            ==> (t.storage.completed[d][name] matches FileView::Parsed(b) ==> b.id != id)
}

proof fn archived_once(
    before: Map<Seq<char>, DirView>,
    after: Map<Seq<char>, DirView>,
    date: Seq<char>,
    bc: BreadcrumbView,
)
    requires
        forall|d: Seq<char>, name: Seq<char>|
            before.contains_key(d) && #[trigger] before[d].contains_key(name) ==> (
            before[d][name] matches FileView::Parsed(b) ==> b.id != bc.id),
        after.remove(date) == before.remove(date),
        after.contains_key(date),
        after[date].contains_key(bc.id + ".json"@),
        after[date][bc.id + ".json"@] == FileView::Parsed(bc),
        after[date].remove(bc.id + ".json"@) == (if before.contains_key(date) {
            before[date]
        } else {
            Map::<Seq<char>, FileView>::empty()
        }).remove(bc.id + ".json"@),
    ensures
        only_copy(after, date, bc),
{
    let file = bc.id + ".json"@;
    assert forall|d: Seq<char>, name: Seq<char>|
        after.contains_key(d) && #[trigger] after[d].contains_key(name) implies (
    after[d][name] matches FileView::Parsed(b) ==> b.id == bc.id ==> b == bc) by {
        if d != date {
            assert(after.remove(date).contains_key(d));
            assert(before.remove(date).contains_key(d));
            assert(before.contains_key(d));
            assert(after.remove(date)[d] == after[d]);
            assert(before.remove(date)[d] == before[d]);
            assert(before[d].contains_key(name));
        } else if name != file {
            assert(after[date].remove(file).contains_key(name));
            assert(after[date].remove(file)[name] == after[date][name]);
            assert(before.contains_key(date));
            assert(before[date].remove(file).contains_key(name));
            assert(before[date].contains_key(name));
        }
    }
}

/// A breadcrumb that was completed has a row in every list that reaches the day: with its name,
/// project and owner, the number of steps it recorded out of its steps, and not active.
pub proof fn completed_work_is_listed(
    t: TrackerView,
    l: LayoutView,
    summary: Seq<char>,
    request: Option<Seq<char>>,
    ctx: WriterView,
    now: Instant,
    day: i32,
    id: Seq<char>,
    pid: Seq<char>,
    i: int,
    keys: Seq<Seq<char>>,
    days: ArchiveWalk,
    scope: Seq<char>,
    today: int,
    r: ListView,
)
    requires
        stands_at(t, id, pid, i),
        means(t, request, id),
        id_is_new(t, id),
        date_reading(date_writing(day)) == Some(day),
        in_scope(scope, day as int, today),
        complete_outcome(t, l, summary, request, ctx, now, date_writing(day)) matches Ok((t2, _))
            && walks(keys, t2.index) && walks_archive(days, t2.storage.completed) && lists(
            r,
            keys,
            t2.index,
            days,
            Some(scope),
            today,
        ),
    ensures
        exists|j: int|
            0 <= j < r.breadcrumbs.len() && shows_archived(
                #[trigger] r.breadcrumbs[j],
                BreadcrumbView { last_activity_at: stamp(now), ..t.projects[pid][i] },
            ),
{
    let date = date_writing(day);
    complete_archives_work(t, l, summary, request, ctx, now, date, id, pid, i);
    let t2 = complete_outcome(t, l, summary, request, ctx, now, date)->Ok_0.0;
    let kept = planned_completion(
        t,
        l,
        summary,
        request,
        ctx,
        now,
        date,
    )->Ok_0.breadcrumb;
    archived_once(t.storage.completed, t2.storage.completed, date, kept);
    assert forall|k: Seq<char>| #[trigger] t2.index.contains_key(k) implies t2.index[k].id != id by {
        assert(t.index.contains_key(k));
    }
    archived_work_is_listed(
        t2.storage.completed,
        t2.index,
        day,
        kept,
        keys,
        days,
        scope,
        today,
        r,
    );
    let j = choose|j: int|
        0 <= j < r.breadcrumbs.len() && shows_archived(#[trigger] r.breadcrumbs[j], kept);
    assert(shows_archived(
        r.breadcrumbs[j],
        BreadcrumbView { last_activity_at: stamp(now), ..t.projects[pid][i] },
    ));
}

/// A breadcrumb that was aborted has a row in every list that reaches the day, as a completed one
/// has, marked as aborted.
pub proof fn aborted_work_is_listed(
    t: TrackerView,
    l: LayoutView,
    reason: Seq<char>,
    request: Option<Seq<char>>,
    ctx: WriterView,
    now: Instant,
    day: i32,
    id: Seq<char>,
    pid: Seq<char>,
    i: int,
    keys: Seq<Seq<char>>,
    days: ArchiveWalk,
    scope: Seq<char>,
    today: int,
    r: ListView,
)
    requires
        stands_at(t, id, pid, i),
        means(t, request, id),
        id_is_new(t, id),
        date_reading(date_writing(day)) == Some(day),
        in_scope(scope, day as int, today),
        abort_outcome(t, l, reason, request, ctx, now, day) matches Ok((t2, _)) && walks(
            keys,
            t2.index,
        ) && walks_archive(days, t2.storage.completed) && lists(
            r,
            keys,
            t2.index,
            days,
            Some(scope),
            today,
        ),
    ensures
        exists|j: int|
            0 <= j < r.breadcrumbs.len() && shows_archived(
                #[trigger] r.breadcrumbs[j],
                BreadcrumbView {
                    last_activity_at: stamp(now),
                    aborted: true,
                    ..t.projects[pid][i]
                },
            ),
{
    let date = date_writing(day);
    abort_archives_work(t, l, reason, request, ctx, now, day, id, pid, i);
    let t2 = abort_outcome(t, l, reason, request, ctx, now, day)->Ok_0.0;
    let kept = planned_abort(
        t,
        l,
        reason,
        request,
        ctx,
        now,
        day,
    )->Ok_0->Archive_breadcrumb;
    archived_once(t.storage.completed, t2.storage.completed, date, kept);
    assert forall|k: Seq<char>| #[trigger] t2.index.contains_key(k) implies t2.index[k].id != id by {
        assert(t.index.contains_key(k));
    }
    archived_work_is_listed(
        t2.storage.completed,
        t2.index,
        day,
        kept,
        keys,
        days,
        scope,
        today,
        r,
    );
    let j = choose|j: int|
        0 <= j < r.breadcrumbs.len() && shows_archived(#[trigger] r.breadcrumbs[j], kept);
    assert(shows_archived(
        r.breadcrumbs[j],
        BreadcrumbView { last_activity_at: stamp(now), aborted: true, ..t.projects[pid][i] },
    ));
}

// ---- Status -------------------------------------------------------------------------------

/// Whether the status of a breadcrumb says what its entry says, and marks it as stale exactly if it
/// had no activity for four hours.
pub open spec fn shows_status(s: StatusEntryView, e: EntryView, now: Instant) -> bool {
    &&& s.id == e.id && s.name == e.name && s.project_id == e.project_id && s.owner == e.owner
    &&& s.started_at == e.started_at && s.last_activity_at == e.last_activity_at
    &&& s.stale <==> (instant_of(e.last_activity_at) matches Some(at) && elapsed(now, at)
        >= 4 * 3_600_000_000_000)
}

/// Whether an entry is of the project that is asked for, `_ungrouped` standing for those without one.
pub open spec fn asked_for(e: EntryView, project: Option<Seq<char>>) -> bool {
    match project {
        Some(p) => e.project_id == Some(p) || (e.project_id is None && p == "_ungrouped"@),
        None => true,
    }
}

/// The status tells of the active breadcrumbs of the project that is asked for, of all where none is,
/// in the order of the index: of each once, what its entry says and whether it is stale. It says
/// whether there are any, and how many if so.
pub proof fn status_tells_entries(
    keys: Seq<Seq<char>>,
    index: IndexView,
    project: Option<Seq<char>>,
    now: Instant,
)
    ensures
        ({
            let entries = status_entries(keys, index, project, now);
            let met = keys.filter(|k: Seq<char>| asked_for(index[k], project));
            let answer = status_answer(entries);
            &&& entries.len() == met.len()
            &&& forall|j: int|
                0 <= j < entries.len() ==> shows_status(#[trigger] entries[j], index[met[j]], now)
            &&& answer.breadcrumbs == entries
            &&& answer.active <==> entries.len() > 0
            &&& entries.len() == 0 ==> answer.count is None
            &&& 0 < entries.len() <= usize::MAX ==> answer.count == Some(entries.len() as usize)
        }),
    decreases keys.len(),
{
    let f = |k: Seq<char>| asked_for(index[k], project);
    reveal(Seq::filter);
    if keys.len() > 0 {
        status_tells_entries(keys.drop_last(), index, project, now);
        let before = status_entries(keys.drop_last(), index, project, now);
        let entries = status_entries(keys, index, project, now);
        let met = keys.filter(f);
        assert forall|j: int| 0 <= j < entries.len() implies shows_status(
            #[trigger] entries[j],
            index[met[j]],
            now,
        ) by {
            if j < before.len() {
                assert(entries[j] == before[j]);
                assert(met[j] == keys.drop_last().filter(f)[j]);
            }
        }
    }
}

}
