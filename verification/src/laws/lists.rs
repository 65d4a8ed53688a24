//! What lists and the status show.

use vstd::prelude::*;

use crate::clock::{date_reading, date_writing, Instant};
use crate::error::ErrorView;
use crate::index::{project_or_ungrouped, IndexView};
use crate::laws::archiving::complete_archives;
use crate::laws::tracking::{
    active_is_located, entries_stand_under_ids, located_in_project, sound,
};
use crate::layout::LayoutView;
use crate::listing::{
    active_rows, archived_row, has_row, lists, newest_first, reaches, rows_of_scope,
    scope_or_active, started_then, status_entries, status_entry, walks_archive, walks_files,
    with_days, with_file, with_files, ArchiveWalk, FileWalk, ListView, RowView,
};
use crate::schema::{BreadcrumbView, WriterView};
use crate::storage::{day_files, is_json, reading, DirView, FileView};
use crate::table::walks;
use crate::text::{
    json_name, json_name_has_extension, text_less, text_less_irreflexive, text_less_total,
};
use crate::tracker::{complete_outcome, completed, located, TrackerView};

verus! {

// ---- Rows before and after they are ordered -----------------------------------------------

/// Ordering rows neither adds nor drops one: each occurs as often as before.
pub proof fn ordering_keeps_rows(rows: Seq<RowView>, out: Seq<RowView>)
    requires
        newest_first(rows, out),
    ensures
        out.to_multiset() == rows.to_multiset(),
        out.len() == rows.len(),
        forall|r: RowView| #[trigger] out.contains(r) <==> rows.contains(r),
{
    assert forall|r: RowView| #[trigger] out.to_multiset().count(r) == rows.to_multiset().count(
        r,
    ) by {
        let f = |x: RowView| x.started_at == r.started_at;
        assert(started_then(out, r.started_at) == started_then(rows, r.started_at));
        count_in_filter(out, f, r);
        count_in_filter(rows, f, r);
    }
    assert(out.to_multiset() =~= rows.to_multiset());
    rows.to_multiset_ensures();
    out.to_multiset_ensures();
    assert forall|r: RowView| #[trigger] out.contains(r) <==> rows.contains(r) by {
        assert(out.contains(r) <==> out.to_multiset().count(r) > 0);
        assert(rows.contains(r) <==> rows.to_multiset().count(r) > 0);
    }
}

proof fn count_in_filter(rows: Seq<RowView>, f: spec_fn(RowView) -> bool, r: RowView)
    requires
        f(r),
    ensures
        rows.filter(f).to_multiset().count(r) == rows.to_multiset().count(r),
    decreases rows.len(),
{
    reveal(Seq::filter);
    rows.to_multiset_ensures();
    if rows.len() > 0 {
        let rest = rows.drop_last();
        let last = rows.last();
        count_in_filter(rest, f, r);
        assert(rows =~= rest.push(last));
        rest.to_multiset_ensures();
        rest.filter(f).to_multiset_ensures();
        assert(rows.to_multiset() =~= rest.to_multiset().insert(last));
        if f(last) {
            assert(rows.filter(f) =~= rest.filter(f).push(last));
            assert(rows.filter(f).to_multiset() =~= rest.filter(f).to_multiset().insert(last));
        }
    } else {
        assert(rows.filter(f) =~= rows);
    }
}

proof fn filter_of_tail(rows: Seq<RowView>, at: Seq<char>)
    requires
        rows.len() > 0,
    ensures
        started_then(rows, at) == (if rows[0].started_at == at {
            seq![rows[0]]
        } else {
            Seq::<RowView>::empty()
        }) + started_then(rows.skip(1), at),
{
    let f = |r: RowView| r.started_at == at;
    let head = seq![rows[0]];
    assert(rows =~= head + rows.skip(1));
    Seq::filter_distributes_over_add(head, rows.skip(1), f);
    reveal_with_fuel(Seq::filter, 2);
    assert(head.drop_last() =~= Seq::<RowView>::empty());
    assert(head.filter(f) =~= (if rows[0].started_at == at {
        seq![rows[0]]
    } else {
        Seq::<RowView>::empty()
    }));
}

proof fn same_order(a: Seq<RowView>, b: Seq<RowView>)
    requires
        forall|i: int, j: int|
            0 <= i < j < a.len() ==> !text_less(
                (#[trigger] a[i]).started_at,
                (#[trigger] a[j]).started_at,
            ),
        forall|i: int, j: int|
            0 <= i < j < b.len() ==> !text_less(
                (#[trigger] b[i]).started_at,
                (#[trigger] b[j]).started_at,
            ),
        forall|at: Seq<char>| #[trigger] started_then(a, at) == started_then(b, at),
        a.len() == b.len(),
        forall|r: RowView| #[trigger] a.contains(r) <==> b.contains(r),
    ensures
        a == b,
    decreases a.len(),
{
    if a.len() == 0 {
        assert(a =~= b);
    } else {
        let ka = a[0].started_at;
        let kb = b[0].started_at;
        assert(ka == kb) by {
            assert(b.contains(a[0])) by {
                assert(a.contains(a[0]));
            }
            assert(a.contains(b[0])) by {
                assert(b.contains(b[0]));
            }
            let i = b.index_of(a[0]);
            let j = a.index_of(b[0]);
            assert(b[i] == a[0] && a[j] == b[0]);
            if i > 0 {
                assert(!text_less(b[0].started_at, b[i].started_at));
            } else {
                text_less_irreflexive(ka);
            }
            if j > 0 {
                assert(!text_less(a[0].started_at, a[j].started_at));
            }
            text_less_total(ka, kb);
        }
        filter_of_tail(a, ka);
        filter_of_tail(b, ka);
        assert(started_then(a, ka)[0] == a[0]);
        assert(started_then(b, ka)[0] == b[0]);
        assert(started_then(a, ka) == started_then(b, ka));
        let ta = a.skip(1);
        let tb = b.skip(1);
        assert forall|at: Seq<char>| #[trigger] started_then(ta, at) == started_then(tb, at) by {
            filter_of_tail(a, at);
            filter_of_tail(b, at);
            assert(started_then(a, at) == started_then(b, at));
            let n: int = if a[0].started_at == at {
                1
            } else {
                0
            };
            assert(started_then(ta, at) =~= started_then(a, at).skip(n));
            assert(started_then(tb, at) =~= started_then(b, at).skip(n));
        }
        assert forall|i: int, j: int| 0 <= i < j < ta.len() implies !text_less(
            (#[trigger] ta[i]).started_at,
            (#[trigger] ta[j]).started_at,
        ) by {
            assert(ta[i] == a[i + 1] && ta[j] == a[j + 1]);
        }
        assert forall|i: int, j: int| 0 <= i < j < tb.len() implies !text_less(
            (#[trigger] tb[i]).started_at,
            (#[trigger] tb[j]).started_at,
        ) by {
            assert(tb[i] == b[i + 1] && tb[j] == b[j + 1]);
        }
        ordering_keeps_rows(ta, tb);
        same_order(ta, tb);
        assert(a =~= seq![a[0]] + ta);
        assert(b =~= seq![b[0]] + tb);
    }
}

/// The order of a list is determined: there is only one way to put rows in it.
pub proof fn order_is_determined(rows: Seq<RowView>, a: Seq<RowView>, b: Seq<RowView>)
    requires
        newest_first(rows, a),
        newest_first(rows, b),
    ensures
        a == b,
{
    ordering_keeps_rows(rows, a);
    ordering_keeps_rows(rows, b);
    assert forall|at: Seq<char>| #[trigger] started_then(a, at) == started_then(b, at) by {
        assert(started_then(a, at) == started_then(rows, at));
        assert(started_then(b, at) == started_then(rows, at));
    }
    assert forall|r: RowView| #[trigger] a.contains(r) <==> b.contains(r) by {
        assert(a.contains(r) <==> rows.contains(r));
        assert(b.contains(r) <==> rows.contains(r));
    }
    same_order(a, b);
}

/// Whether no two rows have the same identifier.
pub open spec fn ids_distinct(rows: Seq<RowView>) -> bool {
    forall|i: int, j: int|
        0 <= i < j < rows.len() ==> (#[trigger] rows[i]).id != (#[trigger] rows[j]).id
}

proof fn ordering_keeps_distinct(rows: Seq<RowView>, out: Seq<RowView>)
    requires
        newest_first(rows, out),
        ids_distinct(rows),
    ensures
        ids_distinct(out),
{
    ordering_keeps_rows(rows, out);
    assert(rows.no_duplicates()) by {
        assert forall|i: int, j: int| 0 <= i < j < rows.len() implies rows[i] != rows[j] by {
            assert(rows[i].id != rows[j].id);
        }
    }
    rows.lemma_multiset_has_no_duplicates();
    out.lemma_multiset_has_no_duplicates_conv();
    assert forall|i: int, j: int| 0 <= i < j < out.len() implies (#[trigger] out[i]).id != (
    #[trigger] out[j]).id by {
        assert(out.contains(out[i]) && out.contains(out[j]));
        let a = rows.index_of(out[i]);
        let b = rows.index_of(out[j]);
        assert(rows[a] == out[i] && rows[b] == out[j]);
        assert(out[i] != out[j]);
        assert(a != b);
    }
}

// ---- One row for each breadcrumb ----------------------------------------------------------

proof fn files_keep_distinct(rows: Seq<RowView>, files: FileWalk)
    requires
        ids_distinct(rows),
    ensures
        ids_distinct(with_files(rows, files)),
    decreases files.len(),
{
    if files.len() > 0 {
        files_keep_distinct(rows, files.drop_last());
    }
}

proof fn days_keep_distinct(rows: Seq<RowView>, days: ArchiveWalk, scope: Seq<char>, today: int)
    requires
        ids_distinct(rows),
    ensures
        ids_distinct(with_days(rows, days, scope, today)),
    decreases days.len(),
{
    if days.len() > 0 {
        let before = with_days(rows, days.drop_last(), scope, today);
        days_keep_distinct(rows, days.drop_last(), scope, today);
        files_keep_distinct(before, days.last().1);
    }
}

/// A list of a sound tracker names no breadcrumb twice, be it active, archived or both.
pub proof fn lists_name_each_once(
    t: TrackerView,
    keys: Seq<Seq<char>>,
    days: ArchiveWalk,
    scope: Option<Seq<char>>,
    today: int,
    r: ListView,
)
    requires
        sound(t),
        walks(keys, t.index),
        lists(r, keys, t.index, days, scope, today),
    ensures
        ids_distinct(r.breadcrumbs),
{
    let rows = active_rows(keys, t.index);
    let s = scope_or_active(scope);
    assert forall|i: int, j: int| 0 <= i < j < rows.len() implies (#[trigger] rows[i]).id != (
    #[trigger] rows[j]).id by {
        entry_stands_under_id(t, keys, i);
        entry_stands_under_id(t, keys, j);
    }
    days_keep_distinct(rows, days, s, today);
    ordering_keeps_distinct(rows_of_scope(keys, t.index, days, s, today), r.breadcrumbs);
}

proof fn entry_stands_under_id(t: TrackerView, keys: Seq<Seq<char>>, i: int)
    requires
        sound(t),
        walks(keys, t.index),
        0 <= i < keys.len(),
    ensures
        t.index.contains_key(keys[i]),
        t.index[keys[i]].id == keys[i],
{
    assert(keys.contains(keys[i]));
    assert(t.index.contains_key(keys[i]));
    entries_stand_under_ids(t, keys[i]);
}

// ---- Scopes -------------------------------------------------------------------------------

/// A list of the active breadcrumbs is the same whatever the archive holds and whatever day it is.
pub proof fn active_list_ignores_archive(
    r: ListView,
    keys: Seq<Seq<char>>,
    index: IndexView,
    days: ArchiveWalk,
    other_days: ArchiveWalk,
    today: int,
    other_day: int,
)
    ensures
        lists(r, keys, index, days, None, today) == lists(
            r,
            keys,
            index,
            other_days,
            None,
            other_day,
        ),
        lists(r, keys, index, days, None, today) == lists(
            r,
            keys,
            index,
            other_days,
            Some("active"@),
            other_day,
        ),
{
}

/// Whether every identifier in `a` is one in `b`.
pub open spec fn ids_within(a: Seq<RowView>, b: Seq<RowView>) -> bool {
    forall|id: Seq<char>| #[trigger] has_row(a, id) ==> has_row(b, id)
}

proof fn row_after_push(rows: Seq<RowView>, x: RowView, id: Seq<char>)
    ensures
        has_row(rows.push(x), id) <==> has_row(rows, id) || x.id == id,
{
    if has_row(rows, id) {
        let i = choose|i: int| 0 <= i < rows.len() && (#[trigger] rows[i]).id == id;
        assert(rows.push(x)[i].id == id);
    }
    if x.id == id {
        assert(rows.push(x)[rows.len() as int].id == id);
    }
    if has_row(rows.push(x), id) && x.id != id {
        let i = choose|i: int|
            0 <= i < rows.push(x).len() && (#[trigger] rows.push(x)[i]).id == id;
        assert(rows[i].id == id);
    }
}

proof fn row_after_file(rows: Seq<RowView>, name: Seq<char>, content: FileView, id: Seq<char>)
    ensures
        has_row(with_file(rows, name, content), id) <==> has_row(rows, id) || (is_json(name)
            && (content matches FileView::Parsed(bc) && bc.id == id)),
{
    if let FileView::Parsed(bc) = content {
        row_after_push(rows, archived_row(bc), id);
    }
}

/// Whether the files of a walk hold a breadcrumb with the identifier `id`.
pub open spec fn archived_among(files: FileWalk, id: Seq<char>) -> bool {
    exists|i: int|
        0 <= i < files.len() && is_json((#[trigger] files[i]).0) && (
        files[i].1 matches FileView::Parsed(bc) && bc.id == id)
}

/// After the files of a directory are met, exactly those have a row that had one or stand in a file.
pub proof fn row_after_files(rows: Seq<RowView>, files: FileWalk, id: Seq<char>)
    ensures
        has_row(with_files(rows, files), id) <==> has_row(rows, id) || archived_among(files, id),
    decreases files.len(),
{
    if files.len() > 0 {
        let rest = files.drop_last();
        row_after_files(rows, rest, id);
        row_after_file(with_files(rows, rest), files.last().0, files.last().1, id);
        assert(forall|i: int| 0 <= i < rest.len() ==> rest[i] == files[i]);
        if archived_among(rest, id) {
            let i = choose|i: int|
                0 <= i < rest.len() && is_json((#[trigger] rest[i]).0) && (
                rest[i].1 matches FileView::Parsed(bc) && bc.id == id);
            assert(files[i] == rest[i]);
        }
        if archived_among(files, id) {
            let i = choose|i: int|
                0 <= i < files.len() && is_json((#[trigger] files[i]).0) && (
                files[i].1 matches FileView::Parsed(bc) && bc.id == id);
            if i < rest.len() {
                assert(rest[i] == files[i]);
            }
        }
        assert(files[files.len() - 1] == files.last());
    }
}

/// Whether the archive holds a breadcrumb with the identifier `id` on a day that the scope reaches.
pub open spec fn archived_in_scope(
    days: ArchiveWalk,
    scope: Seq<char>,
    today: int,
    id: Seq<char>,
) -> bool {
    exists|i: int|
        0 <= i < days.len() && reaches(scope, (#[trigger] days[i]).0, today) && archived_among(
            days[i].1,
            id,
        )
}

/// After the days of the archive are met, exactly those have a row that had one or are archived on a
/// day that the scope reaches.
pub proof fn row_after_days(
    rows: Seq<RowView>,
    days: ArchiveWalk,
    scope: Seq<char>,
    today: int,
    id: Seq<char>,
)
    ensures
        has_row(with_days(rows, days, scope, today), id) <==> has_row(rows, id)
            || archived_in_scope(days, scope, today, id),
    decreases days.len(),
{
    if days.len() > 0 {
        let rest = days.drop_last();
        row_after_days(rows, rest, scope, today, id);
        row_after_files(with_days(rows, rest, scope, today), days.last().1, id);
        assert(days[days.len() - 1] == days.last());
        if archived_in_scope(rest, scope, today, id) {
            let i = choose|i: int|
                0 <= i < rest.len() && reaches(scope, (#[trigger] rest[i]).0, today)
                    && archived_among(rest[i].1, id);
            assert(days[i] == rest[i]);
        }
        if archived_in_scope(days, scope, today, id) {
            let i = choose|i: int|
                0 <= i < days.len() && reaches(scope, (#[trigger] days[i]).0, today)
                    && archived_among(days[i].1, id);
            if i < rest.len() {
                assert(rest[i] == days[i]);
            }
        }
    }
}

proof fn row_after_ordering(rows: Seq<RowView>, out: Seq<RowView>, id: Seq<char>)
    requires
        newest_first(rows, out),
    ensures
        has_row(out, id) <==> has_row(rows, id),
{
    ordering_keeps_rows(rows, out);
    if has_row(rows, id) {
        let i = choose|i: int| 0 <= i < rows.len() && (#[trigger] rows[i]).id == id;
        assert(rows.contains(rows[i]));
        assert(out.contains(rows[i]));
        assert(out[out.index_of(rows[i])].id == id);
    }
    if has_row(out, id) {
        let i = choose|i: int| 0 <= i < out.len() && (#[trigger] out[i]).id == id;
        assert(out.contains(out[i]));
        assert(rows.contains(out[i]));
        assert(rows[rows.index_of(out[i])].id == id);
    }
}

/// A list names exactly the active breadcrumbs and, unless its scope is that of the active ones,
/// those archived on the days that the scope reaches.
pub proof fn lists_name_scope(
    r: ListView,
    keys: Seq<Seq<char>>,
    index: IndexView,
    days: ArchiveWalk,
    scope: Option<Seq<char>>,
    today: int,
    id: Seq<char>,
)
    requires
        lists(r, keys, index, days, scope, today),
    ensures
        has_row(r.breadcrumbs, id) <==> has_row(active_rows(keys, index), id) || (scope_or_active(
            scope,
        ) != "active"@ && archived_in_scope(days, scope_or_active(scope), today, id)),
{
    let s = scope_or_active(scope);
    row_after_days(active_rows(keys, index), days, s, today, id);
    row_after_ordering(rows_of_scope(keys, index, days, s, today), r.breadcrumbs, id);
}

/// A wider scope lists all that a narrower one lists: the active breadcrumbs are among those of
/// today, these among those of the week, and these among all.
pub proof fn wider_scopes_list_more(
    keys: Seq<Seq<char>>,
    index: IndexView,
    days: ArchiveWalk,
    today: int,
    active: ListView,
    of_today: ListView,
    of_week: ListView,
    all: ListView,
)
    requires
        lists(active, keys, index, days, Some("active"@), today),
        lists(of_today, keys, index, days, Some("today"@), today),
        lists(of_week, keys, index, days, Some("week"@), today),
        lists(all, keys, index, days, Some("all"@), today),
    ensures
        ids_within(active.breadcrumbs, of_today.breadcrumbs),
        ids_within(of_today.breadcrumbs, of_week.breadcrumbs),
        ids_within(of_week.breadcrumbs, all.breadcrumbs),
{
    reveal_strlit("active");
    reveal_strlit("today");
    reveal_strlit("week");
    reveal_strlit("all");
    assert("active"@.len() == 6 && "today"@.len() == 5 && "week"@.len() == 4 && "all"@.len() == 3);
    assert forall|id: Seq<char>| #[trigger] has_row(active.breadcrumbs, id) implies has_row(
        of_today.breadcrumbs,
        id,
    ) by {
        lists_name_scope(active, keys, index, days, Some("active"@), today, id);
        lists_name_scope(of_today, keys, index, days, Some("today"@), today, id);
    }
    assert forall|id: Seq<char>| #[trigger] has_row(of_today.breadcrumbs, id) implies has_row(
        of_week.breadcrumbs,
        id,
    ) by {
        lists_name_scope(of_today, keys, index, days, Some("today"@), today, id);
        lists_name_scope(of_week, keys, index, days, Some("week"@), today, id);
        if archived_in_scope(days, "today"@, today, id) {
            let i = choose|i: int|
                0 <= i < days.len() && reaches("today"@, (#[trigger] days[i]).0, today)
                    && archived_among(days[i].1, id);
            assert(reaches("week"@, days[i].0, today));
        }
    }
    assert forall|id: Seq<char>| #[trigger] has_row(of_week.breadcrumbs, id) implies has_row(
        all.breadcrumbs,
        id,
    ) by {
        lists_name_scope(of_week, keys, index, days, Some("week"@), today, id);
        lists_name_scope(all, keys, index, days, Some("all"@), today, id);
        if archived_in_scope(days, "week"@, today, id) {
            let i = choose|i: int|
                0 <= i < days.len() && reaches("week"@, (#[trigger] days[i]).0, today)
                    && archived_among(days[i].1, id);
            assert(reaches("all"@, days[i].0, today));
        }
    }
}

/// A breadcrumb that is archived under a date is listed in every scope that reaches the date.
pub proof fn archived_is_listed(
    completed: Map<Seq<char>, DirView>,
    date: Seq<char>,
    bc: BreadcrumbView,
    keys: Seq<Seq<char>>,
    index: IndexView,
    days: ArchiveWalk,
    scope: Seq<char>,
    today: int,
    r: ListView,
)
    requires
        reading(day_files(completed, date), bc.id) == Ok::<BreadcrumbView, ErrorView>(bc),
        bc.id.len() > 0,
        walks_archive(days, completed),
        scope != "active"@,
        reaches(scope, date, today),
        lists(r, keys, index, days, Some(scope), today),
    ensures
        has_row(r.breadcrumbs, bc.id),
{
    let name = json_name(bc.id);
    json_name_has_extension(bc.id);
    assert(completed.contains_key(date));
    let dates = Seq::new(days.len(), |i: int| days[i].0);
    assert(dates.contains(date));
    let i = dates.index_of(date);
    assert(days[i].0 == date);
    let files = days[i].1;
    assert(walks_files(files, completed[date]));
    let names = Seq::new(files.len(), |k: int| files[k].0);
    assert(completed[date].contains_key(name));
    assert(names.contains(name));
    let k = names.index_of(name);
    assert(files[k].0 == name);
    assert(files[k].1 == FileView::Parsed(bc));
    assert(archived_among(files, bc.id));
    assert(archived_in_scope(days, scope, today, bc.id));
    lists_name_scope(r, keys, index, days, Some(scope), today, bc.id);
}

/// A breadcrumb that was completed today is listed among those of today, of the week and of all
/// time, provided that the name of the day reads back as the day.
pub proof fn completed_is_listed(
    t: TrackerView,
    l: LayoutView,
    summary: Seq<char>,
    id: Option<Seq<char>>,
    ctx: WriterView,
    now: Instant,
    day: i32,
    keys: Seq<Seq<char>>,
    days: ArchiveWalk,
    scope: Seq<char>,
    r: ListView,
)
    requires
        sound(t),
        located(t, id) is Ok,
        located(t, id)->Ok_0.0.len() > 0,
        scope == "today"@ || scope == "week"@ || scope == "all"@,
        date_reading(date_writing(day)) == Some(day),
        complete_outcome(t, l, summary, id, ctx, now, date_writing(day)) matches Ok((t2, _))
            && walks_archive(days, t2.storage.completed) && lists(
            r,
            keys,
            t2.index,
            days,
            Some(scope),
            day as int,
        ),
    ensures
        has_row(r.breadcrumbs, located(t, id)->Ok_0.0),
{
    reveal_strlit("active");
    reveal_strlit("today");
    reveal_strlit("week");
    reveal_strlit("all");
    assert("active"@.len() == 6 && "today"@.len() == 5 && "week"@.len() == 4 && "all"@.len() == 3);
    complete_archives(t, l, summary, id, ctx, now, date_writing(day));
    located_in_project(t, id);
    active_is_located(t, id);
    let (x, pid, i) = located(t, id)->Ok_0;
    let t2 = complete_outcome(t, l, summary, id, ctx, now, date_writing(day))->Ok_0.0;
    archived_is_listed(
        t2.storage.completed,
        date_writing(day),
        completed(t.projects[pid][i], ctx, now),
        keys,
        t2.index,
        days,
        scope,
        day as int,
        r,
    );
}

// ---- Status -------------------------------------------------------------------------------

/// The status without a project has one entry for each active breadcrumb, as many as the list of
/// the active ones has rows.
pub proof fn status_shows_active(
    keys: Seq<Seq<char>>,
    index: IndexView,
    now: Instant,
)
    ensures
        status_entries(keys, index, None, now) == Seq::new(
            keys.len(),
            |i: int| status_entry(index[keys[i]], now),
        ),
        status_entries(keys, index, None, now).len() == active_rows(keys, index).len(),
    decreases keys.len(),
{
    if keys.len() > 0 {
        status_shows_active(keys.drop_last(), index, now);
    }
    assert(status_entries(keys, index, None, now) =~= Seq::new(
        keys.len(),
        |i: int| status_entry(index[keys[i]], now),
    ));
}

/// The status of a project shows the breadcrumbs of that project and no others; those that were
/// started without a project are of the project `_ungrouped`.
pub proof fn status_shows_project(
    keys: Seq<Seq<char>>,
    index: IndexView,
    project: Seq<char>,
    now: Instant,
)
    ensures
        forall|i: int|
            0 <= i < status_entries(keys, index, Some(project), now).len() ==> project_or_ungrouped((#[trigger] status_entries(keys, index, Some(project), now)[i]).project_id)
                == project,
        forall|k: int|
            0 <= k < keys.len() && project_or_ungrouped(index[#[trigger] keys[k]].project_id) == project
                ==> status_entries(keys, index, Some(project), now).contains(
                status_entry(index[keys[k]], now),
            ),
    decreases keys.len(),
{
    let all = status_entries(keys, index, Some(project), now);
    if keys.len() > 0 {
        let rest = keys.drop_last();
        let before = status_entries(rest, index, Some(project), now);
        status_shows_project(rest, index, project, now);
        assert forall|i: int| 0 <= i < all.len() implies project_or_ungrouped(
            (#[trigger] all[i]).project_id,
        ) == project by {
            if i < before.len() {
                assert(all[i] == before[i]);
            }
        }
        assert forall|k: int|
            0 <= k < keys.len() && project_or_ungrouped(index[#[trigger] keys[k]].project_id) == project implies all.contains(
        status_entry(index[keys[k]], now)) by {
            if k < rest.len() {
                assert(rest[k] == keys[k]);
                let e = status_entry(index[keys[k]], now);
                assert(before.contains(e));
                assert(all[before.index_of(e)] == e);
            } else {
                assert(all[all.len() - 1] == status_entry(index[keys[k]], now));
            }
        }
    }
}

}
