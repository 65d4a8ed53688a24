//! What is under way and what was done: the status of the active breadcrumbs, and lists that reach
//! back into the archive.

use vstd::prelude::*;

use crate::clock::{
    age, date_reading, is_stale_age, named_day, stale_age, today, valid_day, clock_instant, Instant,
    Timestamp,
};
use crate::error::BreadcrumbError;
use crate::index::{project_name, project_or_ungrouped, Index, IndexView};
use crate::schema::{Breadcrumb, BreadcrumbView, EntryView, IndexEntry};
use crate::storage::{is_json, Dir, DirView, FileContent, FileView};
use crate::table::{walks, Table};
use crate::text::{
    copy_option, is_extension_of, is_text_less, text_less, text_less_irreflexive, text_less_total,
    text_less_transitive,
};
use crate::tracker::Tracker;

verus! {

// ---- status -------------------------------------------------------------------------------

/// An active breadcrumb, and whether it is stale.
#[derive(Debug)]
pub struct StatusEntry {
    pub id: String,
    pub name: String,
    pub project_id: Option<String>,
    pub owner: String,
    pub started_at: String,
    pub last_activity_at: String,
    pub stale: bool,
}

#[verifier::ext_equal]
pub struct StatusEntryView {
    pub id: Seq<char>,
    pub name: Seq<char>,
    pub project_id: Option<Seq<char>>,
    pub owner: Seq<char>,
    pub started_at: Seq<char>,
    pub last_activity_at: Seq<char>,
    pub stale: bool,
}

impl View for StatusEntry {
    type V = StatusEntryView;

    open spec fn view(&self) -> StatusEntryView {
        StatusEntryView {
            id: self.id@,
            name: self.name@,
            project_id: self.project_id.deep_view(),
            owner: self.owner@,
            started_at: self.started_at@,
            last_activity_at: self.last_activity_at@,
            stale: self.stale,
        }
    }
}

impl DeepView for StatusEntry {
    type V = StatusEntryView;

    open spec fn deep_view(&self) -> StatusEntryView {
        self@
    }
}

/// The active breadcrumbs. `count` is given where there are any.
#[derive(Debug)]
pub struct StatusResponse {
    pub active: bool,
    pub count: Option<usize>,
    pub breadcrumbs: Vec<StatusEntry>,
}

#[verifier::ext_equal]
pub struct StatusView {
    pub active: bool,
    pub count: Option<usize>,
    pub breadcrumbs: Seq<StatusEntryView>,
}

impl View for StatusResponse {
    type V = StatusView;

    open spec fn view(&self) -> StatusView {
        StatusView {
            active: self.active,
            count: self.count,
            breadcrumbs: self.breadcrumbs.deep_view(),
        }
    }
}

/// The status of an index entry at `now`.
pub open spec fn status_entry(e: EntryView, now: Instant) -> StatusEntryView {
    StatusEntryView {
        id: e.id,
        name: e.name,
        project_id: e.project_id,
        owner: e.owner,
        started_at: e.started_at,
        last_activity_at: e.last_activity_at,
        stale: stale_age(age(now, e.last_activity_at)),
    }
}

/// Whether an entry belongs to the project that is asked for. One without a project belongs to
/// `_ungrouped`.
pub open spec fn in_project(e: EntryView, project_id: Option<Seq<char>>) -> bool {
    match project_id {
        Some(p) => project_or_ungrouped(e.project_id) == p,
        None => true,
    }
}

/// The status of the entries that a walk over the index meets and that belong to the project.
pub open spec fn status_entries(
    keys: Seq<Seq<char>>,
    index: IndexView,
    project_id: Option<Seq<char>>,
    now: Instant,
) -> Seq<StatusEntryView>
    decreases keys.len(),
{
    if keys.len() == 0 {
        Seq::empty()
    } else {
        let before = status_entries(keys.drop_last(), index, project_id, now);
        if in_project(index[keys.last()], project_id) {
            before.push(status_entry(index[keys.last()], now))
        } else {
            before
        }
    }
}

/// The answer that reports the given entries.
pub open spec fn status_answer(entries: Seq<StatusEntryView>) -> StatusView {
    StatusView {
        active: entries.len() > 0,
        count: if entries.len() > 0 {
            Some(entries.len() as usize)
        } else {
            None
        },
        breadcrumbs: entries,
    }
}

fn is_in_project(e: &IndexEntry, project_id: Option<&str>) -> (b: bool)
    ensures
        b == in_project(e@, project_id.deep_view()),
{
    match project_id {
        Some(p) => *project_name(&e.project_id).as_str() == *p,
        None => true,
    }
}

/// Get the status of the active breadcrumbs at `now`. Reads only the active index.
///
/// `project_id`: filter to a specific project.
pub fn status_at(index: &Index, project_id: Option<&str>, now: &Timestamp) -> (r: Result<
    StatusResponse,
    BreadcrumbError,
>)
    ensures
        r matches Ok(x) && x@ == status_answer(
            status_entries(index.keys(), index@, project_id.deep_view(), now@),
        ),
        walks(index.keys(), index@),
{
    let n = index.len();
    let ghost keys = index.keys();
    let ghost pid = project_id.deep_view();
    let mut entries: Vec<StatusEntry> = Vec::new();
    assert(keys.take(0) =~= Seq::<Seq<char>>::empty());
    assert(entries.deep_view() =~= Seq::<StatusEntryView>::empty());
    for i in 0..n
        invariant
            n == keys.len(),
            keys == index.keys(),
            pid == project_id.deep_view(),
            entries.deep_view() == status_entries(keys.take(i as int), index@, pid, now@),
    {
        let ghost met = entries.deep_view();
        assert(keys.take(i + 1).drop_last() =~= keys.take(i as int));
        assert(keys.take(i + 1).last() == keys[i as int]);
        let e = index.value_at(i);
        if is_in_project(e, project_id) {
            let entry = StatusEntry {
                id: e.id.clone(),
                name: e.name.clone(),
                project_id: copy_option(&e.project_id),
                owner: e.owner.clone(),
                started_at: e.started_at.clone(),
                last_activity_at: e.last_activity_at.clone(),
                stale: is_stale_age(now.age_of(e.last_activity_at.as_str())),
            };
            entries.push(entry);
            assert(entries.deep_view() =~= met.push(entry@));
        }
    }
    assert(keys.take(n as int) =~= keys);
    let count = entries.len();
    assert(entries.deep_view().len() == count);
    if count == 0 {
        return Ok(StatusResponse { active: false, count: None, breadcrumbs: entries });
    }
    Ok(StatusResponse { active: true, count: Some(count), breadcrumbs: entries })
}

/// Get status of active breadcrumbs. Reads only the active index.
///
/// `project_id`: filter to a specific project.
pub fn status(t: &Tracker, project_id: Option<&str>) -> (r: Result<StatusResponse, BreadcrumbError>)
    ensures
        exists|now: Instant|
            clock_instant(now) && (r matches Ok(x) && x@ == status_answer(
                #[trigger] status_entries(
                    t.index.keys(),
                    t.index@,
                    project_id.deep_view(),
                    now,
                ),
            )),
        walks(t.index.keys(), t.index@),
{
    let now = Timestamp::now();
    status_at(&t.index, project_id, &now)
}

// ---- list ---------------------------------------------------------------------------------

/// A breadcrumb in a list, active or archived. The progress is given for archived ones only.
#[derive(Debug)]
pub struct ListEntry {
    pub id: String,
    pub name: String,
    pub project_id: Option<String>,
    pub owner: String,
    pub started_at: String,
    pub last_activity_at: String,
    pub steps_completed: Option<usize>,
    pub total_steps: Option<usize>,
    pub aborted: bool,
    pub active: bool,
}

#[verifier::ext_equal]
pub struct RowView {
    pub id: Seq<char>,
    pub name: Seq<char>,
    pub project_id: Option<Seq<char>>,
    pub owner: Seq<char>,
    pub started_at: Seq<char>,
    pub last_activity_at: Seq<char>,
    pub steps_completed: Option<usize>,
    pub total_steps: Option<usize>,
    pub aborted: bool,
    pub active: bool,
}

impl View for ListEntry {
    type V = RowView;

    open spec fn view(&self) -> RowView {
        RowView {
            id: self.id@,
            name: self.name@,
            project_id: self.project_id.deep_view(),
            owner: self.owner@,
            started_at: self.started_at@,
            last_activity_at: self.last_activity_at@,
            steps_completed: self.steps_completed,
            total_steps: self.total_steps,
            aborted: self.aborted,
            active: self.active,
        }
    }
}

impl DeepView for ListEntry {
    type V = RowView;

    open spec fn deep_view(&self) -> RowView {
        self@
    }
}

/// The breadcrumbs of a scope, the one started last first.
#[derive(Debug)]
pub struct ListResponse {
    pub scope: String,
    pub count: usize,
    pub breadcrumbs: Vec<ListEntry>,
}

#[verifier::ext_equal]
pub struct ListView {
    pub scope: Seq<char>,
    pub count: nat,
    pub breadcrumbs: Seq<RowView>,
}

impl View for ListResponse {
    type V = ListView;

    open spec fn view(&self) -> ListView {
        ListView {
            scope: self.scope@,
            count: self.count as nat,
            breadcrumbs: self.breadcrumbs.deep_view(),
        }
    }
}

/// The row of an active breadcrumb.
pub open spec fn active_row(e: EntryView) -> RowView {
    RowView {
        id: e.id,
        name: e.name,
        project_id: e.project_id,
        owner: e.owner,
        started_at: e.started_at,
        last_activity_at: e.last_activity_at,
        steps_completed: None,
        total_steps: None,
        aborted: false,
        active: true,
    }
}

/// The row of an archived breadcrumb.
pub open spec fn archived_row(bc: BreadcrumbView) -> RowView {
    RowView {
        id: bc.id,
        name: bc.name,
        project_id: bc.project_id,
        owner: bc.owner,
        started_at: bc.started_at,
        last_activity_at: bc.last_activity_at,
        steps_completed: Some(bc.step_results.len() as usize),
        total_steps: Some(bc.total_steps),
        aborted: bc.aborted,
        active: false,
    }
}

/// The rows of the active breadcrumbs, in the order of a walk over the index.
pub open spec fn active_rows(keys: Seq<Seq<char>>, index: IndexView) -> Seq<RowView> {
    Seq::new(keys.len(), |i: int| active_row(index[keys[i]]))
}

/// A walk over the files of a directory: each name with what the file holds.
pub type FileWalk = Seq<(Seq<char>, FileView)>;

/// A walk over the archive: each date with a walk over its files.
pub type ArchiveWalk = Seq<(Seq<char>, FileWalk)>;

/// The walk over the files of a directory.
pub open spec fn file_walk(files: Dir) -> FileWalk {
    Seq::new(files.keys().len(), |i: int| (files.keys()[i], files@[files.keys()[i]]))
}

/// The walk over the archive.
pub open spec fn archive_walk(completed: Table<Dir>) -> ArchiveWalk {
    Seq::new(
        completed.keys().len(),
        |i: int| (completed.keys()[i], file_walk(completed.value(i))),
    )
}

/// Whether a walk meets the files of a directory, each once.
pub open spec fn walks_files(files: FileWalk, dir: DirView) -> bool {
    &&& walks(Seq::new(files.len(), |i: int| files[i].0), dir)
    &&& forall|i: int| 0 <= i < files.len() ==> (#[trigger] files[i]).1 == dir[files[i].0]
}

/// Whether a walk meets the dates of the archive, each once, and the files of each date.
pub open spec fn walks_archive(days: ArchiveWalk, completed: Map<Seq<char>, DirView>) -> bool {
    &&& walks(Seq::new(days.len(), |i: int| days[i].0), completed)
    &&& forall|i: int|
        0 <= i < days.len() ==> walks_files((#[trigger] days[i]).1, completed[days[i].0])
}

/// Whether some row has the identifier `id`.
pub open spec fn has_row(rows: Seq<RowView>, id: Seq<char>) -> bool {
    exists|i: int| 0 <= i < rows.len() && (#[trigger] rows[i]).id == id
}

/// The rows after a file of the archive is met: a breadcrumb that has no row yet gets one.
pub open spec fn with_file(rows: Seq<RowView>, name: Seq<char>, content: FileView) -> Seq<RowView> {
    match content {
        FileView::Parsed(bc) if is_json(name) && !has_row(rows, bc.id) => rows.push(
            archived_row(bc),
        ),
        _ => rows,
    }
}

/// The rows after the files of a directory are met.
pub open spec fn with_files(rows: Seq<RowView>, files: FileWalk) -> Seq<RowView>
    decreases files.len(),
{
    if files.len() == 0 {
        rows
    } else {
        with_file(with_files(rows, files.drop_last()), files.last().0, files.last().1)
    }
}

/// Whether a list of the given scope reaches back to the directory of `day`: `today` stops at the
/// day itself, `week` seven days earlier, any other scope nowhere. A directory that is not named
/// after a day is always reached.
pub open spec fn reaches_day(scope: Seq<char>, day: Option<i32>, today: int) -> bool {
    match day {
        Some(day) => if scope == "today"@ {
            day >= today
        } else if scope == "week"@ {
            day >= today - 7
        } else {
            true
        },
        None => true,
    }
}

/// Whether a list of the given scope reaches back to the directory named `date`.
pub open spec fn reaches(scope: Seq<char>, date: Seq<char>, today: int) -> bool {
    reaches_day(scope, date_reading(date), today)
}

/// The rows after the directories of the archive are met that the scope reaches.
pub open spec fn with_days(
    rows: Seq<RowView>,
    days: ArchiveWalk,
    scope: Seq<char>,
    today: int,
) -> Seq<RowView>
    decreases days.len(),
{
    if days.len() == 0 {
        rows
    } else {
        let before = with_days(rows, days.drop_last(), scope, today);
        if reaches(scope, days.last().0, today) {
            with_files(before, days.last().1)
        } else {
            before
        }
    }
}

/// The rows of a list before they are ordered: the active breadcrumbs, and, unless only those are
/// asked for, the archived ones that the scope reaches.
pub open spec fn rows_of_scope(
    keys: Seq<Seq<char>>,
    index: IndexView,
    days: ArchiveWalk,
    scope: Seq<char>,
    today: int,
) -> Seq<RowView> {
    if scope == "active"@ {
        active_rows(keys, index)
    } else {
        with_days(active_rows(keys, index), days, scope, today)
    }
}

/// The rows that were started at `at`.
pub open spec fn started_then(rows: Seq<RowView>, at: Seq<char>) -> Seq<RowView> {
    rows.filter(|r: RowView| r.started_at == at)
}

/// Whether `out` holds the rows of `rows` with the one started last first, and rows of one start
/// in the order they had.
pub open spec fn newest_first(rows: Seq<RowView>, out: Seq<RowView>) -> bool {
    &&& forall|i: int, j: int|
        0 <= i < j < out.len() ==> !text_less(
            (#[trigger] out[i]).started_at,
            (#[trigger] out[j]).started_at,
        )
    &&& forall|at: Seq<char>| #[trigger] started_then(out, at) == started_then(rows, at)
}

proof fn filter_of_insert(rows: Seq<RowView>, p: int, x: RowView, at: Seq<char>)
    requires
        0 <= p <= rows.len(),
        forall|i: int| p <= i < rows.len() ==> (#[trigger] rows[i]).started_at != x.started_at,
    ensures
        started_then(rows.insert(p, x), at) == (if x.started_at == at {
            started_then(rows, at).push(x)
        } else {
            started_then(rows, at)
        }),
{
    let f = |r: RowView| r.started_at == at;
    let a = rows.take(p);
    let b = rows.skip(p);
    assert(rows =~= a + b);
    assert(rows.insert(p, x) =~= a.push(x) + b);
    Seq::filter_distributes_over_add(a, b, f);
    Seq::filter_distributes_over_add(a.push(x), b, f);
    assert(a.push(x).filter(f) == (if f(x) {
        a.filter(f).push(x)
    } else {
        a.filter(f)
    })) by {
        reveal(Seq::filter);
        assert(a.push(x).drop_last() =~= a);
    }
    if x.started_at == at {
        assert(b.filter(f) =~= Seq::<RowView>::empty()) by {
            assert forall|i: int| 0 <= i < b.len() implies !f(#[trigger] b[i]) by {
                assert(rows[p + i].started_at != x.started_at);
            }
            b.lemma_all_neg_filter_empty(f);
        }
        assert(a.filter(f).push(x) + b.filter(f) =~= (a.filter(f) + b.filter(f)).push(x));
    }
}

fn insert_row(rows: &mut Vec<ListEntry>, row: ListEntry)
    requires
        forall|i: int, j: int|
            0 <= i < j < old(rows)@.len() ==> !text_less(
                (#[trigger] old(rows).deep_view()[i]).started_at,
                (#[trigger] old(rows).deep_view()[j]).started_at,
            ),
    ensures
        newest_first(old(rows).deep_view().push(row@), final(rows).deep_view()),
        final(rows)@.len() == old(rows)@.len() + 1,
{
    let ghost before = rows.deep_view();
    let mut p: usize = 0;
    while p < rows.len() && !is_text_less(rows[p].started_at.as_str(), row.started_at.as_str())
        invariant
            p <= rows@.len(),
            before == rows.deep_view(),
            forall|i: int|
                0 <= i < p ==> !text_less(
                    (#[trigger] before[i]).started_at,
                    row@.started_at,
                ),
        ensures
            p <= rows@.len(),
            before == rows.deep_view(),
            forall|i: int|
                0 <= i < p ==> !text_less(
                    (#[trigger] before[i]).started_at,
                    row@.started_at,
                ),
            p < rows@.len() ==> text_less(before[p as int].started_at, row@.started_at),
        decreases rows@.len() - p,
    {
        assert(before[p as int] == rows@[p as int]@);
        p += 1;
    }
    rows.insert(p, row);
    proof {
        let after = rows.deep_view();
        assert(after =~= before.insert(p as int, row@));
        assert forall|i: int| p <= i < before.len() implies text_less(
            (#[trigger] before[i]).started_at,
            row@.started_at,
        ) by {
            if i > p {
                let first = before[p as int].started_at;
                assert(!text_less(first, before[i].started_at));
                text_less_total(first, before[i].started_at);
                if before[i].started_at != first {
                    text_less_transitive(before[i].started_at, first, row@.started_at);
                }
            }
        }
        assert forall|i: int, j: int| 0 <= i < j < after.len() implies !text_less(
            (#[trigger] after[i]).started_at,
            (#[trigger] after[j]).started_at,
        ) by {
            if i == p {
                let x = before[j - 1].started_at;
                if text_less(row@.started_at, x) {
                    text_less_transitive(row@.started_at, x, row@.started_at);
                    text_less_irreflexive(row@.started_at);
                }
            } else if j == p {
                assert(after[i] == before[i]);
            } else {
                let bi = if i < p {
                    i
                } else {
                    i - 1
                };
                let bj = if j < p {
                    j
                } else {
                    j - 1
                };
                assert(after[i] == before[bi] && after[j] == before[bj]);
            }
        }
        assert forall|at: Seq<char>| #[trigger] started_then(after, at) == started_then(
            before.push(row@),
            at,
        ) by {
            assert forall|i: int| p <= i < before.len() implies (#[trigger] before[i]).started_at
                != row@.started_at by {
                text_less_irreflexive(row@.started_at);
            }
            filter_of_insert(before, p as int, row@, at);
            filter_of_insert(before, before.len() as int, row@, at);
            assert(before.insert(before.len() as int, row@) =~= before.push(row@));
        }
    }
}

proof fn filter_of_push(rows: Seq<RowView>, x: RowView, at: Seq<char>)
    ensures
        started_then(rows.push(x), at) == (if x.started_at == at {
            started_then(rows, at).push(x)
        } else {
            started_then(rows, at)
        }),
{
    filter_of_insert(rows, rows.len() as int, x, at);
    assert(rows.insert(rows.len() as int, x) =~= rows.push(x));
}

/// Orders rows: the one started last comes first, and rows of one start keep their order.
fn sort_rows(rows: Vec<ListEntry>) -> (out: Vec<ListEntry>)
    ensures
        newest_first(rows.deep_view(), out.deep_view()),
        out@.len() == rows@.len(),
{
    let ghost all = rows.deep_view();
    let mut rest = rows;
    let mut out: Vec<ListEntry> = Vec::new();
    let ghost mut k: int = 0;
    assert(out.deep_view() =~= all.take(0));
    assert(rest.deep_view() =~= all.skip(0));
    while rest.len() > 0
        invariant
            0 <= k <= all.len(),
            rest.deep_view() == all.skip(k),
            out@.len() == k,
            newest_first(all.take(k), out.deep_view()),
        decreases rest@.len(),
    {
        let ghost before = rest.deep_view();
        let ghost sorted = out.deep_view();
        let row = rest.remove(0);
        assert(rest.deep_view() =~= before.remove(0));
        assert(rest.deep_view() =~= all.skip(k + 1));
        assert(row@ == before[0]);
        assert(row@ == all[k]);
        insert_row(&mut out, row);
        proof {
            assert(all.take(k + 1) =~= all.take(k).push(row@));
            assert forall|at: Seq<char>| #[trigger] started_then(out.deep_view(), at)
                == started_then(all.take(k + 1), at) by {
                assert(started_then(sorted, at) == started_then(all.take(k), at));
                filter_of_push(sorted, row@, at);
                filter_of_push(all.take(k), row@, at);
            }
            k = k + 1;
        }
    }
    assert(all.take(k) =~= all);
    out
}

/// The scope of a list: that of the active breadcrumbs where none is given.
pub open spec fn scope_or_active(scope: Option<Seq<char>>) -> Seq<char> {
    match scope {
        Some(s) => s,
        None => "active"@,
    }
}

/// Whether `r` lists, on the day `today`, the breadcrumbs of the scope.
pub open spec fn lists(
    r: ListView,
    keys: Seq<Seq<char>>,
    index: IndexView,
    days: ArchiveWalk,
    scope: Option<Seq<char>>,
    today: int,
) -> bool {
    let scope = scope_or_active(scope);
    &&& r.scope == scope
    &&& r.count == r.breadcrumbs.len()
    &&& newest_first(rows_of_scope(keys, index, days, scope, today), r.breadcrumbs)
}

fn row_of_entry(e: &IndexEntry) -> (r: ListEntry)
    ensures
        r@ == active_row(e@),
{
    ListEntry {
        id: e.id.clone(),
        name: e.name.clone(),
        project_id: copy_option(&e.project_id),
        owner: e.owner.clone(),
        started_at: e.started_at.clone(),
        last_activity_at: e.last_activity_at.clone(),
        steps_completed: None,
        total_steps: None,
        aborted: false,
        active: true,
    }
}

fn row_of_archived(bc: &Breadcrumb) -> (r: ListEntry)
    ensures
        r@ == archived_row(bc@),
{
    assert(bc.step_results.deep_view().len() == bc.step_results@.len());
    ListEntry {
        id: bc.id.clone(),
        name: bc.name.clone(),
        project_id: copy_option(&bc.project_id),
        owner: bc.owner.clone(),
        started_at: bc.started_at.clone(),
        last_activity_at: bc.last_activity_at.clone(),
        steps_completed: Some(bc.step_results.len()),
        total_steps: Some(bc.total_steps),
        aborted: bc.aborted,
        active: false,
    }
}

fn is_listed(rows: &Vec<ListEntry>, id: &str) -> (b: bool)
    ensures
        b == has_row(rows.deep_view(), id@),
{
    for i in 0..rows.len()
        invariant
            forall|j: int| 0 <= j < i ==> (#[trigger] rows.deep_view()[j]).id != id@,
    {
        assert(rows.deep_view()[i as int] == rows@[i as int]@);
        if *rows[i].id.as_str() == *id {
            return true;
        }
    }
    false
}

fn list_files(rows: &mut Vec<ListEntry>, files: &Dir)
    ensures
        final(rows).deep_view() == with_files(old(rows).deep_view(), file_walk(*files)),
{
    let n = files.len();
    let ghost walk = file_walk(*files);
    let ghost first = rows.deep_view();
    assert(walk.take(0) =~= Seq::empty());
    for i in 0..n
        invariant
            n == files.keys().len(),
            walk == file_walk(*files),
            rows.deep_view() == with_files(first, walk.take(i as int)),
    {
        let ghost before = rows.deep_view();
        assert(walk.take(i + 1).drop_last() =~= walk.take(i as int));
        assert(walk.take(i + 1).last() == walk[i as int]);
        if is_extension_of(files.key_at(i).as_str(), "json") {
            match files.value_at(i) {
                FileContent::Parsed(bc) => {
                    if !is_listed(rows, bc.id.as_str()) {
                        let row = row_of_archived(bc);
                        rows.push(row);
                        assert(rows.deep_view() =~= before.push(row@));
                    }
                },
                _ => {},
            }
        }
    }
    assert(walk.take(n as int) =~= walk);
}

/// Whether a list of the given scope reaches back to the directory of `day`; `None` stands for a
/// directory that is not named after a day.
pub fn is_reached(scope: &str, day: Option<i32>, today: i32) -> (b: bool)
    ensures
        b == reaches_day(scope@, day, today as int),
{
    match day {
        Some(day) => if *scope == *"today" {
            day >= today
        } else if *scope == *"week" {
            day as i64 >= today as i64 - 7
        } else {
            true
        },
        None => true,
    }
}

fn list_days(rows: &mut Vec<ListEntry>, completed: &Table<Dir>, scope: &str, today: i32)
    ensures
        final(rows).deep_view() == with_days(
            old(rows).deep_view(),
            archive_walk(*completed),
            scope@,
            today as int,
        ),
        walks_archive(archive_walk(*completed), completed@),
{
    let n = completed.len();
    let ghost walk = archive_walk(*completed);
    let ghost first = rows.deep_view();
    assert(walk.take(0) =~= Seq::empty());
    assert(Seq::new(walk.len(), |i: int| walk[i].0) =~= completed.keys());
    for i in 0..n
        invariant
            n == completed.keys().len(),
            walk == archive_walk(*completed),
            forall|j: int|
                0 <= j < i ==> walks_files((#[trigger] walk[j]).1, completed@[walk[j].0]),
            rows.deep_view() == with_days(first, walk.take(i as int), scope@, today as int),
    {
        assert(walk.take(i + 1).drop_last() =~= walk.take(i as int));
        assert(walk.take(i + 1).last() == walk[i as int]);
        let files: &Dir = completed.value_at(i);
        let _count = files.len();
        proof {
            let met = walk[i as int].1;
            assert(Seq::new(met.len(), |j: int| met[j].0) =~= files.keys());
        }
        if is_reached(scope, named_day(completed.key_at(i).as_str()), today) {
            list_files(rows, files);
        }
    }
    assert(walk.take(n as int) =~= walk);
}

/// List breadcrumbs on the day `today`. scope: "active" (default) | "today" | "week" | "all"
///
/// - "active": reads only the active index (no project files, no archive)
/// - "today"/"week": union of active index + completed archive for the window
/// - "all": active + all of the completed archive
pub fn list_at(t: &Tracker, scope: Option<&str>, today: i32) -> (r: Result<
    ListResponse,
    BreadcrumbError,
>)
    ensures
        r matches Ok(x) && lists(
            x@,
            t.index.keys(),
            t.index@,
            archive_walk(t.storage.completed),
            scope.deep_view(),
            today as int,
        ),
        walks(t.index.keys(), t.index@),
        scope_or_active(scope.deep_view()) != "active"@ ==> walks_archive(
            archive_walk(t.storage.completed),
            t.storage.completed@,
        ),
{
    let scope: &str = match scope {
        Some(s) => s,
        None => "active",
    };
    let n = t.index.len();
    let ghost keys = t.index.keys();
    let ghost index = t.index@;
    let mut rows: Vec<ListEntry> = Vec::new();
    assert(rows.deep_view() =~= active_rows(keys.take(0), index));
    for i in 0..n
        invariant
            n == keys.len(),
            keys == t.index.keys(),
            index == t.index@,
            rows.deep_view() == active_rows(keys.take(i as int), index),
    {
        let ghost before = rows.deep_view();
        let row = row_of_entry(t.index.value_at(i));
        rows.push(row);
        assert(rows.deep_view() =~= before.push(row@));
        assert(rows.deep_view() =~= active_rows(keys.take(i + 1), index));
    }
    assert(keys.take(n as int) =~= keys);
    if *scope != *"active" {
        list_days(&mut rows, &t.storage.completed, scope, today);
    }
    let breadcrumbs = sort_rows(rows);
    Ok(ListResponse { scope: scope.to_owned(), count: breadcrumbs.len(), breadcrumbs })
}

/// List breadcrumbs. scope: "active" (default) | "today" | "week" | "all"
///
/// - "active": reads only the active index (no project files, no archive)
/// - "today"/"week": union of active index + completed archive for the window
/// - "all": active + all of the completed archive
pub fn list(t: &Tracker, scope: Option<&str>) -> (r: Result<ListResponse, BreadcrumbError>)
    ensures
        exists|day: i32|
            {
                &&& #[trigger] valid_day(day as int)
                &&& r matches Ok(x) && lists(
                    x@,
                    t.index.keys(),
                    t.index@,
                    archive_walk(t.storage.completed),
                    scope.deep_view(),
                    day as int,
                )
            },
        walks(t.index.keys(), t.index@),
        scope_or_active(scope.deep_view()) != "active"@ ==> walks_archive(
            archive_walk(t.storage.completed),
            t.storage.completed@,
        ),
{
    let day = today();
    list_at(t, scope, day)
}

}
