//! Which breadcrumb a request means, and when it is refused.

use vstd::prelude::*;

use crate::archive::{archived_on, archived_since};
use crate::clock::{date_writing, Instant};
use crate::error::ErrorView;
use crate::index::resolved;
use crate::laws::archiving::search_finds_latest;
use crate::laws::tracking::{
    active_breadcrumb, active_is_located, found_in, place_is_first, sound,
};
use crate::layout::LayoutView;
use crate::schema::{BreadcrumbView, WriterView};
use crate::storage::{DirView, FileView};
use crate::tracker::{
    abort_outcome, backup_outcome, complete_outcome, first_at, located, project_of, step_outcome,
    ProjectsView, TrackerView,
};

verus! {

/// Whether the breadcrumb `id` is active and its record stands at place `i` of the project `pid`:
/// the index has an entry for it, `pid` is the project of the entry or `_ungrouped`, and `i` is the
/// first place there with the identifier.
pub open spec fn stands_at(t: TrackerView, id: Seq<char>, pid: Seq<char>, i: int) -> bool {
    &&& t.index.contains_key(id)
    &&& t.index[id].project_id matches Some(p) ==> pid == p
    &&& t.index[id].project_id is None ==> pid == "_ungrouped"@
    &&& t.projects.contains_key(pid)
    &&& 0 <= i < t.projects[pid].len()
    &&& t.projects[pid][i].id == id
    &&& forall|j: int| 0 <= j < i ==> (#[trigger] t.projects[pid][j]).id != id
}

/// Whether a request means the breadcrumb `id`: it names it, or it names none and no other one is
/// active.
pub open spec fn means(t: TrackerView, request: Option<Seq<char>>, id: Seq<char>) -> bool {
    match request {
        Some(x) => x == id,
        None => t.index.dom() == set![id],
    }
}

/// A request that names an active breadcrumb finds its record, and so does one that names none while
/// it is the only one that is active.
pub proof fn request_finds_breadcrumb(
    t: TrackerView,
    request: Option<Seq<char>>,
    id: Seq<char>,
    pid: Seq<char>,
    i: int,
)
    requires
        stands_at(t, id, pid, i),
        means(t, request, id),
    ensures
        located(t, request) == Ok::<(Seq<char>, Seq<char>, int), ErrorView>((id, pid, i)),
        located(t, Some(id)) == Ok::<(Seq<char>, Seq<char>, int), ErrorView>((id, pid, i)),
        resolved(t.index, request) == Ok::<(Seq<char>, Seq<char>), ErrorView>((id, pid)),
        resolved(t.index, Some(id)) == Ok::<(Seq<char>, Seq<char>), ErrorView>((id, pid)),
{
    let bcs = project_of(t.projects, pid);
    assert(bcs == t.projects[pid]);
    assert(first_at(bcs, id, i));
    place_is_first(bcs, id, i);
    if request is None {
        assert(t.index.dom().len() == 1);
        assert(t.index.dom().contains(t.index.dom().choose()));
    }
}

/// In a sound tracker every active breadcrumb has its record where its entry says.
pub proof fn active_stands(t: TrackerView, id: Seq<char>)
    requires
        sound(t),
        t.index.contains_key(id),
    ensures
        ({
            let p = located(t, Some(id))->Ok_0;
            &&& stands_at(t, id, p.1, p.2)
            &&& active_breadcrumb(t, id) == Some(t.projects[p.1][p.2])
        }),
{
    active_is_located(t, Some(id));
    let p = located(t, Some(id))->Ok_0;
    place_is_first(project_of(t.projects, p.1), id, p.2);
}

/// What stands where the entry says is the active breadcrumb.
pub proof fn standing_is_active(t: TrackerView, id: Seq<char>, pid: Seq<char>, i: int)
    requires
        stands_at(t, id, pid, i),
    ensures
        active_breadcrumb(t, id) == Some(t.projects[pid][i]),
{
    request_finds_breadcrumb(t, Some(id), id, pid, i);
    assert(found_in(t.projects[pid], id) == Some(t.projects[pid][i]));
}

/// Whether `bc` is archived under the identifier `id` on `day`: the directory of that day has a file
/// named after the identifier, with the extension `json`, that holds it.
pub open spec fn kept_on(
    completed: Map<Seq<char>, DirView>,
    day: int,
    id: Seq<char>,
    bc: BreadcrumbView,
) -> bool {
    &&& -95_746_129 <= day <= 95_745_399
    &&& completed.contains_key(date_writing(day as i32))
    &&& completed[date_writing(day as i32)].contains_key(id + ".json"@)
    &&& completed[date_writing(day as i32)][id + ".json"@] == FileView::Parsed(bc)
}

/// A look into the archive of a day finds what is kept there under the identifier.
pub proof fn archive_shows_what_is_kept(
    completed: Map<Seq<char>, DirView>,
    day: int,
    id: Seq<char>,
    bc: BreadcrumbView,
)
    ensures
        archived_on(completed, id, day) == Some(bc) <==> kept_on(completed, day, id, bc),
{
}

/// A search of the last seven days finds what is kept on the last day that keeps the breadcrumb.
pub proof fn search_finds_last_day(
    completed: Map<Seq<char>, DirView>,
    id: Seq<char>,
    today: int,
    ago: int,
    bc: BreadcrumbView,
)
    requires
        0 <= ago <= 7,
        kept_on(completed, today - ago, id, bc),
        forall|k: int, other: BreadcrumbView|
            0 <= k < ago ==> !#[trigger] kept_on(completed, today - k, id, other),
    ensures
        archived_since(completed, id, today, 0, 7) == Some(
            (bc, date_writing((today - ago) as i32)),
        ),
{
    search_finds_latest(completed, id, today, 0, 7);
    archive_shows_what_is_kept(completed, today - ago, id, bc);
    assert(archived_on(completed, id, today - ago) is Some);
    let (found, date) = archived_since(completed, id, today, 0, 7)->0;
    let k = choose|k: int|
        {
            &&& 0 <= k <= 7
            &&& #[trigger] archived_on(completed, id, today - k) == Some(found)
            &&& date == date_writing((today - k) as i32)
            &&& forall|j: int| 0 <= j < k ==> (#[trigger] archived_on(completed, id, today - j)) is None
        };
    archive_shows_what_is_kept(completed, today - k, id, found);
    if k > ago {
        assert(archived_on(completed, id, today - ago) is None);
    }
    assert(k == ago);
}

/// Where no day of the last seven keeps the breadcrumb, a search finds nothing.
pub proof fn nothing_kept(completed: Map<Seq<char>, DirView>, id: Seq<char>, today: int)
    requires
        forall|ago: int, bc: BreadcrumbView|
            0 <= ago <= 7 ==> !#[trigger] kept_on(completed, today - ago, id, bc),
    ensures
        archived_since(completed, id, today, 0, 7) is None,
{
    search_finds_latest(completed, id, today, 0, 7);
    if archived_since(completed, id, today, 0, 7) is Some {
        let k = choose|k: int|
            0 <= k <= 7 && (#[trigger] archived_on(completed, id, today - k)) is Some;
        let bc = archived_on(completed, id, today - k)->0;
        archive_shows_what_is_kept(completed, today - k, id, bc);
    }
}

/// A request that names a breadcrumb that is not active is refused as not found, and so is one for an
/// entry without a record. A request that names none is refused where none is active, and where
/// several are, with their number. Nothing else is refused. Of an abort this is said where the archive
/// does not know the breadcrumb either.
pub proof fn requests_are_refused(
    t: TrackerView,
    l: LayoutView,
    text: Seq<char>,
    files_changed: Seq<Seq<char>>,
    request: Option<Seq<char>>,
    ctx: WriterView,
    now: Instant,
    today: i32,
    date: Seq<char>,
    moment: Seq<char>,
    e: ErrorView,
)
    requires
        t.index.dom().finite(),
        match request {
            Some(x) => e == (ErrorView::NotFound { id: x }) && forall|pid: Seq<char>, i: int|
                !#[trigger] stands_at(t, x, pid, i),
            None => t.index.dom().len() != 1 && e == (if t.index.dom().len() == 0 {
                ErrorView::NoActive
            } else {
                ErrorView::Ambiguous { count: t.index.dom().len() }
            }),
        },
    ensures
        step_outcome(t, text, files_changed, request, ctx, now) matches Err(x) && x == e,
        complete_outcome(t, l, text, request, ctx, now, date) matches Err(x) && x == e,
        backup_outcome(t, l, request, moment) matches Err(x) && x == e,
        (request matches Some(x) ==> t.index.contains_key(x) || forall|ago: int, bc: BreadcrumbView|
            0 <= ago <= 7 ==> !#[trigger] kept_on(t.storage.completed, today - ago, x, bc)) ==> (
        abort_outcome(t, l, text, request, ctx, now, today) matches Err(x) && x == e),
{
    if request is Some && !t.index.contains_key(request->0) && (forall|ago: int, bc: BreadcrumbView|
        0 <= ago <= 7 ==> !#[trigger] kept_on(t.storage.completed, today - ago, request->0, bc)) {
        nothing_kept(t.storage.completed, request->0, today as int);
    }
    if let Ok((x, pid, i)) = located(t, request) {
        place_is_first(project_of(t.projects, pid), x, i);
        assert(stands_at(t, x, pid, i));
    }
}

/// A project shows its records, in order; none where there is no such project.
pub proof fn projects_show_their_records(projects: ProjectsView, pid: Seq<char>)
    ensures
        projects.contains_key(pid) ==> project_of(projects, pid) == projects[pid],
        !projects.contains_key(pid) ==> project_of(projects, pid).len() == 0,
{
}

}
