//! The active breadcrumbs and their files: what is active in the index reads the same from its own
//! file, and is met by whoever loads all active breadcrumbs.

use vstd::prelude::*;

use crate::clock::Instant;
use crate::error::ErrorView;
use crate::index::project_or_ungrouped;
use crate::laws::files::{removed_is_not_found, write_reads_back};
use crate::laws::tracking::{
    abort_keeps_sound, active_breadcrumb, active_is_located, adopt_keeps_sound,
    complete_keeps_sound, found_in, located_in_project, others_kept, sound,
    start_keeps_sound, step_keeps_sound,
};
use crate::layout::LayoutView;
use crate::reconcile::reconciled;
use crate::schema::{BreadcrumbView, WriterView};
use crate::storage::{breadcrumbs_met, is_json, reading, DirView, FileView};
use crate::table::walks;
use crate::text::{json_name, json_name_has_extension};
use crate::tracker::{
    abort_outcome, adopt_outcome, adopted, complete_outcome, fresh, located, project_of, started,
    step_outcome, stepped, TrackerView,
};

verus! {

/// Whether every active breadcrumb reads the same from its own file.
pub open spec fn files_agree(t: TrackerView) -> bool {
    forall|id: Seq<char>| #[trigger]
        t.index.contains_key(id) ==> (active_breadcrumb(t, id) matches Some(bc) && reading(
            t.storage.active,
            id,
        ) == Ok::<BreadcrumbView, ErrorView>(bc))
}

/// Starting a breadcrumb keeps the files in agreement with the index.
pub proof fn start_keeps_files(
    t: TrackerView,
    id: Seq<char>,
    name: Seq<char>,
    steps: Seq<Seq<char>>,
    project_id: Option<Seq<char>>,
    ctx: WriterView,
    now: Seq<char>,
    auto_started: bool,
)
    requires
        sound(t),
        files_agree(t),
        found_in(project_of(t.projects, project_or_ungrouped(project_id)), id) is None,
    ensures
        files_agree(started(t, fresh(id, name, steps, project_id, ctx, now, auto_started))),
{
    let bc = fresh(id, name, steps, project_id, ctx, now, auto_started);
    let t2 = started(t, bc);
    start_keeps_sound(t, id, name, steps, project_id, ctx, now, auto_started);
    write_reads_back(t.storage.active, bc);
    assert forall|x: Seq<char>| #[trigger] t2.index.contains_key(x) implies (active_breadcrumb(t2, x)
        matches Some(b) && reading(t2.storage.active, x) == Ok::<BreadcrumbView, ErrorView>(b)) by {
        if x != id {
            assert(t.index.contains_key(x));
            assert(active_breadcrumb(t2, x) == active_breadcrumb(t, x));
        }
    }
}

/// A step keeps the files in agreement with the index.
pub proof fn step_keeps_files(
    t: TrackerView,
    result: Seq<char>,
    files_changed: Seq<Seq<char>>,
    id: Option<Seq<char>>,
    ctx: WriterView,
    now: Instant,
)
    requires
        sound(t),
        files_agree(t),
        located(t, id) matches Ok(p) && t.projects[p.1][p.2].current_step < usize::MAX,
    ensures
        step_outcome(t, result, files_changed, id, ctx, now) matches Ok((t2, _)) && files_agree(t2),
{
    step_keeps_sound(t, result, files_changed, id, ctx, now);
    active_is_located(t, id);
    located_in_project(t, id);
    let (x, pid, i) = located(t, id)->Ok_0;
    let t2 = step_outcome(t, result, files_changed, id, ctx, now)->Ok_0.0;
    write_reads_back(
        t.storage.active,
        stepped(t.projects[pid][i], result, files_changed, ctx, now),
    );
    assert forall|y: Seq<char>| #[trigger] t2.index.contains_key(y) implies (active_breadcrumb(t2, y)
        matches Some(b) && reading(t2.storage.active, y) == Ok::<BreadcrumbView, ErrorView>(b)) by {
        if y != x {
            assert(active_breadcrumb(t2, y) == active_breadcrumb(t, y));
            assert(t.index.contains_key(y));
        }
    }
}

/// An adoption keeps the files in agreement with the index.
pub proof fn adopt_keeps_files(
    t: TrackerView,
    l: LayoutView,
    id: Seq<char>,
    ctx: WriterView,
    now: Instant,
    today: i32,
)
    requires
        sound(t),
        files_agree(t),
        t.index.contains_key(id),
    ensures
        adopt_outcome(t, l, id, ctx, now, today) matches Ok((t2, _)) && files_agree(t2),
{
    adopt_keeps_sound(t, l, id, ctx, now, today);
    active_is_located(t, Some(id));
    located_in_project(t, Some(id));
    let (x, pid, i) = located(t, Some(id))->Ok_0;
    let t2 = adopt_outcome(t, l, id, ctx, now, today)->Ok_0.0;
    write_reads_back(t.storage.active, adopted(t.projects[pid][i], ctx, now));
    assert forall|y: Seq<char>| #[trigger] t2.index.contains_key(y) implies (active_breadcrumb(t2, y)
        matches Some(b) && reading(t2.storage.active, y) == Ok::<BreadcrumbView, ErrorView>(b)) by {
        if y != x {
            assert(active_breadcrumb(t2, y) == active_breadcrumb(t, y));
            assert(t.index.contains_key(y));
        }
    }
}

proof fn retirement_keeps_files(t: TrackerView, t2: TrackerView, id: Seq<char>)
    requires
        files_agree(t),
        others_kept(t, t2, id),
        !t2.index.contains_key(id),
        t2.storage.active == t.storage.active.remove(json_name(id)),
    ensures
        files_agree(t2),
{
    removed_is_not_found(t.storage.active, id);
    assert forall|y: Seq<char>| #[trigger] t2.index.contains_key(y) implies (active_breadcrumb(t2, y)
        matches Some(b) && reading(t2.storage.active, y) == Ok::<BreadcrumbView, ErrorView>(b)) by {
        assert(active_breadcrumb(t2, y) == active_breadcrumb(t, y));
        assert(t.index.contains_key(y));
    }
}

/// A completion keeps the files in agreement with the index: the breadcrumb is gone from both.
pub proof fn complete_keeps_files(
    t: TrackerView,
    l: LayoutView,
    summary: Seq<char>,
    id: Option<Seq<char>>,
    ctx: WriterView,
    now: Instant,
    date: Seq<char>,
)
    requires
        sound(t),
        files_agree(t),
        located(t, id) is Ok,
    ensures
        complete_outcome(t, l, summary, id, ctx, now, date) matches Ok((t2, _)) && files_agree(t2)
            && reading(t2.storage.active, located(t, id)->Ok_0.0) is Err,
{
    complete_keeps_sound(t, l, summary, id, ctx, now, date);
    located_in_project(t, id);
    let x = located(t, id)->Ok_0.0;
    let t2 = complete_outcome(t, l, summary, id, ctx, now, date)->Ok_0.0;
    retirement_keeps_files(t, t2, x);
}

/// An abort keeps the files in agreement with the index: the breadcrumb is gone from both.
pub proof fn abort_keeps_files(
    t: TrackerView,
    l: LayoutView,
    reason: Seq<char>,
    id: Option<Seq<char>>,
    ctx: WriterView,
    now: Instant,
    today: i32,
)
    requires
        sound(t),
        files_agree(t),
        located(t, id) is Ok,
    ensures
        abort_outcome(t, l, reason, id, ctx, now, today) matches Ok((t2, _)) && files_agree(t2)
            && reading(t2.storage.active, located(t, id)->Ok_0.0) is Err,
{
    abort_keeps_sound(t, l, reason, id, ctx, now, today);
    located_in_project(t, id);
    let x = located(t, id)->Ok_0.0;
    let t2 = abort_outcome(t, l, reason, id, ctx, now, today)->Ok_0.0;
    retirement_keeps_files(t, t2, x);
}

/// A reconciliation keeps the files in agreement with the index.
pub proof fn reconcile_keeps_files(t: TrackerView, hours: u64, now: Instant)
    requires
        files_agree(t),
    ensures
        files_agree(TrackerView { index: reconciled(t.index, hours, now), ..t }),
{
    let t2 = TrackerView { index: reconciled(t.index, hours, now), ..t };
    assert forall|y: Seq<char>| #[trigger] t2.index.contains_key(y) implies (active_breadcrumb(t2, y)
        matches Some(b) && reading(t2.storage.active, y) == Ok::<BreadcrumbView, ErrorView>(b)) by {
        assert(t.index.contains_key(y));
    }
}

proof fn met_if_held(keys: Seq<Seq<char>>, files: DirView, name: Seq<char>, bc: BreadcrumbView)
    requires
        keys.contains(name),
        is_json(name),
        files[name] == FileView::Parsed(bc),
    ensures
        breadcrumbs_met(keys, files).contains(bc),
    decreases keys.len(),
{
    let met = breadcrumbs_met(keys, files);
    if keys.last() == name {
        assert(met[met.len() - 1] == bc);
    } else {
        let rest = keys.drop_last();
        let before = breadcrumbs_met(rest, files);
        assert(rest[keys.index_of(name)] == name);
        met_if_held(rest, files, name, bc);
        assert(met[before.index_of(bc)] == bc);
    }
}

/// A snapshot of all active breadcrumbs holds every breadcrumb that is active in the index, of
/// whatever project.
pub proof fn snapshot_holds_active(t: TrackerView, keys: Seq<Seq<char>>, id: Seq<char>)
    requires
        files_agree(t),
        walks(keys, t.storage.active),
        t.index.contains_key(id),
        id.len() > 0,
    ensures
        active_breadcrumb(t, id) matches Some(bc) && breadcrumbs_met(
            keys,
            t.storage.active,
        ).contains(bc),
{
    let name = json_name(id);
    json_name_has_extension(id);
    assert(t.storage.active.contains_key(name));
    assert(keys.contains(name));
    met_if_held(keys, t.storage.active, name, active_breadcrumb(t, id)->0);
}

}
