//! What start, step, complete, abort and adopt keep, and what they leave alone.

use vstd::prelude::*;

use crate::clock::{date_writing, stamp, Instant};
use crate::error::ErrorView;
use crate::index::{project_or_ungrouped, resolved};
use crate::layout::LayoutView;
use crate::response::AbortView;
use crate::schema::{BreadcrumbView, StepResultView, WriterView};
use crate::text::{decimal, json_name, json_name_injective};
use crate::tracker::{
    abort_outcome, aborted, adopt_outcome, adopted, complete_outcome, completed, entry_of, filed,
    first_at, fresh, located, place_of, project_of, retired, started, step_outcome, stepped,
    taken_in, TrackerView,
};

verus! {

// ---- Breadcrumbs in a project -------------------------------------------------------------

/// The first breadcrumb of a project with the identifier `id`.
pub open spec fn found_in(bcs: Seq<BreadcrumbView>, id: Seq<char>) -> Option<BreadcrumbView> {
    match place_of(bcs, id) {
        Some(i) => Some(bcs[i]),
        None => None,
    }
}

/// A place is the first with an identifier exactly if it is the one that a search finds.
pub proof fn place_is_first(bcs: Seq<BreadcrumbView>, id: Seq<char>, i: int)
    ensures
        first_at(bcs, id, i) <==> place_of(bcs, id) == Some(i),
{
    if first_at(bcs, id, i) {
        let k = choose|k: int| first_at(bcs, id, k);
        assert(first_at(bcs, id, k));
        if k < i {
            assert(bcs[k].id != id);
        } else if i < k {
            assert(bcs[i].id != id);
        }
    }
}

proof fn place_exists(bcs: Seq<BreadcrumbView>, id: Seq<char>, i: int)
    requires
        0 <= i < bcs.len(),
        bcs[i].id == id,
    ensures
        place_of(bcs, id) matches Some(k) && 0 <= k <= i && first_at(bcs, id, k),
    decreases i,
{
    if exists|j: int| 0 <= j < i && (#[trigger] bcs[j]).id == id {
        let j = choose|j: int| 0 <= j < i && (#[trigger] bcs[j]).id == id;
        place_exists(bcs, id, j);
    } else {
        assert(first_at(bcs, id, i));
        place_is_first(bcs, id, i);
    }
}

pub proof fn found_after_update(bcs: Seq<BreadcrumbView>, i: int, x: BreadcrumbView, id: Seq<char>)
    requires
        0 <= i < bcs.len(),
        x.id == bcs[i].id,
        place_of(bcs, x.id) == Some(i),
    ensures
        found_in(bcs.update(i, x), id) == (if id == x.id {
            Some(x)
        } else {
            found_in(bcs, id)
        }),
        place_of(bcs.update(i, x), id) == place_of(bcs, id),
{
    let after = bcs.update(i, x);
    assert(forall|j: int| 0 <= j < bcs.len() ==> (#[trigger] after[j]).id == bcs[j].id);
    assert forall|k: int| first_at(after, id, k) <==> first_at(bcs, id, k) by {
        if first_at(after, id, k) {
            assert forall|j: int| 0 <= j < k implies (#[trigger] bcs[j]).id != id by {
                assert(after[j].id != id);
            }
        }
    }
    match place_of(bcs, id) {
        Some(k) => {
            place_is_first(bcs, id, k);
            place_is_first(after, id, k);
            if id != x.id {
                assert(k != i);
            }
        },
        None => {
            if let Some(k) = place_of(after, id) {
                place_is_first(after, id, k);
                place_is_first(bcs, id, k);
            }
        },
    }
}

/// Removing a breadcrumb from a project does not change what is found under other identifiers.
pub proof fn found_after_remove(bcs: Seq<BreadcrumbView>, i: int, id: Seq<char>)
    requires
        0 <= i < bcs.len(),
        bcs[i].id != id,
    ensures
        found_in(bcs.remove(i), id) == found_in(bcs, id),
{
    let after = bcs.remove(i);
    match place_of(bcs, id) {
        Some(k) => {
            place_is_first(bcs, id, k);
            let k2 = if k < i {
                k
            } else {
                k - 1
            };
            assert(after[k2] == bcs[k]);
            assert forall|j: int| 0 <= j < k2 implies (#[trigger] after[j]).id != id by {
                if j < i {
                    assert(after[j] == bcs[j]);
                } else {
                    assert(after[j] == bcs[j + 1]);
                }
            }
            assert(first_at(after, id, k2));
            place_is_first(after, id, k2);
        },
        None => {
            if let Some(k) = place_of(after, id) {
                place_is_first(after, id, k);
                let k2 = if k < i {
                    k
                } else {
                    k + 1
                };
                assert(bcs[k2] == after[k]);
                place_exists(bcs, id, k2);
            }
        },
    }
}

pub proof fn found_after_push(bcs: Seq<BreadcrumbView>, x: BreadcrumbView, id: Seq<char>)
    ensures
        found_in(bcs.push(x), id) == (if found_in(bcs, id) is None && id == x.id {
            Some(x)
        } else {
            found_in(bcs, id)
        }),
{
    let after = bcs.push(x);
    match place_of(bcs, id) {
        Some(k) => {
            place_is_first(bcs, id, k);
            assert(after[k] == bcs[k]);
            assert(first_at(after, id, k));
            place_is_first(after, id, k);
        },
        None => {
            if id == x.id {
                assert forall|j: int| 0 <= j < bcs.len() implies (#[trigger] after[j]).id != id by {
                    assert(after[j] == bcs[j]);
                    if bcs[j].id == id {
                        place_exists(bcs, id, j);
                    }
                }
                assert(first_at(after, id, bcs.len() as int));
                place_is_first(after, id, bcs.len() as int);
            } else if let Some(k) = place_of(after, id) {
                place_is_first(after, id, k);
                assert(k < bcs.len());
                assert(after[k] == bcs[k]);
                place_exists(bcs, id, k);
            }
        },
    }
}

// ---- The invariant ------------------------------------------------------------------------

/// The name of step `i` of a breadcrumb with the given steps.
pub open spec fn step_name(steps: Seq<Seq<char>>, i: int) -> Seq<char> {
    if i < steps.len() {
        steps[i]
    } else {
        "step_"@ + decimal((i + 1) as nat)
    }
}

/// All the files that the given steps changed, in order.
pub open spec fn files_of(results: Seq<StepResultView>) -> Seq<Seq<char>>
    decreases results.len(),
{
    if results.len() == 0 {
        Seq::empty()
    } else {
        files_of(results.drop_last()) + results.last().files_changed
    }
}

/// Whether a breadcrumb under way is in order: it has one record for each completed step, numbered
/// and named as the steps are; its changed files are those of its steps; and it is not aborted.
pub open spec fn in_order(bc: BreadcrumbView) -> bool {
    &&& bc.step_results.len() == bc.current_step
    &&& forall|i: int|
        0 <= i < bc.step_results.len() ==> (#[trigger] bc.step_results[i]).step_idx == i
            && bc.step_results[i].step_name == step_name(bc.steps, i)
    &&& bc.files_changed == files_of(bc.step_results)
    &&& !bc.aborted
    &&& bc.abort_reason is None
}

/// The breadcrumb that is active under `id`.
pub open spec fn active_breadcrumb(t: TrackerView, id: Seq<char>) -> Option<BreadcrumbView> {
    if t.index.contains_key(id) {
        found_in(project_of(t.projects, project_or_ungrouped(t.index[id].project_id)), id)
    } else {
        None
    }
}

/// Whether the tracker is sound: each entry of the index is that of an active breadcrumb, and all
/// breadcrumbs under way are in order.
pub open spec fn sound(t: TrackerView) -> bool {
    &&& t.index.dom().finite()
    &&& forall|id: Seq<char>| #[trigger]
        t.index.contains_key(id) ==> (active_breadcrumb(t, id) matches Some(bc) && entry_of(bc)
            == t.index[id])
    &&& forall|pid: Seq<char>, i: int|
        t.projects.contains_key(pid) && 0 <= i < t.projects[pid].len() ==> in_order(
            #[trigger] t.projects[pid][i],
        )
}

/// Whether nothing but the breadcrumb `id` differs between two trackers.
pub open spec fn others_kept(t: TrackerView, t2: TrackerView, id: Seq<char>) -> bool {
    forall|x: Seq<char>|
        x != id ==> (t2.index.contains_key(x) <==> t.index.contains_key(x)) && (
        t.index.contains_key(x) ==> t2.index[x] == t.index[x]) && #[trigger] active_breadcrumb(t2, x)
            == active_breadcrumb(t, x)
}

/// In a sound tracker, every entry of the index leads to its breadcrumb: naming an active
/// breadcrumb always works, and naming none works exactly when one breadcrumb is active.
pub proof fn active_is_located(t: TrackerView, id: Option<Seq<char>>)
    requires
        sound(t),
    ensures
        id matches Some(x) ==> if t.index.contains_key(x) {
            located(t, id) matches Ok(p) && p.0 == x
        } else {
            located(t, id) == Err::<(Seq<char>, Seq<char>, int), ErrorView>(
                ErrorView::NotFound { id: x },
            )
        },
        id is None ==> (located(t, id) is Ok <==> t.index.len() == 1),
        id is None && t.index.len() == 0 ==> located(t, id) == Err::<
            (Seq<char>, Seq<char>, int),
            ErrorView,
        >(ErrorView::NoActive),
        id is None && t.index.len() > 1 ==> located(t, id) == Err::<
            (Seq<char>, Seq<char>, int),
            ErrorView,
        >(ErrorView::Ambiguous { count: t.index.len() }),
        located(t, id) matches Ok(p) ==> t.index.contains_key(p.0) && active_breadcrumb(t, p.0)
            == Some(t.projects[p.1][p.2]),
{
    match resolved(t.index, id) {
        Ok((x, pid)) => {
            assert(t.index.contains_key(x)) by {
                if id is None {
                    assert(t.index.dom().len() == 1);
                    assert(t.index.dom().contains(t.index.dom().choose()));
                }
            }
            assert(active_breadcrumb(t, x) is Some);
            let i = place_of(project_of(t.projects, pid), x)->0;
            place_is_first(project_of(t.projects, pid), x, i);
        },
        Err(_) => {},
    }
}

/// A breadcrumb that is located stands in its project, under the identifier that was resolved.
pub proof fn located_in_project(t: TrackerView, id: Option<Seq<char>>)
    requires
        located(t, id) is Ok,
    ensures
        ({
            let p = located(t, id)->Ok_0;
            &&& t.projects.contains_key(p.1)
            &&& 0 <= p.2 < t.projects[p.1].len()
            &&& t.projects[p.1][p.2].id == p.0
        }),
{
    let (x, pid, i) = located(t, id)->Ok_0;
    place_is_first(project_of(t.projects, pid), x, i);
}

/// In a sound tracker, every entry of the index stands under its own identifier.
pub proof fn entries_stand_under_ids(t: TrackerView, id: Seq<char>)
    requires
        sound(t),
        t.index.contains_key(id),
    ensures
        t.index[id].id == id,
{
    active_is_located(t, Some(id));
    located_in_project(t, Some(id));
}

// ---- What the operations keep -------------------------------------------------------------

/// A tracker that keeps nothing is sound.
pub proof fn empty_tracker_is_sound(t: TrackerView)
    requires
        t.index.is_empty(),
        t.projects.is_empty(),
    ensures
        sound(t),
{
    assert(t.index.dom() =~= Set::<Seq<char>>::empty());
}

/// A breadcrumb that is started under an identifier that its project does not hold yet is active
/// from then on; the tracker stays sound, and no other breadcrumb is touched.
pub proof fn start_keeps_sound(
    t: TrackerView,
    id: Seq<char>,
    name: Seq<char>,
    steps: Seq<Seq<char>>,
    project_id: Option<Seq<char>>,
    ctx: WriterView,
    now: Seq<char>,
    auto_started: bool,
)
    requires
        sound(t),
        found_in(project_of(t.projects, project_or_ungrouped(project_id)), id) is None,
    ensures
        ({
            let bc = fresh(id, name, steps, project_id, ctx, now, auto_started);
            let t2 = started(t, bc);
            &&& sound(t2)
            &&& active_breadcrumb(t2, id) == Some(bc)
            &&& others_kept(t, t2, id)
            &&& t2.storage.completed == t.storage.completed
        }),
{
    let bc = fresh(id, name, steps, project_id, ctx, now, auto_started);
    let t2 = started(t, bc);
    let pid = project_or_ungrouped(project_id);
    let bcs = project_of(t.projects, pid);
    assert(in_order(bc));
    found_after_push(bcs, bc, id);
    assert forall|x: Seq<char>| x != id implies #[trigger] active_breadcrumb(t2, x)
        == active_breadcrumb(t, x) by {
        found_after_push(bcs, bc, x);
    }
    assert forall|x: Seq<char>| #[trigger] t2.index.contains_key(x) implies (active_breadcrumb(t2, x)
        matches Some(b) && entry_of(b) == t2.index[x]) by {
        if x != id {
            assert(t.index.contains_key(x));
            assert(active_breadcrumb(t2, x) == active_breadcrumb(t, x));
        }
    }
    assert forall|p: Seq<char>, i: int|
        t2.projects.contains_key(p) && 0 <= i < t2.projects[p].len() implies in_order(
        #[trigger] t2.projects[p][i],
    ) by {
        if p == pid {
            if i < bcs.len() {
                assert(t2.projects[p][i] == t.projects[p][i]);
            }
        } else {
            assert(t2.projects[p][i] == t.projects[p][i]);
        }
    }
}

/// The only breadcrumb that was started needs no name: a request that names none means it.
pub proof fn single_start_needs_no_id(
    t: TrackerView,
    id: Seq<char>,
    name: Seq<char>,
    steps: Seq<Seq<char>>,
    project_id: Option<Seq<char>>,
    ctx: WriterView,
    now: Seq<char>,
    auto_started: bool,
)
    requires
        sound(t),
        t.index.is_empty(),
        found_in(project_of(t.projects, project_or_ungrouped(project_id)), id) is None,
    ensures
        ({
            let bc = fresh(id, name, steps, project_id, ctx, now, auto_started);
            let t2 = started(t, bc);
            located(t2, None) matches Ok(p) && p.0 == id && t2.projects[p.1][p.2] == bc
        }),
{
    start_keeps_sound(t, id, name, steps, project_id, ctx, now, auto_started);
    let bc = fresh(id, name, steps, project_id, ctx, now, auto_started);
    let t2 = started(t, bc);
    assert(t.index.dom() =~= Set::<Seq<char>>::empty());
    assert(t2.index.dom() =~= Set::<Seq<char>>::empty().insert(id));
    assert(t2.index.len() == 1);
    active_is_located(t2, None);
}

/// The tracker with the breadcrumb at place `i` of `pid` replaced by `next`, in its project and in
/// the index.
spec fn replaced(t: TrackerView, pid: Seq<char>, i: int, next: BreadcrumbView) -> TrackerView {
    TrackerView {
        index: t.index.insert(next.id, entry_of(next)),
        projects: t.projects.insert(pid, t.projects[pid].update(i, next)),
        storage: filed(t.storage, next),
    }
}

proof fn replacement_keeps_sound(
    t: TrackerView,
    id: Option<Seq<char>>,
    next: BreadcrumbView,
)
    requires
        sound(t),
        located(t, id) matches Ok(p) && next.id == p.0 && next.project_id
            == t.projects[p.1][p.2].project_id && in_order(next),
    ensures
        ({
            let p = located(t, id)->Ok_0;
            let t2 = replaced(t, p.1, p.2, next);
            &&& sound(t2)
            &&& active_breadcrumb(t2, p.0) == Some(next)
            &&& others_kept(t, t2, p.0)
        }),
{
    active_is_located(t, id);
    let (x, pid, i) = located(t, id)->Ok_0;
    let t2 = replaced(t, pid, i, next);
    let bcs = t.projects[pid];
    place_is_first(project_of(t.projects, pid), x, i);
    assert(t.projects.contains_key(pid));
    assert(bcs[i].id == x);
    assert(entry_of(bcs[i]) == t.index[x]);
    assert(project_or_ungrouped(next.project_id) == pid);
    found_after_update(bcs, i, next, x);
    assert(t2.projects[pid] == bcs.update(i, next));
    assert(active_breadcrumb(t2, x) == Some(next));
    assert forall|y: Seq<char>| y != x implies #[trigger] active_breadcrumb(t2, y)
        == active_breadcrumb(t, y) by {
        found_after_update(bcs, i, next, y);
    }
    assert forall|y: Seq<char>| #[trigger] t2.index.contains_key(y) implies (active_breadcrumb(t2, y)
        matches Some(b) && entry_of(b) == t2.index[y]) by {
        if y != x {
            assert(t.index.contains_key(y));
            assert(active_breadcrumb(t2, y) == active_breadcrumb(t, y));
        }
    }
    assert forall|p: Seq<char>, j: int|
        t2.projects.contains_key(p) && 0 <= j < t2.projects[p].len() implies in_order(
        #[trigger] t2.projects[p][j],
    ) by {
        if p != pid || j != i {
            assert(t2.projects[p][j] == t.projects[p][j]);
        }
    }
}

proof fn retirement_keeps_sound(
    t: TrackerView,
    id: Option<Seq<char>>,
    bc: BreadcrumbView,
    date: Seq<char>,
)
    requires
        sound(t),
        located(t, id) matches Ok(p) && bc.id == p.0,
    ensures
        ({
            let p = located(t, id)->Ok_0;
            let t2 = retired(t, p.1, p.2, bc, date);
            &&& sound(t2)
            &&& !t2.index.contains_key(p.0)
            &&& others_kept(t, t2, p.0)
        }),
{
    active_is_located(t, id);
    let (x, pid, i) = located(t, id)->Ok_0;
    let t2 = retired(t, pid, i, bc, date);
    let bcs = t.projects[pid];
    place_is_first(project_of(t.projects, pid), x, i);
    assert(bcs[i].id == x);
    assert(t2.projects[pid] == bcs.remove(i));
    assert forall|y: Seq<char>| y != x implies #[trigger] active_breadcrumb(t2, y)
        == active_breadcrumb(t, y) by {
        found_after_remove(bcs, i, y);
    }
    assert forall|y: Seq<char>| #[trigger] t2.index.contains_key(y) implies (active_breadcrumb(t2, y)
        matches Some(b) && entry_of(b) == t2.index[y]) by {
        assert(t.index.contains_key(y));
        assert(active_breadcrumb(t2, y) == active_breadcrumb(t, y));
    }
    assert forall|p: Seq<char>, j: int|
        t2.projects.contains_key(p) && 0 <= j < t2.projects[p].len() implies in_order(
        #[trigger] t2.projects[p][j],
    ) by {
        if p != pid || j < i {
            assert(t2.projects[p][j] == t.projects[p][j]);
        } else {
            assert(t2.projects[p][j] == t.projects[p][j + 1]);
        }
    }
}

proof fn step_keeps_order(
    bc: BreadcrumbView,
    result: Seq<char>,
    files_changed: Seq<Seq<char>>,
    ctx: WriterView,
    now: Instant,
)
    requires
        in_order(bc),
        bc.current_step < usize::MAX,
    ensures
        in_order(stepped(bc, result, files_changed, ctx, now)),
{
    let next = stepped(bc, result, files_changed, ctx, now);
    assert(next.step_results.drop_last() =~= bc.step_results);
    assert forall|i: int| 0 <= i < next.step_results.len() implies (
    #[trigger] next.step_results[i]).step_idx == i && next.step_results[i].step_name == step_name(
        next.steps,
        i,
    ) by {
        if i < bc.step_results.len() {
            assert(next.step_results[i] == bc.step_results[i]);
        }
    }
}

/// A step that is carried out advances its breadcrumb by one step and records it; the tracker
/// stays sound, and no other breadcrumb is touched.
pub proof fn step_keeps_sound(
    t: TrackerView,
    result: Seq<char>,
    files_changed: Seq<Seq<char>>,
    id: Option<Seq<char>>,
    ctx: WriterView,
    now: Instant,
)
    requires
        sound(t),
        located(t, id) matches Ok(p) && t.projects[p.1][p.2].current_step < usize::MAX,
    ensures
        ({
            let x = located(t, id)->Ok_0.0;
            let bc = active_breadcrumb(t, x)->0;
            let next = stepped(bc, result, files_changed, ctx, now);
            &&& active_breadcrumb(t, x) is Some
            &&& step_outcome(t, result, files_changed, id, ctx, now) matches Ok((t2, answer)) && {
                &&& sound(t2)
                &&& active_breadcrumb(t2, x) == Some(next)
                &&& others_kept(t, t2, x)
                &&& t2.storage.completed == t.storage.completed
                &&& answer.breadcrumb_id == x
                &&& answer.step_completed == step_name(bc.steps, bc.current_step as int)
                &&& answer.current == bc.current_step + 1
                &&& answer.current <= bc.total_steps ==> answer.current + answer.remaining
                    == bc.total_steps
            }
        }),
{
    active_is_located(t, id);
    let (x, pid, i) = located(t, id)->Ok_0;
    let bc = t.projects[pid][i];
    place_is_first(project_of(t.projects, pid), x, i);
    assert(in_order(t.projects[pid][i]));
    step_keeps_order(bc, result, files_changed, ctx, now);
    let next = stepped(bc, result, files_changed, ctx, now);
    replacement_keeps_sound(t, id, next);
    assert(entry_of(bc) == t.index[x]);
    let t2 = step_outcome(t, result, files_changed, id, ctx, now)->Ok_0.0;
    assert(t2.index =~= replaced(t, pid, i, next).index);
    assert(t2 == replaced(t, pid, i, next));
}

/// An adoption that is carried out passes its breadcrumb to the new owner, who becomes its writer,
/// and leaves its progress alone; the tracker stays sound, and no other breadcrumb is touched.
pub proof fn adopt_keeps_sound(
    t: TrackerView,
    l: LayoutView,
    id: Seq<char>,
    ctx: WriterView,
    now: Instant,
    today: i32,
)
    requires
        sound(t),
        t.index.contains_key(id),
    ensures
        ({
            let bc = active_breadcrumb(t, id)->0;
            &&& active_breadcrumb(t, id) is Some
            &&& adopt_outcome(t, l, id, ctx, now, today) matches Ok((t2, answer)) && {
                &&& sound(t2)
                &&& active_breadcrumb(t2, id) == Some(adopted(bc, ctx, now))
                &&& others_kept(t, t2, id)
                &&& t2.storage.completed == t.storage.completed
                &&& answer.new_owner == ctx.actor
                &&& answer.prev_owner == bc.owner
            }
        }),
{
    active_is_located(t, Some(id));
    let (x, pid, i) = located(t, Some(id))->Ok_0;
    let bc = t.projects[pid][i];
    place_is_first(project_of(t.projects, pid), x, i);
    assert(in_order(t.projects[pid][i]));
    let next = adopted(bc, ctx, now);
    assert(in_order(next));
    replacement_keeps_sound(t, Some(id), next);
    assert(entry_of(bc) == t.index[x]);
    let t2 = adopt_outcome(t, l, id, ctx, now, today)->Ok_0.0;
    assert(t2.index =~= replaced(t, pid, i, next).index);
    assert(t2 == replaced(t, pid, i, next));
}

/// A completion that is carried out takes its breadcrumb out of the active ones; the tracker stays
/// sound, and no other breadcrumb is touched.
pub proof fn complete_keeps_sound(
    t: TrackerView,
    l: LayoutView,
    summary: Seq<char>,
    id: Option<Seq<char>>,
    ctx: WriterView,
    now: Instant,
    date: Seq<char>,
)
    requires
        sound(t),
        located(t, id) is Ok,
    ensures
        ({
            let x = located(t, id)->Ok_0.0;
            complete_outcome(t, l, summary, id, ctx, now, date) matches Ok((t2, answer)) && {
                &&& sound(t2)
                &&& !t2.index.contains_key(x)
                &&& others_kept(t, t2, x)
                &&& answer.id == x
            }
        }),
{
    let (x, pid, i) = located(t, id)->Ok_0;
    place_is_first(project_of(t.projects, pid), x, i);
    retirement_keeps_sound(t, id, completed(t.projects[pid][i], ctx, now), date);
}

/// An abort of an active breadcrumb takes it out of the active ones; the tracker stays sound, and
/// no other breadcrumb is touched.
pub proof fn abort_keeps_sound(
    t: TrackerView,
    l: LayoutView,
    reason: Seq<char>,
    id: Option<Seq<char>>,
    ctx: WriterView,
    now: Instant,
    today: i32,
)
    requires
        sound(t),
        located(t, id) is Ok,
    ensures
        ({
            let x = located(t, id)->Ok_0.0;
            abort_outcome(t, l, reason, id, ctx, now, today) matches Ok((t2, answer)) && {
                &&& sound(t2)
                &&& !t2.index.contains_key(x)
                &&& others_kept(t, t2, x)
                &&& answer matches AbortView::Aborted { id: y, .. } && y == x
            }
        }),
{
    let (x, pid, i) = located(t, id)->Ok_0;
    place_is_first(project_of(t.projects, pid), x, i);
    retirement_keeps_sound(
        t,
        id,
        aborted(t.projects[pid][i], reason, ctx, now),
        date_writing(today),
    );
}

/// A breadcrumb that is taken in is active from then on, as it was, and no other breadcrumb is
/// touched. If it is in order, the tracker stays sound.
pub proof fn taken_in_is_active(t: TrackerView, bc: BreadcrumbView)
    requires
        sound(t),
    ensures
        active_breadcrumb(taken_in(t, bc), bc.id) == Some(bc),
        others_kept(t, taken_in(t, bc), bc.id),
        in_order(bc) ==> sound(taken_in(t, bc)),
{
    let t2 = taken_in(t, bc);
    let pid = project_or_ungrouped(bc.project_id);
    let bcs = project_of(t.projects, pid);
    if let Some(i) = place_of(bcs, bc.id) {
        place_is_first(bcs, bc.id, i);
        found_after_update(bcs, i, bc, bc.id);
    } else {
        found_after_push(bcs, bc, bc.id);
    }
    assert forall|x: Seq<char>| x != bc.id implies #[trigger] active_breadcrumb(t2, x)
        == active_breadcrumb(t, x) by {
        if let Some(i) = place_of(bcs, bc.id) {
            found_after_update(bcs, i, bc, x);
        } else {
            found_after_push(bcs, bc, x);
        }
    }
    if in_order(bc) {
        assert forall|x: Seq<char>| #[trigger] t2.index.contains_key(x) implies (active_breadcrumb(
            t2,
            x,
        ) matches Some(b) && entry_of(b) == t2.index[x]) by {
            if x != bc.id {
                assert(t.index.contains_key(x));
                assert(active_breadcrumb(t2, x) == active_breadcrumb(t, x));
            }
        }
        assert forall|p: Seq<char>, j: int|
            t2.projects.contains_key(p) && 0 <= j < t2.projects[p].len() implies in_order(
            #[trigger] t2.projects[p][j],
        ) by {
            if p != pid {
                assert(t2.projects[p][j] == t.projects[p][j]);
            } else if t2.projects[p][j] != bc {
                assert(t2.projects[p][j] == t.projects[p][j]);
            }
        }
    }
}

// ---- The order of operations --------------------------------------------------------------

/// Starts in different projects do not interfere: their order makes no difference.
pub proof fn starts_in_projects_commute(t: TrackerView, a: BreadcrumbView, b: BreadcrumbView)
    requires
        project_or_ungrouped(a.project_id) != project_or_ungrouped(b.project_id),
        a.id != b.id,
    ensures
        started(started(t, a), b) == started(started(t, b), a),
{
    let ab = started(started(t, a), b);
    let ba = started(started(t, b), a);
    if json_name(a.id) == json_name(b.id) {
        json_name_injective(a.id, b.id);
    }
    assert(ab.index =~= ba.index);
    assert(ab.projects =~= ba.projects);
    assert(ab.storage.active =~= ba.storage.active);
}

/// Two starts in one project are both kept, in their order.
pub proof fn starts_in_project_add_up(t: TrackerView, a: BreadcrumbView, b: BreadcrumbView)
    requires
        project_or_ungrouped(a.project_id) == project_or_ungrouped(b.project_id),
        a.id != b.id,
    ensures
        ({
            let pid = project_or_ungrouped(a.project_id);
            let t2 = started(started(t, a), b);
            &&& t2.projects[pid] == project_of(t.projects, pid).push(a).push(b)
            &&& t2.index.contains_key(a.id) && t2.index[a.id] == entry_of(a)
            &&& t2.index.contains_key(b.id) && t2.index[b.id] == entry_of(b)
        }),
{
}

proof fn location_survives_step(
    t: TrackerView,
    result: Seq<char>,
    files_changed: Seq<Seq<char>>,
    a: Seq<char>,
    b: Seq<char>,
    ctx: WriterView,
    now: Instant,
)
    requires
        sound(t),
        t.index.contains_key(a),
        t.index.contains_key(b),
        a != b,
    ensures
        ({
            let t2 = step_outcome(t, result, files_changed, Some(a), ctx, now)->Ok_0.0;
            let p = located(t, Some(b))->Ok_0;
            &&& located(t, Some(b)) is Ok
            &&& located(t2, Some(b)) == located(t, Some(b))
            &&& t2.projects[p.1][p.2] == t.projects[p.1][p.2]
        }),
{
    active_is_located(t, Some(a));
    active_is_located(t, Some(b));
    located_in_project(t, Some(a));
    located_in_project(t, Some(b));
    let (x, pid, i) = located(t, Some(a))->Ok_0;
    let (y, pid_b, j) = located(t, Some(b))->Ok_0;
    let bcs = t.projects[pid];
    let next = stepped(bcs[i], result, files_changed, ctx, now);
    found_after_update(bcs, i, next, b);
}

/// Steps of different breadcrumbs do not interfere: their order makes no difference, neither to
/// what is left behind nor to the answers.
pub proof fn steps_commute(
    t: TrackerView,
    a: Seq<char>,
    result_a: Seq<char>,
    files_a: Seq<Seq<char>>,
    ctx_a: WriterView,
    now_a: Instant,
    b: Seq<char>,
    result_b: Seq<char>,
    files_b: Seq<Seq<char>>,
    ctx_b: WriterView,
    now_b: Instant,
)
    requires
        sound(t),
        t.index.contains_key(a),
        t.index.contains_key(b),
        a != b,
    ensures
        ({
            let first_a = step_outcome(t, result_a, files_a, Some(a), ctx_a, now_a);
            let first_b = step_outcome(t, result_b, files_b, Some(b), ctx_b, now_b);
            &&& first_a is Ok && first_b is Ok
            &&& step_outcome(first_a->Ok_0.0, result_b, files_b, Some(b), ctx_b, now_b) matches Ok(
                then_b,
            ) && step_outcome(first_b->Ok_0.0, result_a, files_a, Some(a), ctx_a, now_a) matches Ok(
                then_a,
            ) && then_b.0 == then_a.0 && then_b.1 == first_b->Ok_0.1 && then_a.1 == first_a->Ok_0.1
        }),
{
    active_is_located(t, Some(a));
    active_is_located(t, Some(b));
    located_in_project(t, Some(a));
    located_in_project(t, Some(b));
    location_survives_step(t, result_a, files_a, a, b, ctx_a, now_a);
    location_survives_step(t, result_b, files_b, b, a, ctx_b, now_b);
    let (x, pid_a, i) = located(t, Some(a))->Ok_0;
    let (y, pid_b, j) = located(t, Some(b))->Ok_0;
    let ta = step_outcome(t, result_a, files_a, Some(a), ctx_a, now_a)->Ok_0.0;
    let tb = step_outcome(t, result_b, files_b, Some(b), ctx_b, now_b)->Ok_0.0;
    let tab = step_outcome(ta, result_b, files_b, Some(b), ctx_b, now_b)->Ok_0.0;
    let tba = step_outcome(tb, result_a, files_a, Some(a), ctx_a, now_a)->Ok_0.0;
    if json_name(a) == json_name(b) {
        json_name_injective(a, b);
    }
    assert(tab.index =~= tba.index);
    if pid_a == pid_b {
        assert(i != j);
        assert(tab.projects[pid_a] =~= tba.projects[pid_a]);
    }
    assert(tab.projects =~= tba.projects);
    assert(tab.storage.active =~= tba.storage.active);
}

// ---- A run of steps -----------------------------------------------------------------------

/// What a step is given: its result, the files it changed, who takes it, and when.
pub struct StepInput {
    pub result: Seq<char>,
    pub files_changed: Seq<Seq<char>>,
    pub ctx: WriterView,
    pub now: Instant,
}

/// The tracker after the breadcrumb `id` took the given steps, in order.
pub open spec fn after_steps(t: TrackerView, id: Seq<char>, inputs: Seq<StepInput>) -> TrackerView
    decreases inputs.len(),
{
    if inputs.len() == 0 {
        t
    } else {
        let before = after_steps(t, id, inputs.drop_last());
        let x = inputs.last();
        step_outcome(before, x.result, x.files_changed, Some(id), x.ctx, x.now)->Ok_0.0
    }
}

/// All the files that steps are given, in order.
pub open spec fn files_given(inputs: Seq<StepInput>) -> Seq<Seq<char>>
    decreases inputs.len(),
{
    if inputs.len() == 0 {
        Seq::empty()
    } else {
        files_given(inputs.drop_last()) + inputs.last().files_changed
    }
}

/// Whether `bc` is what `first` becomes by the given steps: it holds the result, the files and the
/// time of each step in order, and its plan is unchanged.
pub open spec fn took_steps(
    first: BreadcrumbView,
    inputs: Seq<StepInput>,
    bc: BreadcrumbView,
) -> bool {
    &&& bc.current_step == inputs.len()
    &&& bc.step_results.len() == inputs.len()
    &&& forall|j: int|
        0 <= j < inputs.len() ==> (#[trigger] bc.step_results[j]) == (StepResultView {
            step_idx: j as usize,
            step_name: step_name(first.steps, j),
            result: inputs[j].result,
            at: stamp(inputs[j].now),
            files_changed: inputs[j].files_changed,
        })
    &&& bc.files_changed == files_given(inputs)
    &&& bc.steps == first.steps
    &&& bc.total_steps == first.total_steps
    &&& bc.id == first.id
    &&& bc.name == first.name
    &&& bc.project_id == first.project_id
    &&& bc.owner == first.owner
    &&& bc.started_at == first.started_at
}

/// An active breadcrumb without any step yet takes the steps it is given, and no other is touched.
pub proof fn steps_are_taken(t: TrackerView, id: Seq<char>, first: BreadcrumbView, inputs: Seq<StepInput>)
    requires
        sound(t),
        active_breadcrumb(t, id) == Some(first),
        t.index.contains_key(id),
        first.current_step == 0,
        inputs.len() <= usize::MAX,
    ensures
        sound(after_steps(t, id, inputs)),
        after_steps(t, id, inputs).index.contains_key(id),
        active_breadcrumb(after_steps(t, id, inputs), id) matches Some(bc) && took_steps(
            first,
            inputs,
            bc,
        ),
        others_kept(t, after_steps(t, id, inputs), id),
    decreases inputs.len(),
{
    if inputs.len() == 0 {
        active_is_located(t, Some(id));
        located_in_project(t, Some(id));
        let p = located(t, Some(id))->Ok_0;
        assert(in_order(t.projects[p.1][p.2]));
        assert(first.step_results =~= Seq::<StepResultView>::empty());
    } else {
        let rest = inputs.drop_last();
        let x = inputs.last();
        steps_are_taken(t, id, first, rest);
        let t1 = after_steps(t, id, rest);
        let t2 = after_steps(t, id, inputs);
        active_is_located(t1, Some(id));
        step_keeps_sound(t1, x.result, x.files_changed, Some(id), x.ctx, x.now);
        let before = active_breadcrumb(t1, id)->0;
        let bc = stepped(before, x.result, x.files_changed, x.ctx, x.now);
        assert(active_breadcrumb(t2, id) == Some(bc));
        assert(t2.index.contains_key(id)) by {
            if !t2.index.contains_key(id) {
                assert(active_breadcrumb(t2, id) is None);
            }
        }
        assert forall|j: int| 0 <= j < inputs.len() implies (#[trigger] bc.step_results[j]) == (
        StepResultView {
            step_idx: j as usize,
            step_name: step_name(first.steps, j),
            result: inputs[j].result,
            at: stamp(inputs[j].now),
            files_changed: inputs[j].files_changed,
        }) by {
            if j < rest.len() {
                assert(rest[j] == inputs[j]);
                assert(bc.step_results[j] == before.step_results[j]);
            }
        }
        assert forall|y: Seq<char>| y != id implies (t2.index.contains_key(y)
            <==> t.index.contains_key(y)) && (t.index.contains_key(y) ==> t2.index[y]
            == t.index[y]) && #[trigger] active_breadcrumb(t2, y) == active_breadcrumb(t, y) by {
            assert(active_breadcrumb(t2, y) == active_breadcrumb(t1, y));
            assert(active_breadcrumb(t1, y) == active_breadcrumb(t, y));
        }
    }
}

/// A breadcrumb that was started and then took n steps has n records, the one of step j with the
/// number j, the name of that step, and the result and files that were given with it; its changed
/// files are those given, in order; its steps are those it was started with. No other breadcrumb is
/// touched.
pub proof fn started_takes_steps(
    t: TrackerView,
    id: Seq<char>,
    name: Seq<char>,
    steps: Seq<Seq<char>>,
    project_id: Option<Seq<char>>,
    ctx: WriterView,
    now: Seq<char>,
    auto_started: bool,
    inputs: Seq<StepInput>,
)
    requires
        sound(t),
        found_in(project_of(t.projects, project_or_ungrouped(project_id)), id) is None,
        inputs.len() <= usize::MAX,
    ensures
        ({
            let first = fresh(id, name, steps, project_id, ctx, now, auto_started);
            let t2 = after_steps(started(t, first), id, inputs);
            &&& sound(t2)
            &&& active_breadcrumb(t2, id) matches Some(bc) && took_steps(first, inputs, bc)
                && bc.steps == steps && bc.total_steps == steps.len() as usize
            &&& others_kept(t, t2, id)
        }),
{
    start_keeps_sound(t, id, name, steps, project_id, ctx, now, auto_started);
    let first = fresh(id, name, steps, project_id, ctx, now, auto_started);
    let t1 = started(t, first);
    steps_are_taken(t1, id, first, inputs);
    let t2 = after_steps(t1, id, inputs);
    assert forall|y: Seq<char>| y != id implies (t2.index.contains_key(y) <==> t.index.contains_key(
        y,
    )) && (t.index.contains_key(y) ==> t2.index[y] == t.index[y]) && #[trigger] active_breadcrumb(
        t2,
        y,
    ) == active_breadcrumb(t, y) by {
        assert(active_breadcrumb(t2, y) == active_breadcrumb(t1, y));
        assert(active_breadcrumb(t1, y) == active_breadcrumb(t, y));
    }
}

}
