//! What start, step, complete, abort, adopt and backup do to the record of a breadcrumb, and what
//! they answer.

use vstd::prelude::*;

use crate::clock::{date_writing, elapsed, instant_of, stamp, Instant};
use crate::error::ErrorView;
use crate::laws::requests::{
    kept_on, means, nothing_kept, request_finds_breadcrumb, search_finds_last_day, stands_at,
};
use crate::layout::{archive_file, path_in, LayoutView};
use crate::response::{AbortView, AdoptView};
use crate::schema::{id_at, BreadcrumbView, ConflictView, WriterView};
use crate::storage::FileView;
use crate::text::decimal;
use crate::tracker::{
    abort_outcome, adopt_outcome, backup_outcome, complete_outcome, fresh, planned_abort,
    planned_completion, retirement, start_answer, started, step_outcome, AbortPlanView, TrackerView,
};

verus! {

/// Whether the trackers differ, if at all, in the breadcrumb `id` alone: every other entry of the
/// index, every other project than `pid` and every other active file is the same.
pub open spec fn rest_kept(t: TrackerView, t2: TrackerView, id: Seq<char>, pid: Seq<char>) -> bool {
    &&& t2.index.remove(id) == t.index.remove(id)
    &&& t2.projects.remove(pid) == t.projects.remove(pid)
    &&& t2.storage.active.remove(id + ".json"@) == t.storage.active.remove(id + ".json"@)
}

// ---- start --------------------------------------------------------------------------------

/// A start adds one breadcrumb at the end of its project, of the name, steps and project that are
/// given, owned and written by the caller, with no progress yet. The same breadcrumb stands in its
/// own active file, its entry in the index repeats it, and the answer does. Nothing else changes.
pub proof fn start_adds_breadcrumb(
    t: TrackerView,
    name: Seq<char>,
    steps: Seq<Seq<char>>,
    project_id: Option<Seq<char>>,
    ctx: WriterView,
    now: Instant,
    auto_started: bool,
)
    requires
        steps.len() <= usize::MAX,
    ensures
        ({
            let id = id_at(name, now);
            let made = fresh(id, name, steps, project_id, ctx, stamp(now), auto_started);
            let t2 = started(t, made);
            let answer = start_answer(made);
            let pid = match project_id {
                Some(p) => p,
                None => "_ungrouped"@,
            };
            let before = if t.projects.contains_key(pid) {
                t.projects[pid]
            } else {
                Seq::<BreadcrumbView>::empty()
            };
            let bc = t2.projects[pid].last();
            &&& t2.projects.contains_key(pid)
            &&& t2.projects[pid].len() == before.len() + 1
            &&& t2.projects[pid].drop_last() == before
            &&& bc.id == id && bc.name == name && bc.project_id == project_id
            &&& bc.steps == steps && bc.total_steps == steps.len()
            &&& bc.owner == ctx.actor && bc.writer_actor == ctx.actor
            &&& bc.writer_machine == ctx.machine && bc.writer_session == ctx.session
            &&& bc.started_at == stamp(now) && bc.writer_at == stamp(now)
            &&& bc.last_activity_at == stamp(now)
            &&& bc.current_step == 0 && bc.step_results.len() == 0 && bc.files_changed.len() == 0
            &&& !bc.stale && !bc.aborted && bc.abort_reason is None && bc.conflict_warning is None
            &&& bc.auto_started == auto_started
            &&& rest_kept(t, t2, id, pid)
            &&& t2.storage.completed == t.storage.completed
            &&& t2.storage.active.contains_key(id + ".json"@)
            &&& t2.storage.active[id + ".json"@] == FileView::Parsed(bc)
            &&& t2.index.contains_key(id)
            &&& t2.index[id].id == id && t2.index[id].project_id == project_id
            &&& t2.index[id].name == name && t2.index[id].owner == ctx.actor
            &&& t2.index[id].started_at == stamp(now) && t2.index[id].last_activity_at == stamp(now)
            &&& answer.status == "started"@ && answer.id == id && answer.name == name
            &&& answer.project_id == pid && answer.steps == steps
            &&& answer.total_steps == steps.len()
            &&& answer.auto_started == (if auto_started {
                Some(true)
            } else {
                None
            })
        }),
{
    let id = id_at(name, now);
    let made = fresh(id, name, steps, project_id, ctx, stamp(now), auto_started);
    let t2 = started(t, made);
    let pid = match project_id {
        Some(p) => p,
        None => "_ungrouped"@,
    };
    let before = if t.projects.contains_key(pid) {
        t.projects[pid]
    } else {
        Seq::<BreadcrumbView>::empty()
    };
    assert(t2.projects[pid].drop_last() =~= before);
    assert(t2.index.remove(id) =~= t.index.remove(id));
    assert(t2.projects.remove(pid) =~= t.projects.remove(pid));
    assert(t2.storage.active.remove(id + ".json"@) =~= t.storage.active.remove(id + ".json"@));
}

// ---- step ---------------------------------------------------------------------------------

/// The name of the step after `done` steps: the one of the plan, or one made from its number past
/// the plan.
pub open spec fn planned_name(steps: Seq<Seq<char>>, done: nat) -> Seq<char> {
    if done < steps.len() {
        steps[done as int]
    } else {
        "step_"@ + decimal((done + 1) as nat)
    }
}

/// A step adds one result at the end of its breadcrumb, with the text and files that are given, and
/// the files to the changed ones; it counts one step on, and makes the caller the last writer. All
/// else of the breadcrumb stays: its plan, its owner, its start, its earlier results, and its warning
/// unless the step runs into a new conflict. File and index follow, and nothing else changes. The
/// answer names the step that was completed and counts those done and left.
pub proof fn step_adds_result(
    t: TrackerView,
    result: Seq<char>,
    files_changed: Seq<Seq<char>>,
    request: Option<Seq<char>>,
    ctx: WriterView,
    now: Instant,
    id: Seq<char>,
    pid: Seq<char>,
    i: int,
)
    requires
        stands_at(t, id, pid, i),
        means(t, request, id),
        t.projects[pid][i].current_step < usize::MAX,
    ensures
        step_outcome(t, result, files_changed, request, ctx, now) matches Ok((t2, answer)) && {
            let bc = t.projects[pid][i];
            let next = t2.projects[pid][i];
            let record = next.step_results.last();
            &&& stands_at(t2, id, pid, i)
            &&& t2.projects[pid].len() == t.projects[pid].len()
            &&& forall|j: int|
                0 <= j < t.projects[pid].len() && j != i ==> #[trigger] t2.projects[pid][j]
                    == t.projects[pid][j]
            &&& next.step_results.len() == bc.step_results.len() + 1
            &&& next.step_results.drop_last() == bc.step_results
            &&& record.step_idx == bc.current_step
            &&& record.step_name == planned_name(bc.steps, bc.current_step as nat)
            &&& record.result == result && record.at == stamp(now)
            &&& record.files_changed == files_changed
            &&& next.files_changed == bc.files_changed + files_changed
            &&& next.current_step == bc.current_step + 1
            &&& next.last_activity_at == stamp(now) && next.writer_at == stamp(now)
            &&& next.writer_actor == ctx.actor && next.writer_machine == ctx.machine
            &&& next.writer_session == ctx.session
            &&& next.id == bc.id && next.name == bc.name && next.project_id == bc.project_id
            &&& next.owner == bc.owner && next.started_at == bc.started_at
            &&& next.steps == bc.steps && next.total_steps == bc.total_steps
            &&& next.stale == bc.stale && next.aborted == bc.aborted
            &&& next.abort_reason == bc.abort_reason && next.auto_started == bc.auto_started
            &&& next.conflict_warning == (match answer.conflict_warning {
                Some(c) => Some(c),
                None => bc.conflict_warning,
            })
            &&& rest_kept(t, t2, id, pid)
            &&& t2.storage.completed == t.storage.completed
            &&& t2.storage.active.contains_key(id + ".json"@)
            &&& t2.storage.active[id + ".json"@] == FileView::Parsed(next)
            &&& t2.index[id].last_activity_at == stamp(now)
            &&& t2.index[id].id == t.index[id].id && t2.index[id].name == t.index[id].name
            &&& t2.index[id].project_id == t.index[id].project_id
            &&& t2.index[id].owner == t.index[id].owner
            &&& t2.index[id].started_at == t.index[id].started_at
            &&& answer.step_completed == planned_name(bc.steps, bc.current_step as nat)
            &&& answer.breadcrumb_id == id
            &&& answer.current == bc.current_step + 1
            &&& answer.total == bc.total_steps
            &&& answer.remaining == (if bc.current_step + 1 < bc.total_steps {
                bc.total_steps - (bc.current_step + 1)
            } else {
                0
            })
        },
{
    request_finds_breadcrumb(t, request, id, pid, i);
    let (t2, answer) = step_outcome(t, result, files_changed, request, ctx, now)->Ok_0;
    let bc = t.projects[pid][i];
    let next = t2.projects[pid][i];
    assert(next.step_results.drop_last() =~= bc.step_results);
    assert(t2.index.remove(id) =~= t.index.remove(id));
    assert(t2.projects.remove(pid) =~= t.projects.remove(pid));
    assert(t2.storage.active.remove(id + ".json"@) =~= t.storage.active.remove(id + ".json"@));
    assert forall|j: int| 0 <= j < i implies (#[trigger] t2.projects[pid][j]).id != id by {
        assert(t2.projects[pid][j] == t.projects[pid][j]);
    }
}

/// A step answers a warning exactly when the breadcrumb was last written by another session, not more
/// than thirty seconds before, whatever warnings it holds from earlier. The warning names that writer
/// and the time.
pub proof fn step_warns_of_last_writer(
    t: TrackerView,
    result: Seq<char>,
    files_changed: Seq<Seq<char>>,
    request: Option<Seq<char>>,
    ctx: WriterView,
    now: Instant,
    id: Seq<char>,
    pid: Seq<char>,
    i: int,
)
    requires
        stands_at(t, id, pid, i),
        means(t, request, id),
    ensures
        step_outcome(t, result, files_changed, request, ctx, now) matches Ok((_, answer)) && {
            let bc = t.projects[pid][i];
            &&& answer.conflict_warning is Some <==> bc.writer_session != ctx.session && (
            instant_of(bc.last_activity_at) matches Some(at) && elapsed(now, at) <= 30_000_000_000)
            &&& answer.conflict_warning matches Some(c) ==> c.other_actor == bc.writer_actor
                && c.other_machine == bc.writer_machine && c.other_session == bc.writer_session
                && c.last_activity_at == bc.last_activity_at
        },
{
    request_finds_breadcrumb(t, request, id, pid, i);
}

/// Of two steps of one breadcrumb, the second answers a warning exactly when another session took the
/// first, not more than thirty seconds before; it names who took the first, and when. What happened
/// before the first makes no difference: neither who was warned, nor whether anyone was.
pub proof fn second_step_warns_of_first(
    t: TrackerView,
    id: Seq<char>,
    pid: Seq<char>,
    i: int,
    result: Seq<char>,
    files_changed: Seq<Seq<char>>,
    first: WriterView,
    at: Instant,
    next_result: Seq<char>,
    next_files: Seq<Seq<char>>,
    second: WriterView,
    now: Instant,
)
    requires
        stands_at(t, id, pid, i),
        t.projects[pid][i].current_step < usize::MAX,
        instant_of(stamp(at)) == Some(at),
    ensures
        step_outcome(t, result, files_changed, Some(id), first, at) matches Ok((t2, _)) && (
        step_outcome(t2, next_result, next_files, Some(id), second, now) matches Ok((_, answer))
            && answer.conflict_warning == (if second.session != first.session && elapsed(now, at)
            <= 30_000_000_000 {
            Some(
                ConflictView {
                    other_actor: first.actor,
                    other_machine: first.machine,
                    other_session: first.session,
                    last_activity_at: stamp(at),
                },
            )
        } else {
            None
        })),
{
    step_adds_result(t, result, files_changed, Some(id), first, at, id, pid, i);
    let t2 = step_outcome(t, result, files_changed, Some(id), first, at)->Ok_0.0;
    step_warns_of_last_writer(t2, next_result, next_files, Some(id), second, now, id, pid, i);
}

// ---- complete -----------------------------------------------------------------------------

/// Whether the breadcrumb `id`, which stood at place `i` of `pid`, is retired from `t` to `t2`: it
/// has no entry, no record at that place and no active file any more, the archive has `kept` under
/// `date`, and all else stands as before.
pub open spec fn retires(
    t: TrackerView,
    t2: TrackerView,
    id: Seq<char>,
    pid: Seq<char>,
    i: int,
    date: Seq<char>,
    kept: BreadcrumbView,
) -> bool {
    let name = id + ".json"@;
    let day = if t.storage.completed.contains_key(date) {
        t.storage.completed[date]
    } else {
        Map::<Seq<char>, FileView>::empty()
    };
    &&& t2.index == t.index.remove(id)
    &&& t2.projects.contains_key(pid)
    &&& t2.projects[pid] == t.projects[pid].remove(i)
    &&& t2.projects.remove(pid) == t.projects.remove(pid)
    &&& t2.storage.active == t.storage.active.remove(name)
    &&& t2.storage.completed.remove(date) == t.storage.completed.remove(date)
    &&& t2.storage.completed.contains_key(date)
    &&& t2.storage.completed[date].contains_key(name)
    &&& t2.storage.completed[date][name] == FileView::Parsed(kept)
    &&& t2.storage.completed[date].remove(name) == day.remove(name)
}

/// Whether `kept` is `bc` as far as its work goes: the same plan, progress, results, files and
/// origin.
pub open spec fn same_work(bc: BreadcrumbView, kept: BreadcrumbView) -> bool {
    &&& kept.id == bc.id && kept.name == bc.name && kept.project_id == bc.project_id
    &&& kept.owner == bc.owner && kept.started_at == bc.started_at
    &&& kept.steps == bc.steps && kept.total_steps == bc.total_steps
    &&& kept.current_step == bc.current_step
    &&& kept.step_results == bc.step_results
    &&& kept.files_changed == bc.files_changed
    &&& kept.conflict_warning == bc.conflict_warning
    &&& kept.auto_started == bc.auto_started
}

/// A completion moves its breadcrumb to the archive of the day with all its work, not aborted for
/// anything new, with the caller as its last writer, and nothing else moves. The answer tells how many
/// steps were recorded and all the files they changed, and repeats the summary. The plan of the
/// completion says the same beforehand.
pub proof fn complete_archives_work(
    t: TrackerView,
    l: LayoutView,
    summary: Seq<char>,
    request: Option<Seq<char>>,
    ctx: WriterView,
    now: Instant,
    date: Seq<char>,
    id: Seq<char>,
    pid: Seq<char>,
    i: int,
)
    requires
        stands_at(t, id, pid, i),
        means(t, request, id),
    ensures
        complete_outcome(t, l, summary, request, ctx, now, date) matches Ok((t2, answer))
            && planned_completion(t, l, summary, request, ctx, now, date) matches Ok(plan) && {
            let bc = t.projects[pid][i];
            let kept = plan.breadcrumb;
            &&& same_work(bc, kept)
            &&& kept.aborted == bc.aborted && kept.abort_reason == bc.abort_reason && !kept.stale
            &&& kept.last_activity_at == stamp(now) && kept.writer_at == stamp(now)
            &&& kept.writer_actor == ctx.actor && kept.writer_machine == ctx.machine
            &&& kept.writer_session == ctx.session
            &&& retires(t, t2, id, pid, i, date, kept)
            &&& plan.date == date
            &&& plan.response == answer
            &&& retirement(t, kept, date) == Ok::<TrackerView, ErrorView>(t2)
            &&& answer.status == "completed"@ && answer.id == id && answer.name == bc.name
            &&& answer.steps_completed == bc.step_results.len()
            &&& answer.files_changed == bc.files_changed
            &&& answer.summary == summary
            &&& answer.archived_to == archive_file(l, date, id)
            &&& answer.extract_now
            &&& answer.note
                == "Review work for extraction-worthy insights (3Q gate: Reusable? Specific? New?)"@
        },
{
    request_finds_breadcrumb(t, request, id, pid, i);
    let t2 = complete_outcome(t, l, summary, request, ctx, now, date)->Ok_0.0;
    let plan = planned_completion(t, l, summary, request, ctx, now, date)->Ok_0;
    retiring_moves(t, t2, id, pid, i, date, plan.breadcrumb);
}

proof fn retiring_moves(
    t: TrackerView,
    t2: TrackerView,
    id: Seq<char>,
    pid: Seq<char>,
    i: int,
    date: Seq<char>,
    kept: BreadcrumbView,
)
    requires
        stands_at(t, id, pid, i),
        kept.id == id,
        retirement(t, kept, date) == Ok::<TrackerView, ErrorView>(t2),
    ensures
        retires(t, t2, id, pid, i, date, kept),
{
    request_finds_breadcrumb(t, Some(id), id, pid, i);
    let name = id + ".json"@;
    let day = if t.storage.completed.contains_key(date) {
        t.storage.completed[date]
    } else {
        Map::<Seq<char>, FileView>::empty()
    };
    assert(t2.projects.remove(pid) =~= t.projects.remove(pid));
    assert(t2.storage.completed.remove(date) =~= t.storage.completed.remove(date));
    assert(t2.storage.completed[date].remove(name) =~= day.remove(name));
}

// ---- abort --------------------------------------------------------------------------------

/// An abort of an active breadcrumb moves it to the archive of the day with all its work, marked as
/// aborted for the reason that is given; the caller is its last writer, on the machine of the writer
/// before. Nothing else moves. The answer repeats the reason and tells how many steps were recorded.
pub proof fn abort_archives_work(
    t: TrackerView,
    l: LayoutView,
    reason: Seq<char>,
    request: Option<Seq<char>>,
    ctx: WriterView,
    now: Instant,
    today: i32,
    id: Seq<char>,
    pid: Seq<char>,
    i: int,
)
    requires
        stands_at(t, id, pid, i),
        means(t, request, id),
    ensures
        abort_outcome(t, l, reason, request, ctx, now, today) matches Ok((t2, answer))
            && planned_abort(t, l, reason, request, ctx, now, today) matches Ok(
            AbortPlanView::Archive { breadcrumb: kept, date, response },
        ) && {
            let bc = t.projects[pid][i];
            &&& date == date_writing(today)
            &&& same_work(bc, kept)
            &&& kept.aborted && kept.abort_reason == Some(reason) && kept.stale == bc.stale
            &&& kept.last_activity_at == stamp(now) && kept.writer_at == stamp(now)
            &&& kept.writer_actor == ctx.actor && kept.writer_machine == bc.writer_machine
            &&& kept.writer_session == ctx.session
            &&& retires(t, t2, id, pid, i, date, kept)
            &&& retirement(t, kept, date) == Ok::<TrackerView, ErrorView>(t2)
            &&& response == answer
            &&& answer == (AbortView::Aborted {
                status: "aborted"@,
                id,
                name: bc.name,
                reason,
                steps_completed: bc.step_results.len(),
            })
        },
{
    request_finds_breadcrumb(t, request, id, pid, i);
    let t2 = abort_outcome(t, l, reason, request, ctx, now, today)->Ok_0.0;
    match planned_abort(t, l, reason, request, ctx, now, today)->Ok_0 {
        AbortPlanView::Archive { breadcrumb, date, response } => {
            retiring_moves(t, t2, id, pid, i, date, breadcrumb);
        },
        AbortPlanView::AlreadyArchived { response } => {},
    }
}

/// An abort of a breadcrumb that is not active, and that was archived within the last seven days,
/// changes nothing and answers how it ended on the last day that keeps it: as aborted, and for what
/// reason, if it is marked so, else as completed. An adoption of it is refused with a text that says
/// the same.
pub proof fn archived_tells_how_it_ended(
    t: TrackerView,
    l: LayoutView,
    reason: Seq<char>,
    ctx: WriterView,
    now: Instant,
    today: i32,
    id: Seq<char>,
    ago: int,
    bc: BreadcrumbView,
)
    requires
        !t.index.contains_key(id),
        0 <= ago <= 7,
        kept_on(t.storage.completed, today - ago, id, bc),
        forall|k: int, other: BreadcrumbView|
            0 <= k < ago ==> !#[trigger] kept_on(t.storage.completed, today - k, id, other),
    ensures
        ({
            let ended = if bc.aborted {
                "aborted"@
            } else {
                "completed"@
            };
            let path = archive_file(l, date_writing((today - ago) as i32), id);
            &&& abort_outcome(t, l, reason, Some(id), ctx, now, today) matches Ok((t2, answer)) && t2
                == t && answer == (AbortView::AlreadyArchived {
                status: "already_archived"@,
                id: bc.id,
                name: bc.name,
                archived_at: bc.last_activity_at,
                result_type: ended,
                reason: bc.abort_reason,
                archived_path: path,
            })
            &&& planned_abort(t, l, reason, Some(id), ctx, now, today) matches Ok(
                AbortPlanView::AlreadyArchived { response },
            ) && response == abort_outcome(t, l, reason, Some(id), ctx, now, today)->Ok_0.1
            &&& adopt_outcome(t, l, id, ctx, now, today) == Err::<(TrackerView, AdoptView), ErrorView>(
                ErrorView::Other(
                    "Cannot adopt: breadcrumb "@ + id + " was already "@ + ended + " on "@
                        + bc.last_activity_at + ". Archived at "@ + path + "."@,
                ),
            )
        }),
{
    search_finds_last_day(t.storage.completed, id, today as int, ago, bc);
}

/// A breadcrumb that is neither active nor archived within the last seven days can be neither aborted
/// nor adopted: it is not found.
pub proof fn unknown_is_not_found(
    t: TrackerView,
    l: LayoutView,
    reason: Seq<char>,
    ctx: WriterView,
    now: Instant,
    today: i32,
    id: Seq<char>,
)
    requires
        !t.index.contains_key(id),
        forall|ago: int, bc: BreadcrumbView|
            0 <= ago <= 7 ==> !#[trigger] kept_on(t.storage.completed, today - ago, id, bc),
    ensures
        abort_outcome(t, l, reason, Some(id), ctx, now, today) == Err::<
            (TrackerView, AbortView),
            ErrorView,
        >(ErrorView::NotFound { id }),
        adopt_outcome(t, l, id, ctx, now, today) == Err::<(TrackerView, AdoptView), ErrorView>(
            ErrorView::NotFound { id },
        ),
{
    nothing_kept(t.storage.completed, id, today as int);
}

// ---- adopt --------------------------------------------------------------------------------

/// An adoption makes the caller the owner and last writer of an active breadcrumb, in its record, in
/// its file and in the index, and leaves all its work and everything else alone. The answer names the
/// new owner and the one before.
pub proof fn adopt_passes_on(
    t: TrackerView,
    l: LayoutView,
    ctx: WriterView,
    now: Instant,
    today: i32,
    id: Seq<char>,
    pid: Seq<char>,
    i: int,
)
    requires
        stands_at(t, id, pid, i),
    ensures
        adopt_outcome(t, l, id, ctx, now, today) matches Ok((t2, answer)) && {
            let bc = t.projects[pid][i];
            let next = t2.projects[pid][i];
            &&& stands_at(t2, id, pid, i)
            &&& t2.projects[pid].len() == t.projects[pid].len()
            &&& forall|j: int|
                0 <= j < t.projects[pid].len() && j != i ==> #[trigger] t2.projects[pid][j]
                    == t.projects[pid][j]
            &&& next.owner == ctx.actor
            &&& same_work(BreadcrumbView { owner: ctx.actor, ..bc }, next)
            &&& next.stale == bc.stale && next.aborted == bc.aborted
            &&& next.abort_reason == bc.abort_reason
            &&& next.last_activity_at == stamp(now) && next.writer_at == stamp(now)
            &&& next.writer_actor == ctx.actor && next.writer_machine == ctx.machine
            &&& next.writer_session == ctx.session
            &&& rest_kept(t, t2, id, pid)
            &&& t2.storage.completed == t.storage.completed
            &&& t2.storage.active.contains_key(id + ".json"@)
            &&& t2.storage.active[id + ".json"@] == FileView::Parsed(next)
            &&& t2.index[id].owner == ctx.actor && t2.index[id].last_activity_at == stamp(now)
            &&& t2.index[id].id == t.index[id].id && t2.index[id].name == t.index[id].name
            &&& t2.index[id].project_id == t.index[id].project_id
            &&& t2.index[id].started_at == t.index[id].started_at
            &&& answer.status == "adopted"@ && answer.breadcrumb_id == id
            &&& answer.new_owner == ctx.actor && answer.prev_owner == bc.owner
        },
{
    request_finds_breadcrumb(t, Some(id), id, pid, i);
    let t2 = adopt_outcome(t, l, id, ctx, now, today)->Ok_0.0;
    assert(t2.index.remove(id) =~= t.index.remove(id));
    assert(t2.projects.remove(pid) =~= t.projects.remove(pid));
    assert(t2.storage.active.remove(id + ".json"@) =~= t.storage.active.remove(id + ".json"@));
    assert forall|j: int| 0 <= j < i implies (#[trigger] t2.projects[pid][j]).id != id by {
        assert(t2.projects[pid][j] == t.projects[pid][j]);
    }
}

// ---- backup -------------------------------------------------------------------------------

/// A snapshot is the breadcrumb as it stands, and is named after it and the time.
pub proof fn backup_copies(
    t: TrackerView,
    l: LayoutView,
    request: Option<Seq<char>>,
    moment: Seq<char>,
    id: Seq<char>,
    pid: Seq<char>,
    i: int,
)
    requires
        stands_at(t, id, pid, i),
        means(t, request, id),
    ensures
        backup_outcome(t, l, request, moment) matches Ok(answer) && {
            &&& answer.breadcrumb == t.projects[pid][i]
            &&& answer.status == "backed_up"@ && answer.breadcrumb_id == id
            &&& answer.path == path_in(
                "C:\\CPC\\backups\\breadcrumbs"@,
                id + "_"@ + moment + ".json"@,
                l.separator,
            )
        },
{
    request_finds_breadcrumb(t, request, id, pid, i);
}

}
