//! The life of a breadcrumb from its start to the archive: what was done in between is what is told
//! at the end.

use vstd::prelude::*;

use crate::clock::{date_reading, date_writing, elapsed, instant_of, Instant};
use crate::index::project_or_ungrouped;
use crate::laws::agreement::files_agree;
use crate::laws::reaping::{holds, met_are_held, named_by_id, reap_moves_stale, reap_retires_stale};
use crate::laws::requests::{
    active_stands, request_finds_breadcrumb, standing_is_active, stands_at,
};
use crate::laws::rows::{
    archived_work_is_listed, completed_work_is_listed, id_is_new, in_scope, only_copy,
    shows_archived,
};
use crate::laws::tracking::{
    active_breadcrumb, after_steps, entries_stand_under_ids, files_given, found_in, in_order, sound,
    start_keeps_sound, started_takes_steps, step_keeps_sound, steps_are_taken, took_steps,
    StepInput,
};
use crate::laws::work::{abort_archives_work, complete_archives_work};
use crate::layout::LayoutView;
use crate::listing::{lists, walks_archive, ArchiveWalk, ListView};
use crate::response::AbortView;
use crate::schema::{BreadcrumbView, WriterView};
use crate::storage::{
    archived_all, breadcrumbs_met, ids_of, reading, reaped_among, FileView, StorageView,
};
use crate::table::walks;
use crate::text::{decimal, json_name, json_name_has_extension};
use crate::tracker::{
    abort_outcome, all_forgotten, complete_outcome, fresh, located, project_of, reap_outcome,
    started, TrackerView,
};

verus! {

// ---- Work and its end ---------------------------------------------------------------------

/// A breadcrumb that was started, took n steps and was completed: the answer says that n steps were
/// completed, and names all the files they were given, from the first step to the last; the archive
/// of the day holds the result, files and time of each step.
pub proof fn completion_tells_all_steps(
    t: TrackerView,
    id: Seq<char>,
    name: Seq<char>,
    steps: Seq<Seq<char>>,
    project_id: Option<Seq<char>>,
    starter: WriterView,
    start: Seq<char>,
    auto_started: bool,
    inputs: Seq<StepInput>,
    l: LayoutView,
    summary: Seq<char>,
    ctx: WriterView,
    now: Instant,
    date: Seq<char>,
)
    requires
        sound(t),
        found_in(project_of(t.projects, project_or_ungrouped(project_id)), id) is None,
        inputs.len() <= usize::MAX,
    ensures
        ({
            let first = fresh(id, name, steps, project_id, starter, start, auto_started);
            let t1 = after_steps(started(t, first), id, inputs);
            complete_outcome(t1, l, summary, Some(id), ctx, now, date) matches Ok((t2, answer)) && {
                &&& answer.id == id && answer.name == name && answer.summary == summary
                &&& answer.steps_completed == inputs.len()
                &&& answer.files_changed == files_given(inputs)
                &&& t2.storage.completed.contains_key(date)
                &&& t2.storage.completed[date].contains_key(id + ".json"@)
                &&& t2.storage.completed[date][id + ".json"@] matches FileView::Parsed(kept)
                    && took_steps(first, inputs, kept) && kept.name == name && kept.steps == steps
                    && kept.project_id == project_id && kept.owner == starter.actor
                    && kept.started_at == start && !kept.aborted
                &&& !t2.index.contains_key(id)
            }
        }),
{
    started_takes_steps(t, id, name, steps, project_id, starter, start, auto_started, inputs);
    let first = fresh(id, name, steps, project_id, starter, start, auto_started);
    let t1 = after_steps(started(t, first), id, inputs);
    assert(t1.index.contains_key(id)) by {
        if !t1.index.contains_key(id) {
            assert(active_breadcrumb(t1, id) is None);
        }
    }
    active_stands(t1, id);
    let p = located(t1, Some(id))->Ok_0;
    assert(in_order(t1.projects[p.1][p.2]));
    complete_archives_work(t1, l, summary, Some(id), ctx, now, date, id, p.1, p.2);
}

/// A breadcrumb that was started, took n steps and was aborted: the answer says that n steps were
/// completed, and repeats its name and the reason; the archive of the day holds the result, files and
/// time of each step, and the reason.
pub proof fn abort_tells_all_steps(
    t: TrackerView,
    id: Seq<char>,
    name: Seq<char>,
    steps: Seq<Seq<char>>,
    project_id: Option<Seq<char>>,
    starter: WriterView,
    start: Seq<char>,
    auto_started: bool,
    inputs: Seq<StepInput>,
    l: LayoutView,
    reason: Seq<char>,
    ctx: WriterView,
    now: Instant,
    today: i32,
)
    requires
        sound(t),
        found_in(project_of(t.projects, project_or_ungrouped(project_id)), id) is None,
        inputs.len() <= usize::MAX,
    ensures
        ({
            let first = fresh(id, name, steps, project_id, starter, start, auto_started);
            let t1 = after_steps(started(t, first), id, inputs);
            let date = date_writing(today);
            abort_outcome(t1, l, reason, Some(id), ctx, now, today) matches Ok((t2, answer)) && {
                &&& answer == (AbortView::Aborted {
                    status: "aborted"@,
                    id,
                    name,
                    reason,
                    steps_completed: inputs.len(),
                })
                &&& t2.storage.completed.contains_key(date)
                &&& t2.storage.completed[date].contains_key(id + ".json"@)
                &&& t2.storage.completed[date][id + ".json"@] matches FileView::Parsed(kept)
                    && took_steps(first, inputs, kept) && kept.name == name && kept.steps == steps
                    && kept.project_id == project_id && kept.owner == starter.actor
                    && kept.started_at == start && kept.aborted && kept.abort_reason == Some(reason)
                &&& !t2.index.contains_key(id)
            }
        }),
{
    started_takes_steps(t, id, name, steps, project_id, starter, start, auto_started, inputs);
    let first = fresh(id, name, steps, project_id, starter, start, auto_started);
    let t1 = after_steps(started(t, first), id, inputs);
    assert(t1.index.contains_key(id)) by {
        if !t1.index.contains_key(id) {
            assert(active_breadcrumb(t1, id) is None);
        }
    }
    active_stands(t1, id);
    let p = located(t1, Some(id))->Ok_0;
    abort_archives_work(t1, l, reason, Some(id), ctx, now, today, id, p.1, p.2);
}

// ---- Reaping ------------------------------------------------------------------------------

/// Whether the last activity of a breadcrumb is known and lies more than `hours` before `now`.
pub open spec fn idle(bc: BreadcrumbView, hours: u64, now: Instant) -> bool {
    instant_of(bc.last_activity_at) matches Some(at) && elapsed(now, at) > hours * 3_600_000_000_000
}

/// Whether `kept` is `bc`, marked as aborted by a reap after `hours` and otherwise as it was: with all
/// its results and files, its last writer and its last activity.
pub open spec fn reaped_copy(bc: BreadcrumbView, kept: BreadcrumbView, hours: u64) -> bool {
    &&& kept.aborted
    &&& kept.abort_reason == Some(
        "auto-reaped: stale >"@ + decimal(hours as nat) + "h on server restart"@,
    )
    &&& kept.step_results == bc.step_results && kept.files_changed == bc.files_changed
    &&& kept == (BreadcrumbView { aborted: kept.aborted, abort_reason: kept.abort_reason, ..bc })
}

/// A reap takes exactly the idle breadcrumbs, in order, and archives each as it was but for the mark
/// that it was aborted and why.
pub proof fn reap_takes_idle(bcs: Seq<BreadcrumbView>, hours: u64, now: Instant)
    ensures
        ({
            let gone = reaped_among(bcs, hours, now);
            let old = bcs.filter(|bc: BreadcrumbView| idle(bc, hours, now));
            &&& gone.len() == old.len()
            &&& forall|j: int|
                0 <= j < gone.len() ==> reaped_copy(old[j], #[trigger] gone[j], hours)
            &&& ids_of(gone).len() == old.len()
            &&& forall|j: int| 0 <= j < old.len() ==> #[trigger] ids_of(gone)[j] == old[j].id
        }),
    decreases bcs.len(),
{
    let f = |bc: BreadcrumbView| idle(bc, hours, now);
    reveal(Seq::filter);
    let gone = reaped_among(bcs, hours, now);
    let old = bcs.filter(f);
    if bcs.len() > 0 {
        let rest = bcs.drop_last();
        reap_takes_idle(rest, hours, now);
        let before = reaped_among(rest, hours, now);
        assert forall|j: int| 0 <= j < gone.len() implies reaped_copy(
            old[j],
            #[trigger] gone[j],
            hours,
        ) by {
            if j < before.len() {
                assert(gone[j] == before[j]);
                assert(old[j] == rest.filter(f)[j]);
            }
        }
    }
    assert forall|j: int| 0 <= j < old.len() implies #[trigger] ids_of(gone)[j] == old[j].id by {
        assert(reaped_copy(old[j], gone[j], hours));
    }
}

/// A reap archives an idle breadcrumb under the date as it was, but for the mark that it was aborted
/// and why, and it is not active any more. One that is not idle stays as it is, active and in its
/// file.
pub proof fn reap_archives_work(
    t: TrackerView,
    keys: Seq<Seq<char>>,
    hours: u64,
    now: Instant,
    date: Seq<char>,
    id: Seq<char>,
    pid: Seq<char>,
    i: int,
)
    requires
        sound(t),
        files_agree(t),
        named_by_id(t.storage.active),
        walks(keys, t.storage.active),
        stands_at(t, id, pid, i),
        id.len() > 0,
    ensures
        ({
            let bc = t.projects[pid][i];
            let t2 = reap_outcome(
                t,
                breadcrumbs_met(keys, t.storage.active),
                hours,
                now,
                date,
            ).0;
            let file = id + ".json"@;
            &&& idle(bc, hours, now) ==> {
                &&& !t2.index.contains_key(id)
                &&& !t2.storage.active.contains_key(file)
                &&& t2.storage.completed.contains_key(date)
                &&& t2.storage.completed[date].contains_key(file)
                &&& t2.storage.completed[date][file] matches FileView::Parsed(kept) && reaped_copy(
                    bc,
                    kept,
                    hours,
                )
            }
            &&& !idle(bc, hours, now) ==> {
                &&& t2.index.contains_key(id) && t2.index[id] == t.index[id]
                &&& active_breadcrumb(t2, id) == Some(bc)
                &&& t2.storage.active.contains_key(file)
                &&& t2.storage.active[file] == FileView::Parsed(bc)
            }
        }),
{
    standing_is_active(t, id, pid, i);
    reap_retires_stale(t, keys, hours, now, date);
    let bc = t.projects[pid][i];
    let t2 = reap_outcome(t, breadcrumbs_met(keys, t.storage.active), hours, now, date).0;
    let met = breadcrumbs_met(keys, t.storage.active);
    let gone = reaped_among(met, hours, now);
    reap_moves_stale(t.storage, keys, hours, now, date);
    json_name_has_extension(id);
    assert(t.storage.active.contains_key(json_name(id)));
    assert(holds(t.storage.active, json_name(id), bc));
    forgetting_keeps_storage(
        TrackerView { storage: archived_all(t.storage, gone, date), ..t },
        ids_of(gone),
    );
    assert(t2.storage == archived_all(t.storage, gone, date));
}

proof fn forgetting_keeps_storage(t: TrackerView, ids: Seq<Seq<char>>)
    ensures
        all_forgotten(t, ids).storage == t.storage,
    decreases ids.len(),
{
    if ids.len() > 0 {
        forgetting_keeps_storage(t, ids.drop_last());
    }
}

proof fn archived_come_from(s: StorageView, bcs: Seq<BreadcrumbView>, date: Seq<char>)
    ensures
        ({
            let s2 = archived_all(s, bcs, date);
            forall|d: Seq<char>, name: Seq<char>|
                s2.completed.contains_key(d) && #[trigger] s2.completed[d].contains_key(name) ==> (
                s.completed.contains_key(d) && s.completed[d].contains_key(name)
                    && s2.completed[d][name] == s.completed[d][name]) || exists|j: int|
                    0 <= j < bcs.len() && s2.completed[d][name] == FileView::Parsed(#[trigger] bcs[j])
        }),
    decreases bcs.len(),
{
    if bcs.len() > 0 {
        let rest = bcs.drop_last();
        archived_come_from(s, rest, date);
        let s1 = archived_all(s, rest, date);
        let s2 = archived_all(s, bcs, date);
        assert forall|d: Seq<char>, name: Seq<char>|
            s2.completed.contains_key(d) && #[trigger] s2.completed[d].contains_key(name) implies (
        s.completed.contains_key(d) && s.completed[d].contains_key(name) && s2.completed[d][name]
            == s.completed[d][name]) || exists|j: int|
            0 <= j < bcs.len() && s2.completed[d][name] == FileView::Parsed(#[trigger] bcs[j]) by {
            let last = bcs[bcs.len() - 1];
            assert(last == bcs.last());
            if d == date && name == json_name(last.id) {
                assert(s2.completed[d][name] == FileView::Parsed(last));
            } else {
                assert(s1.completed.contains_key(d) && s1.completed[d].contains_key(name));
                assert(s2.completed[d][name] == s1.completed[d][name]);
                if exists|j: int|
                    0 <= j < rest.len() && s1.completed[d][name] == FileView::Parsed(
                        #[trigger] rest[j],
                    ) {
                    let j = choose|j: int|
                        0 <= j < rest.len() && s1.completed[d][name] == FileView::Parsed(
                            #[trigger] rest[j],
                        );
                    assert(bcs[j] == rest[j]);
                }
            }
        }
    }
}

proof fn filtered_are_met(
    bcs: Seq<BreadcrumbView>,
    f: spec_fn(BreadcrumbView) -> bool,
    bc: BreadcrumbView,
)
    requires
        bcs.filter(f).contains(bc),
    ensures
        bcs.contains(bc),
    decreases bcs.len(),
{
    reveal(Seq::filter);
    if bcs.len() > 0 {
        let rest = bcs.drop_last();
        if bc == bcs.last() {
            assert(bcs[bcs.len() - 1] == bc);
        } else {
            let j = bcs.filter(f).index_of(bc);
            assert(rest.filter(f)[j] == bc);
            filtered_are_met(rest, f, bc);
            let m = rest.index_of(bc);
            assert(bcs[m] == bc);
        }
    }
}

/// A breadcrumb that was reaped has a row in every list that reaches the day: with its name, project
/// and owner, the number of steps it had recorded out of its steps, and marked as aborted.
pub proof fn reaped_work_is_listed(
    t: TrackerView,
    keys: Seq<Seq<char>>,
    hours: u64,
    now: Instant,
    day: i32,
    id: Seq<char>,
    pid: Seq<char>,
    i: int,
    entries: Seq<Seq<char>>,
    days: ArchiveWalk,
    scope: Seq<char>,
    today: int,
    r: ListView,
)
    requires
        sound(t),
        files_agree(t),
        named_by_id(t.storage.active),
        walks(keys, t.storage.active),
        stands_at(t, id, pid, i),
        id_is_new(t, id),
        idle(t.projects[pid][i], hours, now),
        date_reading(date_writing(day)) == Some(day),
        in_scope(scope, day as int, today),
        ({
            let t2 = reap_outcome(
                t,
                breadcrumbs_met(keys, t.storage.active),
                hours,
                now,
                date_writing(day),
            ).0;
            &&& walks(entries, t2.index)
            &&& walks_archive(days, t2.storage.completed)
            &&& lists(r, entries, t2.index, days, Some(scope), today)
        }),
    ensures
        exists|j: int|
            0 <= j < r.breadcrumbs.len() && shows_archived(
                #[trigger] r.breadcrumbs[j],
                BreadcrumbView { aborted: true, ..t.projects[pid][i] },
            ),
{
    let date = date_writing(day);
    let bc = t.projects[pid][i];
    let met = breadcrumbs_met(keys, t.storage.active);
    let gone = reaped_among(met, hours, now);
    let t2 = reap_outcome(t, met, hours, now, date).0;
    let file = id + ".json"@;
    reap_archives_work(t, keys, hours, now, date, id, pid, i);
    let kept = t2.storage.completed[date][file]->Parsed_0;
    let t1 = TrackerView { storage: archived_all(t.storage, gone, date), ..t };
    forgetting_keeps_storage(t1, ids_of(gone));
    reap_forgets_those_it_names(t, met, hours, now, date);
    archived_come_from(t.storage, gone, date);
    reap_takes_idle(met, hours, now);
    assert forall|n: int| 0 <= n < keys.len() implies t.storage.active.contains_key(
        #[trigger] keys[n],
    ) by {
        assert(keys.contains(keys[n]));
    }
    met_are_held(keys, t.storage.active);
    active_file_is_record(t, id, pid, i);
    assert forall|d: Seq<char>, name: Seq<char>|
        t2.storage.completed.contains_key(d) && #[trigger] t2.storage.completed[d].contains_key(
            name,
        ) implies (t2.storage.completed[d][name] matches FileView::Parsed(b) ==> b.id == kept.id
        ==> b == kept) by {
        if let FileView::Parsed(b) = t2.storage.completed[d][name] {
            if b.id == id {
                if t.storage.completed.contains_key(d) && t.storage.completed[d].contains_key(name)
                    && t2.storage.completed[d][name] == t.storage.completed[d][name] {
                    assert(b.id != id);
                }
                let j = choose|j: int|
                    0 <= j < gone.len() && t2.storage.completed[d][name] == FileView::Parsed(
                        #[trigger] gone[j],
                    );
                let f = |x: BreadcrumbView| idle(x, hours, now);
                let old = met.filter(f);
                assert(reaped_copy(old[j], gone[j], hours));
                assert(old.contains(old[j]));
                filtered_are_met(met, f, old[j]);
                let m = met.index_of(old[j]);
                assert(met[m] == old[j]);
                assert(old[j] == bc);
            }
        }
    }
    assert(only_copy(t2.storage.completed, date, kept));
    assert forall|k: Seq<char>| #[trigger] t2.index.contains_key(k) implies t2.index[k].id
        != kept.id by {
        assert(t.index.contains_key(k));
    }
    archived_work_is_listed(
        t2.storage.completed,
        t2.index,
        day,
        kept,
        entries,
        days,
        scope,
        today,
        r,
    );
    let j = choose|j: int|
        0 <= j < r.breadcrumbs.len() && shows_archived(#[trigger] r.breadcrumbs[j], kept);
    assert(shows_archived(r.breadcrumbs[j], BreadcrumbView { aborted: true, ..bc }));
}

proof fn active_file_is_record(t: TrackerView, id: Seq<char>, pid: Seq<char>, i: int)
    requires
        files_agree(t),
        stands_at(t, id, pid, i),
    ensures
        t.storage.active.contains_key(json_name(id)),
        t.storage.active[json_name(id)] == FileView::Parsed(t.projects[pid][i]),
{
    standing_is_active(t, id, pid, i);
    assert(reading(t.storage.active, id) is Ok);
}

proof fn removal_keeps_filtered(
    bcs: Seq<BreadcrumbView>,
    i: int,
    f: spec_fn(BreadcrumbView) -> bool,
)
    requires
        0 <= i < bcs.len(),
        !f(bcs[i]),
    ensures
        bcs.remove(i).filter(f) == bcs.filter(f),
{
    let a = bcs.take(i);
    let b = bcs.skip(i + 1);
    assert(bcs =~= a.push(bcs[i]) + b);
    assert(bcs.remove(i) =~= a + b);
    Seq::filter_distributes_over_add(a, b, f);
    Seq::filter_distributes_over_add(a.push(bcs[i]), b, f);
    reveal(Seq::filter);
    assert(a.push(bcs[i]).drop_last() =~= a);
}

/// The records with other identifiers than `ids`, in order.
pub open spec fn others(bcs: Seq<BreadcrumbView>, ids: Seq<Seq<char>>) -> Seq<BreadcrumbView> {
    bcs.filter(|bc: BreadcrumbView| !ids.contains(bc.id))
}

/// Whether a project has the same records with other identifiers than `ids` in both trackers.
pub open spec fn keeps_others(
    t: TrackerView,
    t2: TrackerView,
    pid: Seq<char>,
    ids: Seq<Seq<char>>,
) -> bool {
    &&& t2.projects.contains_key(pid) <==> t.projects.contains_key(pid)
    &&& t.projects.contains_key(pid) ==> others(t2.projects[pid], ids) == others(
        t.projects[pid],
        ids,
    )
}

proof fn forgetting_keeps_rest(t: TrackerView, ids: Seq<Seq<char>>, some: Seq<Seq<char>>)
    requires
        forall|j: int| 0 <= j < some.len() ==> ids.contains(#[trigger] some[j]),
    ensures
        ({
            let t2 = all_forgotten(t, some);
            &&& forall|id: Seq<char>| #[trigger]
                t2.index.contains_key(id) <==> t.index.contains_key(id) && !some.contains(id)
            &&& forall|id: Seq<char>| #[trigger]
                t2.index.contains_key(id) ==> t2.index[id] == t.index[id]
            &&& forall|pid: Seq<char>| #[trigger] keeps_others(t, t2, pid, ids)
        }),
    decreases some.len(),
{
    if some.len() > 0 {
        let rest = some.drop_last();
        let id = some.last();
        assert forall|j: int| 0 <= j < rest.len() implies ids.contains(#[trigger] rest[j]) by {
            assert(rest[j] == some[j]);
        }
        forgetting_keeps_rest(t, ids, rest);
        let mid = all_forgotten(t, rest);
        let t2 = all_forgotten(t, some);
        let f = |bc: BreadcrumbView| !ids.contains(bc.id);
        assert(ids.contains(some[some.len() - 1]));
        assert forall|x: Seq<char>| some.contains(x) <==> rest.contains(x) || x == id by {
            if rest.contains(x) {
                assert(some[rest.index_of(x)] == x);
            }
            if x == id {
                assert(some[some.len() - 1] == x);
            }
            if some.contains(x) && x != id {
                assert(rest[some.index_of(x)] == x);
            }
        }
        assert forall|x: Seq<char>| #[trigger] t2.index.contains_key(x) <==> t.index.contains_key(x)
            && !some.contains(x) by {
            assert(mid.index.contains_key(x) <==> t.index.contains_key(x) && !rest.contains(x));
        }
        assert forall|x: Seq<char>| #[trigger] t2.index.contains_key(x) implies t2.index[x]
            == t.index[x] by {
            assert(mid.index.contains_key(x));
        }
        assert forall|pid: Seq<char>| #[trigger] keeps_others(t, t2, pid, ids) by {
            assert(keeps_others(t, mid, pid, ids));
            if let Ok((x, p, i)) = located(mid, Some(id)) {
                if p == pid {
                    assert(mid.projects.contains_key(pid) && 0 <= i < mid.projects[pid].len()
                        && mid.projects[pid][i].id == id);
                    removal_keeps_filtered(mid.projects[pid], i, f);
                }
            }
        }
    }
}

/// Forgetting an active breadcrumb takes its entry and its record, and nothing else. Forgetting
/// several forgets one after the other.
pub proof fn forgetting_takes_entry_and_record(
    t: TrackerView,
    id: Seq<char>,
    pid: Seq<char>,
    i: int,
    a: Seq<Seq<char>>,
    b: Seq<Seq<char>>,
)
    requires
        stands_at(t, id, pid, i),
    ensures
        ({
            let t2 = all_forgotten(t, seq![id]);
            &&& t2.index == t.index.remove(id)
            &&& t2.projects.contains_key(pid)
            &&& t2.projects[pid] == t.projects[pid].remove(i)
            &&& t2.projects.remove(pid) == t.projects.remove(pid)
            &&& t2.storage == t.storage
        }),
        all_forgotten(t, a + b) == all_forgotten(all_forgotten(t, a), b),
        all_forgotten(t, Seq::empty()) == t,
    decreases b.len(),
{
    reveal_with_fuel(all_forgotten, 2);
    assert(seq![id].drop_last() =~= Seq::<Seq<char>>::empty());
    request_finds_breadcrumb(t, Some(id), id, pid, i);
    let t2 = all_forgotten(t, seq![id]);
    assert(t2.projects.remove(pid) =~= t.projects.remove(pid));
    if b.len() == 0 {
        assert(a + b =~= a);
    } else {
        forgetting_takes_entry_and_record(t, id, pid, i, a, b.drop_last());
        assert((a + b).drop_last() =~= a + b.drop_last());
    }
}

/// A reap archives those it takes and forgets them: their entries leave the index, and no others do.
/// In every project, the records with other identifiers stay as they are, in order.
pub proof fn reap_forgets_those_it_names(
    t: TrackerView,
    active: Seq<BreadcrumbView>,
    hours: u64,
    now: Instant,
    date: Seq<char>,
)
    ensures
        ({
            let (t2, ids) = reap_outcome(t, active, hours, now, date);
            let gone = reaped_among(active, hours, now);
            &&& t2 == all_forgotten(
                TrackerView { storage: archived_all(t.storage, gone, date), ..t },
                ids,
            )
            &&& t2.storage == archived_all(t.storage, gone, date)
            &&& forall|id: Seq<char>| #[trigger]
                t2.index.contains_key(id) <==> t.index.contains_key(id) && !ids.contains(id)
            &&& forall|id: Seq<char>| #[trigger]
                t2.index.contains_key(id) ==> t2.index[id] == t.index[id]
            &&& forall|pid: Seq<char>| #[trigger] keeps_others(t, t2, pid, ids)
        }),
{
    let gone = reaped_among(active, hours, now);
    let t1 = TrackerView { storage: archived_all(t.storage, gone, date), ..t };
    let ids = ids_of(gone);
    assert forall|j: int| 0 <= j < ids.len() implies ids.contains(#[trigger] ids[j]) by {}
    forgetting_keeps_rest(t1, ids, ids);
    forgetting_keeps_storage(t1, ids);
    let t2 = reap_outcome(t, active, hours, now, date).0;
    assert forall|pid: Seq<char>| #[trigger] keeps_others(t, t2, pid, ids) by {
        assert(keeps_others(t1, t2, pid, ids));
    }
}

// ---- Finished work in lists ---------------------------------------------------------------

proof fn steps_keep_archive(
    t: TrackerView,
    id: Seq<char>,
    first: BreadcrumbView,
    inputs: Seq<StepInput>,
)
    requires
        sound(t),
        t.index.contains_key(id),
        active_breadcrumb(t, id) == Some(first),
        first.current_step == 0,
        inputs.len() <= usize::MAX,
    ensures
        after_steps(t, id, inputs).storage.completed == t.storage.completed,
    decreases inputs.len(),
{
    if inputs.len() > 0 {
        let rest = inputs.drop_last();
        let x = inputs.last();
        steps_keep_archive(t, id, first, rest);
        steps_are_taken(t, id, first, rest);
        let t1 = after_steps(t, id, rest);
        active_stands(t1, id);
        step_keeps_sound(t1, x.result, x.files_changed, Some(id), x.ctx, x.now);
    }
}

/// A breadcrumb that was started, took n steps and was completed has a row in every list that reaches
/// the day, with its name, project and owner, n steps completed out of those it was started with, not
/// active and not aborted.
pub proof fn finished_work_is_listed(
    t: TrackerView,
    id: Seq<char>,
    name: Seq<char>,
    steps: Seq<Seq<char>>,
    project_id: Option<Seq<char>>,
    starter: WriterView,
    start: Seq<char>,
    auto_started: bool,
    inputs: Seq<StepInput>,
    l: LayoutView,
    summary: Seq<char>,
    ctx: WriterView,
    now: Instant,
    day: i32,
    keys: Seq<Seq<char>>,
    days: ArchiveWalk,
    scope: Seq<char>,
    today: int,
    r: ListView,
)
    requires
        sound(t),
        found_in(project_of(t.projects, project_or_ungrouped(project_id)), id) is None,
        inputs.len() <= usize::MAX,
        steps.len() <= usize::MAX,
        id.len() > 0,
        forall|d: Seq<char>, file: Seq<char>|
            t.storage.completed.contains_key(d) && #[trigger] t.storage.completed[d].contains_key(file)
                ==> (t.storage.completed[d][file] matches FileView::Parsed(b) ==> b.id != id),
        date_reading(date_writing(day)) == Some(day),
        in_scope(scope, day as int, today),
        ({
            let first = fresh(id, name, steps, project_id, starter, start, auto_started);
            let t1 = after_steps(started(t, first), id, inputs);
            complete_outcome(t1, l, summary, Some(id), ctx, now, date_writing(day)) matches Ok((t2, _))
                && walks(keys, t2.index) && walks_archive(days, t2.storage.completed) && lists(
                r,
                keys,
                t2.index,
                days,
                Some(scope),
                today,
            )
        }),
    ensures
        exists|j: int|
            {
                let row = #[trigger] r.breadcrumbs[j];
                &&& 0 <= j < r.breadcrumbs.len()
                &&& row.id == id && row.name == name && row.project_id == project_id
                &&& row.owner == starter.actor && row.started_at == start
                &&& row.steps_completed == Some(inputs.len() as usize)
                &&& row.total_steps == Some(steps.len() as usize)
                &&& !row.active && !row.aborted
            },
{
    let first = fresh(id, name, steps, project_id, starter, start, auto_started);
    let t0 = started(t, first);
    let t1 = after_steps(t0, id, inputs);
    start_keeps_sound(t, id, name, steps, project_id, starter, start, auto_started);
    started_takes_steps(t, id, name, steps, project_id, starter, start, auto_started, inputs);
    steps_are_taken(t0, id, first, inputs);
    steps_keep_archive(t0, id, first, inputs);
    active_stands(t1, id);
    let p = located(t1, Some(id))->Ok_0;
    assert(in_order(t1.projects[p.1][p.2]));
    assert forall|k: Seq<char>| #[trigger] t1.index.contains_key(k) && t1.index[k].id == id implies k
        == id by {
        entries_stand_under_ids(t1, k);
    }
    assert(id_is_new(t1, id));
    completed_work_is_listed(
        t1,
        l,
        summary,
        Some(id),
        ctx,
        now,
        day,
        id,
        p.1,
        p.2,
        keys,
        days,
        scope,
        today,
        r,
    );
}

}
