//! What an earlier version left behind, what becomes of it, and what a startup does.

use vstd::prelude::*;

use crate::clock::Instant;
use crate::laws::agreement::files_agree;
use crate::laws::files::{every_record_is_collected, holds_last, legacy_breadcrumbs};
use crate::laws::lives::{idle, reap_archives_work, reap_takes_idle, reaped_copy};
use crate::laws::reaping::named_by_id;
use crate::laws::requests::stands_at;
use crate::laws::tracking::{active_breadcrumb, sound};
use crate::layout::LayoutView;
use crate::migrate::{left_behind, orphans, recorded, to_migrate, LegacyDirsView, LegacyView};
use crate::schema::{BreadcrumbView, EntryView};
use crate::startup::{dirs_after_startup, found_by_startup, startup_migrates, starts_up};
use crate::storage::{breadcrumbs_met, DirView, FileView};
use crate::table::walks;
use crate::tracker::{all_taken_in, first_at, taken_in, TrackerView};

verus! {

// ---- What was left behind -----------------------------------------------------------------

/// Whether the breadcrumb `bc` is made of the entry `e` under `id`: named, owned, started and last
/// active as the entry says, last written by its owner then, and without any step.
pub open spec fn made_of_entry(bc: BreadcrumbView, id: Seq<char>, e: EntryView) -> bool {
    &&& bc.id == id && bc.name == e.name && bc.project_id == e.project_id
    &&& bc.owner == e.owner && bc.writer_actor == e.owner
    &&& bc.writer_machine.len() == 0 && bc.writer_session.len() == 0
    &&& bc.started_at == e.started_at
    &&& bc.last_activity_at == e.last_activity_at && bc.writer_at == e.last_activity_at
    &&& bc.steps.len() == 0 && bc.step_results.len() == 0 && bc.files_changed.len() == 0
    &&& bc.current_step == 0 && bc.total_steps == 0
    &&& !bc.stale && bc.conflict_warning is None && !bc.aborted && bc.abort_reason is None
    &&& !bc.auto_started
}

/// Whether the index of the earlier version has an entry under `id`.
pub open spec fn had_entry(legacy: LegacyView, id: Seq<char>) -> bool {
    legacy.index is Some && legacy.index->0.contains_key(id)
}

/// The records of an earlier version hold the breadcrumbs of its project files, each as it was
/// recorded last; none where it has no project files.
pub proof fn records_are_those_of_projects(legacy: LegacyView)
    ensures
        legacy.projects matches Some(files) ==> holds_last(
            recorded(legacy),
            legacy_breadcrumbs(files),
        ),
        legacy.projects is None ==> forall|id: Seq<char>| !#[trigger]
            recorded(legacy).contains_key(id),
{
    if let Some(files) = legacy.projects {
        every_record_is_collected(files);
    }
}

/// What was left behind is what the records hold and what the index knew. A record counts before an
/// entry; a breadcrumb is made of an entry only where there is no record. Those in the records that
/// the index did not know are its orphans.
pub proof fn records_count_before_entries(legacy: LegacyView, id: Seq<char>)
    ensures
        left_behind(legacy).contains_key(id) <==> recorded(legacy).contains_key(id) || had_entry(
            legacy,
            id,
        ),
        recorded(legacy).contains_key(id) ==> left_behind(legacy)[id] == recorded(legacy)[id],
        had_entry(legacy, id) && !recorded(legacy).contains_key(id) ==> made_of_entry(
            left_behind(legacy)[id],
            id,
            legacy.index->0[id],
        ),
        orphans(legacy).contains(id) <==> recorded(legacy).contains_key(id) && !had_entry(legacy, id),
{
}

/// A migration writes what the records hold, and, where neither a record nor an active file has the
/// identifier, the breadcrumb that is made of the entry.
pub proof fn migration_writes_records_and_entries(
    legacy: LegacyView,
    active: DirView,
    id: Seq<char>,
)
    ensures
        ({
            let all = to_migrate(legacy, active);
            &&& recorded(legacy).contains_key(id) ==> all.contains_key(id) && all[id]
                == recorded(legacy)[id]
            &&& !recorded(legacy).contains_key(id) ==> (all.contains_key(id) <==> had_entry(
                legacy,
                id,
            ) && !active.contains_key(id + ".json"@))
            &&& !recorded(legacy).contains_key(id) && all.contains_key(id) ==> made_of_entry(
                all[id],
                id,
                legacy.index->0[id],
            )
        }),
{
}

// ---- Taking in ----------------------------------------------------------------------------

/// The project that a breadcrumb is filed under, with a name of its own for those that have none.
pub open spec fn project_name_of(bc: BreadcrumbView) -> Seq<char> {
    match bc.project_id {
        Some(p) => p,
        None => "_ungrouped"@,
    }
}

/// The records of a project; none where there is no such project.
pub open spec fn records_under(t: TrackerView, pid: Seq<char>) -> Seq<BreadcrumbView> {
    if t.projects.contains_key(pid) {
        t.projects[pid]
    } else {
        Seq::empty()
    }
}

/// Whether the first record with the identifier `id` stands at place `j`.
pub open spec fn first_record(bcs: Seq<BreadcrumbView>, id: Seq<char>, j: int) -> bool {
    &&& 0 <= j < bcs.len() && bcs[j].id == id
    &&& forall|k: int| 0 <= k < j ==> (#[trigger] bcs[k]).id != id
}

/// Whether no record has the identifier `id`.
pub open spec fn no_record(bcs: Seq<BreadcrumbView>, id: Seq<char>) -> bool {
    forall|k: int| 0 <= k < bcs.len() ==> (#[trigger] bcs[k]).id != id
}

/// A breadcrumb that is taken in stands in its project, in place of the one with its identifier or
/// at the end, in its own active file, and with an entry in the index that repeats it. Other projects,
/// files and entries, and the archive, stay as they are.
pub proof fn taking_in_makes_active(t: TrackerView, bc: BreadcrumbView, j: int)
    ensures
        ({
            let t2 = taken_in(t, bc);
            let pid = project_name_of(bc);
            let before = records_under(t, pid);
            let file = bc.id + ".json"@;
            let e = t2.index[bc.id];
            &&& t2.index.contains_key(bc.id)
            &&& e.id == bc.id && e.name == bc.name && e.project_id == bc.project_id
            &&& e.owner == bc.owner && e.started_at == bc.started_at
            &&& e.last_activity_at == bc.last_activity_at
            &&& t2.index.remove(bc.id) == t.index.remove(bc.id)
            &&& t2.projects.contains_key(pid)
            &&& t2.projects.remove(pid) == t.projects.remove(pid)
            &&& first_record(before, bc.id, j) ==> t2.projects[pid] == before.update(j, bc)
            &&& no_record(before, bc.id) ==> t2.projects[pid] == before.push(bc)
            &&& t2.storage.active.contains_key(file)
            &&& t2.storage.active[file] == FileView::Parsed(bc)
            &&& t2.storage.active.remove(file) == t.storage.active.remove(file)
            &&& t2.storage.completed == t.storage.completed
        }),
{
    let t2 = taken_in(t, bc);
    let pid = project_name_of(bc);
    let before = records_under(t, pid);
    assert(t2.index.remove(bc.id) =~= t.index.remove(bc.id));
    assert(t2.projects.remove(pid) =~= t.projects.remove(pid));
    assert(t2.storage.active.remove(bc.id + ".json"@) =~= t.storage.active.remove(bc.id + ".json"@));
    if first_record(before, bc.id, j) {
        assert(first_at(before, bc.id, j));
        assert forall|k: int| first_at(before, bc.id, k) implies k == j by {
            if k < j {
                assert(before[k].id != bc.id);
            }
            if k > j {
                assert(before[j].id != bc.id);
            }
        }
    }
    if no_record(before, bc.id) {
        assert forall|k: int| !first_at(before, bc.id, k) by {}
    }
}

/// Taking in breadcrumbs takes in one after the other, in order.
pub proof fn taking_in_adds_up(
    t: TrackerView,
    a: Seq<BreadcrumbView>,
    b: Seq<BreadcrumbView>,
    bc: BreadcrumbView,
)
    ensures
        all_taken_in(t, a + b) == all_taken_in(all_taken_in(t, a), b),
        all_taken_in(t, seq![bc]) == taken_in(t, bc),
        all_taken_in(t, Seq::empty()) == t,
    decreases b.len(),
{
    reveal_with_fuel(all_taken_in, 2);
    assert(seq![bc].drop_last() =~= Seq::<BreadcrumbView>::empty());
    if b.len() == 0 {
        assert(a + b =~= a);
    } else {
        taking_in_adds_up(t, a, b.drop_last(), bc);
        assert((a + b).drop_last() =~= a + b.drop_last());
    }
}

// ---- Startup ------------------------------------------------------------------------------

/// Whether a breadcrumb was left behind that has no active file yet.
pub open spec fn not_active_yet(legacy: LegacyView, active: DirView, id: Seq<char>) -> bool {
    left_behind(legacy).contains_key(id) && !active.contains_key(id + ".json"@)
}

/// A startup migrates where a breadcrumb was left behind, and the state is kept in another directory
/// than that of earlier versions or a breadcrumb that was left behind has no active file yet. The
/// directory is then renamed after the moment, with all that it holds; else nothing is.
pub proof fn startup_migrates_what_was_left(
    dirs: LegacyDirsView,
    legacy: LegacyView,
    active: DirView,
    l: LayoutView,
    id: Seq<char>,
    moment: Seq<char>,
)
    requires
        dirs.current == Some(legacy),
    ensures
        ({
            let apart = l.state_dir is Some && l.state_dir->0 != "C:\\CPC\\state\\breadcrumbs"@;
            let dirs2 = dirs_after_startup(dirs, active, l, moment);
            let name = "breadcrumbs.migrated_"@ + moment;
            &&& left_behind(legacy).contains_key(id) && apart ==> startup_migrates(
                Some(legacy),
                active,
                l,
            )
            &&& not_active_yet(legacy, active, id) ==> startup_migrates(Some(legacy), active, l)
            &&& (forall|x: Seq<char>| !#[trigger] left_behind(legacy).contains_key(x))
                ==> !startup_migrates(Some(legacy), active, l)
            &&& !apart && (forall|x: Seq<char>| !#[trigger] not_active_yet(legacy, active, x))
                ==> !startup_migrates(Some(legacy), active, l)
            &&& startup_migrates(Some(legacy), active, l) ==> {
                &&& dirs2.current is None
                &&& dirs2.renamed.contains_key(name) && dirs2.renamed[name] == legacy
                &&& dirs2.renamed.remove(name) == dirs.renamed.remove(name)
                &&& found_by_startup(Some(legacy), active, l) == to_migrate(legacy, active)
            }
            &&& !startup_migrates(Some(legacy), active, l) ==> dirs2 == dirs && found_by_startup(
                Some(legacy),
                active,
                l,
            ) == Map::<Seq<char>, BreadcrumbView>::empty()
        }),
        !startup_migrates(None, active, l),
{
    let left = left_behind(legacy);
    if left.contains_key(id) && left.is_empty() {
        assert(!left.dom().contains(id));
    }
    if forall|x: Seq<char>| !#[trigger] left.contains_key(x) {
        assert(left =~= Map::<Seq<char>, BreadcrumbView>::empty());
    }
    if forall|x: Seq<char>| !#[trigger] not_active_yet(legacy, active, x) {
        assert forall|x: Seq<char>| #[trigger] left.contains_key(x) implies active.contains_key(
            x + ".json"@,
        ) by {
            assert(!not_active_yet(legacy, active, x));
        }
    }
    let dirs2 = dirs_after_startup(dirs, active, l, moment);
    let name = "breadcrumbs.migrated_"@ + moment;
    assert(dirs2.renamed.remove(name) =~= dirs.renamed.remove(name));
}

/// A startup takes in what it found, each once, and then reaps what was idle for longer than the hours
/// that are set: such a breadcrumb is archived as it was, but for the mark that it was aborted and
/// why, and is not active any more; the others stay. Those it names are the ones it reaped, in the
/// order it met them. Where no hours are set it reaps nothing.
pub proof fn startup_reaps_idle(
    t: TrackerView,
    all: Map<Seq<char>, BreadcrumbView>,
    order: Seq<BreadcrumbView>,
    keys: Seq<Seq<char>>,
    hours: Option<u64>,
    now: Instant,
    date: Seq<char>,
    t2: TrackerView,
    ids: Seq<Seq<char>>,
    id: Seq<char>,
    pid: Seq<char>,
    i: int,
)
    requires
        starts_up(t, all, order, keys, hours, now, date, t2, ids),
        ({
            let mid = all_taken_in(t, order);
            &&& sound(mid) && files_agree(mid)
            &&& named_by_id(mid.storage.active)
            &&& stands_at(mid, id, pid, i)
        }),
        id.len() > 0,
    ensures
        order.len() == all.len(),
        forall|j: int|
            0 <= j < order.len() ==> all.contains_key((#[trigger] order[j]).id)
                && all[order[j].id] == order[j],
        forall|j: int, k: int|
            0 <= j < k < order.len() ==> (#[trigger] order[j]).id != (#[trigger] order[k]).id,
        hours is None ==> t2 == all_taken_in(t, order) && ids.len() == 0,
        hours matches Some(h) ==> {
            let mid = all_taken_in(t, order);
            let bc = mid.projects[pid][i];
            let file = id + ".json"@;
            let old = breadcrumbs_met(keys, mid.storage.active).filter(
                |x: BreadcrumbView| idle(x, h, now),
            );
            &&& ids.len() == old.len()
            &&& forall|j: int| 0 <= j < old.len() ==> #[trigger] ids[j] == old[j].id
            &&& idle(bc, h, now) ==> {
                &&& !t2.index.contains_key(id)
                &&& !t2.storage.active.contains_key(file)
                &&& t2.storage.completed.contains_key(date)
                &&& t2.storage.completed[date].contains_key(file)
                &&& t2.storage.completed[date][file] matches FileView::Parsed(kept) && reaped_copy(
                    bc,
                    kept,
                    h,
                )
            }
            &&& !idle(bc, h, now) ==> {
                &&& t2.index.contains_key(id) && t2.index[id] == mid.index[id]
                &&& active_breadcrumb(t2, id) == Some(bc)
                &&& t2.storage.active.contains_key(file)
                &&& t2.storage.active[file] == FileView::Parsed(bc)
            }
        },
{
    let mid = all_taken_in(t, order);
    if let Some(h) = hours {
        assert(walks(keys, mid.storage.active));
        reap_archives_work(mid, keys, h, now, date, id, pid, i);
        reap_takes_idle(breadcrumbs_met(keys, mid.storage.active), h, now);
    }
}

}
