//! What a startup does with what it finds.

use vstd::prelude::*;

use crate::clock::Instant;
use crate::error::ErrorView;
use crate::index::project_or_ungrouped;
use crate::laws::files::migration_recovers_all;
use crate::laws::tracking::{found_after_push, found_after_update, found_in, place_is_first};
use crate::layout::{migrated_in, LayoutView};
use crate::migrate::{
    left_behind, recorded, to_migrate, writing_all_effect, writing_all_overlays, LegacyDirsView,
};
use crate::schema::BreadcrumbView;
use crate::settings::state_apart;
use crate::startup::{
    dirs_after_startup, found_by_startup, starts_up, startup_migrates, unmigrated,
};
use crate::storage::{all_written, reading};
use crate::text::{json_name, json_name_injective};
use crate::tracker::{all_taken_in, place_of, project_of, TrackerView};

verus! {

proof fn taking_in_writes_files(t: TrackerView, bcs: Seq<BreadcrumbView>)
    ensures
        all_taken_in(t, bcs).storage.active == all_written(t.storage.active, bcs),
        forall|i: int|
            0 <= i < bcs.len() ==> all_taken_in(t, bcs).index.contains_key((#[trigger] bcs[i]).id),
        forall|id: Seq<char>| #[trigger]
            t.index.contains_key(id) ==> all_taken_in(t, bcs).index.contains_key(id),
    decreases bcs.len(),
{
    if bcs.len() > 0 {
        let rest = bcs.drop_last();
        taking_in_writes_files(t, rest);
        assert forall|i: int| 0 <= i < bcs.len() implies all_taken_in(t, bcs).index.contains_key(
            (#[trigger] bcs[i]).id,
        ) by {
            if i < rest.len() {
                assert(rest[i] == bcs[i]);
            }
        }
    }
}

proof fn taking_in_keeps_others(t: TrackerView, bcs: Seq<BreadcrumbView>, id: Seq<char>)
    requires
        forall|i: int| 0 <= i < bcs.len() ==> (#[trigger] bcs[i]).id != id,
    ensures
        ({
            let t2 = all_taken_in(t, bcs);
            &&& t2.index.contains_key(id) <==> t.index.contains_key(id)
            &&& t.index.contains_key(id) ==> t2.index[id] == t.index[id]
            &&& forall|pid: Seq<char>|
                found_in(#[trigger] project_of(t2.projects, pid), id) == found_in(
                    project_of(t.projects, pid),
                    id,
                )
        }),
    decreases bcs.len(),
{
    if bcs.len() > 0 {
        let rest = bcs.drop_last();
        let bc = bcs.last();
        assert forall|i: int| 0 <= i < rest.len() implies (#[trigger] rest[i]).id != id by {
            assert(rest[i] == bcs[i]);
        }
        assert(bcs[bcs.len() - 1].id != id);
        taking_in_keeps_others(t, rest, id);
        let mid = all_taken_in(t, rest);
        let t2 = all_taken_in(t, bcs);
        let of = project_or_ungrouped(bc.project_id);
        let known = project_of(mid.projects, of);
        match place_of(known, bc.id) {
            Some(i) => {
                place_is_first(known, bc.id, i);
                found_after_update(known, i, bc, id);
            },
            None => {
                found_after_push(known, bc, id);
            },
        }
        assert forall|pid: Seq<char>|
            found_in(#[trigger] project_of(t2.projects, pid), id) == found_in(
                project_of(t.projects, pid),
                id,
            ) by {
            assert(found_in(project_of(mid.projects, pid), id) == found_in(
                project_of(t.projects, pid),
                id,
            ));
        }
    }
}

/// A startup migrates what it finds, in whatever layout: where a breadcrumb was left behind that has
/// no active file, and nothing is reaped, what is to be migrated is active afterwards, each with its
/// own file; all that was left behind has an active file; and the directory that held it is renamed
/// with all that it holds.
pub proof fn startup_takes_in_what_it_finds(
    t: TrackerView,
    dirs: LegacyDirsView,
    l: LayoutView,
    moment: Seq<char>,
    order: Seq<BreadcrumbView>,
    keys: Seq<Seq<char>>,
    now: Instant,
    date: Seq<char>,
    t2: TrackerView,
    ids: Seq<Seq<char>>,
)
    requires
        dirs.current matches Some(legacy) && unmigrated(legacy, t.storage.active),
        starts_up(
            t,
            found_by_startup(dirs.current, t.storage.active, l),
            order,
            keys,
            None,
            now,
            date,
            t2,
            ids,
        ),
    ensures
        forall|id: Seq<char>| #[trigger]
            to_migrate(dirs.current->0, t.storage.active).contains_key(id) ==> t2.index.contains_key(
                id,
            ) && reading(t2.storage.active, id) == Ok::<BreadcrumbView, ErrorView>(
                left_behind(dirs.current->0)[id],
            ),
        forall|id: Seq<char>| #[trigger]
            left_behind(dirs.current->0).contains_key(id) ==> t2.storage.active.contains_key(
                json_name(id),
            ),
        dirs_after_startup(dirs, t.storage.active, l, moment).current is None,
        dirs_after_startup(dirs, t.storage.active, l, moment).renamed.contains_key(
            migrated_in(moment),
        ),
        dirs_after_startup(dirs, t.storage.active, l, moment).renamed[migrated_in(moment)]
            == dirs.current->0,
{
    let legacy = dirs.current->0;
    let all = to_migrate(legacy, t.storage.active);
    let found = choose|id: Seq<char>| #[trigger]
        left_behind(legacy).contains_key(id) && !t.storage.active.contains_key(json_name(id));
    assert(!left_behind(legacy).is_empty()) by {
        assert(left_behind(legacy).contains_key(found));
    }
    assert(startup_migrates(dirs.current, t.storage.active, l));
    taking_in_writes_files(t, order);
    writing_all_overlays(t.storage.active, order, all);
    migration_recovers_all(t.storage.active, legacy, t2.storage.active);
    assert forall|id: Seq<char>| #[trigger] all.contains_key(id) implies t2.index.contains_key(id)
        && reading(t2.storage.active, id) == Ok::<BreadcrumbView, ErrorView>(all[id]) by {
        let i = choose|i: int| 0 <= i < order.len() && (#[trigger] order[i]).id == id;
        assert(order[i].id == id);
    }
}

/// The migration of a startup leaves an active breadcrumb as it is where no record of the earlier
/// version holds its identifier: before anything is reaped, its file, its entry in the index and its
/// record in each project are as they were, whatever the index of the earlier version knew of it.
pub proof fn startup_keeps_active_records(
    t: TrackerView,
    dirs: LegacyDirsView,
    l: LayoutView,
    order: Seq<BreadcrumbView>,
    keys: Seq<Seq<char>>,
    hours: Option<u64>,
    now: Instant,
    date: Seq<char>,
    t2: TrackerView,
    ids: Seq<Seq<char>>,
    id: Seq<char>,
)
    requires
        starts_up(
            t,
            found_by_startup(dirs.current, t.storage.active, l),
            order,
            keys,
            hours,
            now,
            date,
            t2,
            ids,
        ),
        dirs.current matches Some(legacy) ==> !recorded(legacy).contains_key(id),
        t.storage.active.contains_key(json_name(id)),
    ensures
        ({
            let mid = all_taken_in(t, order);
            &&& reading(mid.storage.active, id) == reading(t.storage.active, id)
            &&& mid.index.contains_key(id) <==> t.index.contains_key(id)
            &&& t.index.contains_key(id) ==> mid.index[id] == t.index[id]
            &&& forall|pid: Seq<char>|
                found_in(#[trigger] project_of(mid.projects, pid), id) == found_in(
                    project_of(t.projects, pid),
                    id,
                )
            &&& hours is None ==> t2 == mid
        }),
{
    let all = found_by_startup(dirs.current, t.storage.active, l);
    assert(!all.contains_key(id));
    assert forall|i: int| 0 <= i < order.len() implies (#[trigger] order[i]).id != id
        && json_name(order[i].id) != json_name(id) by {
        assert(all.contains_key(order[i].id));
        if json_name(order[i].id) == json_name(id) {
            json_name_injective(order[i].id, id);
        }
    }
    taking_in_writes_files(t, order);
    taking_in_keeps_others(t, order, id);
    writing_all_effect(t.storage.active, order);
    assert(all_taken_in(t, order).storage.active.contains_key(json_name(id)));
}

/// Once a startup migrated, later ones have nothing left to migrate.
pub proof fn later_startups_skip(
    t: TrackerView,
    dirs: LegacyDirsView,
    l: LayoutView,
    moment: Seq<char>,
    later: TrackerView,
)
    requires
        startup_migrates(dirs.current, t.storage.active, l),
    ensures
        !startup_migrates(
            dirs_after_startup(dirs, t.storage.active, l, moment).current,
            later.storage.active,
            l,
        ),
{
}

/// Where the state is kept in the directory of earlier versions, what has active files already is the
/// present state and is left alone.
pub proof fn present_state_is_left_alone(t: TrackerView, dirs: LegacyDirsView, l: LayoutView)
    requires
        !state_apart(l),
        dirs.current matches Some(legacy) ==> !unmigrated(legacy, t.storage.active),
    ensures
        !startup_migrates(dirs.current, t.storage.active, l),
{
}

}
