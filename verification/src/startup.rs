//! What a server does first: migrate what an earlier version left behind, and reap what nobody
//! worked on.

use vstd::prelude::*;

use crate::clock::{
    clock_instant, date_writing, day_name, moment, moment_text, today, valid_day, valid_local_time,
    Instant, LocalTime, Timestamp,
};
use crate::layout::{migrated_in, migrated_name, Layout, LayoutView};
use crate::migrate::{
    collect_legacy, left_behind, lists_all, orphans, plan_migration, to_migrate, Legacy, LegacyDirs,
    LegacyDirsView, LegacyView, Migration,
};
use crate::schema::BreadcrumbView;
use crate::settings::{auto_reap_hours, keeps_state_apart, reap_hours, state_apart};
use crate::storage::{breadcrumbs_met, Dir, DirView};
use crate::table::walks;
use crate::text::{json_name, to_json_name};
use crate::tracker::{all_taken_in, reap_at, reap_outcome, take_in_all, Tracker, TrackerView};

verus! {

/// Whether some breadcrumb that was left behind has no active file yet.
pub open spec fn unmigrated(legacy: LegacyView, active: DirView) -> bool {
    exists|id: Seq<char>| #[trigger]
        left_behind(legacy).contains_key(id) && !active.contains_key(json_name(id))
}

/// Whether a startup migrates what it finds in the directory of earlier versions. Where the state is
/// kept apart from that directory, it migrates all that was left behind there. Where the state is
/// kept in that very directory, what has active files already is the present state, and anything
/// else was left behind.
pub open spec fn startup_migrates(
    found: Option<LegacyView>,
    active: DirView,
    l: LayoutView,
) -> bool {
    found matches Some(legacy) && !left_behind(legacy).is_empty() && (state_apart(l) || unmigrated(
        legacy,
        active,
    ))
}

/// Whether a startup migrates what it finds in the directory of earlier versions.
pub fn should_migrate(found: &Option<Legacy>, active: &Dir, layout: &Layout) -> (b: bool)
    ensures
        b == startup_migrates(found.deep_view(), active@, layout@),
{
    let legacy = match found {
        Some(legacy) => legacy,
        None => {
            return false;
        },
    };
    let all = collect_legacy(legacy);
    let n = all.len();
    let ghost keys = all.keys();
    if n == 0 {
        assert(all@.dom() =~= Set::<Seq<char>>::empty());
        assert(all@ =~= Map::<Seq<char>, BreadcrumbView>::empty());
        return false;
    }
    assert(!all@.is_empty()) by {
        assert(keys.contains(keys[0]));
        assert(all@.contains_key(keys[0]));
    }
    if keeps_state_apart(layout) {
        return true;
    }
    for i in 0..n
        invariant
            n == keys.len(),
            keys == all.keys(),
            walks(keys, all@),
            all@ == left_behind(legacy@),
            found.deep_view() == Some(legacy@),
            !left_behind(legacy@).is_empty(),
            forall|j: int| 0 <= j < i ==> active@.contains_key(json_name(#[trigger] keys[j])),
    {
        if !active.contains_key(to_json_name(all.key_at(i).as_str()).as_str()) {
            assert(left_behind(legacy@).contains_key(keys[i as int]));
            return true;
        }
    }
    assert forall|id: Seq<char>| #[trigger] left_behind(legacy@).contains_key(id) implies active@.contains_key(
    json_name(id)) by {
        assert(keys.contains(id));
        let j = keys.index_of(id);
        assert(keys[j] == id);
    }
    false
}

/// What a startup did.
#[derive(Debug)]
pub struct Startup {
    pub migrated: Option<Migration>,
    pub reaped: Vec<String>,
}

/// What a startup migrates.
pub open spec fn found_by_startup(
    found: Option<LegacyView>,
    active: DirView,
    l: LayoutView,
) -> Map<Seq<char>, BreadcrumbView> {
    if startup_migrates(found, active, l) {
        to_migrate(found->0, active)
    } else {
        Map::empty()
    }
}

/// Whether a startup leads from `t` to `t2` and reaps `ids`: the breadcrumbs `all` are taken in, in
/// the order `order`; then, where `hours` are given, the stale ones that a walk `keys` over the
/// active files meets are reaped.
pub open spec fn starts_up(
    t: TrackerView,
    all: Map<Seq<char>, BreadcrumbView>,
    order: Seq<BreadcrumbView>,
    keys: Seq<Seq<char>>,
    hours: Option<u64>,
    now: Instant,
    date: Seq<char>,
    t2: TrackerView,
    ids: Seq<Seq<char>>,
) -> bool {
    let mid = all_taken_in(t, order);
    &&& lists_all(order, all)
    &&& match hours {
        Some(h) => walks(keys, mid.storage.active) && (t2, ids) == reap_outcome(
            mid,
            breadcrumbs_met(keys, mid.storage.active),
            h,
            now,
            date,
        ),
        None => t2 == mid && ids == Seq::<Seq<char>>::empty(),
    }
}

/// The directories of earlier versions after a startup at `moment`: what was migrated is renamed,
/// with all that it holds.
pub open spec fn dirs_after_startup(
    dirs: LegacyDirsView,
    active: DirView,
    l: LayoutView,
    moment: Seq<char>,
) -> LegacyDirsView {
    if startup_migrates(dirs.current, active, l) {
        LegacyDirsView {
            current: None,
            renamed: dirs.renamed.insert(migrated_in(moment), dirs.current->0),
        }
    } else {
        dirs
    }
}

/// Start up at `now` under `date`: migrate what an earlier version left behind, then reap stale
/// breadcrumbs. `reap_value` is the value of the variable `CPC_BREADCRUMB_AUTO_REAP_HOURS`; `moment`
/// is the local time that a migrated directory is renamed after.
pub fn init_at(
    t: &mut Tracker,
    dirs: &mut LegacyDirs,
    layout: &Layout,
    reap_value: Option<&str>,
    now: &Timestamp,
    date: &str,
    moment: &str,
) -> (r: Startup)
    ensures
        exists|order: Seq<BreadcrumbView>, keys: Seq<Seq<char>>| #[trigger]
            starts_up(
                old(t)@,
                found_by_startup(old(dirs)@.current, old(t)@.storage.active, layout@),
                order,
                keys,
                reap_hours(reap_value.deep_view()),
                now@,
                date@,
                final(t)@,
                r.reaped.deep_view(),
            ),
        final(dirs)@ == dirs_after_startup(
            old(dirs)@,
            old(t)@.storage.active,
            layout@,
            moment@,
        ),
        r.migrated is Some <==> startup_migrates(
            old(dirs)@.current,
            old(t)@.storage.active,
            layout@,
        ),
        r.migrated matches Some(m) ==> m.migrated == to_migrate(
            old(dirs)@.current->0,
            old(t)@.storage.active,
        ).len() && m.orphans == orphans(old(dirs)@.current->0).len() && m.errors == 0,
{
    let ghost all = found_by_startup(dirs@.current, t@.storage.active, layout@);
    let ghost mut order: Seq<BreadcrumbView> = Seq::empty();
    let mut migrated: Option<Migration> = None;
    assert(all_taken_in(t@, order) == t@);
    if should_migrate(&dirs.current, &t.storage.active, layout) {
        let legacy = dirs.current.take().unwrap();
        let plan = plan_migration(&legacy, &t.storage.active).unwrap();
        take_in_all(t, &plan.breadcrumbs);
        proof {
            order = plan.breadcrumbs.deep_view();
        }
        migrated = Some(
            Migration { migrated: plan.breadcrumbs.len(), orphans: plan.orphans, errors: 0 },
        );
        dirs.renamed.insert(migrated_name(moment), legacy);
    } else {
        assert(lists_all(order, all));
    }
    let ghost keys = t.storage.active.keys();
    let hours = auto_reap_hours(reap_value);
    let reaped: Vec<String> = match hours {
        Some(h) => reap_at(t, h, now, date),
        None => Vec::new(),
    };
    proof {
        if hours is None {
            assert(reaped.deep_view() =~= Seq::<Seq<char>>::empty());
        }
    }
    let r = Startup { migrated, reaped };
    assert(starts_up(
        old(t)@,
        found_by_startup(old(dirs)@.current, old(t)@.storage.active, layout@),
        order,
        keys,
        reap_hours(reap_value.deep_view()),
        now@,
        date@,
        t@,
        r.reaped.deep_view(),
    ));
    r
}

/// Start up: migrate what an earlier version left behind, then reap stale breadcrumbs. `reap_value`
/// is the value of the variable `CPC_BREADCRUMB_AUTO_REAP_HOURS`.
pub fn init(t: &mut Tracker, dirs: &mut LegacyDirs, layout: &Layout, reap_value: Option<&str>) -> (r:
    Startup)
    ensures
        exists|now: Instant, day: i32, order: Seq<BreadcrumbView>, keys: Seq<Seq<char>>|
            clock_instant(now) && valid_day(day as int) && #[trigger] starts_up(
                old(t)@,
                found_by_startup(old(dirs)@.current, old(t)@.storage.active, layout@),
                order,
                keys,
                reap_hours(reap_value.deep_view()),
                now,
                date_writing(day),
                final(t)@,
                r.reaped.deep_view(),
            ),
        exists|at: LocalTime|
            valid_local_time(at) && final(dirs)@ == dirs_after_startup(
                old(dirs)@,
                old(t)@.storage.active,
                layout@,
                #[trigger] moment_text(at),
            ),
        r.migrated is Some <==> startup_migrates(
            old(dirs)@.current,
            old(t)@.storage.active,
            layout@,
        ),
        r.migrated matches Some(m) ==> m.migrated == to_migrate(
            old(dirs)@.current->0,
            old(t)@.storage.active,
        ).len() && m.orphans == orphans(old(dirs)@.current->0).len() && m.errors == 0,
{
    let now = Timestamp::now();
    let date = day_name(today());
    let at = moment();
    init_at(t, dirs, layout, reap_value, &now, date.as_str(), at.as_str())
}

}
