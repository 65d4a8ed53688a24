//! Migration of the breadcrumbs that earlier versions kept in an index and in project files with
//! one record per line.

use vstd::prelude::*;

use crate::index::IndexView;
use crate::layout::{migrated_in, migrated_name};
use crate::schema::{Breadcrumb, BreadcrumbView, EntryView, IndexEntry, StepResultView};
use crate::storage::{all_written, copied, write_breadcrumb, Dir, DirView, FileView};
use crate::table::{walks, Table};
use crate::text::{
    copy_option, has_extension, is_extension_of, json_name, json_name_injective, to_json_name,
};

verus! {

/// A file among the project files: its name, and its records in order. A record that is no
/// breadcrumb is `None`.
#[derive(Debug)]
pub struct LegacyFile {
    pub name: String,
    pub records: Vec<Option<Breadcrumb>>,
}

#[verifier::ext_equal]
pub struct LegacyFileView {
    pub name: Seq<char>,
    pub records: Seq<Option<BreadcrumbView>>,
}

impl View for LegacyFile {
    type V = LegacyFileView;

    open spec fn view(&self) -> LegacyFileView {
        LegacyFileView { name: self.name@, records: self.records.deep_view() }
    }
}

impl DeepView for LegacyFile {
    type V = LegacyFileView;

    open spec fn deep_view(&self) -> LegacyFileView {
        self@
    }
}

/// What an earlier version left behind: its index, and its project files. Each is `None` where it is
/// not there.
pub struct Legacy {
    pub index: Option<Table<IndexEntry>>,
    pub projects: Option<Vec<LegacyFile>>,
}

#[verifier::ext_equal]
pub struct LegacyView {
    pub index: Option<IndexView>,
    pub projects: Option<Seq<LegacyFileView>>,
}

impl View for Legacy {
    type V = LegacyView;

    open spec fn view(&self) -> LegacyView {
        LegacyView { index: self.index.deep_view(), projects: self.projects.deep_view() }
    }
}

impl DeepView for Legacy {
    type V = LegacyView;

    open spec fn deep_view(&self) -> LegacyView {
        self@
    }
}

/// The breadcrumbs by identifier once a record is read: the later record of an identifier wins.
pub open spec fn with_record(
    all: Map<Seq<char>, BreadcrumbView>,
    record: Option<BreadcrumbView>,
) -> Map<Seq<char>, BreadcrumbView> {
    match record {
        Some(bc) => all.insert(bc.id, bc),
        None => all,
    }
}

/// The breadcrumbs by identifier once records are read in order.
pub open spec fn with_records(
    all: Map<Seq<char>, BreadcrumbView>,
    records: Seq<Option<BreadcrumbView>>,
) -> Map<Seq<char>, BreadcrumbView>
    decreases records.len(),
{
    if records.len() == 0 {
        all
    } else {
        with_record(with_records(all, records.drop_last()), records.last())
    }
}

/// The breadcrumbs by identifier in the files with the extension `jsonl`.
pub open spec fn collected(files: Seq<LegacyFileView>) -> Map<Seq<char>, BreadcrumbView>
    decreases files.len(),
{
    if files.len() == 0 {
        Map::empty()
    } else if has_extension(files.last().name, "jsonl"@) {
        with_records(collected(files.drop_last()), files.last().records)
    } else {
        collected(files.drop_last())
    }
}

/// The breadcrumbs in the records of an earlier version, by identifier.
pub open spec fn recorded(legacy: LegacyView) -> Map<Seq<char>, BreadcrumbView> {
    match legacy.projects {
        Some(files) => collected(files),
        None => Map::empty(),
    }
}

/// Whether the index of the earlier version knew the identifier.
pub open spec fn was_indexed(legacy: LegacyView, id: Seq<char>) -> bool {
    legacy.index matches Some(index) && index.contains_key(id)
}

/// The breadcrumb that is made of what the index knew of it: one without steps.
pub open spec fn breadcrumb_of_entry(id: Seq<char>, e: EntryView) -> BreadcrumbView {
    BreadcrumbView {
        id,
        name: e.name,
        project_id: e.project_id,
        owner: e.owner,
        writer_actor: e.owner,
        writer_machine: Seq::empty(),
        writer_session: Seq::empty(),
        writer_at: e.last_activity_at,
        started_at: e.started_at,
        last_activity_at: e.last_activity_at,
        steps: Seq::empty(),
        current_step: 0,
        total_steps: 0,
        step_results: Seq::empty(),
        files_changed: Seq::empty(),
        stale: false,
        conflict_warning: None,
        aborted: false,
        abort_reason: None,
        auto_started: false,
    }
}

/// The breadcrumbs that an earlier version left behind, by identifier: those in its records, and
/// those that only its index knew.
pub open spec fn left_behind(legacy: LegacyView) -> Map<Seq<char>, BreadcrumbView> {
    Map::new(
        |id: Seq<char>| recorded(legacy).contains_key(id) || was_indexed(legacy, id),
        |id: Seq<char>|
            if recorded(legacy).contains_key(id) {
                recorded(legacy)[id]
            } else {
                breadcrumb_of_entry(id, legacy.index->0[id])
            },
    )
}

/// What a migration writes where the files `active` are active: the breadcrumbs in the records, and
/// those that only the index knew and that have no active file. An active file holds more than the
/// index knew, so it stays.
pub open spec fn to_migrate(legacy: LegacyView, active: DirView) -> Map<
    Seq<char>,
    BreadcrumbView,
> {
    Map::new(
        |id: Seq<char>|
            recorded(legacy).contains_key(id) || (was_indexed(legacy, id) && !active.contains_key(
                json_name(id),
            )),
        |id: Seq<char>| left_behind(legacy)[id],
    )
}

/// The identifiers of the breadcrumbs that the index of the earlier version had lost.
pub open spec fn orphans(legacy: LegacyView) -> Set<Seq<char>> {
    left_behind(legacy).dom().filter(|id: Seq<char>| !was_indexed(legacy, id))
}

/// Whether `bcs` holds the breadcrumbs of `all`, each once, in some order.
pub open spec fn lists_all(
    bcs: Seq<BreadcrumbView>,
    all: Map<Seq<char>, BreadcrumbView>,
) -> bool {
    &&& bcs.len() == all.len()
    &&& forall|i: int|
        0 <= i < bcs.len() ==> all.contains_key((#[trigger] bcs[i]).id) && all[bcs[i].id] == bcs[i]
    &&& forall|i: int, j: int|
        0 <= i < j < bcs.len() ==> (#[trigger] bcs[i]).id != (#[trigger] bcs[j]).id
    &&& forall|id: Seq<char>| #[trigger]
        all.contains_key(id) ==> exists|i: int| 0 <= i < bcs.len() && (#[trigger] bcs[i]).id == id
}

/// Whether the directory `after` is `before` with the breadcrumbs `all` written to it.
pub open spec fn overlaid(
    before: DirView,
    all: Map<Seq<char>, BreadcrumbView>,
    after: DirView,
) -> bool {
    &&& forall|id: Seq<char>| #[trigger]
        all.contains_key(id) ==> after.contains_key(json_name(id)) && after[json_name(id)]
            == FileView::Parsed(all[id])
    &&& forall|name: Seq<char>|
        (forall|id: Seq<char>| #[trigger] all.contains_key(id) ==> json_name(id) != name) ==> (
        #[trigger] after.contains_key(name) <==> before.contains_key(name)) && (
        before.contains_key(name) ==> after[name] == before[name])
}

/// What a migration moved: how many breadcrumbs, how many of them the index had lost, and how many
/// could not be written.
#[derive(Debug)]
pub struct Migration {
    pub migrated: usize,
    pub orphans: usize,
    pub errors: usize,
}

/// A migration that is decided on and not carried out yet: the breadcrumbs to write, and how many of
/// them the index had lost.
#[derive(Debug)]
pub struct MigrationPlan {
    pub breadcrumbs: Vec<Breadcrumb>,
    pub orphans: usize,
}

/// The directory of an earlier version, where it is there, and the directories that were renamed once
/// they were migrated, under their new names.
pub struct LegacyDirs {
    pub current: Option<Legacy>,
    pub renamed: Table<Legacy>,
}

#[verifier::ext_equal]
pub struct LegacyDirsView {
    pub current: Option<LegacyView>,
    pub renamed: Map<Seq<char>, LegacyView>,
}

impl View for LegacyDirs {
    type V = LegacyDirsView;

    open spec fn view(&self) -> LegacyDirsView {
        LegacyDirsView { current: self.current.deep_view(), renamed: self.renamed@ }
    }
}

fn collect_records(all: &mut Table<Breadcrumb>, records: &Vec<Option<Breadcrumb>>)
    ensures
        final(all)@ == with_records(old(all)@, records.deep_view()),
{
    let ghost seen = records.deep_view();
    let ghost before = all@;
    assert(seen.take(0) =~= Seq::empty());
    for i in 0..records.len()
        invariant
            seen == records.deep_view(),
            all@ == with_records(before, seen.take(i as int)),
    {
        assert(seen.take(i + 1).drop_last() =~= seen.take(i as int));
        assert(seen.take(i + 1).last() == records@[i as int].deep_view());
        match &records[i] {
            Some(bc) => {
                all.insert(bc.id.clone(), bc.clone());
            },
            None => {},
        }
    }
    assert(seen.take(seen.len() as int) =~= seen);
}

fn collect_recorded(legacy: &Legacy) -> (all: Table<Breadcrumb>)
    ensures
        all@ == recorded(legacy@),
{
    let mut all: Table<Breadcrumb> = Table::new();
    match &legacy.projects {
        Some(files) => {
            let ghost seen = files.deep_view();
            assert(seen.take(0) =~= Seq::empty());
            for i in 0..files.len()
                invariant
                    seen == files.deep_view(),
                    all@ == collected(seen.take(i as int)),
            {
                assert(seen.take(i + 1).drop_last() =~= seen.take(i as int));
                assert(seen.take(i + 1).last() == files@[i as int]@);
                if is_extension_of(files[i].name.as_str(), "jsonl") {
                    collect_records(&mut all, &files[i].records);
                }
            }
            assert(seen.take(seen.len() as int) =~= seen);
        },
        None => {},
    }
    all
}

fn to_breadcrumb(id: &str, e: &IndexEntry) -> (bc: Breadcrumb)
    ensures
        bc@ == breadcrumb_of_entry(id@, e@),
{
    let bc = Breadcrumb {
        id: id.to_owned(),
        name: e.name.clone(),
        project_id: copy_option(&e.project_id),
        owner: e.owner.clone(),
        writer_actor: e.owner.clone(),
        writer_machine: String::new(),
        writer_session: String::new(),
        writer_at: e.last_activity_at.clone(),
        started_at: e.started_at.clone(),
        last_activity_at: e.last_activity_at.clone(),
        steps: Vec::new(),
        current_step: 0,
        total_steps: 0,
        step_results: Vec::new(),
        files_changed: Vec::new(),
        stale: false,
        conflict_warning: None,
        aborted: false,
        abort_reason: None,
        auto_started: false,
    };
    assert(bc@ =~= breadcrumb_of_entry(id@, e@)) by {
        assert(bc.steps.deep_view() =~= Seq::<Seq<char>>::empty());
        assert(bc.step_results.deep_view() =~= Seq::<StepResultView>::empty());
        assert(bc.files_changed.deep_view() =~= Seq::<Seq<char>>::empty());
        assert(bc.writer_machine@ =~= Seq::<char>::empty());
        assert(bc.writer_session@ =~= Seq::<char>::empty());
    }
    bc
}

/// The breadcrumbs that an earlier version left behind, by identifier: those in its records, and
/// those that only its index knew.
pub fn collect_legacy(legacy: &Legacy) -> (all: Table<Breadcrumb>)
    ensures
        all@ == left_behind(legacy@),
{
    let mut all = collect_recorded(legacy);
    let ghost records = all@;
    match &legacy.index {
        Some(index) => {
            let n = index.len();
            let ghost keys = index.keys();
            for i in 0..n
                invariant
                    n == keys.len(),
                    keys == index.keys(),
                    walks(keys, index@),
                    forall|id: Seq<char>| #[trigger]
                        all@.contains_key(id) <==> records.contains_key(id) || keys.take(
                            i as int,
                        ).contains(id),
                    forall|id: Seq<char>|
                        records.contains_key(id) ==> #[trigger] all@[id] == records[id],
                    forall|id: Seq<char>|
                        !records.contains_key(id) && keys.take(i as int).contains(id)
                            ==> #[trigger] all@[id] == breadcrumb_of_entry(id, index@[id]),
            {
                let ghost k = keys[i as int];
                proof {
                    assert(keys.take(i + 1) =~= keys.take(i as int).push(k));
                    assert forall|x: Seq<char>| keys.take(i + 1).contains(x) <==> keys.take(
                        i as int,
                    ).contains(x) || x == k by {
                        if keys.take(i as int).contains(x) {
                            assert(keys.take(i + 1)[keys.take(i as int).index_of(x)] == x);
                        }
                        if x == k {
                            assert(keys.take(i + 1)[i as int] == x);
                        }
                    }
                }
                if !all.contains_key(index.key_at(i).as_str()) {
                    all.insert(
                        index.key_at(i).clone(),
                        to_breadcrumb(index.key_at(i).as_str(), index.value_at(i)),
                    );
                }
            }
            proof {
                assert(keys.take(n as int) =~= keys);
                assert(legacy@.index == Some(index@));
                assert forall|id: Seq<char>| #[trigger] all@.contains_key(id) <==> left_behind(
                    legacy@,
                ).contains_key(id) by {
                    assert(keys.contains(id) <==> index@.contains_key(id));
                }
                assert(all@ =~= left_behind(legacy@));
            }
        },
        None => {
            assert(all@ =~= left_behind(legacy@));
        },
    }
    all
}

fn is_indexed(legacy: &Legacy, id: &str) -> (b: bool)
    ensures
        b == was_indexed(legacy@, id@),
{
    match &legacy.index {
        Some(index) => index.contains_key(id),
        None => false,
    }
}

/// The number of breadcrumbs that the index of the earlier version had lost.
fn count_orphans(legacy: &Legacy, all: &Table<Breadcrumb>) -> (n: usize)
    requires
        all@ == left_behind(legacy@),
    ensures
        n == orphans(legacy@).len(),
{
    let len = all.len();
    let ghost keys = all.keys();
    let mut count: usize = 0;
    let ghost mut lost: Set<Seq<char>> = Set::empty();
    for i in 0..len
        invariant
            len == keys.len(),
            keys == all.keys(),
            walks(keys, all@),
            count <= i,
            lost.finite(),
            lost.len() == count,
            forall|id: Seq<char>| #[trigger]
                lost.contains(id) <==> !was_indexed(legacy@, id) && keys.take(i as int).contains(
                    id,
                ),
    {
        let ghost k = keys[i as int];
        proof {
            assert(keys.take(i + 1) =~= keys.take(i as int).push(k));
            assert forall|x: Seq<char>| keys.take(i + 1).contains(x) <==> keys.take(
                i as int,
            ).contains(x) || x == k by {
                if keys.take(i as int).contains(x) {
                    assert(keys.take(i + 1)[keys.take(i as int).index_of(x)] == x);
                }
                if x == k {
                    assert(keys.take(i + 1)[i as int] == x);
                }
            }
            assert(!keys.take(i as int).contains(k)) by {
                if keys.take(i as int).contains(k) {
                    assert(keys[keys.take(i as int).index_of(k)] == k);
                }
            }
        }
        if !is_indexed(legacy, all.key_at(i).as_str()) {
            proof {
                lost = lost.insert(k);
            }
            count += 1;
        }
    }
    proof {
        assert(keys.take(len as int) =~= keys);
        assert(lost =~= orphans(legacy@));
    }
    count
}

/// The breadcrumbs that a migration writes, by identifier.
fn collect_to_migrate(legacy: &Legacy, active: &Dir, all: &Table<Breadcrumb>) -> (moved: Table<
    Breadcrumb,
>)
    requires
        all@ == left_behind(legacy@),
    ensures
        moved@ == to_migrate(legacy@, active@),
{
    let records = collect_recorded(legacy);
    let n = all.len();
    let ghost keys = all.keys();
    let mut moved: Table<Breadcrumb> = Table::new();
    for i in 0..n
        invariant
            n == keys.len(),
            keys == all.keys(),
            walks(keys, all@),
            all@ == left_behind(legacy@),
            records@ == recorded(legacy@),
            forall|id: Seq<char>| #[trigger]
                moved@.contains_key(id) <==> keys.take(i as int).contains(id) && to_migrate(
                    legacy@,
                    active@,
                ).contains_key(id),
            forall|id: Seq<char>| #[trigger]
                moved@.contains_key(id) ==> moved@[id] == left_behind(legacy@)[id],
    {
        let ghost k = keys[i as int];
        proof {
            assert(keys.take(i + 1) =~= keys.take(i as int).push(k));
            assert forall|x: Seq<char>| keys.take(i + 1).contains(x) <==> keys.take(
                i as int,
            ).contains(x) || x == k by {
                if keys.take(i as int).contains(x) {
                    assert(keys.take(i + 1)[keys.take(i as int).index_of(x)] == x);
                }
                if x == k {
                    assert(keys.take(i + 1)[i as int] == x);
                }
            }
            assert(keys.contains(k));
            assert(all@.contains_key(k));
        }
        if records.contains_key(all.key_at(i).as_str()) || !active.contains_key(
            to_json_name(all.key_at(i).as_str()).as_str(),
        ) {
            moved.insert(all.key_at(i).clone(), all.value_at(i).clone());
        }
    }
    proof {
        assert(keys.take(n as int) =~= keys);
        assert forall|id: Seq<char>| #[trigger] moved@.contains_key(id) <==> to_migrate(
            legacy@,
            active@,
        ).contains_key(id) by {
            if to_migrate(legacy@, active@).contains_key(id) {
                assert(all@.contains_key(id));
                assert(keys.contains(id));
            }
        }
        assert(moved@ =~= to_migrate(legacy@, active@));
    }
    moved
}

/// Decide on the migration of what an earlier version left behind, where the files `active` are
/// active. `None` where nothing was left behind.
pub fn plan_migration(legacy: &Legacy, active: &Dir) -> (r: Option<MigrationPlan>)
    ensures
        r is None <==> left_behind(legacy@).is_empty(),
        r matches Some(plan) ==> lists_all(
            plan.breadcrumbs.deep_view(),
            to_migrate(legacy@, active@),
        ) && plan.orphans == orphans(legacy@).len(),
{
    let left = collect_legacy(legacy);
    if left.len() == 0 {
        assert(left@.dom() =~= Set::<Seq<char>>::empty());
        assert(left@ =~= Map::<Seq<char>, BreadcrumbView>::empty());
        return None;
    }
    assert(!left@.is_empty()) by {
        assert(left.keys().contains(left.keys()[0]));
        assert(left@.contains_key(left.keys()[0]));
    }
    let orphans = count_orphans(legacy, &left);
    let all = collect_to_migrate(legacy, active, &left);
    let n = all.len();
    let ghost keys = all.keys();
    proof {
        records_keep_ids(legacy@);
    }
    let mut breadcrumbs: Vec<Breadcrumb> = Vec::new();
    for i in 0..n
        invariant
            n == keys.len(),
            keys == all.keys(),
            walks(keys, all@),
            breadcrumbs@.len() == i,
            forall|j: int| 0 <= j < i ==> #[trigger] breadcrumbs.deep_view()[j] == all@[keys[j]],
    {
        let ghost before = breadcrumbs.deep_view();
        let bc = all.value_at(i).clone();
        breadcrumbs.push(bc);
        assert(breadcrumbs.deep_view() =~= before.push(bc@));
    }
    proof {
        let bcs = breadcrumbs.deep_view();
        assert forall|j: int| 0 <= j < bcs.len() implies all@.contains_key(
            (#[trigger] bcs[j]).id,
        ) && all@[bcs[j].id] == bcs[j] && bcs[j].id == keys[j] by {
            assert(keys.contains(keys[j]));
            assert(all@.contains_key(keys[j]));
            assert(left_behind(legacy@).contains_key(keys[j]));
        }
        assert forall|id: Seq<char>| #[trigger] all@.contains_key(id) implies exists|j: int|
            0 <= j < bcs.len() && (#[trigger] bcs[j]).id == id by {
            assert(keys.contains(id));
            assert(bcs[keys.index_of(id)].id == id);
        }
    }
    Some(MigrationPlan { breadcrumbs, orphans })
}

/// Carry out a migration: the breadcrumbs whose file was written are active, in place of active ones
/// with the same identifiers; the others are counted as errors. `done` tells which, in order.
pub fn finish_migration(active: &mut Dir, plan: &MigrationPlan, done: &Vec<bool>) -> (r: Migration)
    ensures
        final(active)@ == all_written(
            old(active)@,
            copied(plan.breadcrumbs.deep_view(), done@),
        ),
        r.migrated == copied(plan.breadcrumbs.deep_view(), done@).len(),
        r.errors == plan.breadcrumbs@.len() - copied(plan.breadcrumbs.deep_view(), done@).len(),
        r.orphans == plan.orphans,
{
    let ghost before = active@;
    let ghost bcs = plan.breadcrumbs.deep_view();
    let mut migrated: usize = 0;
    let mut errors: usize = 0;
    assert(bcs.take(0) =~= Seq::<BreadcrumbView>::empty());
    for i in 0..plan.breadcrumbs.len()
        invariant
            bcs == plan.breadcrumbs.deep_view(),
            migrated + errors == i,
            migrated == copied(bcs.take(i as int), done@).len(),
            active@ == all_written(before, copied(bcs.take(i as int), done@)),
    {
        let ghost kept = copied(bcs.take(i as int), done@);
        assert(bcs.take(i + 1).drop_last() =~= bcs.take(i as int));
        assert(bcs.take(i + 1).last() == plan.breadcrumbs@[i as int]@);
        if i < done.len() && done[i] {
            write_breadcrumb(active, &plan.breadcrumbs[i]);
            assert(kept.push(plan.breadcrumbs@[i as int]@).drop_last() =~= kept);
            migrated += 1;
        } else {
            errors += 1;
        }
    }
    assert(bcs.take(bcs.len() as int) =~= bcs);
    Migration { migrated, orphans: plan.orphans, errors }
}

/// Whether a migration is over and the directory of the earlier version is to be renamed: only if
/// every breadcrumb was written.
pub fn migration_ends(errors: usize) -> (rename: bool)
    ensures
        rename == (errors == 0),
{
    errors == 0
}

/// Where every copy could be written, all of them are.
pub proof fn all_copied(bcs: Seq<BreadcrumbView>, done: Seq<bool>)
    requires
        bcs.len() <= done.len(),
        forall|i: int| 0 <= i < bcs.len() ==> #[trigger] done[i],
    ensures
        copied(bcs, done) == bcs,
    decreases bcs.len(),
{
    if bcs.len() > 0 {
        all_copied(bcs.drop_last(), done);
        assert(done[bcs.len() - 1]);
        assert(bcs =~= bcs.drop_last().push(bcs.last()));
    }
}

/// Writing breadcrumbs with distinct identifiers lays them over the directory.
pub proof fn writing_all_overlays(
    files: DirView,
    bcs: Seq<BreadcrumbView>,
    all: Map<Seq<char>, BreadcrumbView>,
)
    requires
        lists_all(bcs, all),
    ensures
        overlaid(files, all, all_written(files, bcs)),
{
    let after = all_written(files, bcs);
    writing_all_effect(files, bcs);
    assert forall|id: Seq<char>| #[trigger] all.contains_key(id) implies after.contains_key(
        json_name(id),
    ) && after[json_name(id)] == FileView::Parsed(all[id]) by {
        let i = choose|i: int| 0 <= i < bcs.len() && (#[trigger] bcs[i]).id == id;
        assert(bcs[i].id == id);
    }
    assert forall|name: Seq<char>|
        (forall|id: Seq<char>| #[trigger] all.contains_key(id) ==> json_name(id) != name) implies (
    #[trigger] after.contains_key(name) <==> files.contains_key(name)) && (files.contains_key(name)
        ==> after[name] == files[name]) by {
        assert forall|i: int| 0 <= i < bcs.len() implies json_name((#[trigger] bcs[i]).id) != name by {
            assert(all.contains_key(bcs[i].id));
        }
    }
}

/// Of breadcrumbs with distinct identifiers that are written, each stands in its file, and the other
/// files are as before.
pub proof fn writing_all_effect(files: DirView, bcs: Seq<BreadcrumbView>)
    requires
        forall|i: int, j: int|
            0 <= i < j < bcs.len() ==> (#[trigger] bcs[i]).id != (#[trigger] bcs[j]).id,
    ensures
        ({
            let after = all_written(files, bcs);
            &&& forall|i: int|
                0 <= i < bcs.len() ==> after.contains_key(json_name((#[trigger] bcs[i]).id))
                    && after[json_name(bcs[i].id)] == FileView::Parsed(bcs[i])
            &&& forall|name: Seq<char>|
                (forall|i: int| 0 <= i < bcs.len() ==> json_name((#[trigger] bcs[i]).id) != name)
                    ==> (#[trigger] after.contains_key(name) <==> files.contains_key(name)) && (
                files.contains_key(name) ==> after[name] == files[name])
        }),
    decreases bcs.len(),
{
    if bcs.len() > 0 {
        let rest = bcs.drop_last();
        let last = bcs[bcs.len() - 1];
        assert(last == bcs.last());
        assert forall|i: int, j: int| 0 <= i < j < rest.len() implies (#[trigger] rest[i]).id != (
        #[trigger] rest[j]).id by {
            assert(rest[i] == bcs[i] && rest[j] == bcs[j]);
        }
        writing_all_effect(files, rest);
        let before = all_written(files, rest);
        let after = all_written(files, bcs);
        assert forall|i: int| 0 <= i < bcs.len() implies after.contains_key(
            json_name((#[trigger] bcs[i]).id),
        ) && after[json_name(bcs[i].id)] == FileView::Parsed(bcs[i]) by {
            if i < rest.len() {
                assert(rest[i] == bcs[i]);
                if json_name(bcs[i].id) == json_name(last.id) {
                    json_name_injective(bcs[i].id, last.id);
                }
            }
        }
        assert forall|name: Seq<char>|
            (forall|i: int| 0 <= i < bcs.len() ==> json_name((#[trigger] bcs[i]).id) != name) implies (
        #[trigger] after.contains_key(name) <==> files.contains_key(name)) && (files.contains_key(
            name,
        ) ==> after[name] == files[name]) by {
            assert(json_name(last.id) != name);
            assert forall|i: int| 0 <= i < rest.len() implies json_name((#[trigger] rest[i]).id)
                != name by {
                assert(rest[i] == bcs[i]);
            }
            assert(before.contains_key(name) <==> files.contains_key(name));
        }
    }
}

/// Whether a migration at `moment` leads from the active files and directories to `active2` and
/// `dirs2`: where anything was left behind, what is to be migrated of it is laid over the active
/// files, and the directory that holds it is renamed; else nothing changes.
pub open spec fn migrates(
    active: DirView,
    dirs: LegacyDirsView,
    moment: Seq<char>,
    active2: DirView,
    dirs2: LegacyDirsView,
) -> bool {
    match dirs.current {
        Some(legacy) if !left_behind(legacy).is_empty() => {
            &&& overlaid(active, to_migrate(legacy, active), active2)
            &&& dirs2 == (LegacyDirsView {
                current: None,
                renamed: dirs.renamed.insert(migrated_in(moment), legacy),
            })
        },
        _ => active2 == active && dirs2 == dirs,
    }
}

/// Migrate what an earlier version left behind: each breadcrumb in its records is written to the
/// active ones, in place of an active one with the same identifier, and so is each that only its
/// index knew and that has no active file. Then the directory of the earlier version is renamed after
/// `moment`, with all that it holds. `None` where nothing was left behind.
pub fn migrate_legacy(active: &mut Dir, dirs: &mut LegacyDirs, moment: &str) -> (r: Option<
    Migration,
>)
    ensures
        migrates(old(active)@, old(dirs)@, moment@, final(active)@, final(dirs)@),
        match old(dirs)@.current {
            Some(legacy) if !left_behind(legacy).is_empty() => r matches Some(m) && m.migrated
                == to_migrate(legacy, old(active)@).len() && m.orphans == orphans(legacy).len()
                && m.errors == 0,
            _ => r is None,
        },
{
    let legacy = match dirs.current.take() {
        Some(legacy) => legacy,
        None => {
            return None;
        },
    };
    let plan = match plan_migration(&legacy, active) {
        Some(plan) => plan,
        None => {
            dirs.current = Some(legacy);
            return None;
        },
    };
    let count = plan.breadcrumbs.len();
    let mut done: Vec<bool> = Vec::new();
    for i in 0..count
        invariant
            done@.len() == i,
            forall|j: int| 0 <= j < i ==> #[trigger] done@[j],
    {
        done.push(true);
    }
    proof {
        all_copied(plan.breadcrumbs.deep_view(), done@);
        writing_all_overlays(
            active@,
            plan.breadcrumbs.deep_view(),
            to_migrate(legacy@, active@),
        );
    }
    let m = finish_migration(active, &plan, &done);
    if migration_ends(m.errors) {
        dirs.renamed.insert(migrated_name(moment), legacy);
    }
    Some(m)
}

proof fn with_records_keeps_ids(
    all: Map<Seq<char>, BreadcrumbView>,
    records: Seq<Option<BreadcrumbView>>,
)
    requires
        forall|id: Seq<char>| #[trigger] all.contains_key(id) ==> all[id].id == id,
    ensures
        forall|id: Seq<char>| #[trigger]
            with_records(all, records).contains_key(id) ==> with_records(all, records)[id].id == id,
    decreases records.len(),
{
    if records.len() > 0 {
        with_records_keeps_ids(all, records.drop_last());
    }
}

proof fn collected_keeps_ids(files: Seq<LegacyFileView>)
    ensures
        forall|id: Seq<char>| #[trigger]
            collected(files).contains_key(id) ==> collected(files)[id].id == id,
    decreases files.len(),
{
    if files.len() > 0 {
        collected_keeps_ids(files.drop_last());
        with_records_keeps_ids(collected(files.drop_last()), files.last().records);
    }
}

/// The breadcrumbs left behind stand under their own identifiers.
pub proof fn records_keep_ids(legacy: LegacyView)
    ensures
        forall|id: Seq<char>| #[trigger]
            left_behind(legacy).contains_key(id) ==> left_behind(legacy)[id].id == id,
{
    if let Some(files) = legacy.projects {
        collected_keeps_ids(files);
    }
    assert(forall|id: Seq<char>| #[trigger]
        recorded(legacy).contains_key(id) ==> recorded(legacy)[id].id == id);
}

}
