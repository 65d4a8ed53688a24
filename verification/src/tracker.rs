//! The operations on breadcrumbs: start, step, complete, abort, adopt, back up, reap.
//!
//! Each operation comes twice. The one whose name ends in `_at` is told the time and says exactly
//! what it answers and leaves behind; the other one reads the clock and calls it.

use vstd::prelude::*;
use vstd::string::*;

use crate::archive::{archived_since, find_archived};
use crate::clock::{
    date_writing, day_name, moment, moment_text, names_back, stamp, stamps_back, today, valid_day,
    clock_instant, valid_local_time, Instant, LocalTime, Timestamp,
};
use crate::conflict::{check_at, conflict_at};
use crate::error::{BreadcrumbError, ErrorView};
use crate::index::{
    index_remove, index_upsert, project_name, project_or_ungrouped, resolve, resolved, Index,
    IndexView,
};
use crate::layout::{
    archive_file, archived_file, backup_file, path_in, Layout, LayoutView,
};
use crate::response::{
    AbortResponse, AbortView, AdoptResponse, AdoptView, BackupResponse, BackupView,
    CompleteResponse, CompleteView, StartResponse, StartView, StepResponse, StepView,
};
use crate::schema::{
    copy_breadcrumbs, id_at, new_id_at, Breadcrumb, BreadcrumbView, EntryView, IndexEntry,
    StepResult, StepResultView, WriterContext, WriterView,
};
use crate::storage::{
    archived, archived_all, breadcrumbs_met, copied, find_reapable_at, ids_of, load_all_active,
    put_archived, reap_stale_at, reaped_among, write_breadcrumb, written, Storage, StorageView,
};
use crate::table::{walks, Table};
use crate::text::{concat, copy_option, copy_texts, decimal, json_name, to_decimal};

verus! {

/// The breadcrumbs of each project, under its name.
pub type Projects = Table<Vec<Breadcrumb>>;

pub type ProjectsView = Map<Seq<char>, Seq<BreadcrumbView>>;

/// Everything the tracker keeps: the active index, the project files, and the storage of single
/// breadcrumbs.
pub struct Tracker {
    pub index: Table<IndexEntry>,
    pub projects: Table<Vec<Breadcrumb>>,
    pub storage: Storage,
}

#[verifier::ext_equal]
pub struct TrackerView {
    pub index: IndexView,
    pub projects: ProjectsView,
    pub storage: StorageView,
}

impl View for Tracker {
    type V = TrackerView;

    open spec fn view(&self) -> TrackerView {
        TrackerView { index: self.index@, projects: self.projects@, storage: self.storage@ }
    }
}

impl Tracker {
    /// A tracker that keeps nothing yet.
    pub fn new() -> (t: Self)
        ensures
            t@.index == Map::<Seq<char>, EntryView>::empty(),
            t@.projects == Map::<Seq<char>, Seq<BreadcrumbView>>::empty(),
            t@.storage.active.is_empty(),
            t@.storage.completed.is_empty(),
    {
        Tracker { index: Table::new(), projects: Table::new(), storage: Storage::new() }
    }
}

// ---- Projects -----------------------------------------------------------------------------

/// The breadcrumbs of a project; none where it has no file.
pub open spec fn project_of(projects: ProjectsView, pid: Seq<char>) -> Seq<BreadcrumbView> {
    if projects.contains_key(pid) {
        projects[pid]
    } else {
        Seq::empty()
    }
}

/// Whether `i` is the first place in `bcs` with the identifier `id`.
pub open spec fn first_at(bcs: Seq<BreadcrumbView>, id: Seq<char>, i: int) -> bool {
    &&& 0 <= i < bcs.len()
    &&& bcs[i].id == id
    &&& forall|j: int| 0 <= j < i ==> (#[trigger] bcs[j]).id != id
}

/// The first place in `bcs` with the identifier `id`.
pub open spec fn place_of(bcs: Seq<BreadcrumbView>, id: Seq<char>) -> Option<int> {
    if exists|i: int| first_at(bcs, id, i) {
        Some(choose|i: int| first_at(bcs, id, i))
    } else {
        None
    }
}

/// Where the breadcrumb that an operation works on stands: its identifier, its project, and its
/// place there.
pub open spec fn located(t: TrackerView, id: Option<Seq<char>>) -> Result<
    (Seq<char>, Seq<char>, int),
    ErrorView,
> {
    match resolved(t.index, id) {
        Ok((id, pid)) => match place_of(project_of(t.projects, pid), id) {
            Some(i) => Ok((id, pid, i)),
            None => Err(ErrorView::NotFound { id }),
        },
        Err(e) => Err(e),
    }
}

fn find_breadcrumb(bcs: &Vec<Breadcrumb>, id: &str) -> (r: Option<usize>)
    ensures
        r is Some <==> place_of(bcs.deep_view(), id@) is Some,
        r matches Some(i) ==> place_of(bcs.deep_view(), id@) == Some(i as int) && i < bcs@.len(),
{
    for i in 0..bcs.len()
        invariant
            forall|j: int| 0 <= j < i ==> (#[trigger] bcs.deep_view()[j]).id != id@,
    {
        if *bcs[i].id.as_str() == *id {
            assert(bcs.deep_view()[i as int].id == id@);
            assert(first_at(bcs.deep_view(), id@, i as int));
            assert forall|k: int| first_at(bcs.deep_view(), id@, k) implies k == i by {
                if k < i {
                    assert(bcs.deep_view()[k].id != id@);
                }
            }
            return Some(i);
        }
        assert(bcs.deep_view()[i as int].id != id@);
    }
    assert forall|k: int| !first_at(bcs.deep_view(), id@, k) by {
        if 0 <= k < bcs@.len() {
            assert(bcs.deep_view()[k].id != id@);
        }
    }
    None
}

fn locate(t: &Tracker, id: Option<&str>) -> (r: Result<(String, String, usize), BreadcrumbError>)
    ensures
        match located(t@, id.deep_view()) {
            Ok((id, pid, i)) => {
                &&& r matches Ok(p) && p.0@ == id && p.1@ == pid && p.2 == i
                &&& t@.projects.contains_key(pid)
                &&& 0 <= i < t@.projects[pid].len()
            },
            Err(e) => r matches Err(x) && x@ == e,
        },
{
    let (id, pid) = match resolve(&t.index, id) {
        Ok(p) => p,
        Err(e) => {
            return Err(e);
        },
    };
    match t.projects.get(pid.as_str()) {
        Some(bcs) => match find_breadcrumb(bcs, id.as_str()) {
            Some(i) => Ok((id, pid, i)),
            None => Err(BreadcrumbError::NotFound { id }),
        },
        None => {
            assert(place_of(Seq::empty(), id@) is None);
            Err(BreadcrumbError::NotFound { id })
        },
    }
}

fn get_breadcrumb(projects: &Projects, pid: &str, i: usize) -> (bc: Breadcrumb)
    requires
        projects@.contains_key(pid@),
        i < projects@[pid@].len(),
    ensures
        bc@ == projects@[pid@][i as int],
{
    projects.get(pid).unwrap()[i].clone()
}

fn put_breadcrumb(projects: &mut Projects, pid: &str, i: usize, bc: Breadcrumb)
    requires
        old(projects)@.contains_key(pid@),
        i < old(projects)@[pid@].len(),
    ensures
        final(projects)@ == old(projects)@.insert(
            pid@,
            old(projects)@[pid@].update(i as int, bc@),
        ),
{
    let mut bcs = projects.remove(pid).unwrap();
    bcs[i] = bc;
    assert(bcs.deep_view() =~= old(projects)@[pid@].update(i as int, bc@));
    projects.insert(pid.to_owned(), bcs);
    assert(projects@ =~= old(projects)@.insert(pid@, old(projects)@[pid@].update(i as int, bc@)));
}

fn take_breadcrumb(projects: &mut Projects, pid: &str, i: usize) -> (bc: Breadcrumb)
    requires
        old(projects)@.contains_key(pid@),
        i < old(projects)@[pid@].len(),
    ensures
        bc@ == old(projects)@[pid@][i as int],
        final(projects)@ == old(projects)@.insert(pid@, old(projects)@[pid@].remove(i as int)),
{
    let mut bcs = projects.remove(pid).unwrap();
    let bc = bcs.remove(i);
    assert(bcs.deep_view() =~= old(projects)@[pid@].remove(i as int));
    projects.insert(pid.to_owned(), bcs);
    assert(projects@ =~= old(projects)@.insert(pid@, old(projects)@[pid@].remove(i as int)));
    bc
}

fn push_breadcrumb(projects: &mut Projects, pid: &str, bc: Breadcrumb)
    ensures
        final(projects)@ == old(projects)@.insert(
            pid@,
            project_of(old(projects)@, pid@).push(bc@),
        ),
{
    let mut bcs: Vec<Breadcrumb> = match projects.remove(pid) {
        Some(bcs) => bcs,
        None => Vec::new(),
    };
    bcs.push(bc);
    assert(bcs.deep_view() =~= project_of(old(projects)@, pid@).push(bc@));
    projects.insert(pid.to_owned(), bcs);
    assert(projects@ =~= old(projects)@.insert(
        pid@,
        project_of(old(projects)@, pid@).push(bc@),
    ));
}

/// Load all breadcrumbs of a project. Exposed for server wrappers.
pub fn load_project_bcs(t: &Tracker, project_id: &str) -> (r: Vec<Breadcrumb>)
    ensures
        r.deep_view() == project_of(t@.projects, project_id@),
{
    match t.projects.get(project_id) {
        Some(bcs) => copy_breadcrumbs(bcs),
        None => {
            let r: Vec<Breadcrumb> = Vec::new();
            assert(r.deep_view() =~= Seq::<BreadcrumbView>::empty());
            r
        },
    }
}

// ---- Helpers ------------------------------------------------------------------------------

/// Whether any breadcrumb is active.
pub fn has_active(t: &Tracker) -> (b: bool)
    ensures
        b == !t@.index.is_empty(),
        b == (t@.index.len() > 0),
{
    let n = t.index.len();
    proof {
        if n == 0 {
            assert(t@.index.dom() =~= Set::<Seq<char>>::empty());
            assert(t@.index =~= Map::<Seq<char>, EntryView>::empty());
        }
    }
    n > 0
}

/// The number of active breadcrumbs.
pub fn active_count(t: &Tracker) -> (n: usize)
    ensures
        n == t@.index.len(),
{
    t.index.len()
}

/// Return a snapshot of all currently active breadcrumbs across all projects.
pub fn list_active(t: &Tracker) -> (r: Vec<Breadcrumb>)
    ensures
        r.deep_view() == breadcrumbs_met(t.storage.active.keys(), t@.storage.active),
        walks(t.storage.active.keys(), t@.storage.active),
{
    load_all_active(&t.storage.active)
}

/// The active index (identifier → entry). Exposed for server wrappers that need to inspect active
/// breadcrumbs without going through the higher-level operations.
pub fn read_active_index(t: &Tracker) -> (r: &Index)
    ensures
        r@ == t@.index,
{
    &t.index
}

// ---- start --------------------------------------------------------------------------------

/// A breadcrumb as it is started.
pub open spec fn fresh(
    id: Seq<char>,
    name: Seq<char>,
    steps: Seq<Seq<char>>,
    project_id: Option<Seq<char>>,
    ctx: WriterView,
    now: Seq<char>,
    auto_started: bool,
) -> BreadcrumbView {
    BreadcrumbView {
        id,
        name,
        project_id,
        owner: ctx.actor,
        writer_actor: ctx.actor,
        writer_machine: ctx.machine,
        writer_session: ctx.session,
        writer_at: now,
        started_at: now,
        last_activity_at: now,
        steps,
        current_step: 0,
        total_steps: steps.len() as usize,
        step_results: Seq::empty(),
        files_changed: Seq::empty(),
        stale: false,
        conflict_warning: None,
        aborted: false,
        abort_reason: None,
        auto_started,
    }
}

/// The index entry of a breadcrumb.
pub open spec fn entry_of(bc: BreadcrumbView) -> EntryView {
    EntryView {
        id: bc.id,
        project_id: bc.project_id,
        name: bc.name,
        owner: bc.owner,
        last_activity_at: bc.last_activity_at,
        started_at: bc.started_at,
    }
}

/// The storage after the active breadcrumb `bc` is written to its file.
pub open spec fn filed(s: StorageView, bc: BreadcrumbView) -> StorageView {
    StorageView { active: written(s.active, bc), ..s }
}

/// The tracker after `bc` is started: it comes last in its project, and has an entry in the index
/// and a file of its own.
pub open spec fn started(t: TrackerView, bc: BreadcrumbView) -> TrackerView {
    let pid = project_or_ungrouped(bc.project_id);
    TrackerView {
        index: t.index.insert(bc.id, entry_of(bc)),
        projects: t.projects.insert(pid, project_of(t.projects, pid).push(bc)),
        storage: filed(t.storage, bc),
    }
}

/// The answer to the start of `bc`.
pub open spec fn start_answer(bc: BreadcrumbView) -> StartView {
    StartView {
        status: "started"@,
        id: bc.id,
        name: bc.name,
        project_id: project_or_ungrouped(bc.project_id),
        steps: bc.steps,
        total_steps: bc.steps.len(),
        auto_started: if bc.auto_started {
            Some(true)
        } else {
            None
        },
    }
}

fn start_with(
    t: &mut Tracker,
    name: &str,
    steps: Vec<String>,
    project_id: Option<String>,
    ctx: &WriterContext,
    now: &Timestamp,
    auto_started: bool,
) -> (r: StartResponse)
    ensures
        ({
            let bc = fresh(
                id_at(name@, now@),
                name@,
                steps.deep_view(),
                project_id.deep_view(),
                ctx@,
                stamp(now@),
                auto_started,
            );
            &&& final(t)@ == started(old(t)@, bc)
            &&& r@ == start_answer(bc)
        }),
        stamps_back(now@),
{
    let id = new_id_at(name, now);
    let pid = project_name(&project_id);
    let at = now.to_rfc3339();
    let total: usize = steps.len();
    let bc = Breadcrumb {
        id: id.clone(),
        name: name.to_owned(),
        project_id: copy_option(&project_id),
        owner: ctx.actor.clone(),
        writer_actor: ctx.actor.clone(),
        writer_machine: ctx.machine.clone(),
        writer_session: ctx.session.clone(),
        writer_at: at.clone(),
        started_at: at.clone(),
        last_activity_at: at.clone(),
        steps: copy_texts(&steps),
        current_step: 0,
        total_steps: total,
        step_results: Vec::new(),
        files_changed: Vec::new(),
        stale: false,
        conflict_warning: None,
        aborted: false,
        abort_reason: None,
        auto_started,
    };
    let ghost made = fresh(
        id_at(name@, now@),
        name@,
        steps.deep_view(),
        project_id.deep_view(),
        ctx@,
        stamp(now@),
        auto_started,
    );
    assert(bc@ =~= made) by {
        assert(bc.step_results.deep_view() =~= Seq::<StepResultView>::empty());
        assert(bc.files_changed.deep_view() =~= Seq::<Seq<char>>::empty());
    }
    write_breadcrumb(&mut t.storage.active, &bc);
    push_breadcrumb(&mut t.projects, pid.as_str(), bc);
    index_upsert(
        &mut t.index,
        IndexEntry {
            id: id.clone(),
            project_id,
            name: name.to_owned(),
            owner: ctx.actor.clone(),
            last_activity_at: at.clone(),
            started_at: at,
        },
    );
    assert(t@.index =~= started(old(t)@, made).index);
    StartResponse {
        status: "started".to_owned(),
        id,
        name: name.to_owned(),
        project_id: pid,
        steps,
        total_steps: total,
        auto_started: if auto_started {
            Some(true)
        } else {
            None
        },
    }
}

/// Start a new breadcrumb at `now`.
///
/// `project_id = None` → stored under `_ungrouped`.
pub fn start_at(
    t: &mut Tracker,
    name: &str,
    steps: Vec<String>,
    project_id: Option<String>,
    ctx: &WriterContext,
    now: &Timestamp,
) -> (r: Result<StartResponse, BreadcrumbError>)
    ensures
        ({
            let bc = fresh(
                id_at(name@, now@),
                name@,
                steps.deep_view(),
                project_id.deep_view(),
                ctx@,
                stamp(now@),
                false,
            );
            &&& final(t)@ == started(old(t)@, bc)
            &&& r matches Ok(x) && x@ == start_answer(bc)
        }),
        stamps_back(now@),
{
    Ok(start_with(t, name, steps, project_id, ctx, now, false))
}

/// Start a new breadcrumb.
///
/// `project_id = None` → stored under `_ungrouped`.
/// Returns the new breadcrumb ID and project_id in the response.
pub fn start(
    t: &mut Tracker,
    name: &str,
    steps: Vec<String>,
    project_id: Option<String>,
    ctx: &WriterContext,
) -> (r: Result<StartResponse, BreadcrumbError>)
    ensures
        exists|now: Instant|
            {
                let bc = fresh(
                    #[trigger] id_at(name@, now),
                    name@,
                    steps.deep_view(),
                    project_id.deep_view(),
                    ctx@,
                    stamp(now),
                    false,
                );
                &&& clock_instant(now)
                &&& stamps_back(now)
                &&& final(t)@ == started(old(t)@, bc)
                &&& r matches Ok(x) && x@ == start_answer(bc)
            },
{
    let now = Timestamp::now();
    start_at(t, name, steps, project_id, ctx, &now)
}

/// Like `start_at`, for breadcrumbs that a server starts by itself.
pub fn start_auto_at(
    t: &mut Tracker,
    name: &str,
    steps: Vec<String>,
    project_id: Option<String>,
    ctx: &WriterContext,
    now: &Timestamp,
) -> (r: Result<StartResponse, BreadcrumbError>)
    ensures
        ({
            let bc = fresh(
                id_at(name@, now@),
                name@,
                steps.deep_view(),
                project_id.deep_view(),
                ctx@,
                stamp(now@),
                true,
            );
            &&& final(t)@ == started(old(t)@, bc)
            &&& r matches Ok(x) && x@ == start_answer(bc)
        }),
        stamps_back(now@),
{
    Ok(start_with(t, name, steps, project_id, ctx, now, true))
}

/// Like `start`, for breadcrumbs that a server starts by itself.
pub fn start_auto(
    t: &mut Tracker,
    name: &str,
    steps: Vec<String>,
    project_id: Option<String>,
    ctx: &WriterContext,
) -> (r: Result<StartResponse, BreadcrumbError>)
    ensures
        exists|now: Instant|
            {
                let bc = fresh(
                    #[trigger] id_at(name@, now),
                    name@,
                    steps.deep_view(),
                    project_id.deep_view(),
                    ctx@,
                    stamp(now),
                    true,
                );
                &&& clock_instant(now)
                &&& stamps_back(now)
                &&& final(t)@ == started(old(t)@, bc)
                &&& r matches Ok(x) && x@ == start_answer(bc)
            },
{
    let now = Timestamp::now();
    start_auto_at(t, name, steps, project_id, ctx, &now)
}

// ---- step ---------------------------------------------------------------------------------

/// The name of the step that a breadcrumb is at: the one it was started with, or one made from its
/// number past those.
pub open spec fn current_step_name(bc: BreadcrumbView) -> Seq<char> {
    if bc.current_step < bc.steps.len() {
        bc.steps[bc.current_step as int]
    } else {
        "step_"@ + decimal((bc.current_step + 1) as nat)
    }
}

/// The breadcrumb after its current step is recorded as completed.
pub open spec fn stepped(
    bc: BreadcrumbView,
    result: Seq<char>,
    files_changed: Seq<Seq<char>>,
    ctx: WriterView,
    now: Instant,
) -> BreadcrumbView {
    BreadcrumbView {
        step_results: bc.step_results.push(
            StepResultView {
                step_idx: bc.current_step,
                step_name: current_step_name(bc),
                result,
                at: stamp(now),
                files_changed,
            },
        ),
        files_changed: bc.files_changed + files_changed,
        current_step: (bc.current_step + 1) as usize,
        last_activity_at: stamp(now),
        writer_actor: ctx.actor,
        writer_machine: ctx.machine,
        writer_session: ctx.session,
        writer_at: stamp(now),
        conflict_warning: match conflict_at(bc, ctx.session, now) {
            Some(c) => Some(c),
            None => bc.conflict_warning,
        },
        ..bc
    }
}

/// The index after an activity of the breadcrumb `id` at `now`.
pub open spec fn touched(index: IndexView, id: Seq<char>, now: Seq<char>) -> IndexView {
    if index.contains_key(id) {
        index.insert(id, EntryView { last_activity_at: now, ..index[id] })
    } else {
        index
    }
}

/// The outcome of a step: the tracker and the answer, or why it is refused.
pub open spec fn step_outcome(
    t: TrackerView,
    result: Seq<char>,
    files_changed: Seq<Seq<char>>,
    id: Option<Seq<char>>,
    ctx: WriterView,
    now: Instant,
) -> Result<(TrackerView, StepView), ErrorView> {
    match located(t, id) {
        Ok((id, pid, i)) => {
            let bc = t.projects[pid][i];
            let next = stepped(bc, result, files_changed, ctx, now);
            Ok(
                (
                    TrackerView {
                        index: touched(t.index, id, stamp(now)),
                        projects: t.projects.insert(pid, t.projects[pid].update(i, next)),
                        storage: filed(t.storage, next),
                    },
                    StepView {
                        step_completed: current_step_name(bc),
                        current: next.current_step as nat,
                        total: bc.total_steps as nat,
                        remaining: if next.current_step <= bc.total_steps {
                            (bc.total_steps - next.current_step) as nat
                        } else {
                            0
                        },
                        breadcrumb_id: id,
                        conflict_warning: conflict_at(bc, ctx.session, now),
                    },
                ),
            )
        },
        Err(e) => Err(e),
    }
}

/// Whether the breadcrumb that a step works on, if there is one, has room for another step.
pub open spec fn step_fits(t: TrackerView, id: Option<Seq<char>>) -> bool {
    located(t, id) matches Ok((_, pid, i)) ==> t.projects[pid][i].current_step < usize::MAX
}

fn touch(index: &mut Index, id: &str, now: &String)
    ensures
        final(index)@ == touched(old(index)@, id@, now@),
{
    let changed = match index.get(id) {
        Some(entry) => {
            let mut entry = entry.clone();
            entry.last_activity_at = now.clone();
            Some(entry)
        },
        None => None,
    };
    if let Some(entry) = changed {
        index.insert(id.to_owned(), entry);
    }
}

/// The breadcrumb after its current step is recorded as completed.
fn step_breadcrumb(
    bc: Breadcrumb,
    result: &str,
    files_changed: &Vec<String>,
    ctx: &WriterContext,
    now: &Timestamp,
) -> (r: (Breadcrumb, StepResponse))
    requires
        bc.current_step < usize::MAX,
    ensures
        r.0@ == stepped(bc@, result@, files_changed.deep_view(), ctx@, now@),
        r.1@.step_completed == current_step_name(bc@),
        r.1@.current == bc.current_step + 1,
        r.1@.total == bc.total_steps,
        r.1@.remaining == (if bc.current_step + 1 <= bc.total_steps {
            bc.total_steps - (bc.current_step + 1)
        } else {
            0
        }),
        r.1@.breadcrumb_id == bc@.id,
        r.1@.conflict_warning == conflict_at(bc@, ctx@.session, now@),
{
    let mut next = bc;
    let ghost before = bc@;
    let conflict = check_at(&next, ctx.session.as_str(), now);
    let at = now.to_rfc3339();
    let step_name: String = if next.current_step < next.steps.len() {
        next.steps[next.current_step].clone()
    } else {
        concat("step_", to_decimal(next.current_step as u128 + 1).as_str())
    };
    let step_idx: usize = next.current_step;
    let record = StepResult {
        step_idx,
        step_name: step_name.clone(),
        result: result.to_owned(),
        at: at.clone(),
        files_changed: copy_texts(files_changed),
    };
    next.step_results.push(record);
    let mut more = copy_texts(files_changed);
    next.files_changed.append(&mut more);
    next.current_step += 1;
    next.last_activity_at = at.clone();
    next.writer_actor = ctx.actor.clone();
    next.writer_machine = ctx.machine.clone();
    next.writer_session = ctx.session.clone();
    next.writer_at = at;
    if let Some(c) = &conflict {
        next.conflict_warning = Some(c.clone());
    }
    assert(next@ =~= stepped(before, result@, files_changed.deep_view(), ctx@, now@)) by {
        assert(next.step_results.deep_view() =~= before.step_results.push(record@));
        assert(next.files_changed.deep_view() =~= before.files_changed
            + files_changed.deep_view());
    }
    let remaining: usize = if next.current_step <= next.total_steps {
        next.total_steps - next.current_step
    } else {
        0
    };
    let response = StepResponse {
        step_completed: step_name,
        current: next.current_step,
        total: next.total_steps,
        remaining,
        breadcrumb_id: next.id.clone(),
        conflict_warning: conflict,
    };
    (next, response)
}

/// Record at `now` that a step is completed, and advance to the next.
///
/// `breadcrumb_id = None` → infers from active index (error if 0 or >1 active).
pub fn step_at(
    t: &mut Tracker,
    result: &str,
    files_changed: Vec<String>,
    breadcrumb_id: Option<&str>,
    ctx: &WriterContext,
    now: &Timestamp,
) -> (r: Result<StepResponse, BreadcrumbError>)
    requires
        step_fits(old(t)@, breadcrumb_id.deep_view()),
    ensures
        match step_outcome(
            old(t)@,
            result@,
            files_changed.deep_view(),
            breadcrumb_id.deep_view(),
            ctx@,
            now@,
        ) {
            Ok((t2, answer)) => r matches Ok(x) && x@ == answer && final(t)@ == t2,
            Err(e) => r matches Err(x) && x@ == e && final(t)@ == old(t)@,
        },
        r is Ok ==> stamps_back(now@),
{
    let (id, pid, i) = match locate(t, breadcrumb_id) {
        Ok(p) => p,
        Err(e) => {
            return Err(e);
        },
    };
    let bc = get_breadcrumb(&t.projects, pid.as_str(), i);
    let (next, response) = step_breadcrumb(bc, result, &files_changed, ctx, now);
    write_breadcrumb(&mut t.storage.active, &next);
    put_breadcrumb(&mut t.projects, pid.as_str(), i, next);
    let at = now.to_rfc3339();
    touch(&mut t.index, id.as_str(), &at);
    assert(response@.breadcrumb_id == id@);
    Ok(response)
}

/// Record completion of a step and advance to the next.
///
/// `breadcrumb_id = None` → infers from active index (error if 0 or >1 active).
pub fn step(
    t: &mut Tracker,
    result: &str,
    files_changed: Vec<String>,
    breadcrumb_id: Option<&str>,
    ctx: &WriterContext,
) -> (r: Result<StepResponse, BreadcrumbError>)
    requires
        step_fits(old(t)@, breadcrumb_id.deep_view()),
    ensures
        exists|now: Instant|
            clock_instant(now) && (r is Ok ==> stamps_back(now)) && match #[trigger] step_outcome(
                old(t)@,
                result@,
                files_changed.deep_view(),
                breadcrumb_id.deep_view(),
                ctx@,
                now,
            ) {
                Ok((t2, answer)) => r matches Ok(x) && x@ == answer && final(t)@ == t2,
                Err(e) => r matches Err(x) && x@ == e && final(t)@ == old(t)@,
            },
{
    let now = Timestamp::now();
    step_at(t, result, files_changed, breadcrumb_id, ctx, &now)
}

/// Whether the breadcrumb that a step would work on, if there is one, has room for another step.
pub fn can_step(t: &Tracker, breadcrumb_id: Option<&str>) -> (b: bool)
    ensures
        b == step_fits(t@, breadcrumb_id.deep_view()),
{
    match locate(t, breadcrumb_id) {
        Ok((_id, pid, i)) => t.projects.get(pid.as_str()).unwrap()[i].current_step < usize::MAX,
        Err(_) => true,
    }
}

// ---- complete -----------------------------------------------------------------------------

/// The breadcrumb as it is archived on completion.
pub open spec fn completed(bc: BreadcrumbView, ctx: WriterView, now: Instant) -> BreadcrumbView {
    BreadcrumbView {
        last_activity_at: stamp(now),
        writer_actor: ctx.actor,
        writer_machine: ctx.machine,
        writer_session: ctx.session,
        writer_at: stamp(now),
        stale: false,
        ..bc
    }
}

/// The tracker after the breadcrumb at place `i` of `pid` is retired: `bc` is what is archived of
/// it under `date`, and it is gone from its project and from the index.
pub open spec fn retired(
    t: TrackerView,
    pid: Seq<char>,
    i: int,
    bc: BreadcrumbView,
    date: Seq<char>,
) -> TrackerView {
    TrackerView {
        index: t.index.remove(bc.id),
        projects: t.projects.insert(pid, t.projects[pid].remove(i)),
        storage: archived(t.storage, bc, date),
    }
}

/// The answer to the completion of `bc` on the day `date`.
pub open spec fn complete_answer(
    l: LayoutView,
    summary: Seq<char>,
    id: Seq<char>,
    bc: BreadcrumbView,
    date: Seq<char>,
) -> CompleteView {
    CompleteView {
        status: "completed"@,
        id,
        name: bc.name,
        steps_completed: bc.step_results.len(),
        files_changed: bc.files_changed,
        summary,
        archived_to: archive_file(l, date, id),
        extract_now: true,
        note:
            "Review work for extraction-worthy insights (3Q gate: Reusable? Specific? New?)"@,
    }
}

/// The outcome of a completion on the day `date`.
pub open spec fn complete_outcome(
    t: TrackerView,
    l: LayoutView,
    summary: Seq<char>,
    id: Option<Seq<char>>,
    ctx: WriterView,
    now: Instant,
    date: Seq<char>,
) -> Result<(TrackerView, CompleteView), ErrorView> {
    match located(t, id) {
        Ok((id, pid, i)) => {
            let bc = t.projects[pid][i];
            Ok(
                (
                    retired(t, pid, i, completed(bc, ctx, now), date),
                    complete_answer(l, summary, id, bc, date),
                ),
            )
        },
        Err(e) => Err(e),
    }
}

proof fn located_stands(t: TrackerView, id: Option<Seq<char>>)
    requires
        located(t, id) is Ok,
    ensures
        ({
            let p = located(t, id)->Ok_0;
            0 <= p.2 < project_of(t.projects, p.1).len() && project_of(t.projects, p.1)[p.2].id
                == p.0
        }),
{
    let p = located(t, id)->Ok_0;
    let bcs = project_of(t.projects, p.1);
    assert(first_at(bcs, p.0, choose|i: int| first_at(bcs, p.0, i)));
}

fn retire_named(t: &mut Tracker, bc: &Breadcrumb, date: &str) -> (r: Result<(), BreadcrumbError>)
    ensures
        match retirement(old(t)@, bc@, date@) {
            Ok(t2) => r is Ok && final(t)@ == t2,
            Err(e) => r matches Err(x) && x@ == e && final(t)@ == old(t)@,
        },
{
    let (_id, pid, i) = match locate(t, Some(bc.id.as_str())) {
        Ok(p) => p,
        Err(e) => {
            return Err(e);
        },
    };
    let _taken = take_breadcrumb(&mut t.projects, pid.as_str(), i);
    put_archived(&mut t.storage, bc, date);
    index_remove(&mut t.index, bc.id.as_str());
    Ok(())
}

/// A completion that is decided on and not carried out yet: what is to be archived of the
/// breadcrumb, under which date, and the answer once it is.
#[derive(Debug)]
pub struct Completion {
    pub breadcrumb: Breadcrumb,
    pub date: String,
    pub response: CompleteResponse,
}

#[verifier::ext_equal]
pub struct CompletionView {
    pub breadcrumb: BreadcrumbView,
    pub date: Seq<char>,
    pub response: CompleteView,
}

impl View for Completion {
    type V = CompletionView;

    open spec fn view(&self) -> CompletionView {
        CompletionView {
            breadcrumb: self.breadcrumb@,
            date: self.date@,
            response: self.response@,
        }
    }
}

/// The completion that a request asks for, on the day `date`.
pub open spec fn planned_completion(
    t: TrackerView,
    l: LayoutView,
    summary: Seq<char>,
    id: Option<Seq<char>>,
    ctx: WriterView,
    now: Instant,
    date: Seq<char>,
) -> Result<CompletionView, ErrorView> {
    match located(t, id) {
        Ok((id, pid, i)) => {
            let bc = t.projects[pid][i];
            Ok(
                CompletionView {
                    breadcrumb: completed(bc, ctx, now),
                    date,
                    response: complete_answer(l, summary, id, bc, date),
                },
            )
        },
        Err(e) => Err(e),
    }
}

/// The tracker once the archived copy `bc` of an active breadcrumb is written under `date`: that
/// breadcrumb is retired. Refused where it is not active.
pub open spec fn retirement(t: TrackerView, bc: BreadcrumbView, date: Seq<char>) -> Result<
    TrackerView,
    ErrorView,
> {
    match located(t, Some(bc.id)) {
        Ok((id, pid, i)) => Ok(retired(t, pid, i, bc, date)),
        Err(e) => Err(e),
    }
}

/// A breadcrumb that a request means is found again under its own identifier.
pub proof fn located_again(t: TrackerView, id: Option<Seq<char>>)
    requires
        t.index.dom().finite(),
        located(t, id) is Ok,
    ensures
        located(t, Some(located(t, id)->Ok_0.0)) == located(t, id),
{
    if id is None {
        assert(t.index.dom().len() == 1);
        assert(t.index.dom().contains(t.index.dom().choose()));
    }
}

/// Decide on the completion of a breadcrumb at `now` on the day `today`. Nothing is changed: the
/// archived copy is to be written first, then `finish_complete` carries the completion out.
pub fn plan_complete_at(
    t: &Tracker,
    layout: &Layout,
    summary: &str,
    breadcrumb_id: Option<&str>,
    ctx: &WriterContext,
    now: &Timestamp,
    today: i32,
) -> (r: Result<Completion, BreadcrumbError>)
    requires
        valid_day(today as int),
    ensures
        match planned_completion(
            t@,
            layout@,
            summary@,
            breadcrumb_id.deep_view(),
            ctx@,
            now@,
            date_writing(today),
        ) {
            Ok(c) => r matches Ok(x) && x@ == c,
            Err(e) => r matches Err(x) && x@ == e,
        },
        r is Ok ==> names_back(today),
{
    let (id, pid, i) = match locate(t, breadcrumb_id) {
        Ok(p) => p,
        Err(e) => {
            return Err(e);
        },
    };
    let at = now.to_rfc3339();
    let mut bc = get_breadcrumb(&t.projects, pid.as_str(), i);
    bc.last_activity_at = at.clone();
    bc.writer_actor = ctx.actor.clone();
    bc.writer_machine = ctx.machine.clone();
    bc.writer_session = ctx.session.clone();
    bc.writer_at = at;
    bc.stale = false;
    assert(bc@ == completed(t@.projects[pid@][i as int], ctx@, now@));
    let date = day_name(today);
    let response = CompleteResponse {
        status: "completed".to_owned(),
        name: bc.name.clone(),
        steps_completed: bc.step_results.len(),
        files_changed: copy_texts(&bc.files_changed),
        summary: summary.to_owned(),
        archived_to: archived_file(layout, date.as_str(), id.as_str()),
        id,
        extract_now: true,
        note:
            "Review work for extraction-worthy insights (3Q gate: Reusable? Specific? New?)".to_owned(),
    };
    Ok(Completion { breadcrumb: bc, date, response })
}

/// Carry out a completion. `written` tells whether the archived copy was written: if it was not, for
/// the reason given, the completion is refused and the breadcrumb stays active as it is.
pub fn finish_complete(t: &mut Tracker, c: Completion, written: Result<(), String>) -> (r: Result<
    CompleteResponse,
    BreadcrumbError,
>)
    ensures
        written matches Err(m) ==> final(t)@ == old(t)@ && (r matches Err(BreadcrumbError::Io(x))
            && x@ == m@),
        written is Ok ==> match retirement(old(t)@, c@.breadcrumb, c@.date) {
            Ok(t2) => r matches Ok(x) && x@ == c@.response && final(t)@ == t2,
            Err(e) => r matches Err(x) && x@ == e && final(t)@ == old(t)@,
        },
{
    match written {
        Err(m) => Err(BreadcrumbError::Io(m)),
        Ok(_) => match retire_named(t, &c.breadcrumb, c.date.as_str()) {
            Ok(_) => Ok(c.response),
            Err(e) => Err(e),
        },
    }
}

/// Mark a breadcrumb complete at `now` and archive it under the date of the day `today`.
pub fn complete_at(
    t: &mut Tracker,
    layout: &Layout,
    summary: &str,
    breadcrumb_id: Option<&str>,
    ctx: &WriterContext,
    now: &Timestamp,
    today: i32,
) -> (r: Result<CompleteResponse, BreadcrumbError>)
    requires
        valid_day(today as int),
    ensures
        match complete_outcome(
            old(t)@,
            layout@,
            summary@,
            breadcrumb_id.deep_view(),
            ctx@,
            now@,
            date_writing(today),
        ) {
            Ok((t2, answer)) => r matches Ok(x) && x@ == answer && final(t)@ == t2,
            Err(e) => r matches Err(x) && x@ == e && final(t)@ == old(t)@,
        },
        r is Ok ==> names_back(today),
{
    let _count = t.index.len();
    let ghost id = breadcrumb_id.deep_view();
    match plan_complete_at(t, layout, summary, breadcrumb_id, ctx, now, today) {
        Ok(c) => {
            proof {
                located_again(t@, id);
                located_stands(t@, id);
            }
            finish_complete(t, c, Ok(()))
        },
        Err(e) => Err(e),
    }
}

/// Mark a breadcrumb complete and archive it.
pub fn complete(
    t: &mut Tracker,
    layout: &Layout,
    summary: &str,
    breadcrumb_id: Option<&str>,
    ctx: &WriterContext,
) -> (r: Result<CompleteResponse, BreadcrumbError>)
    ensures
        exists|now: Instant, day: i32|
            clock_instant(now) && valid_day(day as int) && (r is Ok ==> names_back(day))
                && match #[trigger] complete_outcome(
                old(t)@,
                layout@,
                summary@,
                breadcrumb_id.deep_view(),
                ctx@,
                now,
                date_writing(day),
            ) {
                Ok((t2, answer)) => r matches Ok(x) && x@ == answer && final(t)@ == t2,
                Err(e) => r matches Err(x) && x@ == e && final(t)@ == old(t)@,
            },
{
    let now = Timestamp::now();
    let day = today();
    complete_at(t, layout, summary, breadcrumb_id, ctx, &now, day)
}

// ---- abort --------------------------------------------------------------------------------

/// How many days back the archive is searched for a breadcrumb that is no longer active.
pub const ARCHIVE_SEARCH_DAYS: u32 = 7;

/// The breadcrumb as it is archived on an abort.
pub open spec fn aborted(
    bc: BreadcrumbView,
    reason: Seq<char>,
    ctx: WriterView,
    now: Instant,
) -> BreadcrumbView {
    BreadcrumbView {
        aborted: true,
        abort_reason: Some(reason),
        last_activity_at: stamp(now),
        writer_actor: ctx.actor,
        writer_session: ctx.session,
        writer_at: stamp(now),
        ..bc
    }
}

/// How an archived breadcrumb ended.
pub open spec fn result_type(bc: BreadcrumbView) -> Seq<char> {
    if bc.aborted {
        "aborted"@
    } else {
        "completed"@
    }
}

/// The archived breadcrumb that a request means, where it names one that is not active: the
/// breadcrumb and the date under which it is archived.
pub open spec fn archived_request(t: TrackerView, id: Option<Seq<char>>, today: int) -> Option<
    (BreadcrumbView, Seq<char>),
> {
    match resolved(t.index, id) {
        Err(ErrorView::NotFound { id }) => archived_since(
            t.storage.completed,
            id,
            today,
            0,
            ARCHIVE_SEARCH_DAYS as nat,
        ),
        _ => None,
    }
}

/// The answer where `id` is archived already: `bc` is what is archived of it, under `date`.
pub open spec fn archived_answer(
    l: LayoutView,
    id: Seq<char>,
    bc: BreadcrumbView,
    date: Seq<char>,
) -> AbortView {
    AbortView::AlreadyArchived {
        status: "already_archived"@,
        id: bc.id,
        name: bc.name,
        archived_at: bc.last_activity_at,
        result_type: result_type(bc),
        reason: bc.abort_reason,
        archived_path: archive_file(l, date, id),
    }
}

/// The answer to the abort of the active breadcrumb `bc`.
pub open spec fn abort_answer(id: Seq<char>, bc: BreadcrumbView, reason: Seq<char>) -> AbortView {
    AbortView::Aborted {
        status: "aborted"@,
        id,
        name: bc.name,
        reason,
        steps_completed: bc.step_results.len(),
    }
}

/// The outcome of an abort on the day `today`.
pub open spec fn abort_outcome(
    t: TrackerView,
    l: LayoutView,
    reason: Seq<char>,
    id: Option<Seq<char>>,
    ctx: WriterView,
    now: Instant,
    today: i32,
) -> Result<(TrackerView, AbortView), ErrorView> {
    match archived_request(t, id, today as int) {
        Some((bc, date)) => Ok((t, archived_answer(l, id->0, bc, date))),
        None => match located(t, id) {
            Ok((id, pid, i)) => {
                let bc = t.projects[pid][i];
                Ok(
                    (
                        retired(t, pid, i, aborted(bc, reason, ctx, now), date_writing(today)),
                        abort_answer(id, bc, reason),
                    ),
                )
            },
            Err(e) => Err(e),
        },
    }
}

fn result_type_of(bc: &Breadcrumb) -> (r: String)
    ensures
        r@ == result_type(bc@),
{
    if bc.aborted {
        "aborted".to_owned()
    } else {
        "completed".to_owned()
    }
}

fn find_request(t: &Tracker, id: Option<&str>, today: i32) -> (r: Option<(Breadcrumb, String)>)
    requires
        valid_day(today as int),
    ensures
        r is Some <==> archived_request(t@, id.deep_view(), today as int) is Some,
        r matches Some((bc, date)) ==> archived_request(t@, id.deep_view(), today as int) == Some(
            (bc@, date@),
        ) && id is Some,
{
    match resolve(&t.index, id) {
        Err(BreadcrumbError::NotFound { id }) => find_archived(
            &t.storage.completed,
            id.as_str(),
            today,
            ARCHIVE_SEARCH_DAYS,
        ),
        _ => None,
    }
}

/// An abort that is decided on and not carried out yet. Where the breadcrumb was archived before,
/// there is only the answer; else there is what is to be archived of it, under which date, and the
/// answer once it is.
#[allow(inconsistent_fields)]
#[derive(Debug)]
pub enum AbortPlan {
    AlreadyArchived { response: AbortResponse },
    Archive { breadcrumb: Breadcrumb, date: String, response: AbortResponse },
}

#[allow(inconsistent_fields)]
#[verifier::ext_equal]
pub enum AbortPlanView {
    AlreadyArchived { response: AbortView },
    Archive { breadcrumb: BreadcrumbView, date: Seq<char>, response: AbortView },
}

impl View for AbortPlan {
    type V = AbortPlanView;

    open spec fn view(&self) -> AbortPlanView {
        match self {
            AbortPlan::AlreadyArchived { response } => AbortPlanView::AlreadyArchived {
                response: response@,
            },
            AbortPlan::Archive { breadcrumb, date, response } => AbortPlanView::Archive {
                breadcrumb: breadcrumb@,
                date: date@,
                response: response@,
            },
        }
    }
}

/// The abort that a request asks for, on the day `today`.
pub open spec fn planned_abort(
    t: TrackerView,
    l: LayoutView,
    reason: Seq<char>,
    id: Option<Seq<char>>,
    ctx: WriterView,
    now: Instant,
    today: i32,
) -> Result<AbortPlanView, ErrorView> {
    match archived_request(t, id, today as int) {
        Some((bc, date)) => Ok(
            AbortPlanView::AlreadyArchived { response: archived_answer(l, id->0, bc, date) },
        ),
        None => match located(t, id) {
            Ok((id, pid, i)) => Ok(
                AbortPlanView::Archive {
                    breadcrumb: aborted(t.projects[pid][i], reason, ctx, now),
                    date: date_writing(today),
                    response: abort_answer(id, t.projects[pid][i], reason),
                },
            ),
            Err(e) => Err(e),
        },
    }
}

/// Decide on the abort of a breadcrumb at `now` on the day `today`. Nothing is changed: the archived
/// copy is to be written first, where there is one, then `finish_abort` carries the abort out.
///
/// If the breadcrumb is not in the active index, checks the completed archive
/// (today + 7 days). If found there, the answer has the status `already_archived`.
pub fn plan_abort_at(
    t: &Tracker,
    layout: &Layout,
    reason: &str,
    breadcrumb_id: Option<&str>,
    ctx: &WriterContext,
    now: &Timestamp,
    today: i32,
) -> (r: Result<AbortPlan, BreadcrumbError>)
    requires
        valid_day(today as int),
    ensures
        match planned_abort(
            t@,
            layout@,
            reason@,
            breadcrumb_id.deep_view(),
            ctx@,
            now@,
            today,
        ) {
            Ok(plan) => r matches Ok(x) && x@ == plan,
            Err(e) => r matches Err(x) && x@ == e,
        },
        r matches Ok(AbortPlan::Archive { .. }) ==> names_back(today),
{
    if let Some((bc, date)) = find_request(t, breadcrumb_id, today) {
        let response = AbortResponse::AlreadyArchived {
            status: "already_archived".to_owned(),
            result_type: result_type_of(&bc),
            id: bc.id,
            name: bc.name,
            archived_at: bc.last_activity_at,
            reason: bc.abort_reason,
            archived_path: archived_file(layout, date.as_str(), breadcrumb_id.unwrap()),
        };
        return Ok(AbortPlan::AlreadyArchived { response });
    }
    let (id, pid, i) = match locate(t, breadcrumb_id) {
        Ok(p) => p,
        Err(e) => {
            return Err(e);
        },
    };
    let at = now.to_rfc3339();
    let mut bc = get_breadcrumb(&t.projects, pid.as_str(), i);
    bc.aborted = true;
    bc.abort_reason = Some(reason.to_owned());
    bc.last_activity_at = at.clone();
    bc.writer_actor = ctx.actor.clone();
    bc.writer_session = ctx.session.clone();
    bc.writer_at = at;
    assert(bc@ == aborted(t@.projects[pid@][i as int], reason@, ctx@, now@));
    let response = AbortResponse::Aborted {
        status: "aborted".to_owned(),
        id,
        name: bc.name.clone(),
        reason: reason.to_owned(),
        steps_completed: bc.step_results.len(),
    };
    Ok(AbortPlan::Archive { breadcrumb: bc, date: day_name(today), response })
}

/// Carry out an abort. `written` tells whether the archived copy was written: if it was not, for the
/// reason given, the abort is refused and the breadcrumb stays active as it is. Where the breadcrumb
/// was archived before there is no copy to write, and the answer is given.
pub fn finish_abort(t: &mut Tracker, plan: AbortPlan, written: Result<(), String>) -> (r: Result<
    AbortResponse,
    BreadcrumbError,
>)
    ensures
        match plan@ {
            AbortPlanView::AlreadyArchived { response } => r matches Ok(x) && x@ == response
                && final(t)@ == old(t)@,
            AbortPlanView::Archive { breadcrumb, date, response } => {
                &&& written matches Err(m) ==> final(t)@ == old(t)@ && (r matches Err(
                    BreadcrumbError::Io(x),
                ) && x@ == m@)
                &&& written is Ok ==> match retirement(old(t)@, breadcrumb, date) {
                    Ok(t2) => r matches Ok(x) && x@ == response && final(t)@ == t2,
                    Err(e) => r matches Err(x) && x@ == e && final(t)@ == old(t)@,
                }
            },
        },
{
    match plan {
        AbortPlan::AlreadyArchived { response } => Ok(response),
        AbortPlan::Archive { breadcrumb, date, response } => match written {
            Err(m) => Err(BreadcrumbError::Io(m)),
            Ok(_) => match retire_named(t, &breadcrumb, date.as_str()) {
                Ok(_) => Ok(response),
                Err(e) => Err(e),
            },
        },
    }
}

/// Abort a breadcrumb at `now` with a reason, and archive it under the date of the day `today`.
///
/// If the breadcrumb is not in the active index, checks the completed archive
/// (today + 7 days). If found there, succeeds with the status `already_archived`.
pub fn abort_at(
    t: &mut Tracker,
    layout: &Layout,
    reason: &str,
    breadcrumb_id: Option<&str>,
    ctx: &WriterContext,
    now: &Timestamp,
    today: i32,
) -> (r: Result<AbortResponse, BreadcrumbError>)
    requires
        valid_day(today as int),
    ensures
        match abort_outcome(
            old(t)@,
            layout@,
            reason@,
            breadcrumb_id.deep_view(),
            ctx@,
            now@,
            today,
        ) {
            Ok((t2, answer)) => r matches Ok(x) && x@ == answer && final(t)@ == t2,
            Err(e) => r matches Err(x) && x@ == e && final(t)@ == old(t)@,
        },
        r matches Ok(AbortResponse::Aborted { .. }) ==> names_back(today),
{
    let _count = t.index.len();
    let ghost id = breadcrumb_id.deep_view();
    match plan_abort_at(t, layout, reason, breadcrumb_id, ctx, now, today) {
        Ok(plan) => {
            proof {
                if located(t@, id) is Ok {
                    located_again(t@, id);
                    located_stands(t@, id);
                }
            }
            finish_abort(t, plan, Ok(()))
        },
        Err(e) => Err(e),
    }
}

/// Abort a breadcrumb with a reason and archive it.
///
/// If the breadcrumb is not in the active index, checks the completed archive
/// (today + 7 days). If found there, succeeds with the status `already_archived`.
pub fn abort(
    t: &mut Tracker,
    layout: &Layout,
    reason: &str,
    breadcrumb_id: Option<&str>,
    ctx: &WriterContext,
) -> (r: Result<AbortResponse, BreadcrumbError>)
    ensures
        exists|now: Instant, day: i32|
            clock_instant(now) && valid_day(day as int) && (r matches Ok(
                AbortResponse::Aborted { .. },
            ) ==> names_back(day)) && match #[trigger] abort_outcome(
                old(t)@,
                layout@,
                reason@,
                breadcrumb_id.deep_view(),
                ctx@,
                now,
                day,
            ) {
                Ok((t2, answer)) => r matches Ok(x) && x@ == answer && final(t)@ == t2,
                Err(e) => r matches Err(x) && x@ == e && final(t)@ == old(t)@,
            },
{
    let now = Timestamp::now();
    let day = today();
    abort_at(t, layout, reason, breadcrumb_id, ctx, &now, day)
}

// ---- adopt --------------------------------------------------------------------------------

/// The breadcrumb under its new owner.
pub open spec fn adopted(bc: BreadcrumbView, ctx: WriterView, now: Instant) -> BreadcrumbView {
    BreadcrumbView {
        owner: ctx.actor,
        writer_actor: ctx.actor,
        writer_machine: ctx.machine,
        writer_session: ctx.session,
        writer_at: stamp(now),
        last_activity_at: stamp(now),
        ..bc
    }
}

/// The index after the breadcrumb `id` passed to `owner` at `now`.
pub open spec fn reassigned(
    index: IndexView,
    id: Seq<char>,
    owner: Seq<char>,
    now: Seq<char>,
) -> IndexView {
    if index.contains_key(id) {
        index.insert(id, EntryView { owner, last_activity_at: now, ..index[id] })
    } else {
        index
    }
}

/// Why an archived breadcrumb cannot be adopted.
pub open spec fn cannot_adopt(
    l: LayoutView,
    id: Seq<char>,
    bc: BreadcrumbView,
    date: Seq<char>,
) -> Seq<char> {
    "Cannot adopt: breadcrumb "@ + id + " was already "@ + result_type(bc) + " on "@
        + bc.last_activity_at + ". Archived at "@ + archive_file(l, date, id) + "."@
}

/// The outcome of an adoption on the day `today`.
pub open spec fn adopt_outcome(
    t: TrackerView,
    l: LayoutView,
    id: Seq<char>,
    ctx: WriterView,
    now: Instant,
    today: i32,
) -> Result<(TrackerView, AdoptView), ErrorView> {
    match archived_request(t, Some(id), today as int) {
        Some((bc, date)) => Err(ErrorView::Other(cannot_adopt(l, id, bc, date))),
        None => match located(t, Some(id)) {
            Ok((id, pid, i)) => {
                let bc = t.projects[pid][i];
                Ok(
                    (
                        TrackerView {
                            index: reassigned(t.index, id, ctx.actor, stamp(now)),
                            projects: t.projects.insert(
                                pid,
                                t.projects[pid].update(i, adopted(bc, ctx, now)),
                            ),
                            storage: filed(t.storage, adopted(bc, ctx, now)),
                        },
                        AdoptView {
                            status: "adopted"@,
                            breadcrumb_id: id,
                            new_owner: ctx.actor,
                            prev_owner: bc.owner,
                        },
                    ),
                )
            },
            Err(e) => Err(e),
        },
    }
}

fn reassign(index: &mut Index, id: &str, owner: &String, now: &String)
    ensures
        final(index)@ == reassigned(old(index)@, id@, owner@, now@),
{
    let changed = match index.get(id) {
        Some(entry) => {
            let mut entry = entry.clone();
            entry.owner = owner.clone();
            entry.last_activity_at = now.clone();
            Some(entry)
        },
        None => None,
    };
    if let Some(entry) = changed {
        index.insert(id.to_owned(), entry);
    }
}

/// Reassign ownership of a breadcrumb to the current actor, at `now` on the day `today`.
///
/// If the breadcrumb is already archived, returns a descriptive error
/// explaining when and how it was archived.
pub fn adopt_at(
    t: &mut Tracker,
    layout: &Layout,
    breadcrumb_id: &str,
    ctx: &WriterContext,
    now: &Timestamp,
    today: i32,
) -> (r: Result<AdoptResponse, BreadcrumbError>)
    requires
        valid_day(today as int),
    ensures
        match adopt_outcome(old(t)@, layout@, breadcrumb_id@, ctx@, now@, today) {
            Ok((t2, answer)) => r matches Ok(x) && x@ == answer && final(t)@ == t2,
            Err(e) => r matches Err(x) && x@ == e && final(t)@ == old(t)@,
        },
        r is Ok ==> stamps_back(now@),
{
    if let Some((bc, date)) = find_request(t, Some(breadcrumb_id), today) {
        let mut message = concat("Cannot adopt: breadcrumb ", breadcrumb_id);
        message.append(" was already ");
        message.append(result_type_of(&bc).as_str());
        message.append(" on ");
        message.append(bc.last_activity_at.as_str());
        message.append(". Archived at ");
        message.append(archived_file(layout, date.as_str(), breadcrumb_id).as_str());
        message.append(".");
        return Err(BreadcrumbError::Other(message));
    }
    let (id, pid, i) = match locate(t, Some(breadcrumb_id)) {
        Ok(p) => p,
        Err(e) => {
            return Err(e);
        },
    };
    let at = now.to_rfc3339();
    let mut bc = get_breadcrumb(&t.projects, pid.as_str(), i);
    let prev_owner = bc.owner.clone();
    bc.owner = ctx.actor.clone();
    bc.writer_actor = ctx.actor.clone();
    bc.writer_machine = ctx.machine.clone();
    bc.writer_session = ctx.session.clone();
    bc.writer_at = at.clone();
    bc.last_activity_at = at.clone();
    assert(bc@ == adopted(t@.projects[pid@][i as int], ctx@, now@));
    write_breadcrumb(&mut t.storage.active, &bc);
    put_breadcrumb(&mut t.projects, pid.as_str(), i, bc);
    reassign(&mut t.index, id.as_str(), &ctx.actor, &at);
    Ok(
        AdoptResponse {
            status: "adopted".to_owned(),
            breadcrumb_id: id,
            new_owner: ctx.actor.clone(),
            prev_owner,
        },
    )
}

/// Reassign ownership of a breadcrumb to the current actor.
/// Useful when picking up an operation abandoned by another session.
///
/// If the breadcrumb is already archived, returns a descriptive error
/// explaining when and how it was archived.
pub fn adopt(t: &mut Tracker, layout: &Layout, breadcrumb_id: &str, ctx: &WriterContext) -> (r: Result<
    AdoptResponse,
    BreadcrumbError,
>)
    ensures
        exists|now: Instant, day: i32|
            clock_instant(now) && valid_day(day as int) && (r is Ok ==> stamps_back(now))
                && match #[trigger] adopt_outcome(
                old(t)@,
                layout@,
                breadcrumb_id@,
                ctx@,
                now,
                day,
            ) {
                Ok((t2, answer)) => r matches Ok(x) && x@ == answer && final(t)@ == t2,
                Err(e) => r matches Err(x) && x@ == e && final(t)@ == old(t)@,
            },
{
    let now = Timestamp::now();
    let day = today();
    adopt_at(t, layout, breadcrumb_id, ctx, &now, day)
}

// ---- backup -------------------------------------------------------------------------------

/// The outcome of a snapshot at the local time `moment`.
pub open spec fn backup_outcome(
    t: TrackerView,
    l: LayoutView,
    id: Option<Seq<char>>,
    moment: Seq<char>,
) -> Result<BackupView, ErrorView> {
    match located(t, id) {
        Ok((id, pid, i)) => Ok(
            BackupView {
                breadcrumb: t.projects[pid][i],
                status: "backed_up"@,
                breadcrumb_id: id,
                path: path_in(
                    "C:\\CPC\\backups\\breadcrumbs"@,
                    json_name(id + "_"@ + moment),
                    l.separator,
                ),
            },
        ),
        Err(e) => Err(e),
    }
}

/// Take a snapshot of a breadcrumb, for the local time `moment`.
pub fn backup_at(t: &Tracker, layout: &Layout, breadcrumb_id: Option<&str>, moment: &str) -> (r:
    Result<BackupResponse, BreadcrumbError>)
    ensures
        match backup_outcome(t@, layout@, breadcrumb_id.deep_view(), moment@) {
            Ok(answer) => r matches Ok(x) && x@ == answer,
            Err(e) => r matches Err(x) && x@ == e,
        },
{
    match locate(t, breadcrumb_id) {
        Ok((id, pid, i)) => {
            let path = backup_file(layout, id.as_str(), moment);
            Ok(
                BackupResponse {
                    breadcrumb: get_breadcrumb(&t.projects, pid.as_str(), i),
                    status: "backed_up".to_owned(),
                    breadcrumb_id: id,
                    path,
                },
            )
        },
        Err(e) => Err(e),
    }
}

/// Take a snapshot of the current state of a breadcrumb.
pub fn backup(t: &Tracker, layout: &Layout, breadcrumb_id: Option<&str>) -> (r: Result<
    BackupResponse,
    BreadcrumbError,
>)
    ensures
        exists|now: LocalTime|
            valid_local_time(now) && match backup_outcome(
                t@,
                layout@,
                breadcrumb_id.deep_view(),
                #[trigger] moment_text(now),
            ) {
                Ok(answer) => r matches Ok(x) && x@ == answer,
                Err(e) => r matches Err(x) && x@ == e,
            },
{
    let now = moment();
    backup_at(t, layout, breadcrumb_id, now.as_str())
}

// ---- reap ---------------------------------------------------------------------------------

/// The tracker after the breadcrumb `id` is taken out of the index, and out of its project.
pub open spec fn forgotten(t: TrackerView, id: Seq<char>) -> TrackerView {
    match located(t, Some(id)) {
        Ok((id, pid, i)) => TrackerView {
            index: t.index.remove(id),
            projects: t.projects.insert(pid, t.projects[pid].remove(i)),
            ..t
        },
        Err(_) => TrackerView { index: t.index.remove(id), ..t },
    }
}

/// The tracker after all of `ids` are forgotten, in order.
pub open spec fn all_forgotten(t: TrackerView, ids: Seq<Seq<char>>) -> TrackerView
    decreases ids.len(),
{
    if ids.len() == 0 {
        t
    } else {
        forgotten(all_forgotten(t, ids.drop_last()), ids.last())
    }
}

/// The outcome of a reap at `now` under `date`: the stale ones among `active`, the breadcrumbs with a
/// file, are archived as aborted, and are not active any more. Besides the tracker, the identifiers
/// of those that are reaped.
pub open spec fn reap_outcome(
    t: TrackerView,
    active: Seq<BreadcrumbView>,
    hours: u64,
    now: Instant,
    date: Seq<char>,
) -> (TrackerView, Seq<Seq<char>>) {
    let gone = reaped_among(active, hours, now);
    (all_retired(t, gone, date), ids_of(gone))
}

/// The tracker after all of `bcs` are archived under `date`, and are not active any more.
pub open spec fn all_retired(
    t: TrackerView,
    bcs: Seq<BreadcrumbView>,
    date: Seq<char>,
) -> TrackerView {
    all_forgotten(
        TrackerView { storage: archived_all(t.storage, bcs, date), ..t },
        ids_of(bcs),
    )
}

fn forget(t: &mut Tracker, id: &str)
    ensures
        final(t)@ == forgotten(old(t)@, id@),
{
    match locate(t, Some(id)) {
        Ok((_id, pid, i)) => {
            let _taken = take_breadcrumb(&mut t.projects, pid.as_str(), i);
            index_remove(&mut t.index, id);
        },
        Err(_) => {
            index_remove(&mut t.index, id);
        },
    }
}

fn forget_all(t: &mut Tracker, ids: &Vec<String>)
    ensures
        final(t)@ == all_forgotten(old(t)@, ids.deep_view()),
{
    let ghost before = t@;
    let ghost all = ids.deep_view();
    assert(all.take(0) =~= Seq::<Seq<char>>::empty());
    for i in 0..ids.len()
        invariant
            all == ids.deep_view(),
            t@ == all_forgotten(before, all.take(i as int)),
    {
        assert(all.take(i + 1).drop_last() =~= all.take(i as int));
        assert(all.take(i + 1).last() == ids@[i as int]@);
        forget(t, ids[i].as_str());
    }
    assert(all.take(all.len() as int) =~= all);
}

/// Decide on a reap at `now`: the breadcrumbs without activity in the `hours` before, as they are to
/// be archived. Nothing is changed: the copies are to be written first, then `finish_reap` carries
/// the reap out.
pub fn plan_reap_at(t: &Tracker, hours: u64, now: &Timestamp) -> (r: Vec<Breadcrumb>)
    ensures
        r.deep_view() == reaped_among(
            breadcrumbs_met(t.storage.active.keys(), t.storage.active@),
            hours,
            now@,
        ),
        walks(t.storage.active.keys(), t@.storage.active),
{
    find_reapable_at(&t.storage.active, hours, now)
}

/// Decide on a reap of the breadcrumbs without activity in the last `hours`.
pub fn plan_reap(t: &Tracker, hours: u64) -> (r: Vec<Breadcrumb>)
    ensures
        exists|now: Instant|
            clock_instant(now) && r.deep_view() == #[trigger] reaped_among(
                breadcrumbs_met(t.storage.active.keys(), t.storage.active@),
                hours,
                now,
            ),
        walks(t.storage.active.keys(), t@.storage.active),
{
    let now = Timestamp::now();
    plan_reap_at(t, hours, &now)
}

/// Carry out a reap under `date`: of the breadcrumbs in `gone`, those whose archived copy was written
/// are not active any more, and the others stay as they are. `written` tells which, in order.
/// Returns the identifiers of those that are reaped.
pub fn finish_reap(t: &mut Tracker, gone: &Vec<Breadcrumb>, written: &Vec<bool>, date: &str) -> (ids:
    Vec<String>)
    ensures
        final(t)@ == all_retired(old(t)@, copied(gone.deep_view(), written@), date@),
        ids.deep_view() == ids_of(copied(gone.deep_view(), written@)),
{
    let ghost before = t@.storage;
    let ghost bcs = gone.deep_view();
    let mut ids: Vec<String> = Vec::new();
    assert(bcs.take(0) =~= Seq::<BreadcrumbView>::empty());
    assert(ids.deep_view() =~= ids_of(copied(bcs.take(0), written@)));
    for i in 0..gone.len()
        invariant
            bcs == gone.deep_view(),
            t.index == old(t).index,
            t.projects == old(t).projects,
            t.storage@ == archived_all(before, copied(bcs.take(i as int), written@), date@),
            ids.deep_view() == ids_of(copied(bcs.take(i as int), written@)),
    {
        let ghost known = ids.deep_view();
        let ghost kept = copied(bcs.take(i as int), written@);
        assert(bcs.take(i + 1).drop_last() =~= bcs.take(i as int));
        assert(bcs.take(i + 1).last() == gone@[i as int]@);
        if i < written.len() && written[i] {
            put_archived(&mut t.storage, &gone[i], date);
            ids.push(gone[i].id.clone());
            assert(ids.deep_view() =~= known.push(gone@[i as int]@.id));
            assert(kept.push(gone@[i as int]@).drop_last() =~= kept);
            assert(ids_of(kept.push(gone@[i as int]@)) =~= ids_of(kept).push(
                gone@[i as int]@.id,
            ));
        }
    }
    assert(bcs.take(bcs.len() as int) =~= bcs);
    forget_all(t, &ids);
    ids
}

/// Reap breadcrumbs without activity in the `hours` before `now`: each is aborted, archived under
/// `date`, and not active any more. Returns their identifiers.
pub fn reap_at(t: &mut Tracker, hours: u64, now: &Timestamp, date: &str) -> (ids: Vec<String>)
    ensures
        (final(t)@, ids.deep_view()) == reap_outcome(
            old(t)@,
            breadcrumbs_met(old(t).storage.active.keys(), old(t).storage.active@),
            hours,
            now@,
            date@,
        ),
        walks(old(t).storage.active.keys(), old(t)@.storage.active),
{
    let ids = reap_stale_at(&mut t.storage, hours, now, date);
    forget_all(t, &ids);
    ids
}

/// Reap breadcrumbs without activity in the last `hours`.
pub fn reap(t: &mut Tracker, hours: u64) -> (ids: Vec<String>)
    ensures
        exists|now: Instant, day: i32|
            clock_instant(now) && valid_day(day as int) && (final(t)@, ids.deep_view())
                == #[trigger] reap_outcome(
                old(t)@,
                breadcrumbs_met(old(t).storage.active.keys(), old(t).storage.active@),
                hours,
                now,
                date_writing(day),
            ),
        walks(old(t).storage.active.keys(), old(t)@.storage.active),
{
    let now = Timestamp::now();
    let date = day_name(today());
    reap_at(t, hours, &now, date.as_str())
}

// ---- Migrated breadcrumbs -----------------------------------------------------------------

/// The tracker after `bc` is taken in: it is active as if it had been started here, in place of a
/// breadcrumb of its project with the same identifier.
pub open spec fn taken_in(t: TrackerView, bc: BreadcrumbView) -> TrackerView {
    let pid = project_or_ungrouped(bc.project_id);
    let bcs = project_of(t.projects, pid);
    TrackerView {
        index: t.index.insert(bc.id, entry_of(bc)),
        projects: t.projects.insert(
            pid,
            match place_of(bcs, bc.id) {
                Some(i) => bcs.update(i, bc),
                None => bcs.push(bc),
            },
        ),
        storage: filed(t.storage, bc),
    }
}

/// Take in a breadcrumb that was migrated, so that operations reach it.
pub fn take_in(t: &mut Tracker, bc: &Breadcrumb)
    ensures
        final(t)@ == taken_in(old(t)@, bc@),
{
    let pid = project_name(&bc.project_id);
    write_breadcrumb(&mut t.storage.active, bc);
    let place: Option<usize> = match t.projects.get(pid.as_str()) {
        Some(bcs) => find_breadcrumb(bcs, bc.id.as_str()),
        None => None,
    };
    match place {
        Some(i) => {
            put_breadcrumb(&mut t.projects, pid.as_str(), i, bc.clone());
        },
        None => {
            assert(place_of(project_of(t@.projects, pid@), bc@.id) is None);
            push_breadcrumb(&mut t.projects, pid.as_str(), bc.clone());
        },
    }
    index_upsert(
        &mut t.index,
        IndexEntry {
            id: bc.id.clone(),
            project_id: copy_option(&bc.project_id),
            name: bc.name.clone(),
            owner: bc.owner.clone(),
            last_activity_at: bc.last_activity_at.clone(),
            started_at: bc.started_at.clone(),
        },
    );
    assert(t@.index =~= taken_in(old(t)@, bc@).index);
}

/// The tracker after all of `bcs` are taken in, in order.
pub open spec fn all_taken_in(t: TrackerView, bcs: Seq<BreadcrumbView>) -> TrackerView
    decreases bcs.len(),
{
    if bcs.len() == 0 {
        t
    } else {
        taken_in(all_taken_in(t, bcs.drop_last()), bcs.last())
    }
}

/// Take in breadcrumbs that were migrated, in order.
pub fn take_in_all(t: &mut Tracker, bcs: &Vec<Breadcrumb>)
    ensures
        final(t)@ == all_taken_in(old(t)@, bcs.deep_view()),
{
    let ghost before = t@;
    let ghost all = bcs.deep_view();
    assert(all.take(0) =~= Seq::<BreadcrumbView>::empty());
    for i in 0..bcs.len()
        invariant
            all == bcs.deep_view(),
            t@ == all_taken_in(before, all.take(i as int)),
    {
        assert(all.take(i + 1).drop_last() =~= all.take(i as int));
        assert(all.take(i + 1).last() == bcs@[i as int]@);
        take_in(t, &bcs[i]);
    }
    assert(all.take(all.len() as int) =~= all);
}

}
