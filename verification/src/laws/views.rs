//! What the values of the library show of themselves: every part, as it is.

use vstd::prelude::*;

use crate::error::{BreadcrumbError, ErrorView};
use crate::layout::Layout;
use crate::listing::{ListEntry, ListResponse, StatusEntry, StatusResponse};
use crate::migrate::{Legacy, LegacyDirs, LegacyFile};
use crate::reconcile::{ReconcileReport, StaleEntry};
use crate::response::{
    AbortResponse, AbortView, AdoptResponse, BackupResponse, CompleteResponse, StartResponse,
    StepResponse,
};
use crate::schema::{
    Breadcrumb, ConflictInfo, ConflictView, IndexEntry, StepResult, WriterContext,
};
use crate::storage::{FileContent, FileView, Storage};
use crate::tracker::{AbortPlan, AbortPlanView, Completion, Tracker};

verus! {

/// Whether an optional text is shown as it is.
pub open spec fn shows_option(shown: Option<Seq<char>>, part: Option<String>) -> bool {
    match part {
        Some(s) => shown == Some(s@),
        None => shown is None,
    }
}

/// Whether texts are shown as they are, in order.
pub open spec fn shows_texts(shown: Seq<Seq<char>>, part: Vec<String>) -> bool {
    &&& shown.len() == part@.len()
    &&& forall|i: int| 0 <= i < part@.len() ==> #[trigger] shown[i] == part@[i]@
}

/// Whether an optional conflict is shown as it is.
pub open spec fn shows_conflict(shown: Option<ConflictView>, part: Option<ConflictInfo>) -> bool {
    match part {
        Some(c) => shown matches Some(x) && x.other_actor == c.other_actor@ && x.other_machine
            == c.other_machine@ && x.other_session == c.other_session@ && x.last_activity_at
            == c.last_activity_at@,
        None => shown is None,
    }
}

// ---- Records ------------------------------------------------------------------------------

/// A writer shows actor, machine and session.
pub proof fn writer_shows_all(w: WriterContext)
    ensures
        w@.actor == w.actor@,
        w@.machine == w.machine@,
        w@.session == w.session@,
{
}

/// The record of a step shows its place, name, result, time and files.
pub proof fn step_result_shows_all(r: StepResult)
    ensures
        r@.step_idx == r.step_idx,
        r@.step_name == r.step_name@,
        r@.result == r.result@,
        r@.at == r.at@,
        shows_texts(r@.files_changed, r.files_changed),
{
}

/// A breadcrumb shows everything that is recorded of it.
pub proof fn breadcrumb_shows_all(bc: Breadcrumb)
    ensures
        bc@.id == bc.id@,
        bc@.name == bc.name@,
        shows_option(bc@.project_id, bc.project_id),
        bc@.owner == bc.owner@,
        bc@.writer_actor == bc.writer_actor@,
        bc@.writer_machine == bc.writer_machine@,
        bc@.writer_session == bc.writer_session@,
        bc@.writer_at == bc.writer_at@,
        bc@.started_at == bc.started_at@,
        bc@.last_activity_at == bc.last_activity_at@,
        shows_texts(bc@.steps, bc.steps),
        bc@.current_step == bc.current_step,
        bc@.total_steps == bc.total_steps,
        bc@.step_results.len() == bc.step_results@.len(),
        forall|i: int|
            0 <= i < bc.step_results@.len() ==> #[trigger] bc@.step_results[i]
                == bc.step_results@[i]@,
        shows_texts(bc@.files_changed, bc.files_changed),
        bc@.stale == bc.stale,
        shows_conflict(bc@.conflict_warning, bc.conflict_warning),
        bc@.aborted == bc.aborted,
        shows_option(bc@.abort_reason, bc.abort_reason),
        bc@.auto_started == bc.auto_started,
{
}

/// An entry of the index shows everything that is kept of the breadcrumb there.
pub proof fn entry_shows_all(e: IndexEntry)
    ensures
        e@.id == e.id@,
        shows_option(e@.project_id, e.project_id),
        e@.name == e.name@,
        e@.owner == e.owner@,
        e@.last_activity_at == e.last_activity_at@,
        e@.started_at == e.started_at@,
{
}

/// A file shows what it holds, or why it holds nothing.
pub proof fn file_shows_all(f: FileContent)
    ensures
        f matches FileContent::Parsed(bc) ==> f@ == FileView::Parsed(bc@),
        f matches FileContent::Unreadable(m) ==> f@ == FileView::Unreadable(m@),
        f matches FileContent::Malformed(m) ==> f@ == FileView::Malformed(m@),
{
}

/// A tracker shows its index, its projects, and its active and completed files; what an earlier
/// version left behind shows its index and its project files with their records.
pub proof fn state_shows_all(
    t: Tracker,
    s: Storage,
    file: LegacyFile,
    legacy: Legacy,
    dirs: LegacyDirs,
)
    ensures
        t@.index == t.index@,
        t@.projects == t.projects@,
        t@.storage == t.storage@,
        s@.active == s.active@,
        s@.completed == s.completed@,
        file@.name == file.name@,
        file@.records.len() == file.records@.len(),
        forall|i: int|
            0 <= i < file.records@.len() ==> (match file.records@[i] {
                Some(bc) => #[trigger] file@.records[i] == Some(bc@),
                None => file@.records[i] is None,
            }),
        legacy.index matches Some(index) ==> legacy@.index == Some(index@),
        legacy.index is None ==> legacy@.index is None,
        legacy.projects is None ==> legacy@.projects is None,
        legacy.projects matches Some(files) ==> (legacy@.projects matches Some(shown) && {
            &&& shown.len() == files@.len()
            &&& forall|i: int| 0 <= i < files@.len() ==> #[trigger] shown[i] == files@[i]@
        }),
        dirs.current matches Some(x) ==> dirs@.current == Some(x@),
        dirs.current is None ==> dirs@.current is None,
        dirs@.renamed == dirs.renamed@,
{
}

/// A layout shows the directories that are given, and the separator.
pub proof fn layout_shows_all(l: Layout)
    ensures
        shows_option(l@.volumes, l.volumes),
        shows_option(l@.state_dir, l.state_dir),
        shows_option(l@.archive_dir, l.archive_dir),
        shows_option(l@.handoff_dir, l.handoff_dir),
        l@.separator == l.separator,
{
}

// ---- Answers ------------------------------------------------------------------------------

/// The answer to a start shows all it says.
pub proof fn start_answer_shows_all(r: StartResponse)
    ensures
        r@.status == r.status@,
        r@.id == r.id@,
        r@.name == r.name@,
        r@.project_id == r.project_id@,
        shows_texts(r@.steps, r.steps),
        r@.total_steps == r.total_steps,
        r@.auto_started == r.auto_started,
{
}

/// The answer to a step shows all it says, the conflict it ran into among it.
pub proof fn step_answer_shows_all(r: StepResponse)
    ensures
        r@.step_completed == r.step_completed@,
        r@.current == r.current,
        r@.total == r.total,
        r@.remaining == r.remaining,
        r@.breadcrumb_id == r.breadcrumb_id@,
        shows_conflict(r@.conflict_warning, r.conflict_warning),
{
}

/// The answer to a completion shows all it says, and its plan shows what is to be archived and when.
pub proof fn complete_answer_shows_all(r: CompleteResponse, plan: Completion)
    ensures
        r@.status == r.status@,
        r@.id == r.id@,
        r@.name == r.name@,
        r@.steps_completed == r.steps_completed,
        shows_texts(r@.files_changed, r.files_changed),
        r@.summary == r.summary@,
        r@.archived_to == r.archived_to@,
        r@.extract_now == r.extract_now,
        r@.note == r.note@,
        plan@.breadcrumb == plan.breadcrumb@,
        plan@.date == plan.date@,
        plan@.response == plan.response@,
{
}

/// The answer to an abort shows all it says, and its plan shows what is to be archived and when.
pub proof fn abort_answer_shows_all(r: AbortResponse, plan: AbortPlan)
    ensures
        r matches AbortResponse::Aborted { status, id, name, reason, steps_completed } ==> r@
            == (AbortView::Aborted {
            status: status@,
            id: id@,
            name: name@,
            reason: reason@,
            steps_completed: steps_completed as nat,
        }),
        r matches AbortResponse::AlreadyArchived {
            status,
            id,
            name,
            archived_at,
            result_type,
            reason,
            archived_path,
        } ==> (r@ matches AbortView::AlreadyArchived {
            status: shown_status,
            id: shown_id,
            name: shown_name,
            archived_at: shown_at,
            result_type: shown_type,
            reason: shown_reason,
            archived_path: shown_path,
        } && {
            &&& shown_status == status@ && shown_id == id@ && shown_name == name@
            &&& shown_at == archived_at@ && shown_type == result_type@
            &&& shows_option(shown_reason, reason) && shown_path == archived_path@
        }),
        plan matches AbortPlan::AlreadyArchived { response } ==> plan@
            == (AbortPlanView::AlreadyArchived { response: response@ }),
        plan matches AbortPlan::Archive { breadcrumb, date, response } ==> plan@
            == (AbortPlanView::Archive {
            breadcrumb: breadcrumb@,
            date: date@,
            response: response@,
        }),
{
}

/// The answers to an adoption and to a snapshot show all they say.
pub proof fn adopt_and_backup_answers_show_all(a: AdoptResponse, b: BackupResponse)
    ensures
        a@.status == a.status@,
        a@.breadcrumb_id == a.breadcrumb_id@,
        a@.new_owner == a.new_owner@,
        a@.prev_owner == a.prev_owner@,
        b@.breadcrumb == b.breadcrumb@,
        b@.status == b.status@,
        b@.breadcrumb_id == b.breadcrumb_id@,
        b@.path == b.path@,
{
}

/// A status shows all its entries, and each entry all it says.
pub proof fn status_shows_all(r: StatusResponse, e: StatusEntry)
    ensures
        r@.active == r.active,
        r@.count == r.count,
        r@.breadcrumbs.len() == r.breadcrumbs@.len(),
        forall|i: int|
            0 <= i < r.breadcrumbs@.len() ==> #[trigger] r@.breadcrumbs[i] == r.breadcrumbs@[i]@,
        e@.id == e.id@,
        e@.name == e.name@,
        shows_option(e@.project_id, e.project_id),
        e@.owner == e.owner@,
        e@.started_at == e.started_at@,
        e@.last_activity_at == e.last_activity_at@,
        e@.stale == e.stale,
{
}

/// A list shows all its rows, and each row all it says.
pub proof fn list_shows_all(r: ListResponse, e: ListEntry)
    ensures
        r@.scope == r.scope@,
        r@.count == r.count,
        r@.breadcrumbs.len() == r.breadcrumbs@.len(),
        forall|i: int|
            0 <= i < r.breadcrumbs@.len() ==> #[trigger] r@.breadcrumbs[i] == r.breadcrumbs@[i]@,
        e@.id == e.id@,
        e@.name == e.name@,
        shows_option(e@.project_id, e.project_id),
        e@.owner == e.owner@,
        e@.started_at == e.started_at@,
        e@.last_activity_at == e.last_activity_at@,
        e@.steps_completed == e.steps_completed,
        e@.total_steps == e.total_steps,
        e@.aborted == e.aborted,
        e@.active == e.active,
{
}

/// A report shows all the entries it found, and each all it says.
pub proof fn report_shows_all(r: ReconcileReport, e: StaleEntry)
    ensures
        r@.scanned == r.scanned,
        r@.stale_found.len() == r.stale_found@.len(),
        forall|i: int|
            0 <= i < r.stale_found@.len() ==> #[trigger] r@.stale_found[i] == r.stale_found@[i]@,
        shows_option(r@.handoff_path, r.handoff_path),
        r@.handoff_entries_written == r.handoff_entries_written,
        e@.id == e.id@,
        e@.name == e.name@,
        e@.last_activity_at == e.last_activity_at@,
        e@.hours_stale == e.hours_stale,
        e@.project_id == e.project_id@,
{
}

/// A refusal shows its kind, and the identifier, count or reason that it is about.
pub proof fn refusal_shows_all(e: BreadcrumbError)
    ensures
        e matches BreadcrumbError::Io(m) ==> e@ == ErrorView::Io(m@),
        e matches BreadcrumbError::Serde(m) ==> e@ == ErrorView::Serde(m@),
        e matches BreadcrumbError::NotFound { id } ==> e@ == (ErrorView::NotFound { id: id@ }),
        e matches BreadcrumbError::NoActive ==> e@ == ErrorView::NoActive,
        e matches BreadcrumbError::Ambiguous { count } ==> e@ == (ErrorView::Ambiguous {
            count: count as nat,
        }),
        e matches BreadcrumbError::Other(m) ==> e@ == ErrorView::Other(m@),
{
}

}
