//! What the operations answer.

use vstd::prelude::*;

use crate::schema::{Breadcrumb, BreadcrumbView, ConflictInfo, ConflictView};

verus! {

/// The answer to the start of a breadcrumb. `auto_started` is given for an automatic start only.
#[derive(Debug)]
pub struct StartResponse {
    pub status: String,
    pub id: String,
    pub name: String,
    pub project_id: String,
    pub steps: Vec<String>,
    pub total_steps: usize,
    pub auto_started: Option<bool>,
}

#[verifier::ext_equal]
pub struct StartView {
    pub status: Seq<char>,
    pub id: Seq<char>,
    pub name: Seq<char>,
    pub project_id: Seq<char>,
    pub steps: Seq<Seq<char>>,
    pub total_steps: nat,
    pub auto_started: Option<bool>,
}

impl View for StartResponse {
    type V = StartView;

    open spec fn view(&self) -> StartView {
        StartView {
            status: self.status@,
            id: self.id@,
            name: self.name@,
            project_id: self.project_id@,
            steps: self.steps.deep_view(),
            total_steps: self.total_steps as nat,
            auto_started: self.auto_started,
        }
    }
}

/// The answer to a completed step. `conflict_warning` is given where there was a conflict.
#[derive(Debug)]
pub struct StepResponse {
    pub step_completed: String,
    pub current: usize,
    pub total: usize,
    pub remaining: usize,
    pub breadcrumb_id: String,
    pub conflict_warning: Option<ConflictInfo>,
}

#[verifier::ext_equal]
pub struct StepView {
    pub step_completed: Seq<char>,
    pub current: nat,
    pub total: nat,
    pub remaining: nat,
    pub breadcrumb_id: Seq<char>,
    pub conflict_warning: Option<ConflictView>,
}

impl View for StepResponse {
    type V = StepView;

    open spec fn view(&self) -> StepView {
        StepView {
            step_completed: self.step_completed@,
            current: self.current as nat,
            total: self.total as nat,
            remaining: self.remaining as nat,
            breadcrumb_id: self.breadcrumb_id@,
            conflict_warning: self.conflict_warning.deep_view(),
        }
    }
}

/// The answer to the completion of a breadcrumb.
#[derive(Debug)]
pub struct CompleteResponse {
    pub status: String,
    pub id: String,
    pub name: String,
    pub steps_completed: usize,
    pub files_changed: Vec<String>,
    pub summary: String,
    pub archived_to: String,
    pub extract_now: bool,
    pub note: String,
}

#[verifier::ext_equal]
pub struct CompleteView {
    pub status: Seq<char>,
    pub id: Seq<char>,
    pub name: Seq<char>,
    pub steps_completed: nat,
    pub files_changed: Seq<Seq<char>>,
    pub summary: Seq<char>,
    pub archived_to: Seq<char>,
    pub extract_now: bool,
    pub note: Seq<char>,
}

impl View for CompleteResponse {
    type V = CompleteView;

    open spec fn view(&self) -> CompleteView {
        CompleteView {
            status: self.status@,
            id: self.id@,
            name: self.name@,
            steps_completed: self.steps_completed as nat,
            files_changed: self.files_changed.deep_view(),
            summary: self.summary@,
            archived_to: self.archived_to@,
            extract_now: self.extract_now,
            note: self.note@,
        }
    }
}

/// The answer to an abort: the breadcrumb was aborted, or it had been archived before.
#[allow(inconsistent_fields)]
#[derive(Debug)]
pub enum AbortResponse {
    Aborted {
        status: String,
        id: String,
        name: String,
        reason: String,
        steps_completed: usize,
    },
    AlreadyArchived {
        status: String,
        id: String,
        name: String,
        archived_at: String,
        result_type: String,
        reason: Option<String>,
        archived_path: String,
    },
}

#[allow(inconsistent_fields)]
#[verifier::ext_equal]
pub enum AbortView {
    Aborted {
        status: Seq<char>,
        id: Seq<char>,
        name: Seq<char>,
        reason: Seq<char>,
        steps_completed: nat,
    },
    AlreadyArchived {
        status: Seq<char>,
        id: Seq<char>,
        name: Seq<char>,
        archived_at: Seq<char>,
        result_type: Seq<char>,
        reason: Option<Seq<char>>,
        archived_path: Seq<char>,
    },
}

impl View for AbortResponse {
    type V = AbortView;

    open spec fn view(&self) -> AbortView {
        match self {
            AbortResponse::Aborted { status, id, name, reason, steps_completed } =>
                AbortView::Aborted {
                    status: status@,
                    id: id@,
                    name: name@,
                    reason: reason@,
                    steps_completed: *steps_completed as nat,
                },
            AbortResponse::AlreadyArchived {
                status,
                id,
                name,
                archived_at,
                result_type,
                reason,
                archived_path,
            } => AbortView::AlreadyArchived {
                status: status@,
                id: id@,
                name: name@,
                archived_at: archived_at@,
                result_type: result_type@,
                reason: reason.deep_view(),
                archived_path: archived_path@,
            },
        }
    }
}

/// The answer to an adoption.
#[derive(Debug)]
pub struct AdoptResponse {
    pub status: String,
    pub breadcrumb_id: String,
    pub new_owner: String,
    pub prev_owner: String,
}

#[verifier::ext_equal]
pub struct AdoptView {
    pub status: Seq<char>,
    pub breadcrumb_id: Seq<char>,
    pub new_owner: Seq<char>,
    pub prev_owner: Seq<char>,
}

impl View for AdoptResponse {
    type V = AdoptView;

    open spec fn view(&self) -> AdoptView {
        AdoptView {
            status: self.status@,
            breadcrumb_id: self.breadcrumb_id@,
            new_owner: self.new_owner@,
            prev_owner: self.prev_owner@,
        }
    }
}

/// The answer to a snapshot: what is to be written, and where. The other fields are what the
/// caller is told once it is.
#[derive(Debug)]
pub struct BackupResponse {
    pub breadcrumb: Breadcrumb,
    pub status: String,
    pub breadcrumb_id: String,
    pub path: String,
}

#[verifier::ext_equal]
pub struct BackupView {
    pub breadcrumb: BreadcrumbView,
    pub status: Seq<char>,
    pub breadcrumb_id: Seq<char>,
    pub path: Seq<char>,
}

impl View for BackupResponse {
    type V = BackupView;

    open spec fn view(&self) -> BackupView {
        BackupView {
            breadcrumb: self.breadcrumb@,
            status: self.status@,
            breadcrumb_id: self.breadcrumb_id@,
            path: self.path@,
        }
    }
}

}
