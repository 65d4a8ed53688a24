//! Breadcrumbs: crash-safe state for operations of many steps that span restarts, sessions and
//! agents.
//!
//! A breadcrumb is started with its steps, advances step by step, and ends in the archive, completed
//! or aborted. The [`tracker::Tracker`] holds what is kept on disk: the active index, the records of
//! each project, one file for each active breadcrumb, and the archive by date. The operations in
//! [`tracker`], [`listing`], [`reconcile`], [`migrate`] and [`startup`] work on that state and say
//! exactly what they answer and what they leave behind. Reading and writing the files is left to the
//! caller.
//!
//! Callers that pass no `project_id` get project `_ungrouped`. Callers that pass no `breadcrumb_id`
//! work as long as there is exactly one active breadcrumb.
//!
//! What holds across operations is proved in [`laws`].

pub mod archive;
pub mod clock;
pub mod conflict;
pub mod error;
pub mod index;
pub mod laws;
pub mod layout;
pub mod listing;
pub mod migrate;
pub mod reconcile;
pub mod response;
pub mod schema;
pub mod settings;
pub mod startup;
pub mod storage;
pub mod table;
pub mod text;
pub mod tracker;

pub use error::BreadcrumbError;
pub use listing::{list, status};
pub use reconcile::{reconcile, ReconcileReport, StaleEntry};
pub use schema::{Breadcrumb, ConflictInfo, IndexEntry, WriterContext};
pub use settings::machine_name;
pub use startup::init;
pub use tracker::{
    abort, active_count, adopt, backup, complete, has_active, list_active, load_project_bcs,
    read_active_index, start, start_auto, step, Tracker,
};
