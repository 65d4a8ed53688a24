//! Why an operation was refused.

use vstd::prelude::*;
use vstd::string::*;

use crate::text::{concat, decimal, to_decimal};

verus! {

#[derive(Debug)]
pub enum BreadcrumbError {
    /// A file could not be read or written.
    Io(String),
    /// A file does not hold a record.
    Serde(String),
    /// No breadcrumb has the identifier.
    NotFound { id: String },
    /// No breadcrumb is active, and none was named.
    NoActive,
    /// Several breadcrumbs are active, and none was named.
    Ambiguous { count: usize },
    Other(String),
}

#[verifier::ext_equal]
pub enum ErrorView {
    Io(Seq<char>),
    Serde(Seq<char>),
    NotFound { id: Seq<char> },
    NoActive,
    Ambiguous { count: nat },
    Other(Seq<char>),
}

impl View for BreadcrumbError {
    type V = ErrorView;

    open spec fn view(&self) -> ErrorView {
        match self {
            BreadcrumbError::Io(m) => ErrorView::Io(m@),
            BreadcrumbError::Serde(m) => ErrorView::Serde(m@),
            BreadcrumbError::NotFound { id } => ErrorView::NotFound { id: id@ },
            BreadcrumbError::NoActive => ErrorView::NoActive,
            BreadcrumbError::Ambiguous { count } => ErrorView::Ambiguous { count: *count as nat },
            BreadcrumbError::Other(m) => ErrorView::Other(m@),
        }
    }
}

/// The sentence that tells a caller what went wrong.
pub open spec fn message_of(e: ErrorView) -> Seq<char> {
    match e {
        ErrorView::Io(m) => "I/O error: "@ + m,
        ErrorView::Serde(m) => "serialization error: "@ + m,
        ErrorView::NotFound { id } => "breadcrumb not found: "@ + id,
        ErrorView::NoActive => "no active breadcrumb"@,
        ErrorView::Ambiguous { count } => decimal(count)
            + " active breadcrumbs; a breadcrumb_id is needed"@,
        ErrorView::Other(m) => m,
    }
}

impl BreadcrumbError {
    /// The sentence that tells a caller what went wrong.
    pub fn message(&self) -> (s: String)
        ensures
            s@ == message_of(self@),
    {
        match self {
            BreadcrumbError::Io(m) => concat("I/O error: ", m.as_str()),
            BreadcrumbError::Serde(m) => concat("serialization error: ", m.as_str()),
            BreadcrumbError::NotFound { id } => concat("breadcrumb not found: ", id.as_str()),
            BreadcrumbError::NoActive => "no active breadcrumb".to_owned(),
            BreadcrumbError::Ambiguous { count } => concat(
                to_decimal(*count as u128).as_str(),
                " active breadcrumbs; a breadcrumb_id is needed",
            ),
            BreadcrumbError::Other(m) => m.clone(),
        }
    }
}

}
