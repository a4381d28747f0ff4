//! Why a composition failed.

use vstd::prelude::*;
use vstd::string::StringExecFns;

verus! {

/// A failure of one step of a composition. It reaches the caller as the
/// step produced it.
#[derive(Debug, PartialEq, Eq)]
pub enum CompositionError {
    /// The source at `url` could not be retrieved.
    Fetch { url: String, cause: String },
    /// What `source` returned is not a calendar document.
    Parse { source: String, cause: String },
    /// A document handed to a merge is of type `actual`, not `expected`.
    TypeMismatch { expected: String, actual: String },
}

/// What a [`CompositionError`] stands for in contracts.
pub enum ErrorView {
    Fetch { url: Seq<char>, cause: Seq<char> },
    Parse { source: Seq<char>, cause: Seq<char> },
    TypeMismatch { expected: Seq<char>, actual: Seq<char> },
}

impl View for CompositionError {
    type V = ErrorView;

    open spec fn view(&self) -> ErrorView {
        match self {
            CompositionError::Fetch { url, cause } => ErrorView::Fetch { url: url@, cause: cause@ },
            CompositionError::Parse { source, cause } => ErrorView::Parse {
                source: source@,
                cause: cause@,
            },
            CompositionError::TypeMismatch { expected, actual } => ErrorView::TypeMismatch {
                expected: expected@,
                actual: actual@,
            },
        }
    }
}

/// The text that describes an error: what the source or the parser said,
/// or which type a document has in place of the expected one.
pub open spec fn message_of(e: ErrorView) -> Seq<char> {
    match e {
        ErrorView::Fetch { cause, .. } => cause,
        ErrorView::Parse { cause, .. } => cause,
        ErrorView::TypeMismatch { expected, actual } => "Calendar object type is not "@ + expected
            + ", but "@ + actual,
    }
}

impl CompositionError {
    /// A description of the error for a log or a response.
    pub fn message(&self) -> (r: String)
        ensures
            r@ == message_of(self@),
    {
        match self {
            CompositionError::Fetch { cause, .. } => cause.clone(),
            CompositionError::Parse { cause, .. } => cause.clone(),
            CompositionError::TypeMismatch { expected, actual } => {
                let mut text = String::from_str("Calendar object type is not ");
                text.append(expected.as_str());
                text.append(", but ");
                text.append(actual.as_str());
                text
            },
        }
    }
}

impl Clone for CompositionError {
    fn clone(&self) -> (r: CompositionError)
        ensures
            r@ == self@,
    {
        match self {
            CompositionError::Fetch { url, cause } => CompositionError::Fetch {
                url: url.clone(),
                cause: cause.clone(),
            },
            CompositionError::Parse { source, cause } => CompositionError::Parse {
                source: source.clone(),
                cause: cause.clone(),
            },
            CompositionError::TypeMismatch { expected, actual } => CompositionError::TypeMismatch {
                expected: expected.clone(),
                actual: actual.clone(),
            },
        }
    }
}

} // verus!
