//! What the service answers when an operation fails.
use vstd::prelude::*;

verus! {

/// A failed operation.
#[derive(Debug)]
pub enum AdminServiceError {
    /// There is no credential with this id.
    NotFound { id: u64 },
    /// The upstream service failed or cannot be reached.
    UpstreamError(String),
    /// Something failed here.
    InternalError(String),
    /// The credential is not acceptable.
    InvalidCredential(String),
    /// The request is not acceptable.
    InvalidRequest(String),
}

/// A failed operation, as contracts speak of it.
pub enum ErrorView {
    NotFound { id: u64 },
    UpstreamError(Seq<char>),
    InternalError(Seq<char>),
    InvalidCredential(Seq<char>),
    InvalidRequest(Seq<char>),
}

impl View for AdminServiceError {
    type V = ErrorView;

    open spec fn view(&self) -> ErrorView {
        match self {
            AdminServiceError::NotFound { id } => ErrorView::NotFound { id: *id },
            AdminServiceError::UpstreamError(m) => ErrorView::UpstreamError(m@),
            AdminServiceError::InternalError(m) => ErrorView::InternalError(m@),
            AdminServiceError::InvalidCredential(m) => ErrorView::InvalidCredential(m@),
            AdminServiceError::InvalidRequest(m) => ErrorView::InvalidRequest(m@),
        }
    }
}

/// Contracts speak of a failure as it is: its sort, and the id or the message that it carries.
pub proof fn failures_are_seen_as_they_are(error: AdminServiceError)
    ensures
        match error {
            AdminServiceError::NotFound { id } => error@ == (ErrorView::NotFound { id }),
            AdminServiceError::UpstreamError(m) => error@ == ErrorView::UpstreamError(m@),
            AdminServiceError::InternalError(m) => error@ == ErrorView::InternalError(m@),
            AdminServiceError::InvalidCredential(m) => error@ == ErrorView::InvalidCredential(m@),
            AdminServiceError::InvalidRequest(m) => error@ == ErrorView::InvalidRequest(m@),
        },
{
}

} // verus!
