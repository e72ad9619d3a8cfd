//! The failures that end an invocation without a result.

use vstd::prelude::*;

verus! {

/// Why an invocation was turned away before a result could be made. Each
/// variant holds the message for the caller.
#[derive(Debug)]
pub enum InvokeFailure {
    /// The input is not an invocation: not JSON, a member missing or of the
    /// wrong type, or a message that is no envelope.
    InvalidInput(String),
    /// The envelope lacks the tenant, the environment or the session.
    InvalidScope(String),
    /// The operation is not the one that is offered.
    UnsupportedOperation(String),
}

/// An [`InvokeFailure`] as plain values.
pub enum InvokeFailureView {
    InvalidInput(Seq<char>),
    InvalidScope(Seq<char>),
    UnsupportedOperation(Seq<char>),
}

impl InvokeFailureView {
    /// The name of the kind of failure.
    pub open spec fn kind(self) -> Seq<char> {
        match self {
            InvokeFailureView::InvalidInput(_) => "InvalidInput"@,
            InvokeFailureView::InvalidScope(_) => "InvalidScope"@,
            InvokeFailureView::UnsupportedOperation(_) => "UnsupportedOperation"@,
        }
    }

    /// The message for the caller.
    pub open spec fn message(self) -> Seq<char> {
        match self {
            InvokeFailureView::InvalidInput(message) => message,
            InvokeFailureView::InvalidScope(message) => message,
            InvokeFailureView::UnsupportedOperation(message) => message,
        }
    }
}

impl View for InvokeFailure {
    type V = InvokeFailureView;

    open spec fn view(&self) -> InvokeFailureView {
        match self {
            InvokeFailure::InvalidInput(message) => InvokeFailureView::InvalidInput(message@),
            InvokeFailure::InvalidScope(message) => InvokeFailureView::InvalidScope(message@),
            InvokeFailure::UnsupportedOperation(message) => InvokeFailureView::UnsupportedOperation(
                message@,
            ),
        }
    }
}

impl InvokeFailure {
    /// The name of the kind of failure: `InvalidInput`, `InvalidScope` or
    /// `UnsupportedOperation`.
    pub fn kind(&self) -> (kind: String)
        ensures
            kind@ == self@.kind(),
    {
        match self {
            InvokeFailure::InvalidInput(_) => "InvalidInput".to_owned(),
            InvokeFailure::InvalidScope(_) => "InvalidScope".to_owned(),
            InvokeFailure::UnsupportedOperation(_) => "UnsupportedOperation".to_owned(),
        }
    }

    /// The message for the caller.
    pub fn message(&self) -> (message: String)
        ensures
            message@ == self@.message(),
    {
        match self {
            InvokeFailure::InvalidInput(message) => message.clone(),
            InvokeFailure::InvalidScope(message) => message.clone(),
            InvokeFailure::UnsupportedOperation(message) => message.clone(),
        }
    }
}

} // verus!
