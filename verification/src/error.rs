//! The error that a reconciliation attempt ends with when it fails.

use vstd::prelude::*;

verus! {

/// Why a reconciliation attempt failed. No failure is final: the scheduler
/// tries again after a short delay.
#[derive(Clone, Debug, PartialEq, Eq)]
pub enum CrdError {
    /// A failure described by its message.
    Any(String),
}

impl View for CrdError {
    type V = Seq<char>;

    /// The message of the error.
    open spec fn view(&self) -> Seq<char> {
        match self {
            CrdError::Any(message) => message@,
        }
    }
}

impl CrdError {
    /// An error with the given message.
    pub fn with_message(message: &str) -> (error: CrdError)
        ensures
            error@ == message@,
    {
        CrdError::Any(message.to_string())
    }

    /// The message of the error, as it is shown to an operator.
    pub fn message(&self) -> (text: String)
        ensures
            text@ == self@,
    {
        match self {
            CrdError::Any(message) => message.clone(),
        }
    }
}

} // verus!
