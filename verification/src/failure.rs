//! What the library reports when it refuses an input.

use vstd::prelude::*;

verus! {

/// The class of a failure, as callers act on it.
#[derive(Clone, Copy, Debug, PartialEq, Eq, Structural)]
pub enum FailureKind {
    AlreadyExists,
    BrokenPipe,
    ConnectionAborted,
    ConnectionRefused,
    ConnectionReset,
    Interrupted,
    InvalidData,
    InvalidInput,
    NotConnected,
    NotFound,
    Other,
    PermissionDenied,
    TimedOut,
    UnexpectedEof,
    WouldBlock,
}

/// A refusal: its class, and the sentence that a log shows.
#[derive(Clone, Copy, Debug, PartialEq, Eq)]
pub struct Failure {
    pub kind: FailureKind,
    pub message: &'static str,
}

impl Failure {
    /// The failure of a kind with a message.
    pub open spec fn spec_new(kind: FailureKind, message: &'static str) -> Failure {
        Failure { kind, message }
    }

    #[verifier::when_used_as_spec(spec_new)]
    pub fn new(kind: FailureKind, message: &'static str) -> (failure: Failure)
        ensures
            failure == Failure::spec_new(kind, message),
    {
        Failure { kind, message }
    }

    /// The failure of input that does not have the form it must have.
    pub open spec fn spec_invalid(message: &'static str) -> Failure {
        Failure { kind: FailureKind::InvalidData, message }
    }

    #[verifier::when_used_as_spec(spec_invalid)]
    pub fn invalid(message: &'static str) -> (failure: Failure)
        ensures
            failure == Failure::spec_invalid(message),
    {
        Failure { kind: FailureKind::InvalidData, message }
    }
}

} // verus!
