//! Error type shared by the whole library.
//!
//! Every fallible operation reports a `ForgeError`: a coarse kind that
//! contracts can speak about, plus a human-readable message.

use vstd::prelude::*;

verus! {

/// What went wrong, at the granularity the workflow engine acts on.
#[derive(Clone, Copy, Debug, PartialEq, Eq, Structural)]
pub enum ErrorKind {
    /// A non-authorization check failed before any effect was attempted.
    Precondition,
    /// The safety gate refused the operation.
    SafetyDenied,
    /// A read or write failed.
    Io,
    /// A bounded wait expired.
    Timeout,
    /// A post-write hash or size check failed.
    VerifyFailed,
    /// A progress observer requested cancellation.
    Cancelled,
    /// A keyed signature did not match.
    SignatureInvalid,
    /// The step was requested on the wrong operating system.
    UnsupportedPlatform,
}

/// An error with its kind and a message for the user.
#[derive(Clone, Debug)]
pub struct ForgeError {
    pub kind: ErrorKind,
    pub message: String,
}

impl ForgeError {
    /// Build an error of the given kind from a fixed message.
    pub fn new(kind: ErrorKind, message: &str) -> (e: ForgeError)
        ensures
            e.kind == kind,
            e.message@ == message@,
    {
        ForgeError { kind, message: message.to_owned() }
    }

    /// The message, for callers that need to show it.
    pub fn message(&self) -> (m: String)
        ensures
            m@ == self.message@,
    {
        self.message.clone()
    }
}

} // verus!
