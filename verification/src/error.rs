//! What can go wrong in a run, and the exit code that each outcome maps to.

use vstd::prelude::*;

verus! {

/// The ways a run fails. Each of them is fatal: nothing is retried.
#[derive(Clone, Copy, Debug, PartialEq, Eq, Structural)]
pub enum AwakeError {
    /// The power framework could not be located or loaded.
    CapabilityUnavailable,
    /// The framework was loaded but lacks one of its entry points.
    SymbolNotFound,
    /// The power manager refused to create an assertion, with this status.
    AssertionCreateFailed(i32),
    /// The power manager refused to release an assertion, with this status.
    AssertionReleaseFailed(u32),
    /// The duration argument is in neither of the two grammars.
    ParseError,
    /// The interrupt signal could not be registered.
    SignalRegistrationFailed,
}

/// How a run ended.
#[derive(Clone, Copy, Debug, PartialEq, Eq, Structural)]
pub enum Outcome {
    /// The duration ran out, or an interrupt released the assertions.
    Success,
    /// The run stopped on this error.
    Failure(AwakeError),
}

impl Outcome {
    /// The exit code of the outcome: 0 for success, 1 for every failure.
    pub open spec fn code(self) -> int {
        match self {
            Outcome::Success => 0,
            Outcome::Failure(_) => 1,
        }
    }

    /// The process exit code that reports this outcome.
    pub fn exit_code(&self) -> (code: i32)
        ensures
            code == self.code(),
    {
        match self {
            Outcome::Success => 0,
            Outcome::Failure(_) => 1,
        }
    }
}

} // verus!
