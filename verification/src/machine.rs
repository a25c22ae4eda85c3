//! What the three combinators share: the phases they move through and the
//! vocabulary of one resume.

use vstd::prelude::*;

verus! {

/// Where a combinator stands in its life. A combinator starts in
/// `RunningItem`, and a phase, once left, is never entered again.
#[derive(Clone, Copy, Debug, PartialEq, Eq, Structural)]
pub enum Phase {
    /// The wrapped computation has not completed yet.
    RunningItem,
    /// The wrapped computation is released and the finalizer is in flight.
    RunningFinalizer,
    /// Nothing is left to resume.
    Done,
}

impl Phase {
    /// The position of a phase in the order in which phases are visited.
    pub open spec fn rank(self) -> nat {
        match self {
            Phase::RunningItem => 0,
            Phase::RunningFinalizer => 1,
            Phase::Done => 2,
        }
    }
}

/// What one resume of a computation reports.
#[derive(Debug)]
pub enum Polled<T> {
    /// Not yet ready: the computation has registered for a wakeup.
    Pending,
    /// Ready, with what the computation produced.
    Ready(T),
}

/// How a resume call goes on once the wrapped computation has answered.
#[derive(Debug)]
pub enum Step<T> {
    /// The call ends here and reports this to the caller.
    Report(Polled<T>),
    /// The wrapped computation is released and the finalizer is in flight:
    /// the same call resumes the finalizer next.
    Finalize,
}

/// A resume that cannot be answered because a slot that the answer needs is
/// empty.
#[derive(Clone, Copy, Debug, PartialEq, Eq, Structural)]
pub enum InvariantViolation {
    /// The buffered output was asked for after it had been handed out.
    OutputMissing,
}

} // verus!
