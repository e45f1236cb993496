//! The error of a rejected submission.

use vstd::prelude::*;

verus! {

/// Why a task was not accepted.
#[derive(Debug, Clone, Copy, PartialEq, Eq, Structural)]
pub enum ExecuteErrorKind {
    /// No session is accepting tasks on this thread.
    Shutdown,
}

/// A rejected submission. It carries the task back to the caller.
#[derive(Debug)]
pub struct ExecuteError<F> {
    /// The task that was not accepted.
    pub future: F,
    /// Why it was not accepted.
    pub kind: ExecuteErrorKind,
}

impl<F> ExecuteError<F> {
    /// An error of the given kind for the given task.
    pub fn new(kind: ExecuteErrorKind, future: F) -> (e: Self)
        ensures
            e == (ExecuteError { future, kind }),
    {
        ExecuteError { future, kind }
    }

    /// Why the task was not accepted.
    pub fn kind(&self) -> (k: ExecuteErrorKind)
        ensures
            k == self.kind,
    {
        self.kind
    }

    /// Gives the rejected task back.
    pub fn into_future(self) -> (f: F)
        ensures
            f == self.future,
    {
        self.future
    }
}

} // verus!
