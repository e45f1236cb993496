//! Poll outcomes as the scheduling boundary sees them.

use vstd::prelude::*;

verus! {

/// The outcome of polling a task once.
#[derive(Debug, PartialEq, Eq, Structural)]
pub enum Async<T> {
    /// The task has finished with this value.
    Ready(T),
    /// The task cannot make progress yet.
    NotReady,
}

/// What the scheduler is told when a task with the given `daemon` flag
/// has been polled once with outcome `outcome`.
pub open spec fn folded(outcome: Result<Async<()>, ()>, daemon: bool) -> Async<bool> {
    match outcome {
        Ok(Async::NotReady) => Async::NotReady,
        _ => Async::Ready(daemon),
    }
}

/// Folds success and failure of a task into "finished": a task that
/// completed or failed reports its `daemon` flag, a pending one reports
/// `NotReady`.
pub fn fold(outcome: Result<Async<()>, ()>, daemon: bool) -> (res: Async<bool>)
    ensures
        res == folded(outcome, daemon),
{
    match outcome {
        Ok(Async::Ready(_)) | Err(_) => Async::Ready(daemon),
        Ok(Async::NotReady) => Async::NotReady,
    }
}

} // verus!
