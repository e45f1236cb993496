//! Handles that submit tasks and report a rejection as a value.

use vstd::prelude::*;
use std::marker::PhantomData;
use std::rc::Rc;
use crate::current::{CurrentRunner, execute};
use crate::error::{ExecuteError, ExecuteErrorKind};
use crate::scheduler::SpawnedFuture;

verus! {

/// Submits primary tasks to the session of the current thread.
///
/// A session waits for every task submitted through this handle before it
/// returns, unless it is cancelled.
#[derive(Debug)]
pub struct TaskExecutor {
    // Keeps the handle on the thread that made it.
    _p: PhantomData<Rc<()>>,
}

/// Submits daemon tasks to the session of the current thread.
///
/// A session does not wait for the tasks submitted through this handle;
/// those that have not finished when it returns are dropped.
#[derive(Debug)]
pub struct DaemonExecutor {
    // Keeps the handle on the thread that made it.
    _p: PhantomData<Rc<()>>,
}

/// Returns a handle that submits primary tasks.
pub fn task_executor() -> (e: TaskExecutor) {
    TaskExecutor { _p: PhantomData }
}

/// Returns a handle that submits daemon tasks.
pub fn daemon_executor() -> (e: DaemonExecutor) {
    DaemonExecutor { _p: PhantomData }
}

impl Clone for TaskExecutor {
    fn clone(&self) -> (e: Self) {
        task_executor()
    }
}

impl Clone for DaemonExecutor {
    fn clone(&self) -> (e: Self) {
        daemon_executor()
    }
}

impl TaskExecutor {
    /// Submits `future` as a primary task. With no scheduler installed
    /// the task comes back in the error and nothing changes.
    pub fn execute<T>(&self, current: &mut CurrentRunner<T>, future: T) -> (res: Result<
        (),
        ExecuteError<T>,
    >)
        requires
            old(current).wf(),
            old(current).schedule() matches Some(s) ==> s.next_id() < u64::MAX,
        ensures
            final(current).wf(),
            match res {
                Ok(_) => old(current).submitted(
                    *final(current),
                    SpawnedFuture { daemon: false, inner: future },
                ),
                Err(e) => {
                    &&& old(current).schedule() is None
                    &&& *final(current) == *old(current)
                    &&& e == (ExecuteError { future, kind: ExecuteErrorKind::Shutdown })
                },
            },
    {
        execute(current, future, false)
    }
}

impl DaemonExecutor {
    /// Submits `future` as a daemon task. With no scheduler installed the
    /// task comes back in the error and nothing changes.
    pub fn execute<T>(&self, current: &mut CurrentRunner<T>, future: T) -> (res: Result<
        (),
        ExecuteError<T>,
    >)
        requires
            old(current).wf(),
            old(current).schedule() matches Some(s) ==> s.next_id() < u64::MAX,
        ensures
            final(current).wf(),
            match res {
                Ok(_) => old(current).submitted(
                    *final(current),
                    SpawnedFuture { daemon: true, inner: future },
                ),
                Err(e) => {
                    &&& old(current).schedule() is None
                    &&& *final(current) == *old(current)
                    &&& e == (ExecuteError { future, kind: ExecuteErrorKind::Shutdown })
                },
            },
    {
        execute(current, future, true)
    }
}

} // verus!
