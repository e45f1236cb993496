//! A single-threaded cooperative executor: session state, ready queue and
//! the decisions of the drive loop, with machine-checked contracts.
//!
//! A session runs tasks on the thread that submitted them. It is over when
//! every primary task has finished or the session has been cancelled; daemon
//! tasks that are left are dropped. The code that drives a session asks a
//! `TaskRunner` for one decision at a time, so that polling a task and
//! blocking the thread stay with the caller.

pub mod poll;
pub mod scheduler;
pub mod enter;
pub mod error;
pub mod current;
pub mod runner;
pub mod executor;
pub mod fairness;

pub use crate::current::{cancel_all_spawned, execute, spawn, spawn_daemon, CurrentRunner};
pub use crate::enter::{Context, Enter, EnterError};
pub use crate::error::{ExecuteError, ExecuteErrorKind};
pub use crate::executor::{daemon_executor, task_executor, DaemonExecutor, TaskExecutor};
pub use crate::poll::{fold, Async};
pub use crate::runner::{TaskRunner, Turn};
pub use crate::scheduler::{Node, Polled, Scheduler, SpawnedFuture, Tick};
