//! The state of a thread's session: the cancellation flag, the count of
//! primary tasks, and the slot through which tasks are submitted.
//!
//! Tasks can be submitted only while the session's scheduler is installed in
//! the slot. Installing moves the scheduler into the slot and clearing moves
//! it out again, so at any time it can be reached through one owner only.

use vstd::prelude::*;
use crate::enter::{Enter, EnterError};
use crate::error::{ExecuteError, ExecuteErrorKind};
use crate::scheduler::{Scheduler, SpawnedFuture, primaries, lemma_primaries_push, lemma_primaries_update, lemma_primaries_bound, lemma_slot, slot, queued_node};

verus! {

/// The session state of one thread.
pub struct CurrentRunner<T> {
    /// When true, the drive loop returns even if primary tasks remain.
    cancel: bool,
    /// The number of primary tasks that are scheduled and not finished.
    non_daemons: usize,
    /// The scheduler, while it is installed.
    schedule: Option<Scheduler<T>>,
    /// True while a session is active.
    entered: bool,
}

impl<T> CurrentRunner<T> {
    /// True once the session has been cancelled.
    pub closed spec fn cancelled(&self) -> bool {
        self.cancel
    }

    /// The number of primary tasks that are scheduled and not finished.
    pub closed spec fn non_daemons(&self) -> nat {
        self.non_daemons as nat
    }

    /// The installed scheduler, if any.
    pub closed spec fn schedule(&self) -> Option<Scheduler<T>> {
        self.schedule
    }

    /// True while a session is active.
    pub closed spec fn entered(&self) -> bool {
        self.entered
    }

    /// The guard of the drive loop: primary tasks remain and the session
    /// has not been cancelled.
    pub open spec fn running(&self) -> bool {
        self.non_daemons() > 0 && !self.cancelled()
    }

    /// The state between sessions.
    pub open spec fn idle(&self) -> bool {
        &&& !self.entered()
        &&& !self.cancelled()
        &&& self.non_daemons() == 0
        &&& self.schedule() is None
    }

    /// The invariant: a scheduler is installed only inside a session, it
    /// satisfies its own invariant, and the count of primary tasks is the
    /// number of its entries that are not daemons.
    pub open spec fn wf(&self) -> bool {
        self.schedule() matches Some(s) ==> {
            &&& self.entered()
            &&& s.wf()
            &&& self.non_daemons() == primaries(s.nodes())
        }
    }

    /// True if `post` is `self` but for the slot.
    pub open spec fn same_counters(&self, post: Self) -> bool {
        &&& post.cancelled() == self.cancelled()
        &&& post.non_daemons() == self.non_daemons()
        &&& post.entered() == self.entered()
    }

    /// What a successful submission of `item` does: the installed
    /// scheduler links it, and a primary task is counted.
    pub open spec fn submitted(&self, post: Self, item: SpawnedFuture<T>) -> bool {
        &&& self.schedule() matches Some(s)
        &&& post.schedule() matches Some(t)
        &&& s.scheduled(t, item)
        &&& post.non_daemons() == self.non_daemons() + if item.daemon { 0nat } else { 1nat }
        &&& post.cancelled() == self.cancelled()
        &&& post.entered() == self.entered()
    }

    /// The state of a thread on which no session has run yet.
    pub fn new() -> (current: Self)
        ensures
            current.wf(),
            current.idle(),
    {
        CurrentRunner { cancel: false, non_daemons: 0, schedule: None, entered: false }
    }

    /// The guard of the drive loop.
    pub fn is_running(&self) -> (b: bool)
        ensures
            b == self.running(),
    {
        self.non_daemons > 0 && !self.cancel
    }

    /// True once the session has been cancelled.
    pub fn is_cancelled(&self) -> (b: bool)
        ensures
            b == self.cancelled(),
    {
        self.cancel
    }

    /// True while a session is active.
    pub fn is_entered(&self) -> (b: bool)
        ensures
            b == self.entered(),
    {
        self.entered
    }

    /// The number of primary tasks that are scheduled and not finished.
    pub fn primary_count(&self) -> (n: usize)
        ensures
            n == self.non_daemons(),
    {
        self.non_daemons
    }

    /// True while the scheduler is installed, that is, while tasks can be
    /// submitted.
    pub fn has_schedule(&self) -> (b: bool)
        ensures
            b == (self.schedule() is Some),
    {
        self.schedule.is_some()
    }

    /// True while a task of the installed scheduler is handed out for a
    /// poll.
    pub fn is_polling(&self) -> (b: bool)
        ensures
            b == (self.schedule() matches Some(s) && s.polling() is Some),
    {
        match &self.schedule {
            Some(s) => s.is_polling(),
            None => false,
        }
    }

    /// True if a submission would find an identifier for the task.
    pub fn has_capacity(&self) -> (b: bool)
        ensures
            b == (self.schedule() matches Some(s) ==> s.next_id() < u64::MAX),
    {
        match &self.schedule {
            Some(s) => s.has_capacity(),
            None => true,
        }
    }

    /// Marks the session as cancelled. The drive loop sees the mark when
    /// it next tests its guard.
    pub fn cancel_all_executing(&mut self)
        ensures
            final(self).cancelled(),
            final(self).non_daemons() == old(self).non_daemons(),
            final(self).entered() == old(self).entered(),
            final(self).schedule() == old(self).schedule(),
    {
        self.cancel = true;
    }

    /// Cancels the session if the scheduler is installed, and fails
    /// otherwise, leaving the state as it is.
    pub fn with_cancel(&mut self) -> (res: Result<(), ()>)
        ensures
            res is Ok <==> old(self).schedule() is Some,
            res is Ok ==> final(self).cancelled(),
            res is Err ==> final(self).cancelled() == old(self).cancelled(),
            final(self).non_daemons() == old(self).non_daemons(),
            final(self).entered() == old(self).entered(),
            final(self).schedule() == old(self).schedule(),
    {
        if self.schedule.is_some() {
            self.cancel_all_executing();
            Ok(())
        } else {
            Err(())
        }
    }

    /// Installs `schedule`, the scheduler of the active session, in the
    /// slot, which must be empty: from now on tasks can be submitted.
    pub fn set_schedule(&mut self, schedule: Scheduler<T>)
        requires
            old(self).schedule() is None,
            old(self).entered(),
            schedule.wf(),
            old(self).non_daemons() == primaries(schedule.nodes()),
        ensures
            final(self).wf(),
            final(self).schedule() == Some(schedule),
            old(self).same_counters(*final(self)),
    {
        self.schedule = Some(schedule);
    }

    /// Clears the slot and returns the scheduler that was installed.
    pub fn clear_schedule(&mut self) -> (schedule: Option<Scheduler<T>>)
        ensures
            final(self).wf(),
            schedule == old(self).schedule(),
            final(self).schedule() is None,
            old(self).same_counters(*final(self)),
    {
        self.schedule.take()
    }

    /// Reserves the thread for a session. Fails, leaving the state as it
    /// is, if a session is active already; otherwise the new session
    /// starts with no primary tasks, not cancelled, and an empty slot.
    pub fn enter(&mut self) -> (res: Result<Enter, EnterError>)
        requires
            old(self).wf(),
        ensures
            final(self).wf(),
            res is Err <==> old(self).entered(),
            res is Err ==> *final(self) == *old(self),
            res is Ok ==> {
                &&& final(self).entered()
                &&& !final(self).cancelled()
                &&& final(self).non_daemons() == 0
                &&& final(self).schedule() is None
            },
    {
        if self.entered {
            Err(EnterError::new())
        } else {
            self.entered = true;
            self.cancel = false;
            self.non_daemons = 0;
            Ok(Enter::new())
        }
    }

    /// Ends the session: whatever is installed is dropped and the state
    /// is reset.
    pub fn leave(&mut self, enter: Enter)
        ensures
            final(self).wf(),
            final(self).idle(),
    {
        self.schedule = None;
        self.entered = false;
        self.cancel = false;
        self.non_daemons = 0;
    }

    /// Takes a finished primary task out of the count.
    pub(crate) fn primary_finished(&mut self)
        requires
            old(self).non_daemons() > 0,
        ensures
            final(self).non_daemons() == old(self).non_daemons() - 1,
            final(self).cancelled() == old(self).cancelled(),
            final(self).entered() == old(self).entered(),
            final(self).schedule() == old(self).schedule(),
    {
        let non_daemons = self.non_daemons;
        self.non_daemons = non_daemons - 1;
    }

    /// Notifies the entry with the identifier `id` through the installed
    /// scheduler. Returns whether the entry was put into the ready queue:
    /// not without an installed scheduler, nor if the identifier names no
    /// entry or the entry waits there already.
    pub fn notify(&mut self, id: u64) -> (queued: bool)
        requires
            old(self).wf(),
        ensures
            final(self).wf(),
            old(self).same_counters(*final(self)),
            match old(self).schedule() {
                Some(s) => {
                    &&& final(self).schedule() matches Some(t)
                    &&& s.notified(t, id)
                    &&& queued == s.wakes(id)
                },
                None => final(self).schedule() is None && !queued,
            },
    {
        match self.schedule.take() {
            Some(mut s) => {
                let ghost before = s;
                let queued = s.notify(id);
                proof {
                    if queued {
                        lemma_slot(before.nodes(), id);
                        lemma_primaries_update(
                            before.nodes(),
                            slot(before.nodes(), id),
                            queued_node(before.nodes()[slot(before.nodes(), id)]),
                        );
                    }
                }
                self.schedule = Some(s);
                queued
            },
            None => false,
        }
    }
}

/// Submits `future` to the session of `current`. With no scheduler
/// installed the task comes back in the error and nothing changes.
/// Otherwise the task is linked as a new entry at the back of the ready
/// queue, and counted if it is no daemon.
pub fn execute<T>(current: &mut CurrentRunner<T>, future: T, daemon: bool) -> (res: Result<
    (),
    ExecuteError<T>,
>)
    requires
        old(current).wf(),
        old(current).schedule() matches Some(s) ==> s.next_id() < u64::MAX,
    ensures
        final(current).wf(),
        match res {
            Ok(_) => old(current).submitted(*final(current), SpawnedFuture { daemon, inner: future }),
            Err(e) => {
                &&& old(current).schedule() is None
                &&& *final(current) == *old(current)
                &&& e == (ExecuteError { future, kind: ExecuteErrorKind::Shutdown })
            },
        },
{
    match current.schedule.take() {
        Some(mut schedule) => {
            let ghost before = schedule;
            let spawned = SpawnedFuture { daemon, inner: future };
            schedule.schedule(spawned);
            proof {
                lemma_primaries_push(
                    before.nodes(),
                    crate::scheduler::fresh_node(before.next_id(), spawned),
                );
                lemma_primaries_bound(schedule.nodes());
                schedule.lemma_len_bound();
            }
            if !daemon {
                let non_daemons = current.non_daemons;
                current.non_daemons = non_daemons + 1;
            }
            current.schedule = Some(schedule);
            Ok(())
        },
        None => Err(ExecuteError::new(ExecuteErrorKind::Shutdown, future)),
    }
}

/// Submits `future` as a primary task: the session does not return before
/// it has finished, unless the session is cancelled.
pub fn spawn<T>(current: &mut CurrentRunner<T>, future: T)
    requires
        old(current).wf(),
        old(current).schedule() matches Some(s) && s.next_id() < u64::MAX,
    ensures
        final(current).wf(),
        old(current).submitted(*final(current), SpawnedFuture { daemon: false, inner: future }),
{
    let _ = execute(current, future, false);
}

/// Submits `future` as a daemon task: the session may return before it has
/// finished, and then drops it.
pub fn spawn_daemon<T>(current: &mut CurrentRunner<T>, future: T)
    requires
        old(current).wf(),
        old(current).schedule() matches Some(s) && s.next_id() < u64::MAX,
    ensures
        final(current).wf(),
        old(current).submitted(*final(current), SpawnedFuture { daemon: true, inner: future }),
{
    let _ = execute(current, future, true);
}

/// Cancels all tasks of the session, primary and daemon: the drive loop
/// returns when it next tests its guard, and no task is polled again.
pub fn cancel_all_spawned<T>(current: &mut CurrentRunner<T>)
    requires
        old(current).schedule() is Some,
    ensures
        final(current).cancelled(),
        !final(current).running(),
        final(current).non_daemons() == old(current).non_daemons(),
        final(current).entered() == old(current).entered(),
        final(current).schedule() == old(current).schedule(),
{
    let _ = current.with_cancel();
}

} // verus!
