//! The drive loop, one decision at a time.
//!
//! A `TaskRunner` owns the scheduler of a session. The code that drives the
//! session asks it what to do next with `turn`, does it (polls the task,
//! parks the thread, or yields the processor), and reports a poll with
//! `complete`. While a task is polled, and while the session is set up, the
//! scheduler is installed in the thread's `CurrentRunner`, so that the code
//! that runs then can submit tasks.

use vstd::prelude::*;
use crate::current::CurrentRunner;
use crate::enter::{Context, EnterError};
use crate::poll::{Async, fold, folded};
use crate::scheduler::{Scheduler, Polled, Tick, primaries, slot, lent_node, returned_node, queued_node, lemma_slot, lemma_primaries_update, lemma_primaries_remove, lemma_primaries_zero};

verus! {

/// What the drive loop has to do next.
#[derive(Debug)]
pub enum Turn<T> {
    /// Poll the task once, then report the outcome with `complete`.
    Poll(Polled<T>),
    /// Nothing is ready: block the thread until it is woken.
    Sleep,
    /// The ready queue was inconsistent: yield the processor and ask again.
    Yield,
    /// The session is over: leave the loop.
    Exit,
}

/// The owner of a session's scheduler.
pub struct TaskRunner<T> {
    /// The scheduler, unless it is installed in the thread's state.
    scheduler: Option<Scheduler<T>>,
}

impl<T> TaskRunner<T> {
    /// The scheduler, unless it is installed in the thread's state.
    pub closed spec fn scheduler(&self) -> Option<Scheduler<T>> {
        self.scheduler
    }

    /// The runner holds the scheduler and no task is handed out: the state
    /// in which the drive loop asks for its next turn.
    pub open spec fn parked(&self, current: CurrentRunner<T>) -> bool {
        &&& current.entered()
        &&& current.schedule() is None
        &&& self.scheduler() matches Some(s)
        &&& s.wf()
        &&& s.polling() is None
        &&& current.non_daemons() == primaries(s.nodes())
    }

    /// The scheduler is installed in the thread's state: the state in
    /// which tasks can be submitted.
    pub open spec fn lent(&self, current: CurrentRunner<T>) -> bool {
        &&& self.scheduler() is None
        &&& current.schedule() is Some
        &&& current.wf()
    }

    /// The scheduler of the session, wherever it is.
    pub open spec fn held(&self, current: CurrentRunner<T>) -> Scheduler<T> {
        if self.scheduler() is Some {
            self.scheduler().unwrap()
        } else {
            current.schedule().unwrap()
        }
    }

    /// What `turn` decides and does, from the state `(self, current)` to
    /// the state `(post, after)`. If the guard of the loop is false, the
    /// action is `Exit` and nothing changes. Otherwise the scheduler makes
    /// one tick: an empty ready queue gives `Sleep`, a head that names no
    /// entry gives `Yield`, and a ready entry gives `Poll`, with the
    /// scheduler installed in `after` for the poll.
    pub open spec fn turned(
        &self,
        current: CurrentRunner<T>,
        post: Self,
        after: CurrentRunner<T>,
        action: Turn<T>,
    ) -> bool {
        let s = self.scheduler().unwrap();
        if !current.running() {
            &&& action is Exit
            &&& post.scheduler() == self.scheduler()
            &&& after.schedule() is None
        } else {
            match action {
                Turn::Poll(polled) => {
                    &&& post.scheduler() is None
                    &&& after.schedule() matches Some(t)
                    &&& s.ticked(t, Tick::Data(polled))
                },
                Turn::Sleep => {
                    &&& after.schedule() is None
                    &&& post.scheduler() matches Some(t)
                    &&& s.ticked(t, Tick::Empty)
                },
                Turn::Yield => {
                    &&& after.schedule() is None
                    &&& post.scheduler() matches Some(t)
                    &&& s.ticked(t, Tick::Inconsistent)
                },
                Turn::Exit => false,
            }
        }
    }

    /// True while the runner holds the scheduler, that is, between the
    /// polls.
    pub fn holds_scheduler(&self) -> (b: bool)
        ensures
            b == (self.scheduler() is Some),
    {
        self.scheduler.is_some()
    }

    /// A runner with a fresh scheduler.
    pub fn new() -> (runner: Self)
        ensures
            runner.scheduler() matches Some(s) && s.wf() && s.nodes() == Seq::<
                crate::scheduler::Node<T>,
            >::empty() && s.ready() == Seq::<u64>::empty() && s.next_id() == 0 && s.polling() is None,
    {
        TaskRunner { scheduler: Some(Scheduler::new()) }
    }

    /// Begins a session on the thread of `current`. Fails, leaving
    /// `current` as it is, if a session is active there already. Otherwise
    /// the thread's state is reset for the new session and a fresh
    /// scheduler is installed, so that the code that sets the session up
    /// can submit its first tasks; `start` ends that phase.
    pub fn enter(current: &mut CurrentRunner<T>) -> (res: Result<(Self, Context), EnterError>)
        requires
            old(current).wf(),
        ensures
            final(current).wf(),
            res is Err <==> old(current).entered(),
            res is Err ==> *final(current) == *old(current),
            res matches Ok((runner, _)) ==> {
                &&& runner.lent(*final(current))
                &&& final(current).entered()
                &&& !final(current).cancelled()
                &&& final(current).non_daemons() == 0
                &&& final(current).schedule() matches Some(s)
                &&& s.nodes() == Seq::<crate::scheduler::Node<T>>::empty()
                &&& s.ready() == Seq::<u64>::empty()
                &&& s.next_id() == 0
                &&& s.polling() is None
            },
    {
        let mut runner = TaskRunner::new();
        match current.enter() {
            Err(e) => Err(e),
            Ok(enter) => {
                let ctx = Context::new(enter);
                let scheduler = runner.scheduler.take().unwrap();
                current.set_schedule(scheduler);
                Ok((runner, ctx))
            },
        }
    }

    /// Ends the phase in which the session is set up: the scheduler leaves
    /// the thread's state, and the drive loop can take its first turn.
    pub fn start(&mut self, current: &mut CurrentRunner<T>)
        requires
            old(self).lent(*old(current)),
            old(current).schedule().unwrap().polling() is None,
        ensures
            final(self).parked(*final(current)),
            final(self).scheduler() == old(current).schedule(),
            old(current).same_counters(*final(current)),
    {
        self.scheduler = current.clear_schedule();
    }

    /// One turn of the drive loop: tests the guard and, while the session
    /// is running, advances the scheduler by one tick.
    pub fn turn(&mut self, current: &mut CurrentRunner<T>) -> (action: Turn<T>)
        requires
            old(self).parked(*old(current)),
        ensures
            old(current).same_counters(*final(current)),
            old(self).turned(*old(current), *final(self), *final(current), action),
            action is Poll ==> final(self).lent(*final(current)),
            action is Poll ==> final(current).schedule().unwrap().polling() is Some,
            !(action is Poll) ==> final(self).parked(*final(current)),
    {
        if !current.is_running() {
            return Turn::Exit;
        }
        let mut scheduler = self.scheduler.take().unwrap();
        let ghost before = scheduler;
        match scheduler.tick() {
            Tick::Data(polled) => {
                proof {
                    lemma_slot(before.nodes(), polled.id);
                    lemma_primaries_update(
                        before.nodes(),
                        slot(before.nodes(), polled.id),
                        lent_node(before.nodes()[slot(before.nodes(), polled.id)]),
                    );
                }
                current.set_schedule(scheduler);
                Turn::Poll(polled)
            },
            Tick::Empty => {
                self.scheduler = Some(scheduler);
                Turn::Sleep
            },
            Tick::Inconsistent => {
                self.scheduler = Some(scheduler);
                Turn::Yield
            },
        }
    }

    /// Reports the outcome of the poll that `turn` asked for, and takes
    /// the scheduler back from the thread's state. A task that finished,
    /// with success or with failure, is unlinked, and leaves the count of
    /// primary tasks if it is no daemon; its `daemon` flag is returned in
    /// `Ready`. A task that did not finish goes back into its entry and
    /// `NotReady` is returned.
    pub fn complete(
        &mut self,
        current: &mut CurrentRunner<T>,
        task: T,
        outcome: Result<Async<()>, ()>,
    ) -> (res: Async<bool>)
        requires
            old(self).lent(*old(current)),
            old(current).schedule().unwrap().polling() is Some,
        ensures
            final(self).parked(*final(current)),
            final(current).cancelled() == old(current).cancelled(),
            res == folded(outcome, old(current).schedule().unwrap().polled_node().daemon),
            match res {
                Async::Ready(daemon) => {
                    &&& old(current).schedule().unwrap().finished(final(self).scheduler().unwrap())
                    &&& final(current).non_daemons() == old(current).non_daemons() - if daemon {
                        0nat
                    } else {
                        1nat
                    }
                },
                Async::NotReady => {
                    &&& old(current).schedule().unwrap().restored(
                        final(self).scheduler().unwrap(),
                        task,
                    )
                    &&& final(current).non_daemons() == old(current).non_daemons()
                },
            },
    {
        let mut scheduler = current.clear_schedule().unwrap();
        let ghost before = scheduler;
        proof {
            lemma_slot(before.nodes(), before.polling().unwrap());
        }
        let daemon = scheduler.polled_is_daemon();
        let res = fold(outcome, daemon);
        match res {
            Async::Ready(is_daemon) => {
                scheduler.finish();
                proof {
                    lemma_primaries_remove(
                        before.nodes(),
                        slot(before.nodes(), before.polling().unwrap()),
                    );
                }
                if !is_daemon {
                    current.primary_finished();
                }
            },
            Async::NotReady => {
                scheduler.restore(task);
                proof {
                    lemma_primaries_update(
                        before.nodes(),
                        slot(before.nodes(), before.polling().unwrap()),
                        returned_node(before.polled_node(), task),
                    );
                }
            },
        }
        self.scheduler = Some(scheduler);
        res
    }

    /// Notifies the entry with the identifier `id` between two turns, as
    /// the waking of the thread from outside does. Returns whether the
    /// entry was put into the ready queue.
    pub fn notify(&mut self, id: u64) -> (queued: bool)
        requires
            old(self).scheduler() matches Some(s) && s.wf(),
        ensures
            old(self).scheduler().unwrap().notified(final(self).scheduler().unwrap(), id),
            queued == old(self).scheduler().unwrap().wakes(id),
            final(self).scheduler() matches Some(t) && t.wf() && primaries(t.nodes()) == primaries(
                old(self).scheduler().unwrap().nodes(),
            ),
    {
        let mut scheduler = self.scheduler.take().unwrap();
        let ghost before = scheduler;
        let queued = scheduler.notify(id);
        proof {
            if queued {
                lemma_slot(before.nodes(), id);
                lemma_primaries_update(
                    before.nodes(),
                    slot(before.nodes(), id),
                    queued_node(before.nodes()[slot(before.nodes(), id)]),
                );
            }
        }
        self.scheduler = Some(scheduler);
        queued
    }

    /// Ends the session: every entry that is still linked is dropped
    /// without another poll, and the thread's state is reset.
    pub fn exit(self, current: &mut CurrentRunner<T>, ctx: Context)
        ensures
            final(current).wf(),
            final(current).idle(),
    {
        current.leave(ctx.into_enter());
    }
}

/// The drive loop is left only when no primary task is linked any more, or
/// the session has been cancelled: if a turn answers `Exit`, then the
/// session is cancelled or every entry that is still linked is a daemon.
pub proof fn lemma_exit_only_when_done<T>(
    runner: TaskRunner<T>,
    current: CurrentRunner<T>,
    post: TaskRunner<T>,
    after: CurrentRunner<T>,
    action: Turn<T>,
)
    requires
        runner.parked(current),
        runner.turned(current, post, after, action),
        action is Exit,
    ensures
        current.cancelled() || forall|i: int|
            0 <= i < runner.held(current).nodes().len() ==> (#[trigger] runner.held(
                current,
            ).nodes()[i]).daemon,
{
    lemma_primaries_zero(runner.scheduler().unwrap().nodes());
}

/// Daemons do not keep a session: if every linked entry is a daemon, the
/// turn answers `Exit`, whatever waits in the ready queue, and hands no
/// task out.
pub proof fn lemma_daemons_do_not_hold<T>(
    runner: TaskRunner<T>,
    current: CurrentRunner<T>,
    post: TaskRunner<T>,
    after: CurrentRunner<T>,
    action: Turn<T>,
)
    requires
        runner.parked(current),
        forall|i: int|
            0 <= i < runner.held(current).nodes().len() ==> (#[trigger] runner.held(
                current,
            ).nodes()[i]).daemon,
        runner.turned(current, post, after, action),
    ensures
        action is Exit,
        post.scheduler() == runner.scheduler(),
        after.schedule() is None,
{
    let nodes = runner.scheduler().unwrap().nodes();
    assert(runner.held(current).nodes() == nodes);
    assert forall|i: int| 0 <= i < nodes.len() implies (#[trigger] nodes[i]).daemon by {
        assert(runner.held(current).nodes()[i].daemon);
    }
    lemma_primaries_zero(nodes);
}

/// Cancellation stops the session at the next turn: once the session is
/// cancelled, the turn answers `Exit`, whatever is linked or ready, and
/// hands no task out.
pub proof fn lemma_cancel_stops<T>(
    runner: TaskRunner<T>,
    current: CurrentRunner<T>,
    post: TaskRunner<T>,
    after: CurrentRunner<T>,
    action: Turn<T>,
)
    requires
        runner.parked(current),
        current.cancelled(),
        runner.turned(current, post, after, action),
    ensures
        action is Exit,
        post.scheduler() == runner.scheduler(),
        after.schedule() is None,
{
}

/// While primary tasks remain and the session is not cancelled, a turn
/// never answers `Exit`.
pub proof fn lemma_running_goes_on<T>(
    runner: TaskRunner<T>,
    current: CurrentRunner<T>,
    post: TaskRunner<T>,
    after: CurrentRunner<T>,
    action: Turn<T>,
)
    requires
        runner.parked(current),
        current.running(),
        runner.turned(current, post, after, action),
    ensures
        !(action is Exit),
{
}

} // verus!
