use current_thread::{
    cancel_all_spawned, spawn, spawn_daemon, task_executor, Async, Context, CurrentRunner, Polled,
    TaskRunner, Turn,
};

use std::cell::{Cell, RefCell};
use std::rc::Rc;

type Poll = Result<Async<()>, ()>;

/// A task: a closure that is polled with the thread's session state and
/// with the identifier under which the task is notified.
struct Task(Box<dyn FnMut(&mut CurrentRunner<Task>, u64) -> Poll>);

/// A task that runs `f` at its first poll and finishes.
fn lazy<F>(f: F) -> Task
where
    F: FnOnce(&mut CurrentRunner<Task>) -> Result<(), ()> + 'static,
{
    let mut f = Some(f);
    Task(Box::new(move |current, _| {
        let f = f.take().expect("polled after completion");
        f(current).map(Async::Ready)
    }))
}

/// A task that never finishes and holds on to a resource.
fn never(resource: Rc<()>) -> Task {
    Task(Box::new(move |_, _| {
        let _held = &resource;
        Ok(Async::NotReady)
    }))
}

/// What the drive loop does when nothing is ready.
trait Sleep {
    fn sleep(&mut self, runner: &mut TaskRunner<Task>);
}

/// No other thread exists in these tests, so nothing could end a sleep.
struct NoWakeup;

impl Sleep for NoWakeup {
    fn sleep(&mut self, _runner: &mut TaskRunner<Task>) {
        panic!("the session would sleep for ever");
    }
}

fn block_with_init<F, R>(current: &mut CurrentRunner<Task>, f: F) -> R
where
    F: FnOnce(&mut CurrentRunner<Task>, &mut Context) -> R,
{
    block_with_init_and_sleep(current, &mut NoWakeup, f)
}

fn block_with_init_and_sleep<S, F, R>(current: &mut CurrentRunner<Task>, sleep: &mut S, f: F) -> R
where
    S: Sleep,
    F: FnOnce(&mut CurrentRunner<Task>, &mut Context) -> R,
{
    let (mut runner, mut ctx) = TaskRunner::enter(current)
        .expect("cannot execute `current_thread` executor from within another executor");
    let ret = f(current, &mut ctx);
    runner.start(current);
    loop {
        match runner.turn(current) {
            Turn::Poll(Polled { id, mut task }) => {
                let outcome = (task.0)(current, id);
                runner.complete(current, task, outcome);
            }
            Turn::Sleep => sleep.sleep(&mut runner),
            Turn::Yield => {}
            Turn::Exit => break,
        }
    }
    runner.exit(current, ctx);
    ret
}

/// Reserves the thread as a blocking wait does, and fails as it does when
/// the thread is inside a session.
fn blocking_wait(current: &mut CurrentRunner<Task>) {
    let enter = current
        .enter()
        .expect("cannot block on a future from within an executor");
    current.leave(enter);
}

#[test]
fn spawning_from_init_future() {
    let cnt = Rc::new(Cell::new(0));
    let mut current = CurrentRunner::new();

    block_with_init(&mut current, |current, _| {
        let cnt = cnt.clone();

        spawn(
            current,
            lazy(move |_| {
                cnt.set(1 + cnt.get());
                Ok(())
            }),
        );
    });

    assert_eq!(1, cnt.get());
}

/// The other side of a channel: it sends the signal when the session
/// sleeps, and wakes the task that waits for it.
struct Sender {
    signal: Rc<Cell<bool>>,
    waiting: Rc<Cell<Option<u64>>>,
    sleeps: usize,
}

impl Sleep for Sender {
    fn sleep(&mut self, runner: &mut TaskRunner<Task>) {
        self.sleeps += 1;
        self.signal.set(true);
        let id = self.waiting.get().expect("nobody waits for the signal");
        assert!(runner.notify(id));
    }
}

#[test]
fn block_waits_for_non_daemon() {
    let cnt = Rc::new(Cell::new(0));
    let signal = Rc::new(Cell::new(false));
    let waiting = Rc::new(Cell::new(None));
    let mut sender = Sender { signal: signal.clone(), waiting: waiting.clone(), sleeps: 0 };
    let mut current = CurrentRunner::new();

    block_with_init_and_sleep(&mut current, &mut sender, |current, _| {
        let cnt = cnt.clone();

        spawn(
            current,
            Task(Box::new(move |_, id| {
                if signal.get() {
                    cnt.set(1 + cnt.get());
                    Ok(Async::Ready(()))
                } else {
                    waiting.set(Some(id));
                    Ok(Async::NotReady)
                }
            })),
        );
    });

    assert_eq!(1, sender.sleeps);
    assert_eq!(1, cnt.get());
}

#[test]
#[should_panic]
fn spawning_out_of_executor_context() {
    let mut current = CurrentRunner::new();

    task_executor()
        .execute(&mut current, lazy(|_| Ok(())))
        .unwrap_or_else(|_| {
            panic!(
                "cannot call `execute` unless the thread is already \
                 in the context of a call to `block_on_all` or `block_with_init`"
            )
        });
}

#[test]
fn spawn_many() {
    const ITER: usize = 200;

    let cnt = Rc::new(Cell::new(0));
    let mut current = CurrentRunner::new();

    block_with_init(&mut current, |current, _| {
        for _ in 0..ITER {
            let cnt = cnt.clone();
            spawn(
                current,
                lazy(move |_| {
                    cnt.set(1 + cnt.get());
                    Ok::<(), ()>(())
                }),
            );
        }
    });

    assert_eq!(cnt.get(), ITER);
}

#[test]
fn outstanding_daemon_tasks_are_dropped_on_return() {
    let mut rc = Rc::new(());
    let mut current = CurrentRunner::new();

    block_with_init(&mut current, |current, _| {
        spawn_daemon(current, never(rc.clone()));
    });

    // Ensure the daemon is dropped
    assert!(Rc::get_mut(&mut rc).is_some());
}

#[test]
fn outstanding_tasks_are_dropped_on_cancel() {
    let mut rc = Rc::new(());
    let mut current = CurrentRunner::new();

    block_with_init(&mut current, |current, _| {
        spawn(current, never(rc.clone()));
        cancel_all_spawned(current);
    });

    // Ensure the task is dropped
    assert!(Rc::get_mut(&mut rc).is_some());
}

#[test]
#[should_panic]
fn nesting_run() {
    let mut current = CurrentRunner::new();

    block_with_init(&mut current, |current, _| {
        block_with_init(current, |_, _| {});
    });
}

#[test]
#[should_panic]
fn run_in_future() {
    let mut current = CurrentRunner::new();

    block_with_init(&mut current, |current, _| {
        spawn(
            current,
            lazy(|current| {
                block_with_init(current, |_, _| {});
                Ok::<(), ()>(())
            }),
        );
    });
}

#[test]
#[should_panic]
fn blocking_within_init() {
    let mut current = CurrentRunner::new();

    block_with_init(&mut current, |current, _| {
        blocking_wait(current);
    });
}

#[test]
#[should_panic]
fn blocking_in_future() {
    let mut current = CurrentRunner::new();

    block_with_init(&mut current, |current, _| {
        spawn(
            current,
            lazy(|current| {
                blocking_wait(current);
                Ok::<(), ()>(())
            }),
        );
    });
}

/// A task that does one unit of work per poll and notifies itself at once.
fn spin(state: Rc<RefCell<[i32; 2]>>, idx: usize) -> Task {
    Task(Box::new(move |current, id| {
        let mut state = state.borrow_mut();

        if idx == 0 {
            let diff = state[0] - state[1];

            assert!(diff.abs() <= 1);

            if state[0] >= 50 {
                return Ok(Async::Ready(()));
            }
        }

        state[idx] += 1;

        current.notify(id);
        Ok(Async::NotReady)
    }))
}

#[test]
fn tasks_are_scheduled_fairly() {
    let state = Rc::new(RefCell::new([0, 0]));
    let mut current = CurrentRunner::new();

    block_with_init(&mut current, |current, _| {
        spawn(current, spin(state.clone(), 0));

        spawn_daemon(current, spin(state.clone(), 1));
    });

    assert_eq!(*state.borrow(), [50, 50]);
}

#[test]
fn tasks_spawned_during_a_poll_are_run() {
    let cnt = Rc::new(Cell::new(0));
    let mut current = CurrentRunner::new();

    block_with_init(&mut current, |current, _| {
        let cnt = cnt.clone();
        spawn(
            current,
            lazy(move |current| {
                let inner = cnt.clone();
                cnt.set(1 + cnt.get());
                spawn(
                    current,
                    lazy(move |_| {
                        inner.set(10 + inner.get());
                        Ok(())
                    }),
                );
                Ok(())
            }),
        );
    });

    assert_eq!(11, cnt.get());
    assert!(!current.is_entered());
    assert_eq!(0, current.primary_count());
}

#[test]
fn a_failed_task_counts_as_finished() {
    let mut current = CurrentRunner::new();

    let ret = block_with_init(&mut current, |current, ctx| {
        let _evidence = ctx.enter();
        spawn(current, lazy(|_| Err(())));
        7
    });

    assert_eq!(7, ret);
    assert!(!current.is_entered());
}

#[test]
fn cancel_during_a_poll_stops_before_the_next_poll() {
    let polls = Rc::new(Cell::new(0));
    let mut current = CurrentRunner::new();

    block_with_init(&mut current, |current, _| {
        let first = polls.clone();
        spawn(
            current,
            Task(Box::new(move |current, _| {
                first.set(1 + first.get());
                cancel_all_spawned(current);
                Ok(Async::NotReady)
            })),
        );
        let second = polls.clone();
        spawn(
            current,
            lazy(move |_| {
                second.set(100 + second.get());
                Ok(())
            }),
        );
    });

    assert_eq!(1, polls.get());
    assert!(!current.is_cancelled());
}

#[test]
fn a_session_can_follow_a_cancelled_one() {
    let cnt = Rc::new(Cell::new(0));
    let mut current = CurrentRunner::new();

    block_with_init(&mut current, |current, _| {
        spawn(current, never(Rc::new(())));
        cancel_all_spawned(current);
    });
    block_with_init(&mut current, |current, _| {
        let cnt = cnt.clone();
        spawn(
            current,
            lazy(move |_| {
                cnt.set(1 + cnt.get());
                Ok(())
            }),
        );
    });

    assert_eq!(1, cnt.get());
}
