use current_thread::{
    cancel_all_spawned, daemon_executor, execute, spawn, spawn_daemon, task_executor, Async,
    CurrentRunner, ExecuteErrorKind, Polled, Scheduler, TaskRunner, Turn,
};

fn entered() -> (CurrentRunner<u32>, TaskRunner<u32>, current_thread::Context) {
    let mut current = CurrentRunner::new();
    let (runner, ctx) = TaskRunner::enter(&mut current).expect("no session is active");
    (current, runner, ctx)
}

fn expect_poll(turn: Turn<u32>) -> (u64, u32) {
    match turn {
        Turn::Poll(Polled { id, task }) => (id, task),
        other => panic!("expected a poll, got {:?}", other),
    }
}

#[test]
fn a_fresh_state_is_idle() {
    let current: CurrentRunner<u32> = CurrentRunner::new();
    assert!(!current.is_entered());
    assert!(!current.is_cancelled());
    assert!(!current.is_running());
    assert!(!current.has_schedule());
    assert!(!current.is_polling());
    assert!(current.has_capacity());
    assert_eq!(0, current.primary_count());
}

#[test]
fn submission_without_a_session_is_rejected() {
    let mut current: CurrentRunner<u32> = CurrentRunner::new();

    let e = execute(&mut current, 5, false).expect_err("no session is active");
    assert_eq!(ExecuteErrorKind::Shutdown, e.kind());
    assert_eq!(5, e.into_future());

    let e = task_executor().execute(&mut current, 6).expect_err("no session is active");
    assert_eq!(6, e.into_future());

    let e = daemon_executor().clone().execute(&mut current, 7).expect_err("no session is active");
    assert_eq!(ExecuteErrorKind::Shutdown, e.kind());
    assert_eq!(7, e.into_future());

    assert_eq!(0, current.primary_count());
    assert!(!current.has_schedule());
    assert!(!current.is_entered());
}

#[test]
fn cancelling_without_a_session_is_rejected() {
    let mut current: CurrentRunner<u32> = CurrentRunner::new();
    assert_eq!(Err(()), current.with_cancel());
    assert!(!current.is_cancelled());
}

#[test]
fn submission_between_polls_is_rejected() {
    let (mut current, mut runner, _ctx) = entered();
    spawn(&mut current, 1);
    runner.start(&mut current);

    assert!(!current.has_schedule());
    let e = task_executor().clone().execute(&mut current, 2).expect_err("nothing is installed");
    assert_eq!(2, e.into_future());
    assert_eq!(Err(()), current.with_cancel());
    assert_eq!(1, current.primary_count());
    assert!(!current.is_cancelled());
}

#[test]
fn only_primary_tasks_are_counted() {
    let (mut current, _runner, _ctx) = entered();
    assert!(current.has_schedule());

    spawn(&mut current, 1);
    assert_eq!(1, current.primary_count());
    spawn_daemon(&mut current, 2);
    assert_eq!(1, current.primary_count());
    assert_eq!(Ok(()), task_executor().execute(&mut current, 3).map_err(|e| e.kind()));
    assert_eq!(2, current.primary_count());
    assert_eq!(Ok(()), daemon_executor().execute(&mut current, 4).map_err(|e| e.kind()));
    assert_eq!(2, current.primary_count());
    assert!(current.is_running());
}

#[test]
fn a_nested_entry_fails_and_changes_nothing() {
    let (mut current, _runner, _ctx) = entered();
    spawn(&mut current, 1);
    spawn_daemon(&mut current, 2);

    assert!(TaskRunner::enter(&mut current).is_err());
    assert!(current.enter().is_err());

    assert!(current.is_entered());
    assert!(current.has_schedule());
    assert!(!current.is_cancelled());
    assert_eq!(1, current.primary_count());

    // The outer session goes on.
    spawn(&mut current, 3);
    assert_eq!(2, current.primary_count());
}

#[test]
fn the_loop_exits_at_once_with_daemons_only() {
    let (mut current, mut runner, ctx) = entered();
    spawn_daemon(&mut current, 1);
    spawn_daemon(&mut current, 2);
    runner.start(&mut current);

    assert!(!current.is_running());
    assert!(matches!(runner.turn(&mut current), Turn::Exit));
    assert!(runner.holds_scheduler());
    assert!(!current.has_schedule());

    runner.exit(&mut current, ctx);
    assert!(!current.is_entered());
}

#[test]
fn the_loop_sleeps_while_a_primary_task_waits() {
    let (mut current, mut runner, _ctx) = entered();
    spawn(&mut current, 1);
    runner.start(&mut current);

    let (id, task) = expect_poll(runner.turn(&mut current));
    assert_eq!((0, 1), (id, task));
    assert!(current.has_schedule());
    assert!(current.is_polling());
    assert!(!runner.holds_scheduler());
    assert_eq!(Async::NotReady, runner.complete(&mut current, task, Ok(Async::NotReady)));
    assert!(!current.has_schedule());
    assert_eq!(1, current.primary_count());

    assert!(matches!(runner.turn(&mut current), Turn::Sleep));
    assert!(matches!(runner.turn(&mut current), Turn::Sleep));

    assert!(runner.notify(id));
    assert!(!runner.notify(id));
    assert_eq!((0, 1), expect_poll(runner.turn(&mut current)));
    assert_eq!(Async::Ready(false), runner.complete(&mut current, 1, Ok(Async::Ready(()))));
    assert_eq!(0, current.primary_count());
    assert!(matches!(runner.turn(&mut current), Turn::Exit));
}

#[test]
fn a_finished_daemon_leaves_the_count_alone() {
    let (mut current, mut runner, _ctx) = entered();
    spawn_daemon(&mut current, 10);
    spawn(&mut current, 20);
    runner.start(&mut current);

    let (_, task) = expect_poll(runner.turn(&mut current));
    assert_eq!(10, task);
    assert_eq!(Async::Ready(true), runner.complete(&mut current, task, Err(())));
    assert_eq!(1, current.primary_count());

    let (_, task) = expect_poll(runner.turn(&mut current));
    assert_eq!(20, task);
    assert_eq!(Async::Ready(false), runner.complete(&mut current, task, Err(())));
    assert_eq!(0, current.primary_count());
}

#[test]
fn cancellation_stops_the_loop_before_the_next_poll() {
    let (mut current, mut runner, ctx) = entered();
    spawn(&mut current, 1);
    spawn(&mut current, 2);
    cancel_all_spawned(&mut current);
    runner.start(&mut current);

    assert!(current.is_cancelled());
    assert_eq!(2, current.primary_count());
    assert!(!current.is_running());
    assert!(matches!(runner.turn(&mut current), Turn::Exit));

    runner.exit(&mut current, ctx);
    assert!(!current.is_cancelled());
    assert_eq!(0, current.primary_count());
}

#[test]
fn cancellation_during_a_poll_lets_the_poll_end() {
    let (mut current, mut runner, _ctx) = entered();
    spawn(&mut current, 1);
    spawn(&mut current, 2);
    runner.start(&mut current);

    let (_, task) = expect_poll(runner.turn(&mut current));
    assert_eq!(Ok(()), current.with_cancel());
    assert_eq!(Async::NotReady, runner.complete(&mut current, task, Ok(Async::NotReady)));
    assert!(current.is_cancelled());
    assert!(matches!(runner.turn(&mut current), Turn::Exit));
}

#[test]
fn a_stale_notification_makes_the_loop_yield() {
    let (mut current, mut runner, _ctx) = entered();
    spawn(&mut current, 1);
    spawn(&mut current, 2);
    runner.start(&mut current);

    // The first task notifies itself in the poll in which it finishes.
    let (id, task) = expect_poll(runner.turn(&mut current));
    assert!(current.notify(id));
    assert_eq!(Async::Ready(false), runner.complete(&mut current, task, Ok(Async::Ready(()))));

    let (_, task) = expect_poll(runner.turn(&mut current));
    assert_eq!(2, task);
    assert_eq!(Async::NotReady, runner.complete(&mut current, task, Ok(Async::NotReady)));

    assert!(matches!(runner.turn(&mut current), Turn::Yield));
    assert!(matches!(runner.turn(&mut current), Turn::Sleep));
}

#[test]
fn notifying_without_a_session_does_nothing() {
    let mut current: CurrentRunner<u32> = CurrentRunner::new();
    assert!(!current.notify(0));
    assert!(!current.has_schedule());
}

#[test]
fn leaving_resets_the_state() {
    let (mut current, runner, ctx) = entered();
    spawn(&mut current, 1);
    cancel_all_spawned(&mut current);

    runner.exit(&mut current, ctx);
    assert!(!current.is_entered());
    assert!(!current.is_cancelled());
    assert!(!current.has_schedule());
    assert_eq!(0, current.primary_count());

    let (runner, ctx) = TaskRunner::enter(&mut current).expect("the session is over");
    assert!(current.is_entered());
    assert!(current.has_schedule());
    runner.exit(&mut current, ctx);
}

#[test]
fn the_slot_holds_one_scheduler_at_a_time() {
    let mut current: CurrentRunner<u32> = CurrentRunner::new();
    let enter = current.enter().expect("no session is active");
    assert!(current.clear_schedule().is_none());

    current.set_schedule(Scheduler::new());
    assert!(current.has_schedule());
    spawn_daemon(&mut current, 9);

    let scheduler = current.clear_schedule().expect("a scheduler is installed");
    assert_eq!(1, scheduler.len());
    assert!(!current.has_schedule());
    current.leave(enter);
    assert!(!current.is_entered());
}

#[test]
fn a_new_runner_holds_an_empty_scheduler() {
    let mut runner: TaskRunner<u32> = TaskRunner::new();
    assert!(runner.holds_scheduler());
    assert!(!runner.notify(0));
}

#[test]
fn cancel_all_executing_only_sets_the_mark() {
    let (mut current, _runner, _ctx) = entered();
    spawn(&mut current, 1);
    current.cancel_all_executing();
    assert!(current.is_cancelled());
    assert!(current.has_schedule());
    assert_eq!(1, current.primary_count());
    assert!(!current.is_running());
}
