use std::cell::RefCell;
use std::rc::Rc;

use mini_executor::executor::new_executor_and_spawner;
use mini_executor::executor::Computation;
use mini_executor::executor::ExecStatus;
use mini_executor::executor::QueueOverflow;
use mini_executor::executor::WakeHandle;
use mini_executor::simple_future::Poll;
use mini_executor::timer_future::TimerFuture;
use mini_executor::timer_future::TimerTable;

type Log = Rc<RefCell<Vec<&'static str>>>;

enum TestComp {
    /// Completes on its first poll and records its name.
    Immediate { log: Log, name: &'static str },
    /// Awaits a timer; once the timer is ready, records its name and
    /// completes.
    AfterTimer { timer: TimerFuture, log: Log, name: &'static str },
}

impl Computation for TestComp {
    // The completion criterion: an immediate computation finishes on any
    // poll; one awaiting a timer finishes once that record has fired.
    fn ready_now(&self, timers: TimerTable) -> bool {
        match self {
            TestComp::Immediate { .. } => true,
            TestComp::AfterTimer { timer, .. } => {
                timers.cells.get(timer.timer_id).map_or(false, |c| c.completed)
            }
        }
    }

    fn ready_now_stable(&self, _pre: TimerTable, _post: TimerTable) {}

    fn advance(&mut self, timers: &mut TimerTable, waker: WakeHandle) -> Poll<()> {
        match self {
            TestComp::Immediate { log, name } => {
                log.borrow_mut().push(name);
                Poll::Ready(())
            }
            TestComp::AfterTimer { timer, log, name } => match timer.poll(timers, waker) {
                Poll::Ready(()) => {
                    log.borrow_mut().push(name);
                    Poll::Ready(())
                }
                Poll::Pending => Poll::Pending,
            },
        }
    }
}

fn new_log() -> Log {
    Rc::new(RefCell::new(Vec::new()))
}

#[test]
fn immediate_task_runs_once_and_executor_returns() {
    let (mut ex, spawner) = new_executor_and_spawner::<TestComp>(8);
    let log = new_log();
    let r = ex.spawn(&spawner, TestComp::Immediate { log: log.clone(), name: "done" });
    assert!(r.is_ok());
    let st = ex.run();
    // The spawner handle is still live, so the scheduler is not closed.
    assert_eq!(st, ExecStatus::Idle);
    assert_eq!(*log.borrow(), vec!["done"]);
    // Nothing is queued any more; running again does not poll the task again.
    let st = ex.run();
    assert_eq!(st, ExecStatus::Idle);
    assert_eq!(*log.borrow(), vec!["done"]);
    ex.drop_spawner(spawner);
    assert_eq!(ex.run(), ExecStatus::Stopped);
}

#[test]
fn run_returns_stopped_once_all_producers_are_gone() {
    let (mut ex, spawner) = new_executor_and_spawner::<TestComp>(4);
    ex.drop_spawner(spawner);
    assert_eq!(ex.run(), ExecStatus::Stopped);
}

#[test]
fn parked_task_keeps_the_scheduler_open() {
    let (mut ex, spawner) = new_executor_and_spawner::<TestComp>(4);
    let log = new_log();
    let timer = TimerFuture::new(&mut ex.timers, 0, 5);
    let r = ex.spawn(&spawner, TestComp::AfterTimer { timer, log: log.clone(), name: "A" });
    assert!(r.is_ok());
    ex.drop_spawner(spawner);
    // The first poll parks the task's wake handle in the timer record, so
    // the scheduler is not closed even though no spawner remains.
    assert_eq!(ex.run(), ExecStatus::Idle);
    assert_eq!(log.borrow().len(), 0);
    // Firing the timer wakes the task; the next run completes it, and with
    // the wake handle consumed the scheduler is closed.
    assert!(ex.fire_timer(0, 5).is_ok());
    assert_eq!(ex.run(), ExecStatus::Stopped);
    assert_eq!(*log.borrow(), vec!["A"]);
}

#[test]
fn fifo_order_lets_unsuspended_task_finish_first() {
    let (mut ex, spawner) = new_executor_and_spawner::<TestComp>(8);
    let log = new_log();
    let timer = TimerFuture::new(&mut ex.timers, 0, 0);
    let a = TestComp::AfterTimer { timer, log: log.clone(), name: "A" };
    let b = TestComp::Immediate { log: log.clone(), name: "B" };
    assert!(ex.spawn(&spawner, a).is_ok());
    assert!(ex.spawn(&spawner, b).is_ok());
    let st = ex.run();
    assert_eq!(st, ExecStatus::Idle);
    // A was polled first but suspended on its timer; B completed on its
    // first poll, so B's effect is observed before A's.
    assert_eq!(*log.borrow(), vec!["B"]);
    assert!(ex.fire_timer(0, 0).is_ok());
    ex.run();
    assert_eq!(*log.borrow(), vec!["B", "A"]);
}

#[test]
fn spawning_beyond_capacity_overflows() {
    let (mut ex, spawner) = new_executor_and_spawner::<TestComp>(2);
    let log = new_log();
    assert!(ex.spawn(&spawner, TestComp::Immediate { log: log.clone(), name: "1" }).is_ok());
    assert!(ex.spawn(&spawner, TestComp::Immediate { log: log.clone(), name: "2" }).is_ok());
    let r = ex.spawn(&spawner, TestComp::Immediate { log: log.clone(), name: "3" });
    assert_eq!(r, Err(QueueOverflow));
    // The overflowing computation was discarded, the queued ones still run.
    ex.run();
    assert_eq!(*log.borrow(), vec!["1", "2"]);
}

#[test]
fn waking_beyond_capacity_overflows() {
    let (mut ex, spawner) = new_executor_and_spawner::<TestComp>(1);
    let log = new_log();
    assert!(ex.spawn(&spawner, TestComp::Immediate { log, name: "x" }).is_ok());
    let r = ex.wake(WakeHandle { task_id: 0 });
    assert_eq!(r, Err(QueueOverflow));
}

#[test]
fn firing_a_timer_with_a_full_queue_overflows() {
    let (mut ex, spawner) = new_executor_and_spawner::<TestComp>(1);
    let log = new_log();
    let timer = TimerFuture::new(&mut ex.timers, 0, 6);
    assert!(ex.spawn(&spawner, TestComp::AfterTimer { timer, log: log.clone(), name: "A" }).is_ok());
    assert_eq!(ex.run(), ExecStatus::Idle);
    // Fill the queue with a spurious wake, then fire: the stored handle
    // cannot be enqueued.
    assert!(ex.wake(WakeHandle { task_id: 0 }).is_ok());
    let r = ex.fire_timer(0, 6);
    assert_eq!(r, Err(QueueOverflow));
    // The record completed even though the wake was lost; the spurious wake
    // already queued the task, so it still finishes.
    ex.run();
    assert_eq!(*log.borrow(), vec!["A"]);
}

#[test]
fn duplicate_wakes_cause_only_harmless_extra_polls() {
    let (mut ex, spawner) = new_executor_and_spawner::<TestComp>(8);
    let log = new_log();
    let timer = TimerFuture::new(&mut ex.timers, 0, 9);
    assert!(ex.spawn(&spawner, TestComp::AfterTimer { timer, log: log.clone(), name: "A" }).is_ok());
    assert_eq!(ex.run(), ExecStatus::Idle);
    // Two spurious wakes for the same pending state: two extra polls, both
    // of which find the timer still pending; no crash, no effect.
    assert!(ex.wake(WakeHandle { task_id: 0 }).is_ok());
    assert!(ex.wake(WakeHandle { task_id: 0 }).is_ok());
    assert_eq!(ex.run(), ExecStatus::Idle);
    assert_eq!(log.borrow().len(), 0);
    assert!(ex.fire_timer(0, 9).is_ok());
    assert_eq!(ex.run(), ExecStatus::Idle);
    assert_eq!(*log.borrow(), vec!["A"]);
    // Waking a task that has already completed is a no-op in effect: the
    // poll finds its slot empty and skips it.
    assert!(ex.wake(WakeHandle { task_id: 0 }).is_ok());
    assert_eq!(ex.run(), ExecStatus::Idle);
    assert_eq!(*log.borrow(), vec!["A"]);
}

#[test]
fn step_reports_the_poll_outcome() {
    let (mut ex, spawner) = new_executor_and_spawner::<TestComp>(8);
    let log = new_log();
    assert!(ex.spawn(&spawner, TestComp::Immediate { log: log.clone(), name: "x" }).is_ok());
    let p = ex.step();
    assert!(matches!(p, Some(Poll::Ready(()))));
    // A wake after completion leads to a skipped poll.
    assert!(ex.wake(WakeHandle { task_id: 0 }).is_ok());
    let p = ex.step();
    assert!(p.is_none());
    assert_eq!(*log.borrow(), vec!["x"]);
}

#[test]
fn reference_capacity_accepts_ten_thousand_tasks() {
    let (mut ex, spawner) = new_executor_and_spawner::<TestComp>(mini_executor::MAX_QUEUED_TASKS);
    let log = new_log();
    for _ in 0..mini_executor::MAX_QUEUED_TASKS {
        assert!(ex.spawn(&spawner, TestComp::Immediate { log: log.clone(), name: "t" }).is_ok());
    }
    let r = ex.spawn(&spawner, TestComp::Immediate { log: log.clone(), name: "t" });
    assert_eq!(r, Err(QueueOverflow));
    ex.run();
    assert_eq!(log.borrow().len(), mini_executor::MAX_QUEUED_TASKS);
}

#[test]
fn cloned_spawners_are_counted() {
    let (mut ex, spawner) = new_executor_and_spawner::<TestComp>(4);
    let second = ex.clone_spawner(&spawner);
    ex.drop_spawner(spawner);
    // One handle is still live.
    assert_eq!(ex.run(), ExecStatus::Idle);
    ex.drop_spawner(second);
    assert_eq!(ex.run(), ExecStatus::Stopped);
}
