use asyncos::executor::{ExecutorCore, RunStep, WakeSignal};
use asyncos::priority::TaskPriority;
use asyncos::reactor::ReactorTable;
use asyncos::ready_queue::ReadyQueue;
use asyncos::ready_task::ReadyTask;
use asyncos::task::{Task, TaskPoll, YIELD_DELAY_SECONDS};

const SECOND: u128 = 1_000_000_000;

#[test]
fn test_priority_and_starvation() {
    let mut queue = ReadyQueue::new();
    let now: u128 = 100 * SECOND;

    let older_normal_task = ReadyTask {
        task_id: 2,
        priority: TaskPriority::Normal,
        enqueued_at: now - 3 * SECOND,
    };
    let newer_high_task = ReadyTask {
        task_id: 1,
        priority: TaskPriority::High,
        enqueued_at: now,
    };

    queue.push(newer_high_task);
    queue.push(older_normal_task);

    let first_out = queue.pop().unwrap();

    assert_eq!(first_out.task_id, 2, "an older task of a neighbouring class must overtake");
}

/// Drives one task through the executor's decisions and the reactor's table
/// the way the run loop does, with the timer firing between polls.
// Drives the verified scheduling core and reactor table directly, with the
// timer firing at once in place of the reactor thread; the wall-clock part of
// the run (`Executor::run` and its one-second sleep) lives in the
// application and is not exercised here.
#[test]
fn test_executor_single_task() {
    let mut executor: ExecutorCore<()> = ExecutorCore::new();
    let mut reactor: ReactorTable<usize> = ReactorTable::new();
    executor.spawn(Task::new((), 0, 1, TaskPriority::Normal, 1));

    let mut timers = Vec::new();
    let mut completed = Vec::new();
    loop {
        match executor.next_step() {
            RunStep::Poll(entry, mut task) => {
                assert_eq!(entry.task_id, 1);
                match task.poll_with(&mut reactor, entry.task_id) {
                    TaskPoll::Ready(v) => completed.push(v),
                    TaskPoll::Pending(timer) => {
                        executor.return_task(task);
                        if let Some(t) = timer {
                            timers.push(t);
                            // the timer fires: the reactor hands back the waker
                            let woken = reactor.wake(t.task_id);
                            executor.enqueue(woken, TaskPriority::Normal);
                        }
                    }
                }
            }
            RunStep::Skip(_) => {}
            RunStep::Idle => break,
            RunStep::Park => panic!("nothing can wake the loop here"),
        }
    }

    assert!(executor.is_idle(), "the task must have completed and left the executor");
    assert_eq!(completed, vec![1]);
    assert_eq!(timers.len(), 1, "the task waits for exactly one timer");
    assert!(timers[0].delay_secs >= 1 && timers[0].delay_secs == YIELD_DELAY_SECONDS);
}

#[test]
fn demo_order_follows_priority() {
    let mut queue = ReadyQueue::new();
    let t: u128 = 50 * SECOND;
    queue.push(ReadyTask::new(1, TaskPriority::Low, t));
    queue.push(ReadyTask::new(4, TaskPriority::Critical, t + 1_000));
    queue.push(ReadyTask::new(2, TaskPriority::Normal, t + 2_000));
    queue.push(ReadyTask::new(3, TaskPriority::High, t + 3_000));
    let mut order = Vec::new();
    while let Some(r) = queue.pop() {
        order.push(r.task_id);
    }
    assert_eq!(order, vec![4, 3, 2, 1]);
    assert!(queue.is_empty());
}

#[test]
fn same_class_is_first_in_first_out() {
    let a = ReadyTask::new(9, TaskPriority::High, 10);
    let b = ReadyTask::new(1, TaskPriority::High, 20);
    assert_eq!(a.cmp(&b), std::cmp::Ordering::Greater);
    assert_eq!(b.cmp(&a), std::cmp::Ordering::Less);
    assert!(a.serves_before(&b));
}

#[test]
fn same_entry_ties_and_equal_time_breaks_by_id() {
    let a = ReadyTask::new(3, TaskPriority::Low, 10);
    assert_eq!(a.cmp(&a), std::cmp::Ordering::Equal);
    let b = ReadyTask::new(4, TaskPriority::Low, 10);
    assert_eq!(a.cmp(&b), std::cmp::Ordering::Greater);
    assert_eq!(a.partial_cmp(&b), Some(std::cmp::Ordering::Greater));
}

#[test]
fn distant_classes_ignore_waiting_time() {
    let old_low = ReadyTask::new(1, TaskPriority::Low, 0);
    let new_high = ReadyTask::new(2, TaskPriority::High, 10 * SECOND);
    assert!(new_high.serves_before(&old_low));
    assert_eq!(old_low.priority_gap(&new_high), 2);
    assert!(!old_low.age_override_applies(&new_high));
}

#[test]
fn starvation_threshold_is_inclusive() {
    let old_normal = ReadyTask::new(1, TaskPriority::Normal, 0);
    let at_threshold = ReadyTask::new(2, TaskPriority::High, 2 * SECOND);
    let below_threshold = ReadyTask::new(3, TaskPriority::High, 2 * SECOND - 1);
    assert_eq!(old_normal.age_gap(&at_threshold), 2 * SECOND);
    assert!(old_normal.age_override_applies(&at_threshold));
    assert!(old_normal.serves_before(&at_threshold));
    assert!(below_threshold.serves_before(&old_normal));
}

#[test]
fn priority_scores() {
    assert_eq!(TaskPriority::Low.score(), 0);
    assert_eq!(TaskPriority::Normal.score(), 1);
    assert_eq!(TaskPriority::High.score(), 2);
    assert_eq!(TaskPriority::Critical.score(), 3);
}

#[test]
fn pop_on_empty_queue() {
    let mut queue = ReadyQueue::new();
    assert!(queue.pop().is_none());
    assert_eq!(queue.len(), 0);
}

#[test]
fn stale_entry_is_skipped_and_idle_follows() {
    let mut executor: ExecutorCore<()> = ExecutorCore::new();
    executor.enqueue(7, TaskPriority::High);
    match executor.next_step() {
        RunStep::Skip(r) => assert_eq!(r.task_id, 7),
        _ => panic!("expected a skipped entry"),
    }
    assert!(matches!(executor.next_step(), RunStep::Idle));
}

#[test]
fn owned_task_without_entry_parks() {
    let mut executor: ExecutorCore<()> = ExecutorCore::new();
    executor.spawn(Task::new((), 5, 2, TaskPriority::Low, 0));
    let task = match executor.next_step() {
        RunStep::Poll(_, t) => t,
        _ => panic!("expected a poll"),
    };
    executor.return_task(task);
    assert!(executor.contains_task(2));
    assert!(matches!(executor.next_step(), RunStep::Park));
}

#[test]
fn wake_signal_is_kept_until_consumed() {
    let mut s = WakeSignal::new();
    assert!(!s.try_consume());
    s.signal();
    assert!(s.try_consume());
    assert!(!s.try_consume());
}

#[test]
fn reactor_lifecycle() {
    let mut table: ReactorTable<&str> = ReactorTable::new();
    assert!(!table.has_task(3));
    let t = table.register(1, "first", 3);
    assert_eq!((t.delay_secs, t.task_id), (1, 3));
    assert!(table.has_task(3) && !table.is_ready(3));
    table.update_waker(3, "second");
    assert_eq!(table.wake(3), "second");
    assert!(table.is_ready(3));
    let t2 = table.rearm(2, "third", 3);
    assert_eq!(t2.delay_secs, 2);
    assert_eq!(table.wake(3), "third");
    table.finish(3);
    assert!(table.has_task(3) && !table.is_ready(3));
}

#[test]
fn task_with_no_yield_completes_at_once() {
    let mut table: ReactorTable<u8> = ReactorTable::new();
    let mut task = Task::new((), 0, 8, TaskPriority::Critical, 0);
    assert_eq!(task.poll_with(&mut table, 0), TaskPoll::Ready(8));
    assert!(!table.has_task(8));
}

#[test]
fn task_completes_after_its_yields() {
    let mut table: ReactorTable<u8> = ReactorTable::new();
    let mut task = Task::new((), 42, 5, TaskPriority::High, 3);
    let mut pending = 0;
    loop {
        match task.poll_with(&mut table, 0) {
            TaskPoll::Ready(v) => {
                assert_eq!(v, 5);
                break;
            }
            TaskPoll::Pending(timer) => {
                assert_eq!(timer.map(|t| t.task_id), Some(5));
                // a spurious poll while waiting only refreshes the waker
                assert_eq!(task.poll_with(&mut table, 1), TaskPoll::Pending(None));
                table.wake(5);
                pending += 1;
            }
        }
    }
    assert_eq!(pending, 3);
    assert_eq!(task.yields_left(), 0);
    assert_eq!(task.data(), 42);
}

#[test]
fn scheduling_order_can_cycle_across_three_classes() {
    let a = ReadyTask::new(1, TaskPriority::Low, 0);
    let b = ReadyTask::new(2, TaskPriority::Normal, 2 * SECOND);
    let c = ReadyTask::new(3, TaskPriority::High, 4 * SECOND);
    assert!(a.serves_before(&b));
    assert!(b.serves_before(&c));
    assert!(c.serves_before(&a));
    let mut queue = ReadyQueue::new();
    queue.push(a);
    queue.push(b);
    queue.push(c);
    let first = queue.pop().unwrap();
    assert!([1, 2, 3].contains(&first.task_id));
    assert_eq!(queue.len(), 2);
}

#[test]
fn pending_task_returns_under_its_id_beside_others() {
    let mut executor: ExecutorCore<()> = ExecutorCore::new();
    let mut reactor: ReactorTable<usize> = ReactorTable::new();
    executor.spawn(Task::new((), 10, 3, TaskPriority::High, 1));
    executor.spawn(Task::new((), 20, 4, TaskPriority::Low, 0));
    let (entry, mut task) = match executor.next_step() {
        RunStep::Poll(entry, task) => (entry, task),
        _ => panic!("expected a poll"),
    };
    assert_eq!(entry.task_id, 3);
    assert_eq!(task.id(), 3);
    assert!(!executor.contains_task(3));
    assert!(executor.contains_task(4));
    assert!(matches!(task.poll_with(&mut reactor, entry.task_id), TaskPoll::Pending(_)));
    executor.return_task(task);
    assert!(executor.contains_task(3));
    assert!(executor.contains_task(4));
    match executor.next_step() {
        RunStep::Poll(entry, task) => {
            assert_eq!(entry.task_id, 4);
            assert_eq!(task.data(), 20);
        }
        _ => panic!("expected the other task"),
    }
}

#[test]
fn enqueue_and_spawn_raise_the_wake_flag() {
    let mut executor: ExecutorCore<()> = ExecutorCore::new();
    assert!(!executor.take_wake(), "a new executor has no pending wake-up");
    executor.spawn(Task::new((), 1, 7, TaskPriority::Normal, 0));
    assert!(executor.take_wake());
    assert!(!executor.take_wake(), "a consumed wake-up is gone");
    let task = match executor.next_step() {
        RunStep::Poll(_, t) => t,
        _ => panic!("expected a poll"),
    };
    executor.return_task(task);
    assert!(!executor.take_wake(), "polling and returning a task wake nobody");
    executor.enqueue(7, TaskPriority::Normal);
    executor.enqueue(7, TaskPriority::Normal);
    assert!(executor.take_wake(), "a wake-up made before sleeping is kept");
    assert!(!executor.take_wake(), "two wake-ups are consumed by one wait");
}
