use mini_tokio::executor::{spawn, MiniTokio};
use mini_tokio::task::{Poll, Task, WakeSignal};

#[test]
fn new_executor_has_nothing_to_run() {
    let mut executor: MiniTokio<&'static str> = MiniTokio::new();
    assert_eq!(executor.task_count(), 0);
    assert_eq!(executor.running(), None);
    assert!(executor.take_next().is_none());
}

#[test]
fn spawned_tasks_are_taken_in_spawn_order() {
    let mut executor = MiniTokio::new();
    executor.spawn("a");
    executor.spawn("b");
    assert_eq!(executor.task_count(), 2);
    let (first, a) = executor.take_next().unwrap();
    assert_eq!(first, WakeSignal { task: 0 });
    assert_eq!(a, "a");
    executor.settle(a, Poll::Ready);
    let (second, b) = executor.take_next().unwrap();
    assert_eq!(second, WakeSignal { task: 1 });
    assert_eq!(b, "b");
    executor.settle(b, Poll::Ready);
    assert!(executor.take_next().is_none());
}

#[test]
fn many_tasks_keep_their_order() {
    let mut executor = MiniTokio::new();
    for job in 0..100u32 {
        executor.spawn(job);
    }
    for expected in 0..100u32 {
        let (signal, job) = executor.take_next().unwrap();
        assert_eq!(signal.task, expected as usize);
        assert_eq!(job, expected);
        executor.settle(job, Poll::Pending);
    }
    assert!(executor.take_next().is_none());
}

#[test]
fn free_spawn_uses_the_registered_executor() {
    let mut current = Some(MiniTokio::new());
    spawn(&mut current, 7u32);
    spawn(&mut current, 8u32);
    let mut executor = current.unwrap();
    assert_eq!(executor.task_count(), 2);
    let (signal, job) = executor.take_next().unwrap();
    assert_eq!(signal.task, 0);
    assert_eq!(job, 7);
    executor.settle(job, Poll::Ready);
    let (signal, job) = executor.take_next().unwrap();
    assert_eq!(signal.task, 1);
    assert_eq!(job, 8);
}

#[test]
fn a_pending_task_stays_off_the_queue_until_woken() {
    let mut executor = MiniTokio::new();
    executor.spawn('x');
    let (signal, job) = executor.take_next().unwrap();
    executor.settle(job, Poll::Pending);
    assert!(executor.take_next().is_none());
    assert!(!executor.is_complete(signal.task));
    executor.wake(signal);
    let (again, job) = executor.take_next().unwrap();
    assert_eq!(again, signal);
    assert_eq!(job, 'x');
}

#[test]
fn a_wake_requeues_its_own_task_and_no_other() {
    let mut executor = MiniTokio::new();
    executor.spawn("t0");
    executor.spawn("t1");
    executor.spawn("t2");
    let mut signals = Vec::new();
    for _ in 0..3 {
        let (signal, job) = executor.take_next().unwrap();
        signals.push(signal);
        executor.settle(job, Poll::Pending);
    }
    assert!(executor.take_next().is_none());
    executor.wake(signals[1]);
    let (signal, job) = executor.take_next().unwrap();
    assert_eq!(signal.task, 1);
    assert_eq!(job, "t1");
    executor.settle(job, Poll::Pending);
    assert!(executor.take_next().is_none());
}

#[test]
fn wakes_are_served_in_the_order_they_fired() {
    let mut executor = MiniTokio::new();
    executor.spawn(0u8);
    executor.spawn(1u8);
    executor.spawn(2u8);
    for _ in 0..3 {
        let (_, job) = executor.take_next().unwrap();
        executor.settle(job, Poll::Pending);
    }
    executor.wake(WakeSignal { task: 2 });
    executor.wake(WakeSignal { task: 0 });
    executor.wake(WakeSignal { task: 1 });
    let mut order = Vec::new();
    while let Some((signal, job)) = executor.take_next() {
        order.push(signal.task);
        executor.settle(job, Poll::Pending);
    }
    assert_eq!(order, vec![2, 0, 1]);
}

#[test]
fn a_duplicate_wake_gives_one_more_advance() {
    let mut executor = MiniTokio::new();
    executor.spawn("job");
    let (signal, job) = executor.take_next().unwrap();
    executor.settle(job, Poll::Pending);
    executor.wake(signal);
    executor.wake(signal);
    let mut advances = 0;
    while let Some((_, job)) = executor.take_next() {
        advances += 1;
        executor.settle(job, Poll::Pending);
    }
    assert_eq!(advances, 2);
}

#[test]
fn a_complete_task_is_never_advanced_again() {
    let mut executor = MiniTokio::new();
    executor.spawn("once");
    let (signal, job) = executor.take_next().unwrap();
    executor.settle(job, Poll::Ready);
    assert!(executor.is_complete(signal.task));
    executor.wake(signal);
    executor.wake(signal);
    assert!(executor.take_next().is_none());
    assert!(executor.is_complete(signal.task));
    assert_eq!(executor.running(), None);
}

#[test]
fn stale_entries_are_dropped_on_the_way_to_a_live_task() {
    let mut executor = MiniTokio::new();
    executor.spawn("done");
    executor.spawn("live");
    let (done, job) = executor.take_next().unwrap();
    executor.settle(job, Poll::Ready);
    let (live, job) = executor.take_next().unwrap();
    executor.settle(job, Poll::Pending);
    executor.wake(done);
    executor.wake(done);
    executor.wake(live);
    executor.wake(done);
    let (signal, job) = executor.take_next().unwrap();
    assert_eq!(signal, live);
    assert_eq!(job, "live");
    executor.settle(job, Poll::Pending);
    assert!(executor.take_next().is_none());
}

#[test]
fn a_wake_during_the_advance_is_kept() {
    let mut executor = MiniTokio::new();
    executor.spawn(1u8);
    let (signal, job) = executor.take_next().unwrap();
    assert_eq!(executor.running(), Some(signal));
    executor.wake(signal);
    executor.settle(job, Poll::Pending);
    assert_eq!(executor.running(), None);
    let (again, _) = executor.take_next().unwrap();
    assert_eq!(again, signal);
}

#[test]
fn a_wake_during_the_last_advance_is_dropped() {
    let mut executor = MiniTokio::new();
    executor.spawn(1u8);
    let (signal, job) = executor.take_next().unwrap();
    executor.wake(signal);
    executor.settle(job, Poll::Ready);
    assert!(executor.take_next().is_none());
}

#[test]
fn a_task_spawned_during_an_advance_runs_after_what_is_queued() {
    let mut current = Some(MiniTokio::new());
    spawn(&mut current, "root");
    spawn(&mut current, "sibling");
    let (root, job) = current.as_mut().unwrap().take_next().unwrap();
    assert_eq!(job, "root");
    spawn(&mut current, "child");
    let executor = current.as_mut().unwrap();
    executor.settle(job, Poll::Ready);
    let (_, job) = executor.take_next().unwrap();
    assert_eq!(job, "sibling");
    executor.settle(job, Poll::Ready);
    let (child, job) = executor.take_next().unwrap();
    assert_eq!(job, "child");
    assert_eq!(child.task, 2);
    executor.settle(job, Poll::Ready);
    assert!(executor.is_complete(root.task));
    assert!(executor.is_complete(child.task));
    assert!(executor.take_next().is_none());
}

#[test]
fn completion_is_asked_of_spawned_tasks_only() {
    let mut executor = MiniTokio::new();
    executor.spawn(());
    assert!(!executor.is_complete(0));
    assert!(!executor.is_complete(1));
    let (_, job) = executor.take_next().unwrap();
    executor.settle(job, Poll::Ready);
    assert!(executor.is_complete(0));
    assert!(!executor.is_complete(1));
}

#[test]
fn the_computation_handed_back_is_the_one_kept() {
    let mut executor = MiniTokio::new();
    executor.spawn(String::from("step 0"));
    let (signal, _) = executor.take_next().unwrap();
    executor.settle(String::from("step 1"), Poll::Pending);
    executor.wake(signal);
    let (_, job) = executor.take_next().unwrap();
    assert_eq!(job, "step 1");
}

#[test]
fn signals_are_equal_when_their_tasks_are() {
    let a = WakeSignal { task: 3 };
    let b = WakeSignal { task: 3 };
    let c = WakeSignal { task: 4 };
    assert!(a.will_wake(&b));
    assert!(!a.will_wake(&c));
    assert!(!c.will_wake(&a));
}

#[test]
fn task_states_tell_themselves_apart() {
    let idle: Task<u8> = Task::Idle(1);
    let running: Task<u8> = Task::Running;
    let complete: Task<u8> = Task::Complete;
    assert!(idle.is_idle() && !idle.is_complete());
    assert!(!running.is_idle() && !running.is_complete());
    assert!(!complete.is_idle() && complete.is_complete());
}
