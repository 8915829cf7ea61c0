//! Behaviour of the executor, the reactor and the futures.

use pros::executor::{block_on, Computation, Executor};
use pros::futures::{sleep, wait_until, Poll};
use pros::queue::ReadyQueue;
use pros::reactor::{Reactor, Sleepers};

#[test]
fn block_on_ready_value_roundtrip() {
    let mut ex = Executor::new();
    let v = block_on(&mut ex, Computation::Ready { value: 42 });
    assert_eq!(v, 42);
}

#[test]
fn block_on_sleep_advances_clock_by_at_least_duration() {
    let mut ex = Executor::new();
    let start = ex.now();
    let f = sleep(start, 25);
    let v = block_on(&mut ex, Computation::Sleeping { future: f, value: 7 });
    assert_eq!(v, 7);
    assert!(ex.now() - start >= 25);
}

#[test]
fn block_on_zero_duration_sleep() {
    let mut ex = Executor::new();
    let f = sleep(ex.now(), 0);
    let v = block_on(&mut ex, Computation::Sleeping { future: f, value: 3 });
    assert_eq!(v, 3);
}

#[test]
fn tick_reports_empty_queue() {
    let mut ex = Executor::new();
    assert!(!ex.tick());
}

#[test]
fn tick_runs_tasks_in_spawn_order() {
    let mut ex = Executor::new();
    let first = ex.spawn(Computation::Ready { value: 1 });
    let second = ex.spawn(Computation::Ready { value: 2 });
    assert!(ex.tick());
    assert_eq!(first.try_join(&ex), Some(1));
    assert_eq!(second.try_join(&ex), None);
    assert!(ex.tick());
    assert_eq!(second.try_join(&ex), Some(2));
}

#[test]
fn handle_not_ready_then_exact_value() {
    let mut ex = Executor::new();
    let t = ex.spawn(Computation::Ready { value: 5 });
    assert_eq!(t.try_join(&ex), None);
    assert!(ex.tick());
    assert_eq!(t.try_join(&ex), Some(5));
    assert_eq!(t.try_join(&ex), Some(5));
}

#[test]
fn predicate_task_completes_on_exactly_the_fourth_attempt() {
    let mut ex = Executor::new();
    let t = ex.spawn(Computation::Retrying { remaining: 3, value: 9 });
    for _ in 0..3 {
        assert!(ex.tick());
        assert_eq!(t.try_join(&ex), None);
    }
    assert!(ex.tick());
    assert_eq!(t.try_join(&ex), Some(9));
}

#[test]
fn run_drains_ready_work() {
    let mut ex = Executor::new();
    let a = ex.spawn(Computation::Ready { value: 10 });
    let b = ex.spawn(Computation::Retrying { remaining: 5, value: 20 });
    ex.run();
    assert_eq!(a.try_join(&ex), Some(10));
    assert_eq!(b.try_join(&ex), Some(20));
    assert!(!ex.tick());
}

#[test]
fn run_leaves_sleepers_pending() {
    let mut ex = Executor::new();
    let t = ex.spawn(Computation::Sleeping { future: sleep(0, 100), value: 1 });
    ex.run();
    assert_eq!(t.try_join(&ex), None);
    assert_eq!(ex.earliest_deadline(), Some(100));
}

#[test]
fn dropped_handle_does_not_stop_the_task() {
    let mut ex = Executor::new();
    let t = ex.spawn(Computation::Ready { value: 11 });
    let key = t.slot_key();
    drop(t);
    ex.run();
    assert_eq!(ex.result_of(key), Some(11));
}

#[test]
fn sleepers_pop_in_deadline_order() {
    let mut s = Sleepers::new();
    s.push(1, 30);
    s.push(2, 10);
    s.push(3, 20);
    assert_eq!(s.earliest(), Some(10));
    assert_eq!(s.pop(), Some(2));
    assert_eq!(s.pop(), Some(3));
    assert_eq!(s.pop(), Some(1));
    assert_eq!(s.pop(), None);
}

#[test]
fn sleepers_equal_deadlines_newest_first() {
    let mut s = Sleepers::new();
    s.push(1, 10);
    s.push(2, 10);
    assert_eq!(s.pop(), Some(2));
    assert_eq!(s.pop(), Some(1));
}

#[test]
fn reactor_fires_one_waker_per_tick() {
    let mut r = Reactor::new();
    let mut q = ReadyQueue::new();
    r.sleepers.push(5, 100);
    r.sleepers.push(6, 50);
    r.tick(&mut q);
    assert_eq!(q.pop(), Some(6));
    assert_eq!(q.pop(), None);
    r.tick(&mut q);
    assert_eq!(q.pop(), Some(5));
    r.tick(&mut q);
    assert_eq!(q.pop(), None);
}

#[test]
fn ready_queue_is_fifo() {
    let mut q = ReadyQueue::new();
    q.push(1);
    q.push(2);
    q.push(3);
    assert_eq!(q.pop(), Some(1));
    assert_eq!(q.pop(), Some(2));
    assert_eq!(q.pop(), Some(3));
    assert_eq!(q.pop(), None);
}

#[test]
fn earlier_deadline_fires_first_end_to_end() {
    let mut ex = Executor::new();
    let late = ex.spawn(Computation::Sleeping { future: sleep(0, 30), value: 1 });
    let soon = ex.spawn(Computation::Sleeping { future: sleep(0, 10), value: 2 });
    // Both suspend and register with the reactor.
    assert!(ex.tick());
    assert!(ex.tick());
    assert!(!ex.tick());
    // The earliest deadline wakes first.
    assert_eq!(ex.earliest_deadline(), Some(10));
    ex.advance_clock(10);
    ex.reactor_tick();
    assert!(ex.tick());
    assert_eq!(soon.try_join(&ex), Some(2));
    assert_eq!(late.try_join(&ex), None);
    ex.advance_clock(30);
    ex.reactor_tick();
    assert!(ex.tick());
    assert_eq!(late.try_join(&ex), Some(1));
}

#[test]
fn sleepers_grow_without_bound_when_never_ticked() {
    // Registering wake notifications without draining them only grows
    // the collection: nothing is dropped behind the caller's back.
    let mut s = Sleepers::new();
    for i in 0..1000usize {
        s.push(i, (i % 97) as u32);
    }
    assert_eq!(s.len(), 1000);
}

#[test]
fn clock_only_moves_forward() {
    let mut ex = Executor::new();
    ex.advance_clock(10);
    assert_eq!(ex.now(), 10);
    ex.advance_clock(5);
    assert_eq!(ex.now(), 10);
    ex.advance_clock(11);
    assert_eq!(ex.now(), 11);
}

#[test]
fn wait_until_polls_the_predicate() {
    let always = wait_until(|| true);
    assert!(matches!(always.poll(), Poll::Ready(())));
    let never = wait_until(|| false);
    assert!(matches!(never.poll(), Poll::Pending));
}

#[test]
fn sleep_target_is_start_plus_duration() {
    let mut ex = Executor::new();
    ex.advance_clock(40);
    let f = sleep(ex.now(), 60);
    let t = ex.spawn(Computation::Sleeping { future: f, value: 4 });
    ex.run();
    assert_eq!(ex.earliest_deadline(), Some(100));
    let v = block_on(&mut ex, Computation::Ready { value: 0 });
    assert_eq!(v, 0);
    // The blocked task is untouched until its deadline passes.
    assert_eq!(t.try_join(&ex), None);
    ex.advance_clock(100);
    ex.reactor_tick();
    ex.run();
    assert_eq!(t.try_join(&ex), Some(4));
}
