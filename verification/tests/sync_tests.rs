//! Behaviour of the mutex, its guard and the lock suspension.

use pros::futures::Poll;
use pros::sync::{Mutex, MutexError};

#[test]
fn poll_lock_hands_out_the_data() {
    let mut m = Mutex::new(5u32);
    let guard = m.poll_lock().unwrap().unwrap();
    assert_eq!(*guard.get(), 5);
    m.unlock(guard);
}

#[test]
fn at_most_one_guard_at_a_time() {
    let mut m = Mutex::new(1u32);
    let guard = m.poll_lock().unwrap().unwrap();
    // While the guard is out, every acquisition attempt is "unavailable".
    assert!(m.poll_lock().unwrap().is_none());
    assert!(m.poll_lock().unwrap().is_none());
    m.unlock(guard);
    // Releasing reopens the mutex: the next attempt succeeds again.
    let again = m.poll_lock().unwrap().unwrap();
    assert_eq!(*again.get(), 1);
    m.unlock(again);
}

#[test]
fn unlock_publishes_writes_made_through_the_guard() {
    let mut m = Mutex::new(10u32);
    let mut guard = m.poll_lock().unwrap().unwrap();
    *guard.get_mut() = 77;
    m.unlock(guard);
    assert_eq!(m.into_inner(), 77);
}

#[test]
fn lock_blocking_acquires_an_open_mutex() {
    let mut m = Mutex::new(8u32);
    let guard = m.lock_blocking().unwrap();
    assert_eq!(*guard.get(), 8);
    m.unlock(guard);
}

#[test]
fn get_mut_gives_exclusive_access() {
    let mut m = Mutex::new(3u32);
    *m.get_mut() = 4;
    assert_eq!(m.into_inner(), 4);
}

#[test]
fn lock_future_busy_polls_until_release() {
    let mut m = Mutex::new(2u32);
    let f = m.lock();
    let guard = match f.poll(&mut m) {
        Poll::Ready(Ok(g)) => g,
        _ => panic!("an open mutex must be acquired"),
    };
    // A second suspension stays pending while the guard is out.
    let f2 = m.lock();
    assert!(matches!(f2.poll(&mut m), Poll::Pending));
    assert!(matches!(f2.poll(&mut m), Poll::Pending));
    m.unlock(guard);
    match f2.poll(&mut m) {
        Poll::Ready(Ok(g)) => {
            assert_eq!(*g.get(), 2);
            m.unlock(g);
        }
        _ => panic!("a released mutex must be acquired"),
    }
}

#[test]
fn mutex_error_is_the_poisoned_kind() {
    // The poisoned state is reserved: no code path produces it, so the
    // only observable fact about the error type is its shape.
    assert_eq!(MutexError::Poisoned, MutexError::Poisoned);
}
