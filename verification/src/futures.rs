//! Leaf suspensions: the deadline future and the predicate future.
//!
//! Each exposes one `poll` operation that either completes or reports
//! "still suspended". The deadline future registers its waker with the
//! reactor's sleepers when it stays suspended; the predicate future is a
//! pure busy-poll and simply asks to be resumed again.

use vstd::prelude::*;

use crate::reactor::{Sleepers, insert_sorted};

verus! {

/// The outcome of one resumption attempt.
pub enum Poll<T> {
    Ready(T),
    Pending,
}

/// A future that completes once the monotonic clock has reached a target
/// instant, in milliseconds.
#[derive(Clone, Copy)]
pub struct SleepFuture {
    target_millis: u32,
}

impl SleepFuture {
    /// The absolute instant at which the future completes.
    pub closed spec fn target(&self) -> u32 {
        self.target_millis
    }

    /// One resumption attempt at clock value `now`: complete if the
    /// deadline has passed, otherwise leave the waker with the sleepers
    /// and stay suspended.
    pub fn poll(&self, now: u32, waker: usize, sleepers: &mut Sleepers) -> (r: Poll<()>)
        requires
            old(sleepers).wf(),
        ensures
            final(sleepers).wf(),
            now >= self.target() ==> r is Ready && final(sleepers).view() == old(sleepers).view(),
            now < self.target() ==> r is Pending && final(sleepers).view() == insert_sorted(
                old(sleepers).view(),
                waker,
                self.target(),
            ),
    {
        if now >= self.target_millis {
            Poll::Ready(())
        } else {
            sleepers.push(waker, self.target_millis);
            Poll::Pending
        }
    }
}

/// A future that completes no earlier than `duration` milliseconds after
/// the clock value `now` at which it was made.
pub fn sleep(now: u32, duration: u32) -> (f: SleepFuture)
    requires
        now + duration <= u32::MAX,
    ensures
        f.target() == now + duration,
{
    SleepFuture { target_millis: now + duration }
}

/// A sleep made at clock value `start` for `duration` milliseconds keeps
/// the caller waiting for at least `duration`: by the time the clock has
/// reached the sleep's target, it has advanced by no less than the
/// requested duration since the sleep was made.
pub proof fn lemma_sleep_elapsed(start: u32, duration: u32, target: u32, done: u32)
    requires
        target == start + duration,
        done >= target,
    ensures
        done - start >= duration,
{
}

/// A future that completes once a caller-supplied predicate returns true.
pub struct WaitUntilFuture<F> {
    predicate: F,
}

impl<F: Fn() -> bool> WaitUntilFuture<F> {
    pub closed spec fn pred(&self) -> F {
        self.predicate
    }

    /// One resumption attempt: evaluate the predicate and complete when
    /// it holds. When it does not, the caller is expected to re-queue the
    /// suspension at once (busy poll); nothing is left with the reactor.
    pub fn poll(&self) -> (r: Poll<()>)
        requires
            call_requires(self.pred(), ()),
        ensures
            r is Ready ==> call_ensures(self.pred(), (), true),
            r is Pending ==> call_ensures(self.pred(), (), false),
    {
        if (self.predicate)() {
            Poll::Ready(())
        } else {
            Poll::Pending
        }
    }
}

/// Wrap a predicate in a future that completes once the predicate
/// returns true.
pub fn wait_until<F: Fn() -> bool>(predicate: F) -> (f: WaitUntilFuture<F>)
    ensures
        f.pred() == predicate,
{
    WaitUntilFuture { predicate }
}

} // verus!
