//! The ready queue: a FIFO of runnable task indices.
//!
//! The queue itself comes from the `concurrent_queue` crate; this module
//! declares it to the verifier, names its contents, and puts a thin
//! verified interface on top.

use vstd::prelude::*;

verus! {

#[verifier::external_type_specification]
#[verifier::external_body]
#[verifier::reject_recursive_types(T)]
pub struct ExConcurrentQueue<T>(concurrent_queue::ConcurrentQueue<T>);

/// The items currently in the queue, head first.
pub uninterp spec fn queue_contents(q: concurrent_queue::ConcurrentQueue<usize>) -> Seq<usize>;

/// Whether the queue was created unbounded and has not been closed, so
/// that a push can neither find it full nor refused.
pub uninterp spec fn queue_live(q: concurrent_queue::ConcurrentQueue<usize>) -> bool;

/// Relies on `ConcurrentQueue::unbounded`: a new queue is empty, has no
/// capacity bound, and starts open.
#[verifier::external_body]
fn cq_new() -> (q: concurrent_queue::ConcurrentQueue<usize>)
    ensures
        queue_contents(q) == Seq::<usize>::empty(),
        queue_live(q),
{
    concurrent_queue::ConcurrentQueue::unbounded()
}

/// Relies on `ConcurrentQueue::push`: appends the value at the tail; on
/// an unbounded queue that is not closed it always succeeds.
#[verifier::external_body]
fn cq_push(q: &mut concurrent_queue::ConcurrentQueue<usize>, id: usize)
    requires
        queue_live(*old(q)),
    ensures
        queue_live(*final(q)),
        queue_contents(*final(q)) == queue_contents(*old(q)).push(id),
{
    let _ = q.push(id);
}

/// Relies on `ConcurrentQueue::pop`: removes and returns the head, or
/// reports the queue empty; nothing else closes the queue.
#[verifier::external_body]
fn cq_pop(q: &mut concurrent_queue::ConcurrentQueue<usize>) -> (r: Option<usize>)
    requires
        queue_live(*old(q)),
    ensures
        queue_live(*final(q)),
        match r {
            Some(id) => queue_contents(*old(q)).len() > 0 && id == queue_contents(*old(q))[0]
                && queue_contents(*final(q)) == queue_contents(*old(q)).drop_first(),
            None => queue_contents(*old(q)).len() == 0 && queue_contents(*final(q))
                == queue_contents(*old(q)),
        },
{
    q.pop().ok()
}

/// A first-in-first-out queue of task indices, the executor's pool of
/// work that is ready to be resumed.
pub struct ReadyQueue {
    inner: concurrent_queue::ConcurrentQueue<usize>,
}

impl ReadyQueue {
    pub closed spec fn view(&self) -> Seq<usize> {
        queue_contents(self.inner)
    }

    pub closed spec fn wf(&self) -> bool {
        queue_live(self.inner)
    }

    pub fn new() -> (q: ReadyQueue)
        ensures
            q.view() == Seq::<usize>::empty(),
            q.wf(),
    {
        ReadyQueue { inner: cq_new() }
    }

    /// Enqueue a task index at the tail.
    pub fn push(&mut self, id: usize)
        requires
            old(self).wf(),
        ensures
            final(self).wf(),
            final(self).view() == old(self).view().push(id),
    {
        cq_push(&mut self.inner, id);
    }

    /// Dequeue the task index at the head, in insertion order.
    pub fn pop(&mut self) -> (r: Option<usize>)
        requires
            old(self).wf(),
        ensures
            final(self).wf(),
            match r {
                Some(id) => old(self).view().len() > 0 && id == old(self).view()[0]
                    && final(self).view() == old(self).view().drop_first(),
                None => old(self).view().len() == 0 && final(self).view() == old(self).view(),
            },
    {
        cq_pop(&mut self.inner)
    }
}

} // verus!
