//! Time-ordered wake notifications.
//!
//! `Sleepers` keeps `(waker, deadline)` pairs ordered by deadline so that
//! the notification with the earliest deadline is always the next one out.
//! A waker is the index of a suspended task; firing it means handing the
//! index back to the ready queue.

use vstd::prelude::*;

use crate::queue::ReadyQueue;

verus! {

/// The pending wake notifications, newest-last among equal deadlines,
/// kept sorted by descending deadline so that the earliest deadline sits
/// at the end and can be removed cheaply.
pub struct Sleepers {
    entries: Vec<(usize, u32)>,
}

/// Deadlines never increase along the list: the entry with the earliest
/// deadline is the last one.
pub open spec fn sorted_desc(s: Seq<(usize, u32)>) -> bool {
    forall|i: int, j: int| 0 <= i <= j < s.len() ==> #[trigger] s[i].1 >= #[trigger] s[j].1
}

/// Where a new notification with deadline `target` lands: before the first
/// entry whose deadline is strictly earlier, hence after every entry with
/// an equal deadline.
pub open spec fn insert_sorted(s: Seq<(usize, u32)>, waker: usize, target: u32) -> Seq<(usize, u32)>
    decreases s.len(),
{
    if s.len() == 0 {
        seq![(waker, target)]
    } else if s[0].1 < target {
        seq![(waker, target)] + s
    } else {
        seq![s[0]] + insert_sorted(s.drop_first(), waker, target)
    }
}

proof fn lemma_insert_sorted_at(s: Seq<(usize, u32)>, waker: usize, target: u32, i: int)
    requires
        0 <= i <= s.len(),
        forall|k: int| 0 <= k < i ==> #[trigger] s[k].1 >= target,
        i < s.len() ==> s[i].1 < target,
    ensures
        insert_sorted(s, waker, target) == s.subrange(0, i) + seq![(waker, target)] + s.subrange(
            i,
            s.len() as int,
        ),
    decreases i,
{
    if i == 0 {
        if s.len() == 0 {
            assert(insert_sorted(s, waker, target) =~= s.subrange(0, 0) + seq![(waker, target)]
                + s.subrange(0, 0));
        } else {
            assert(insert_sorted(s, waker, target) =~= s.subrange(0, 0) + seq![(waker, target)]
                + s.subrange(0, s.len() as int));
        }
    } else {
        assert(s[0].1 >= target);
        lemma_insert_sorted_at(s.drop_first(), waker, target, i - 1);
        assert(insert_sorted(s, waker, target) =~= s.subrange(0, i) + seq![(waker, target)]
            + s.subrange(i, s.len() as int)) by {
            assert(s.drop_first().subrange(0, i - 1) =~= s.subrange(1, i));
            assert(s.drop_first().subrange(i - 1, s.drop_first().len() as int) =~= s.subrange(
                i,
                s.len() as int,
            ));
            assert(seq![s[0]] + s.subrange(1, i) =~= s.subrange(0, i));
        }
    }
}

impl Sleepers {
    pub closed spec fn view(&self) -> Seq<(usize, u32)> {
        self.entries@
    }

    /// The collection's ordering invariant.
    pub open spec fn wf(&self) -> bool {
        sorted_desc(self.view())
    }

    pub fn new() -> (s: Sleepers)
        ensures
            s.view() == Seq::<(usize, u32)>::empty(),
            s.wf(),
    {
        Sleepers { entries: Vec::new() }
    }

    /// Insert a notification, keeping the list ordered; among equal
    /// deadlines the newcomer lands closer to the popping end.
    pub fn push(&mut self, waker: usize, target: u32)
        requires
            old(self).wf(),
        ensures
            final(self).view() == insert_sorted(old(self).view(), waker, target),
            final(self).wf(),
            final(self).view().len() == old(self).view().len() + 1,
    {
        let ghost s = self.entries@;
        let mut i: usize = 0;
        while i < self.entries.len() && self.entries[i].1 >= target
            invariant
                0 <= i <= s.len(),
                self.entries@ == s,
                forall|k: int| 0 <= k < i ==> #[trigger] s[k].1 >= target,
            decreases s.len() - i,
        {
            i = i + 1;
        }
        proof {
            lemma_insert_sorted_at(s, waker, target, i as int);
        }
        self.entries.insert(i, (waker, target));
        proof {
            let t = self.entries@;
            assert(t == s.subrange(0, i as int) + seq![(waker, target)] + s.subrange(
                i as int,
                s.len() as int,
            ));
            assert forall|p: int, q: int| 0 <= p <= q < t.len() implies #[trigger] t[p].1
                >= #[trigger] t[q].1 by {
                if i < s.len() {
                    assert(s[i as int].1 < target);
                }
            }
        }
    }

    /// Remove and return the waker with the earliest deadline, if any.
    pub fn pop(&mut self) -> (r: Option<usize>)
        ensures
            old(self).view().len() == 0 ==> r is None && final(self).view() == old(self).view(),
            old(self).view().len() > 0 ==> r == Some(old(self).view().last().0)
                && final(self).view() == old(self).view().drop_last(),
            old(self).wf() ==> final(self).wf(),
    {
        match self.entries.pop() {
            Some(entry) => Some(entry.0),
            None => None,
        }
    }

    /// The earliest deadline currently pending, if any.
    pub fn earliest(&self) -> (r: Option<u32>)
        ensures
            self.view().len() == 0 ==> r is None,
            self.view().len() > 0 ==> r == Some(self.view().last().1),
    {
        if self.entries.len() == 0 {
            None
        } else {
            Some(self.entries[self.entries.len() - 1].1)
        }
    }

    pub fn len(&self) -> (n: usize)
        ensures
            n == self.view().len(),
    {
        self.entries.len()
    }
}

/// The reactor: owns the sleepers and advances them one wake at a time.
pub struct Reactor {
    pub sleepers: Sleepers,
}

impl Reactor {
    pub fn new() -> (r: Reactor)
        ensures
            r.sleepers.view() == Seq::<(usize, u32)>::empty(),
            r.sleepers.wf(),
    {
        Reactor { sleepers: Sleepers::new() }
    }

    /// Fire at most one wake notification: the one with the earliest
    /// deadline among all pending, whether or not that deadline has
    /// elapsed. Its waker goes back onto the ready queue; a single call
    /// never advances more than one sleeper.
    pub fn tick(&mut self, queue: &mut ReadyQueue)
        requires
            old(self).sleepers.wf(),
            old(queue).wf(),
        ensures
            final(self).sleepers.wf(),
            final(queue).wf(),
            old(self).sleepers.view().len() == 0 ==> final(self).sleepers.view() == old(
                self,
            ).sleepers.view() && final(queue).view() == old(queue).view(),
            old(self).sleepers.view().len() > 0 ==> final(self).sleepers.view() == old(
                self,
            ).sleepers.view().drop_last() && final(queue).view() == old(queue).view().push(
                old(self).sleepers.view().last().0,
            ),
    {
        match self.sleepers.pop() {
            Some(waker) => queue.push(waker),
            None => {},
        }
    }
}

/// Successive removals fire notifications in non-decreasing deadline
/// order: the `a`-th notification taken from an ordered list leaves no
/// later removal with an earlier deadline.
pub proof fn lemma_fire_order(s: Seq<(usize, u32)>, a: int, b: int)
    requires
        sorted_desc(s),
        0 <= a <= b < s.len(),
    ensures
        s[s.len() - 1 - a].1 <= s[s.len() - 1 - b].1,
{
}

} // verus!
