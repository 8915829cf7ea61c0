//! The executor: spawn, tick, run, and the blocking driver.
//!
//! A scheduled unit of work is a tagged deferred computation with a
//! single resume operation that either finishes with a value or stays
//! suspended. The executor owns the ready queue, the result table, the
//! reactor and a caller-advanced monotonic millisecond clock; a wake
//! notification is the index of a task, and firing it means pushing that
//! index back onto the ready queue.

use vstd::prelude::*;

use crate::futures::{Poll, SleepFuture};
use crate::queue::ReadyQueue;
use crate::reactor::{Reactor, insert_sorted, sorted_desc};
use crate::table::{ResultTable, empty_table};

verus! {

/// A deferred computation: one variant per suspension kind, plus the
/// computation that is already done. Every variant carries the value it
/// will eventually deliver.
#[derive(Clone, Copy)]
pub enum Computation {
    /// Completes on its first resumption.
    Ready { value: u64 },
    /// Completes once the clock has reached the future's target; until
    /// then each resumption re-registers with the reactor.
    Sleeping { future: SleepFuture, value: u64 },
    /// A predicate suspension: the predicate will test false `remaining`
    /// more times, so each failing resumption re-queues the task at once.
    Retrying { remaining: u32, value: u64 },
}

/// The value a computation delivers when it completes.
pub open spec fn eventual_value(c: Computation) -> u64 {
    match c {
        Computation::Ready { value } => value,
        Computation::Sleeping { future: _, value } => value,
        Computation::Retrying { remaining: _, value } => value,
    }
}

/// Whether a resumption attempt at clock value `now` completes the
/// computation.
pub open spec fn resume_done(c: Computation, now: u32) -> bool {
    match c {
        Computation::Ready { value: _ } => true,
        Computation::Sleeping { future, value: _ } => now >= future.target(),
        Computation::Retrying { remaining, value: _ } => remaining == 0,
    }
}

/// The computation's state after one resumption attempt that did not
/// complete it.
pub open spec fn resume_next(c: Computation, now: u32) -> Computation {
    match c {
        Computation::Retrying { remaining, value } => if remaining > 0 {
            (Computation::Retrying { remaining: (remaining - 1) as u32, value })
        } else {
            c
        },
        _ => c,
    }
}

/// The unit of scheduling: a deferred computation plus the key of its
/// result-table slot.
#[derive(Clone, Copy)]
pub struct TaskInternal {
    pub computation: Computation,
    pub return_key: usize,
}

/// The executor's whole state as mathematics: the task arena, the ready
/// queue (task indices, head first), the pending sleepers, the result
/// table and the clock.
#[verifier::ext_equal]
pub ghost struct ExecModel {
    pub tasks: Seq<TaskInternal>,
    pub queue: Seq<usize>,
    pub sleepers: Seq<(usize, u32)>,
    pub table: Map<int, Option<u64>>,
    pub now: u32,
}

/// Record a completed task's output: the first write sticks.
pub open spec fn write_result(table: Map<int, Option<u64>>, key: int, value: u64) -> Map<
    int,
    Option<u64>,
> {
    match table[key] {
        None => table.insert(key, Some(value)),
        Some(first) => table.insert(key, Some(first)),
    }
}

/// A sleeper entry always stands for a task that is suspended on the
/// clock, under exactly the deadline it registered.
pub open spec fn sleeper_ok(tasks: Seq<TaskInternal>, entry: (usize, u32)) -> bool {
    &&& entry.0 < tasks.len()
    &&& tasks[entry.0 as int].computation matches Computation::Sleeping { future, value: _ }
        && future.target() == entry.1
}

/// The executor's internal invariant: queue entries and sleeper wakers
/// index into the arena, sleepers are ordered and stand for sleeping
/// tasks, every task owns a distinct allocated slot, and a slot is unset
/// until it holds the value its task delivers.
pub open spec fn model_wf(m: ExecModel) -> bool {
    &&& forall|i: int| 0 <= i < m.queue.len() ==> (#[trigger] m.queue[i]) < m.tasks.len()
    &&& forall|i: int| 0 <= i < m.sleepers.len() ==> sleeper_ok(m.tasks, #[trigger] m.sleepers[i])
    &&& sorted_desc(m.sleepers)
    &&& forall|i: int|
        0 <= i < m.tasks.len() ==> m.table.dom().contains(
            (#[trigger] m.tasks[i]).return_key as int,
        )
    &&& forall|i: int, j: int|
        0 <= i < j < m.tasks.len() ==> (#[trigger] m.tasks[i]).return_key
            != (#[trigger] m.tasks[j]).return_key
    &&& forall|i: int|
        0 <= i < m.tasks.len() ==> (m.table[(#[trigger] m.tasks[i]).return_key as int] is None
            || m.table[m.tasks[i].return_key as int] == Some(eventual_value(m.tasks[i].computation)))
}

/// What one executor tick does: pop the head of the ready queue and
/// resume it. Completion writes the task's slot; a pending sleep
/// registers with the sleepers and is not re-queued; a pending predicate
/// suspension wakes itself and goes to the back of the queue. An empty
/// queue changes nothing.
pub open spec fn tick_step(m: ExecModel) -> ExecModel {
    if m.queue.len() == 0 {
        m
    } else {
        let id = m.queue[0];
        let rest = m.queue.drop_first();
        if id < m.tasks.len() {
            let cell = m.tasks[id as int];
            if resume_done(cell.computation, m.now) {
                (ExecModel {
                    queue: rest,
                    table: write_result(
                        m.table,
                        cell.return_key as int,
                        eventual_value(cell.computation),
                    ),
                    ..m
                })
            } else {
                match cell.computation {
                    Computation::Sleeping { future, value: _ } => (ExecModel {
                        queue: rest,
                        sleepers: insert_sorted(m.sleepers, id, future.target()),
                        ..m
                    }),
                    Computation::Retrying { remaining: _, value: _ } => (ExecModel {
                        queue: rest.push(id),
                        tasks: m.tasks.update(
                            id as int,
                            (TaskInternal {
                                computation: resume_next(cell.computation, m.now),
                                return_key: cell.return_key,
                            }),
                        ),
                        ..m
                    }),
                    Computation::Ready { value: _ } => m,
                }
            }
        } else {
            m
        }
    }
}

/// What one reactor tick does: remove the sleeper with the earliest
/// deadline, if any, and push its waker onto the ready queue.
pub open spec fn reactor_step(m: ExecModel) -> ExecModel {
    if m.sleepers.len() == 0 {
        m
    } else {
        (ExecModel {
            sleepers: m.sleepers.drop_last(),
            queue: m.queue.push(m.sleepers.last().0),
            ..m
        })
    }
}

/// A handle to a spawned task: shared access to the result table under
/// the task's key. Dropping the handle does not touch the task; the
/// computation keeps running to completion either way.
pub struct Task {
    return_key: usize,
}

impl Task {
    pub closed spec fn key(&self) -> usize {
        self.return_key
    }

    /// The key of the result-table slot the handle reads.
    pub fn slot_key(&self) -> (k: usize)
        ensures
            k == self.key(),
    {
        self.return_key
    }

    /// Poll the handle: "not ready" until the computation's output was
    /// recorded, then exactly the recorded value.
    pub fn try_join(&self, ex: &Executor) -> (r: Option<u64>)
        requires
            ex.wf(),
            ex.model().table.dom().contains(self.key() as int),
        ensures
            r == ex.model().table[self.key() as int],
    {
        ex.result_of(self.return_key)
    }
}

/// The executor: the task arena, the ready queue, the result table, the
/// reactor, and the simulated monotonic clock that the caller advances.
pub struct Executor {
    tasks: Vec<TaskInternal>,
    queue: ReadyQueue,
    returns: ResultTable,
    reactor: Reactor,
    now: u32,
}

impl Executor {
    pub closed spec fn model(&self) -> ExecModel {
        ExecModel {
            tasks: self.tasks@,
            queue: self.queue.view(),
            sleepers: self.reactor.sleepers.view(),
            table: self.returns.view(),
            now: self.now,
        }
    }

    pub closed spec fn wf(&self) -> bool {
        self.queue.wf() && model_wf(self.model())
    }

    pub fn new() -> (ex: Executor)
        ensures
            ex.wf(),
            ex.model() == (ExecModel {
                tasks: Seq::<TaskInternal>::empty(),
                queue: Seq::<usize>::empty(),
                sleepers: Seq::<(usize, u32)>::empty(),
                table: empty_table(),
                now: 0u32,
            }),
    {
        Executor {
            tasks: Vec::new(),
            queue: ReadyQueue::new(),
            returns: ResultTable::new(),
            reactor: Reactor::new(),
            now: 0,
        }
    }

    /// The current value of the clock.
    pub fn now(&self) -> (t: u32)
        ensures
            t == self.model().now,
    {
        self.now
    }

    /// Advance the clock to `to`; the clock is monotonic, so an earlier
    /// instant leaves it unchanged.
    pub fn advance_clock(&mut self, to: u32)
        requires
            old(self).wf(),
        ensures
            final(self).wf(),
            final(self).model() == (ExecModel {
                now: if to > old(self).model().now {
                    to
                } else {
                    old(self).model().now
                },
                ..old(self).model()
            }),
    {
        if to > self.now {
            self.now = to;
        }
        proof {
            assert(self.model() =~~= (ExecModel {
                now: self.now,
                ..old(self).model()
            }));
        }
    }

    /// Allocate a result slot, wrap the computation in a task, and put it
    /// at the back of the ready queue. The computation is not resumed
    /// here.
    pub fn spawn(&mut self, computation: Computation) -> (t: Task)
        requires
            old(self).wf(),
        ensures
            final(self).wf(),
            !old(self).model().table.dom().contains(t.key() as int),
            final(self).model().tasks.len() <= usize::MAX,
            final(self).model() == (ExecModel {
                tasks: old(self).model().tasks.push(
                    (TaskInternal { computation, return_key: t.key() }),
                ),
                queue: old(self).model().queue.push(old(self).model().tasks.len() as usize),
                table: old(self).model().table.insert(t.key() as int, None),
                ..old(self).model()
            }),
    {
        let ghost m0 = self.model();
        let key = self.returns.allocate();
        let id = self.tasks.len();
        self.tasks.push(TaskInternal { computation, return_key: key });
        let n = self.tasks.len();
        self.queue.push(id);
        proof {
            assert(self.tasks@.len() == n);
            let m1 = self.model();
            assert(m1 =~~= (ExecModel {
                tasks: m0.tasks.push(TaskInternal { computation, return_key: key }),
                queue: m0.queue.push(id),
                table: m0.table.insert(key as int, None),
                ..m0
            }));
            assert forall|i: int, j: int| 0 <= i < j < m1.tasks.len() implies (
            #[trigger] m1.tasks[i]).return_key != (#[trigger] m1.tasks[j]).return_key by {
                if j == m1.tasks.len() - 1 {
                    assert(m0.table.dom().contains(m0.tasks[i].return_key as int));
                }
            }
            assert(model_wf(m1));
        }
        Task { return_key: key }
    }

    /// Read the result slot under `key` directly; `None` until the owning
    /// task completed.
    pub fn result_of(&self, key: usize) -> (r: Option<u64>)
        requires
            self.wf(),
            self.model().table.dom().contains(key as int),
        ensures
            r == self.model().table[key as int],
    {
        self.returns.read(key)
    }

    /// Pop one ready task and resume it; report whether there was one.
    /// Completion records the task's output; a suspension leaves the
    /// task to its wake source. False only when the queue was empty.
    pub fn tick(&mut self) -> (progressed: bool)
        requires
            old(self).wf(),
        ensures
            final(self).wf(),
            progressed == (old(self).model().queue.len() > 0),
            final(self).model() == tick_step(old(self).model()),
    {
        let ghost m0 = self.model();
        let popped = self.queue.pop();
        match popped {
            None => {
                proof {
                    assert(self.model() =~~= m0);
                }
                false
            },
            Some(id) => {
                assert(id < self.tasks.len());
                let cell = self.tasks[id];
                match cell.computation {
                    Computation::Ready { value } => {
                        self.returns.write(cell.return_key, value);
                        proof {
                            assert(self.model() =~~= tick_step(m0));
                            lemma_tick_step_wf(m0);
                        }
                    },
                    Computation::Sleeping { future, value } => {
                        match future.poll(self.now, id, &mut self.reactor.sleepers) {
                            Poll::Ready(()) => {
                                self.returns.write(cell.return_key, value);
                                proof {
                                    assert(self.model() =~~= tick_step(m0));
                                    lemma_tick_step_wf(m0);
                                }
                            },
                            Poll::Pending => {
                                proof {
                                    assert(self.model() =~~= tick_step(m0));
                                    lemma_tick_step_wf(m0);
                                }
                            },
                        }
                    },
                    Computation::Retrying { remaining, value } => {
                        if remaining == 0 {
                            self.returns.write(cell.return_key, value);
                            proof {
                                assert(self.model() =~~= tick_step(m0));
                                lemma_tick_step_wf(m0);
                            }
                        } else {
                            let next = TaskInternal {
                                computation: Computation::Retrying {
                                    remaining: remaining - 1,
                                    value,
                                },
                                return_key: cell.return_key,
                            };
                            set_task(&mut self.tasks, id, next);
                            self.queue.push(id);
                            proof {
                                assert(self.model() =~~= tick_step(m0));
                                lemma_tick_step_wf(m0);
                            }
                        }
                    },
                }
                true
            },
        }
    }

    /// Drive one reactor tick: fire the wake notification with the
    /// earliest deadline, if any, by re-queueing its task.
    pub fn reactor_tick(&mut self)
        requires
            old(self).wf(),
        ensures
            final(self).wf(),
            final(self).model() == reactor_step(old(self).model()),
    {
        let ghost m0 = self.model();
        self.reactor.tick(&mut self.queue);
        proof {
            assert(self.model() =~~= reactor_step(m0));
            lemma_reactor_step_wf(m0);
        }
    }

    /// The earliest deadline among the pending sleepers, if any.
    pub fn earliest_deadline(&self) -> (r: Option<u32>)
        ensures
            self.model().sleepers.len() == 0 ==> r is None,
            self.model().sleepers.len() > 0 ==> r == Some(self.model().sleepers.last().1),
    {
        self.reactor.sleepers.earliest()
    }

    /// Call `tick` until the ready queue reports empty. This drains only
    /// currently-ready work; it does not drive the reactor, so pending
    /// sleepers stay pending.
    pub fn run(&mut self)
        requires
            old(self).wf(),
        ensures
            final(self).wf(),
            final(self).model().queue.len() == 0,
            exists|k: nat| final(self).model() == run_steps(old(self).model(), k),
    {
        let ghost m0 = self.model();
        proof {
            assert(self.model() == run_steps(m0, 0));
        }
        loop
            invariant
                self.wf(),
                exists|k: nat| self.model() == run_steps(m0, k),
            ensures
                self.wf(),
                self.model().queue.len() == 0,
                exists|k: nat| self.model() == run_steps(m0, k),
            decreases pending_cost(self.model()),
        {
            let ghost prev = self.model();
            let ghost k = choose|k: nat| prev == run_steps(m0, k);
            let progressed = self.tick();
            proof {
                lemma_run_steps_snoc(m0, k);
                assert(self.model() == run_steps(m0, k + 1));
                if prev.queue.len() > 0 {
                    lemma_tick_step_cost(prev);
                }
            }
            if !progressed {
                proof {
                    assert(self.model() == prev);
                }
                break;
            }
        }
    }
}

/// Spawn the computation and drive the executor — and, when the ready
/// queue runs dry, the clock and the reactor — until the spawned task's
/// result slot is written; then hand that value back. The clock only
/// moves forward, and a time-based computation is never delivered before
/// its target instant.
pub fn block_on(ex: &mut Executor, computation: Computation) -> (r: u64)
    requires
        old(ex).wf(),
    ensures
        final(ex).wf(),
        r == eventual_value(computation),
        final(ex).model().now >= old(ex).model().now,
        clock_reached(computation, final(ex).model().now),
{
    let t = ex.spawn(computation);
    proof {
        let m = ex.model();
        let id = m.tasks.len() - 1;
        assert(m.queue[m.queue.len() - 1] == id as usize);
        assert(m.queue.contains(id as usize));
        assert(m.tasks[id].return_key == t.key());
        assert(joinable(m, t.key(), computation));
    }
    loop
        invariant
            ex.wf(),
            ex.model().tasks.len() <= usize::MAX,
            joinable(ex.model(), t.key(), computation),
            ex.model().now >= old(ex).model().now,
        decreases pending_cost(ex.model()),
    {
        if let Option::Some(v) = t.try_join(ex) {
            return v;
        }
        let ghost prev = ex.model();
        let progressed = ex.tick();
        proof {
            lemma_tick_preserves_joinable(prev, t.key(), computation);
            if prev.queue.len() > 0 {
                lemma_tick_step_cost(prev);
            }
        }
        if !progressed {
            proof {
                assert(ex.model() == prev);
                let id = joinable_witness(prev, t.key(), computation);
                assert(task_scheduled(prev, id as usize));
                if prev.queue.contains(id as usize) {
                    let p = choose|p: int| 0 <= p < prev.queue.len() && prev.queue[p] == id as usize;
                    assert(false);
                }
                assert(prev.sleepers.len() > 0);
            }
            let deadline = ex.earliest_deadline();
            match deadline {
                Some(d) => {
                    let ghost before = ex.model();
                    ex.advance_clock(d);
                    let ghost mid = ex.model();
                    proof {
                        assert(queue_cost(mid.tasks, mid.queue, mid.now) == 0);
                        assert(pending_cost(mid) == pending_cost(prev));
                        lemma_clock_preserves_joinable(before, mid, t.key(), computation);
                    }
                    ex.reactor_tick();
                    proof {
                        lemma_reactor_preserves_joinable(mid, t.key(), computation);
                        lemma_reactor_step_cost(mid);
                    }
                },
                None => {
                    proof {
                        assert(false);
                    }
                },
            }
        }
    }
}

/// The task that `joinable` promises to exist.
pub open spec fn joinable_witness(m: ExecModel, key: usize, c: Computation) -> int {
    choose|id: int|
        0 <= id < m.tasks.len() && (#[trigger] m.tasks[id]).return_key == key && eventual_value(
            m.tasks[id].computation,
        ) == eventual_value(c) && clock_reached_link(c, m.tasks[id].computation) && (m.table[
            key as int
        ] is Some || task_scheduled(m, id as usize))
}

proof fn lemma_tick_preserves_joinable(m: ExecModel, key: usize, c: Computation)
    requires
        model_wf(m),
        m.tasks.len() <= usize::MAX,
        joinable(m, key, c),
        m.table[key as int] is None,
    ensures
        joinable(tick_step(m), key, c),
        tick_step(m).tasks.len() == m.tasks.len(),
        tick_step(m).now == m.now,
    {
    let id = joinable_witness(m, key, c);
    assert(0 <= id < m.tasks.len() && m.tasks[id].return_key == key);
    assert(id as usize as int == id);
    lemma_tick_step_task_frame(m, id as usize);
    let m2 = tick_step(m);
    assert(m2.tasks[id].return_key == key);
    assert(eventual_value(m2.tasks[id].computation) == eventual_value(c));
    assert forall|w: u32| clock_reached(m2.tasks[id].computation, w) implies clock_reached(
        c,
        w,
    ) by {
        assert(clock_reached(m.tasks[id].computation, w));
    }
    assert(clock_reached_link(c, m2.tasks[id].computation));
    assert(task_scheduled(m, id as usize));
    assert(m2.table[key as int] is Some || task_scheduled(m2, id as usize));
    if m2.table[key as int] is Some {
        assert(m2.table[key as int] == Some(eventual_value(c)));
        assert(clock_reached(m.tasks[id].computation, m.now));
        assert(clock_reached(c, m2.now));
    }
    assert(joinable(m2, key, c));
}

proof fn lemma_clock_preserves_joinable(m: ExecModel, m2: ExecModel, key: usize, c: Computation)
    requires
        joinable(m, key, c),
        m2.tasks == m.tasks,
        m2.table == m.table,
        m2.queue == m.queue,
        m2.sleepers == m.sleepers,
        m2.now >= m.now,
    ensures
        joinable(m2, key, c),
{
    let id = joinable_witness(m, key, c);
    assert(0 <= id < m.tasks.len() && m.tasks[id].return_key == key);
    assert(m2.tasks[id].return_key == key);
    if task_scheduled(m, id as usize) {
        if m.queue.contains(id as usize) {
            assert(m2.queue.contains(id as usize));
        } else {
            let j = choose|j: int|
                0 <= j < m.sleepers.len() && (#[trigger] m.sleepers[j]).0 == id as usize;
            assert((m2.sleepers[j]).0 == id as usize);
        }
        assert(task_scheduled(m2, id as usize));
    }
    if m2.table[key as int] is Some {
        assert(clock_reached(c, m.now));
        assert(clock_reached(c, m2.now)) by {
            match c {
                Computation::Sleeping { future, value: _ } => {
                    assert(m.now >= future.target());
                },
                _ => {},
            }
        }
    }
    assert(joinable(m2, key, c));
}

proof fn lemma_reactor_preserves_joinable(m: ExecModel, key: usize, c: Computation)
    requires
        model_wf(m),
        m.tasks.len() <= usize::MAX,
        joinable(m, key, c),
    ensures
        joinable(reactor_step(m), key, c),
        reactor_step(m).tasks.len() == m.tasks.len(),
        reactor_step(m).now == m.now,
{
    let id = joinable_witness(m, key, c);
    assert(0 <= id < m.tasks.len() && m.tasks[id].return_key == key);
    assert(id as usize as int == id);
    lemma_reactor_step_task_frame(m, id as usize);
    let m2 = reactor_step(m);
    assert(m2.tasks[id].return_key == key);
    if m2.table[key as int] is Some {
        assert(clock_reached(c, m2.now));
    }
    assert(joinable(m2, key, c));
}

/// Iterated executor ticks.
pub open spec fn run_steps(m: ExecModel, k: nat) -> ExecModel
    decreases k,
{
    if k == 0 {
        m
    } else {
        run_steps(tick_step(m), (k - 1) as nat)
    }
}

proof fn lemma_run_steps_snoc(m: ExecModel, k: nat)
    ensures
        run_steps(m, k + 1) == tick_step(run_steps(m, k)),
    decreases k,
{
    if k == 0 {
        assert(run_steps(m, 1) == run_steps(tick_step(m), 0));
    } else {
        lemma_run_steps_snoc(tick_step(m), (k - 1) as nat);
        assert(run_steps(m, k + 1) == run_steps(tick_step(m), k));
    }
}

/// Replace the task cell at `i`.
fn set_task(v: &mut Vec<TaskInternal>, i: usize, cell: TaskInternal)
    requires
        i < old(v).len(),
    ensures
        final(v)@ == old(v)@.update(i as int, cell),
{
    let ghost s0 = v@;
    let _ = v.remove(i);
    v.insert(i, cell);
    proof {
        assert(v@ =~= s0.update(i as int, cell));
    }
}

/// One tick preserves the executor's invariant.
pub proof fn lemma_tick_step_wf(m: ExecModel)
    requires
        model_wf(m),
    ensures
        model_wf(tick_step(m)),
{
    if m.queue.len() > 0 {
        let id = m.queue[0];
        let rest = m.queue.drop_first();
        let cell = m.tasks[id as int];
        let m2 = tick_step(m);
        assert forall|i: int| 0 <= i < rest.len() implies (#[trigger] rest[i]) < m.tasks.len() by {
            assert(rest[i] == m.queue[i + 1]);
        }
        if resume_done(cell.computation, m.now) {
            let k = cell.return_key as int;
            assert forall|i: int| 0 <= i < m2.tasks.len() implies (m2.table[(
            #[trigger] m2.tasks[i]).return_key as int] is None || m2.table[m2.tasks[i].return_key
                as int] == Some(eventual_value(m2.tasks[i].computation))) by {
                if m2.tasks[i].return_key as int != k {
                    assert(m2.table[m2.tasks[i].return_key as int]
                        == m.table[m2.tasks[i].return_key as int]);
                }
            }
        } else {
            match cell.computation {
                Computation::Sleeping { future, value: _ } => {
                    let s2 = insert_sorted(m.sleepers, id, future.target());
                    lemma_insert_sorted_members(m.sleepers, id, future.target());
                    assert forall|i: int| 0 <= i < s2.len() implies (#[trigger] s2[i]).0
                        < m2.tasks.len() by {
                        assert(s2[i] == (id, future.target()) || m.sleepers.contains(s2[i]));
                    }
                    lemma_insert_sorted_sorted(m.sleepers, id, future.target());
                },
                Computation::Retrying { remaining: _, value: _ } => {
                    assert forall|i: int| 0 <= i < m2.queue.len() implies (#[trigger] m2.queue[i])
                        < m2.tasks.len() by {
                        if i < rest.len() {
                            assert(rest[i] == m.queue[i + 1]);
                        }
                    }
                },
                Computation::Ready { value: _ } => {},
            }
        }
    }
}

/// A reactor tick preserves the executor's invariant.
pub proof fn lemma_reactor_step_wf(m: ExecModel)
    requires
        model_wf(m),
    ensures
        model_wf(reactor_step(m)),
{
    if m.sleepers.len() > 0 {
        let m2 = reactor_step(m);
        assert(m.sleepers.last() == m.sleepers[m.sleepers.len() - 1]);
        assert forall|i: int| 0 <= i < m2.sleepers.len() implies (#[trigger] m2.sleepers[i]).0
            < m2.tasks.len() by {
            assert(m2.sleepers[i] == m.sleepers[i]);
        }
        assert forall|i: int| 0 <= i < m2.queue.len() implies (#[trigger] m2.queue[i])
            < m2.tasks.len() by {
            if i < m.queue.len() {
                assert(m2.queue[i] == m.queue[i]);
            }
        }
    }
}

/// Inserting into the sleepers adds the new pair and keeps the rest.
proof fn lemma_insert_sorted_members(s: Seq<(usize, u32)>, waker: usize, target: u32)
    ensures
        forall|i: int|
            0 <= i < insert_sorted(s, waker, target).len() ==> (#[trigger] insert_sorted(
                s,
                waker,
                target,
            )[i]) == (waker, target) || s.contains(insert_sorted(s, waker, target)[i]),
    decreases s.len(),
{
    if s.len() > 0 && !(s[0].1 < target) {
        lemma_insert_sorted_members(s.drop_first(), waker, target);
        let t = insert_sorted(s, waker, target);
        assert forall|i: int| 0 <= i < t.len() implies (#[trigger] t[i]) == (waker, target)
            || s.contains(t[i]) by {
            if i == 0 {
                assert(s.contains(s[0]));
            } else {
                let u = insert_sorted(s.drop_first(), waker, target);
                assert(t[i] == u[i - 1]);
                if u[i - 1] != (waker, target) {
                    let j = choose|j: int| 0 <= j < s.drop_first().len() && s.drop_first()[j] == u[
                        i - 1
                    ];
                    assert(s[j + 1] == u[i - 1]);
                }
            }
        }
    }
}

/// Inserting into an ordered sleepers list keeps it ordered.
proof fn lemma_insert_sorted_sorted(s: Seq<(usize, u32)>, waker: usize, target: u32)
    requires
        sorted_desc(s),
    ensures
        sorted_desc(insert_sorted(s, waker, target)),
    decreases s.len(),
{
    if s.len() > 0 && !(s[0].1 < target) {
        assert(sorted_desc(s.drop_first())) by {
            assert forall|i: int, j: int|
                0 <= i <= j < s.drop_first().len() implies #[trigger] s.drop_first()[i].1
                >= #[trigger] s.drop_first()[j].1 by {
                assert(s[i + 1].1 >= s[j + 1].1);
            }
        }
        lemma_insert_sorted_sorted(s.drop_first(), waker, target);
        lemma_insert_sorted_members(s.drop_first(), waker, target);
        let t = insert_sorted(s, waker, target);
        let u = insert_sorted(s.drop_first(), waker, target);
        assert forall|i: int, j: int| 0 <= i <= j < t.len() implies #[trigger] t[i].1
            >= #[trigger] t[j].1 by {
            if i == 0 && j > 0 {
                assert(t[j] == u[j - 1]);
                if u[j - 1] == (waker, target) {
                    assert(s[0].1 >= target);
                } else {
                    let p = choose|p: int|
                        0 <= p < s.drop_first().len() && s.drop_first()[p] == u[j - 1];
                    assert(s[0].1 >= s[p + 1].1);
                }
            } else if i > 0 {
                assert(t[i] == u[i - 1] && t[j] == u[j - 1]);
            }
        }
    }
}

/// Once a task's slot is written, every later tick leaves it as it is:
/// a result is delivered exactly once and never changes.
pub proof fn lemma_result_stable(m: ExecModel, key: int, value: u64)
    requires
        m.table.dom().contains(key),
        m.table[key] == Some(value),
    ensures
        tick_step(m).table.dom().contains(key),
        tick_step(m).table[key] == Some(value),
{
}

/// Iterated resumption of a computation that did not yet complete.
pub open spec fn resume_iter(c: Computation, now: u32, k: nat) -> Computation
    decreases k,
{
    if k == 0 {
        c
    } else {
        resume_iter(resume_next(c, now), now, (k - 1) as nat)
    }
}

/// A predicate suspension whose predicate will test false `n` times
/// reports "not ready" on each of its first `n` resumption attempts and
/// completes on exactly the `(n + 1)`-th.
pub proof fn lemma_predicate_attempts(n: u32, value: u64, now: u32, k: nat)
    requires
        k <= n,
    ensures
        resume_iter(Computation::Retrying { remaining: n, value }, now, k)
            == (Computation::Retrying { remaining: (n - k) as u32, value }),
        k < n ==> !resume_done(resume_iter(Computation::Retrying { remaining: n, value }, now, k), now),
        k == n ==> resume_done(resume_iter(Computation::Retrying { remaining: n, value }, now, k), now),
    decreases k,
{
    if k > 0 {
        lemma_predicate_attempts((n - 1) as u32, value, now, (k - 1) as nat);
    }
}

/// Whether the clock has reached the instant a computation may complete
/// at; always true for computations that are not time-based.
pub open spec fn clock_reached(c: Computation, now: u32) -> bool {
    match c {
        Computation::Sleeping { future, value: _ } => now >= future.target(),
        _ => true,
    }
}


/// How many resumption attempts a computation still needs once the
/// clock allows it to finish: the executor's work is finite.
pub open spec fn resume_cost(c: Computation, now: u32) -> nat {
    match c {
        Computation::Ready { value: _ } => 1,
        Computation::Retrying { remaining, value: _ } => remaining as nat + 1,
        Computation::Sleeping { future, value: _ } => if now >= future.target() {
            1nat
        } else {
            3nat
        },
    }
}

/// The total work sitting in the ready queue.
pub open spec fn queue_cost(tasks: Seq<TaskInternal>, queue: Seq<usize>, now: u32) -> nat
    decreases queue.len(),
{
    if queue.len() == 0 {
        0
    } else {
        (if queue[0] < tasks.len() {
            resume_cost(tasks[queue[0] as int].computation, now)
        } else {
            0
        }) + queue_cost(tasks, queue.drop_first(), now)
    }
}

/// The executor's whole remaining work: the queue's work plus two steps
/// for every pending sleeper (one reactor fire, one completing tick).
pub open spec fn pending_cost(m: ExecModel) -> nat {
    queue_cost(m.tasks, m.queue, m.now) + 2 * m.sleepers.len()
}

proof fn lemma_queue_cost_push(tasks: Seq<TaskInternal>, queue: Seq<usize>, now: u32, x: usize)
    requires
        x < tasks.len(),
    ensures
        queue_cost(tasks, queue.push(x), now) == queue_cost(tasks, queue, now) + resume_cost(
            tasks[x as int].computation,
            now,
        ),
    decreases queue.len(),
{
    let q2 = queue.push(x);
    if queue.len() == 0 {
        assert(q2[0] == x);
        assert(q2.drop_first() =~= Seq::<usize>::empty());
        assert(queue_cost(tasks, q2.drop_first(), now) == 0);
        assert(queue_cost(tasks, q2, now) == resume_cost(tasks[x as int].computation, now));
    } else {
        assert(q2[0] == queue[0]);
        assert(q2.drop_first() =~= queue.drop_first().push(x));
        lemma_queue_cost_push(tasks, queue.drop_first(), now, x);
        assert(queue_cost(tasks, q2, now) == (if q2[0] < tasks.len() {
            resume_cost(tasks[q2[0] as int].computation, now)
        } else {
            0nat
        }) + queue_cost(tasks, q2.drop_first(), now));
        assert(queue_cost(tasks, queue, now) == (if queue[0] < tasks.len() {
            resume_cost(tasks[queue[0] as int].computation, now)
        } else {
            0nat
        }) + queue_cost(tasks, queue.drop_first(), now));
    }
}

proof fn lemma_queue_cost_update_le(
    tasks: Seq<TaskInternal>,
    queue: Seq<usize>,
    now: u32,
    id: usize,
    cell: TaskInternal,
)
    requires
        id < tasks.len(),
        resume_cost(cell.computation, now) <= resume_cost(tasks[id as int].computation, now),
    ensures
        queue_cost(tasks.update(id as int, cell), queue, now) <= queue_cost(tasks, queue, now),
    decreases queue.len(),
{
    if queue.len() > 0 {
        lemma_queue_cost_update_le(tasks, queue.drop_first(), now, id, cell);
    }
}

/// A tick on a non-empty queue strictly shrinks the remaining work.
pub proof fn lemma_tick_step_cost(m: ExecModel)
    requires
        model_wf(m),
        m.queue.len() > 0,
    ensures
        pending_cost(tick_step(m)) < pending_cost(m),
{
    let id = m.queue[0];
    let rest = m.queue.drop_first();
    let cell = m.tasks[id as int];
    let m2 = tick_step(m);
    assert(queue_cost(m.tasks, m.queue, m.now) == resume_cost(cell.computation, m.now)
        + queue_cost(m.tasks, rest, m.now));
    if resume_done(cell.computation, m.now) {
    } else {
        match cell.computation {
            Computation::Sleeping { future, value: _ } => {
                lemma_insert_sorted_len(m.sleepers, id, future.target());
            },
            Computation::Retrying { remaining, value: _ } => {
                let next = TaskInternal {
                    computation: resume_next(cell.computation, m.now),
                    return_key: cell.return_key,
                };
                lemma_queue_cost_update_le(m.tasks, rest, m.now, id, next);
                lemma_queue_cost_push(m.tasks.update(id as int, next), rest, m.now, id);
            },
            Computation::Ready { value: _ } => {},
        }
    }
}

/// Firing the earliest sleeper once the clock has reached its deadline
/// strictly shrinks the remaining work, provided nothing was ready.
pub proof fn lemma_reactor_step_cost(m: ExecModel)
    requires
        model_wf(m),
        m.queue.len() == 0,
        m.sleepers.len() > 0,
        m.now >= m.sleepers.last().1,
    ensures
        pending_cost(reactor_step(m)) < pending_cost(m),
{
    let w = m.sleepers.last().0;
    let m2 = reactor_step(m);
    assert(sleeper_ok(m.tasks, m.sleepers[m.sleepers.len() - 1]));
    assert(m2.queue =~= Seq::<usize>::empty().push(w));
    lemma_queue_cost_push(m.tasks, Seq::<usize>::empty(), m.now, w);
    assert(resume_cost(m.tasks[w as int].computation, m.now) == 1);
}

proof fn lemma_insert_sorted_len(s: Seq<(usize, u32)>, waker: usize, target: u32)
    ensures
        insert_sorted(s, waker, target).len() == s.len() + 1,
    decreases s.len(),
{
    if s.len() > 0 && !(s[0].1 < target) {
        lemma_insert_sorted_len(s.drop_first(), waker, target);
    }
}

/// Inserting keeps every notification that was already pending, and adds
/// the new one.
proof fn lemma_insert_sorted_keeps(s: Seq<(usize, u32)>, waker: usize, target: u32, x: (usize, u32))
    requires
        s.contains(x) || x == (waker, target),
    ensures
        insert_sorted(s, waker, target).contains(x),
    decreases s.len(),
{
    let t = insert_sorted(s, waker, target);
    if s.len() == 0 {
        assert(t[0] == x);
    } else if s[0].1 < target {
        if x == (waker, target) {
            assert(t[0] == x);
        } else {
            let j = choose|j: int| 0 <= j < s.len() && s[j] == x;
            assert(t[j + 1] == x);
        }
    } else {
        if s.contains(x) && s[0] == x {
            assert(t[0] == x);
        } else {
            if s.contains(x) {
                let j = choose|j: int| 0 <= j < s.len() && s[j] == x;
                assert(s.drop_first()[j - 1] == x);
                assert(s.drop_first().contains(x));
            }
            lemma_insert_sorted_keeps(s.drop_first(), waker, target, x);
            let u = insert_sorted(s.drop_first(), waker, target);
            let j = choose|j: int| 0 <= j < u.len() && u[j] == x;
            assert(t[j + 1] == x);
        }
    }
}

/// Whether a task is still reachable by the scheduler: in the ready
/// queue or registered with the sleepers.
pub open spec fn task_scheduled(m: ExecModel, id: usize) -> bool {
    m.queue.contains(id) || exists|j: int|
        0 <= j < m.sleepers.len() && (#[trigger] m.sleepers[j]).0 == id
}

/// How a still-running task's computation relates to the computation it
/// was spawned with: same time target, or no time target at all.
pub open spec fn clock_reached_link(spawned: Computation, current: Computation) -> bool {
    forall|now: u32| clock_reached(current, now) ==> clock_reached(spawned, now)
}

/// What one tick can do to a given task: its cell keeps its key, its
/// eventual value and its time target; its slot is either untouched or
/// written with exactly its eventual value, only once the clock allows
/// completion; and as long as its slot is unwritten the scheduler does
/// not lose sight of it.
pub proof fn lemma_tick_step_task_frame(m: ExecModel, id: usize)
    requires
        model_wf(m),
        id < m.tasks.len(),
    ensures
        ({
            let m2 = tick_step(m);
            let cell = m.tasks[id as int];
            let k = cell.return_key as int;
            &&& m2.tasks.len() == m.tasks.len()
            &&& m2.tasks[id as int].return_key == cell.return_key
            &&& eventual_value(m2.tasks[id as int].computation) == eventual_value(cell.computation)
            &&& clock_reached_link(cell.computation, m2.tasks[id as int].computation)
            &&& m2.now == m.now
            &&& m2.table.dom().contains(k)
            &&& (m2.table[k] == m.table[k] || (m.table[k] is None && m2.table[k] == Some(
                eventual_value(cell.computation),
            ) && clock_reached(cell.computation, m.now)))
            &&& (m.table[k] is None && task_scheduled(m, id)) ==> (m2.table[k] == Some(
                eventual_value(cell.computation),
            ) || task_scheduled(m2, id))
        }),
{
    let m2 = tick_step(m);
    let cell = m.tasks[id as int];
    let k = cell.return_key as int;
    if m.queue.len() > 0 {
        let head = m.queue[0];
        let rest = m.queue.drop_first();
        let popped = m.tasks[head as int];
        if resume_done(popped.computation, m.now) {
            if popped.return_key as int == k {
                assert(head == id) by {
                    if head != id {
                        if head < id {
                            assert(m.tasks[head as int].return_key != m.tasks[id as int].return_key);
                        } else {
                            assert(m.tasks[id as int].return_key != m.tasks[head as int].return_key);
                        }
                    }
                }
            } else {
                assert(m2.table[k] == m.table[k]);
            }
        }
        if m.table[k] is None && task_scheduled(m, id) {
            if head == id {
                if resume_done(cell.computation, m.now) {
                    assert(m2.table[k] == Some(eventual_value(cell.computation)));
                } else {
                    match cell.computation {
                        Computation::Sleeping { future, value: _ } => {
                            lemma_insert_sorted_keeps(
                                m.sleepers,
                                id,
                                future.target(),
                                (id, future.target()),
                            );
                            let s2 = insert_sorted(m.sleepers, id, future.target());
                            assert(m2.sleepers == s2);
                            let j = choose|j: int| 0 <= j < s2.len() && s2[j] == (
                                id,
                                future.target(),
                            );
                            assert((m2.sleepers[j]).0 == id);
                            assert(task_scheduled(m2, id));
                        },
                        Computation::Retrying { remaining: _, value: _ } => {
                            assert(m2.queue == rest.push(id));
                            assert(m2.queue[rest.len() as int] == id);
                            assert(m2.queue.contains(id));
                            assert(task_scheduled(m2, id));
                        },
                        Computation::Ready { value: _ } => {},
                    }
                }
            } else {
                if m.queue.contains(id) {
                    let p = choose|p: int| 0 <= p < m.queue.len() && m.queue[p] == id;
                    assert(p != 0);
                    assert(rest[p - 1] == id);
                    if resume_done(popped.computation, m.now) {
                        assert(m2.queue == rest);
                        assert(m2.queue[p - 1] == id);
                        assert(m2.queue.contains(id));
                    } else {
                        match popped.computation {
                            Computation::Sleeping { future: _, value: _ } => {
                                assert(m2.queue == rest);
                                assert(m2.queue[p - 1] == id);
                                assert(m2.queue.contains(id));
                            },
                            Computation::Retrying { remaining: _, value: _ } => {
                                assert(m2.queue == rest.push(head));
                                assert(m2.queue[p - 1] == id);
                                assert(m2.queue.contains(id));
                            },
                            Computation::Ready { value: _ } => {},
                        }
                    }
                } else {
                    let j = choose|j: int|
                        0 <= j < m.sleepers.len() && (#[trigger] m.sleepers[j]).0 == id;
                    if resume_done(popped.computation, m.now) {
                        assert(m2.sleepers == m.sleepers);
                        assert((m2.sleepers[j]).0 == id);
                        assert(task_scheduled(m2, id));
                    } else {
                        match popped.computation {
                            Computation::Sleeping { future, value: _ } => {
                                lemma_insert_sorted_keeps(
                                    m.sleepers,
                                    head,
                                    future.target(),
                                    m.sleepers[j],
                                );
                                let s2 = insert_sorted(m.sleepers, head, future.target());
                                assert(m2.sleepers == s2);
                                let j2 = choose|j2: int| 0 <= j2 < s2.len() && s2[j2]
                                    == m.sleepers[j];
                                assert((m2.sleepers[j2]).0 == id);
                                assert(task_scheduled(m2, id));
                            },
                            Computation::Retrying { remaining: _, value: _ } => {
                                assert(m2.sleepers == m.sleepers);
                                assert((m2.sleepers[j]).0 == id);
                                assert(task_scheduled(m2, id));
                            },
                            Computation::Ready { value: _ } => {},
                        }
                    }
                }
            }
        }
    }
}

/// What a reactor tick can do to a given task: nothing but move it from
/// the sleepers to the ready queue.
pub proof fn lemma_reactor_step_task_frame(m: ExecModel, id: usize)
    requires
        model_wf(m),
        id < m.tasks.len(),
    ensures
        ({
            let m2 = reactor_step(m);
            &&& m2.tasks == m.tasks
            &&& m2.table == m.table
            &&& m2.now == m.now
            &&& task_scheduled(m, id) ==> task_scheduled(m2, id)
        }),
{
    let m2 = reactor_step(m);
    if m.sleepers.len() > 0 && task_scheduled(m, id) {
        if m.queue.contains(id) {
            let p = choose|p: int| 0 <= p < m.queue.len() && m.queue[p] == id;
            assert(m2.queue[p] == id);
            assert(m2.queue.contains(id));
        } else {
            let j = choose|j: int| 0 <= j < m.sleepers.len() && (#[trigger] m.sleepers[j]).0 == id;
            if j == m.sleepers.len() - 1 {
                assert(m2.queue[m.queue.len() as int] == id);
                assert(m2.queue.contains(id));
            } else {
                assert(m2.sleepers[j].0 == id);
                assert(task_scheduled(m2, id));
            }
        }
    }
}

/// A handle's slot can be waited for: some task owns it, will deliver
/// the computation's value into it, respects the computation's time
/// target, and is still scheduled while the slot is unwritten.
pub open spec fn joinable(m: ExecModel, key: usize, c: Computation) -> bool {
    &&& m.table.dom().contains(key as int)
    &&& exists|id: int|
        0 <= id < m.tasks.len() && (#[trigger] m.tasks[id]).return_key == key && eventual_value(
            m.tasks[id].computation,
        ) == eventual_value(c) && clock_reached_link(c, m.tasks[id].computation) && (m.table[
            key as int
        ] is Some || task_scheduled(m, id as usize))
    &&& (m.table[key as int] is Some ==> m.table[key as int] == Some(eventual_value(c))
        && clock_reached(c, m.now))
}

} // verus!
