//! Mutual exclusion for cooperative tasks.
//!
//! The mutex is a status word plus a data cell with single-owner
//! semantics. Acquisition is a check-then-set: correct because this
//! runtime is strictly cooperative and single-core, so nothing can run
//! between the check and the set. A guard holds the data while the mutex
//! is locked; releasing it through `unlock` puts the data back and
//! unconditionally reopens the status. The poisoned state is part of the
//! error taxonomy but reserved: no code path ever sets it.

use vstd::prelude::*;

use crate::futures::Poll;

verus! {

/// Errors a mutex can report.
#[derive(Clone, Copy, Debug, PartialEq, Eq, Structural)]
pub enum MutexError {
    /// Reserved: a task failed while holding the lock. Never produced.
    Poisoned,
}

/// Scoped access to a mutex's data: it owns the data while the lock is
/// held, and only `Mutex::unlock` can give it back.
pub struct MutexGuard<T> {
    data: T,
}

impl<T> MutexGuard<T> {
    pub closed spec fn value(&self) -> T {
        self.data
    }

    /// Read the guarded data.
    pub fn get(&self) -> (r: &T)
        ensures
            *r == self.value(),
    {
        &self.data
    }

    /// Write access to the guarded data.
    pub fn get_mut(&mut self) -> (r: &mut T)
        ensures
            *r == old(self).value(),
            final(self).value() == *final(r),
    {
        &mut self.data
    }
}

/// The basic mutex type: used to share state between tasks safely.
pub struct Mutex<T> {
    locked: bool,
    poisoned: bool,
    data: Option<T>,
}

/// The mutex's status word as mathematics.
pub ghost struct MutexState {
    pub locked: bool,
    pub poisoned: bool,
}

/// An acquisition attempt hands out a guard exactly when the mutex is
/// open and not poisoned.
pub open spec fn acquire_succeeds(s: MutexState) -> bool {
    !s.locked && !s.poisoned
}

impl<T> Mutex<T> {
    pub closed spec fn is_locked(&self) -> bool {
        self.locked
    }

    pub closed spec fn is_poisoned(&self) -> bool {
        self.poisoned
    }

    /// The data at rest; `None` while a guard holds it.
    pub closed spec fn value(&self) -> Option<T> {
        self.data
    }

    pub open spec fn state(&self) -> MutexState {
        MutexState { locked: self.is_locked(), poisoned: self.is_poisoned() }
    }

    /// The data cell is empty exactly while the mutex is locked.
    pub open spec fn wf(&self) -> bool {
        self.is_locked() <==> self.value() is None
    }

    /// Creates a new mutex: open, not poisoned, holding `data`.
    pub fn new(data: T) -> (m: Mutex<T>)
        ensures
            m.wf(),
            !m.is_locked(),
            !m.is_poisoned(),
            m.value() == Some(data),
    {
        Mutex { locked: false, poisoned: false, data: Some(data) }
    }

    /// One acquisition attempt. Poisoning fails fast; a held lock is
    /// "unavailable", not an error; an open mutex is locked and its data
    /// handed out in a guard.
    pub fn poll_lock(&mut self) -> (r: Result<Option<MutexGuard<T>>, MutexError>)
        requires
            old(self).wf(),
        ensures
            final(self).wf(),
            final(self).state() == op_step(old(self).state(), MutexOp::Acquire),
            old(self).is_poisoned() ==> r == Err::<Option<MutexGuard<T>>, MutexError>(
                MutexError::Poisoned,
            ) && *final(self) == *old(self),
            !old(self).is_poisoned() && old(self).is_locked() ==> (r matches Ok(o) && o is None
                && *final(self) == *old(self)),
            acquire_succeeds(old(self).state()) ==> (r matches Ok(o) && o matches Some(g)
                && Some(g.value()) == old(self).value() && final(self).is_locked()
                && final(self).value() is None),
    {
        if self.poisoned {
            return Err(MutexError::Poisoned);
        }
        if self.locked {
            return Ok(None);
        }
        self.locked = true;
        match self.data.take() {
            Some(data) => Ok(Some(MutexGuard { data })),
            None => vstd::pervasive::unreached(),
        }
    }

    /// Acquire or fail fast. The original behaviour is a hot spin until
    /// the status opens; under this model's exclusive access nothing else
    /// could ever open it, so a call demands an open (or poisoned) mutex
    /// instead of spinning forever.
    pub fn lock_blocking(&mut self) -> (r: Result<MutexGuard<T>, MutexError>)
        requires
            old(self).wf(),
            old(self).is_poisoned() || !old(self).is_locked(),
        ensures
            final(self).wf(),
            final(self).state() == op_step(old(self).state(), MutexOp::Acquire),
            old(self).is_poisoned() ==> r == Err::<MutexGuard<T>, MutexError>(MutexError::Poisoned)
                && *final(self) == *old(self),
            acquire_succeeds(old(self).state()) ==> (r matches Ok(g) && Some(g.value()) == old(self).value()
                && final(self).is_locked() && final(self).value() is None),
    {
        if self.poisoned {
            return Err(MutexError::Poisoned);
        }
        self.locked = true;
        match self.data.take() {
            Some(data) => Ok(MutexGuard { data }),
            None => vstd::pervasive::unreached(),
        }
    }

    /// A suspension that acquires the lock cooperatively; poll it on
    /// each resumption attempt.
    pub fn lock(&self) -> (f: MutexLockFuture)
    {
        MutexLockFuture {  }
    }

    /// Release: put the guarded data back and unconditionally reset the
    /// status to open. This is the guard's end of scope, on every exit
    /// path.
    pub fn unlock(&mut self, guard: MutexGuard<T>)
        requires
            old(self).wf(),
            old(self).is_locked(),
        ensures
            final(self).wf(),
            final(self).state() == op_step(old(self).state(), MutexOp::Release),
            !final(self).is_locked(),
            final(self).is_poisoned() == old(self).is_poisoned(),
            final(self).value() == Some(guard.value()),
    {
        self.data = Some(guard.data);
        self.locked = false;
    }

    /// Consume the mutex and keep the data.
    pub fn into_inner(self) -> (r: T)
        requires
            self.wf(),
            !self.is_locked(),
        ensures
            Some(r) == self.value(),
    {
        match self.data {
            Some(data) => data,
            None => vstd::pervasive::unreached(),
        }
    }

    /// Exclusive, non-suspending access: no guard needed because the
    /// caller owns the mutex uniquely.
    pub fn get_mut(&mut self) -> (r: &mut T)
        requires
            old(self).wf(),
            !old(self).is_locked(),
        ensures
            Some(*r) == old(self).value(),
            final(self).value() == Some(*final(r)),
            final(self).is_locked() == old(self).is_locked(),
            final(self).is_poisoned() == old(self).is_poisoned(),
            final(self).wf(),
    {
        match &mut self.data {
            Some(data) => data,
            None => vstd::pervasive::unreached(),
        }
    }
}

/// The lock suspension: all its state lives in the mutex it polls, so
/// the future itself is just the resumption recipe.
pub struct MutexLockFuture {
}

impl MutexLockFuture {
    /// One resumption attempt: try the lock; "unavailable" stays
    /// suspended, and the caller re-queues itself at once (busy poll,
    /// no queueing or fairness). A poisoned mutex ends the suspension
    /// with the failure, never a silent retry.
    pub fn poll<T>(&self, mutex: &mut Mutex<T>) -> (r: Poll<Result<MutexGuard<T>, MutexError>>)
        requires
            old(mutex).wf(),
        ensures
            final(mutex).wf(),
            final(mutex).state() == op_step(old(mutex).state(), MutexOp::Acquire),
            old(mutex).is_poisoned() ==> (r matches Poll::Ready(e) && e
                == Err::<MutexGuard<T>, MutexError>(MutexError::Poisoned) && *final(mutex) == *old(mutex)),
            !old(mutex).is_poisoned() && old(mutex).is_locked() ==> r is Pending && *final(mutex)
                == *old(mutex),
            acquire_succeeds(old(mutex).state()) ==> (r matches Poll::Ready(o) && o matches Ok(g)
                && Some(g.value()) == old(mutex).value() && final(mutex).is_locked()),
    {
        match mutex.poll_lock() {
            Ok(Some(guard)) => Poll::Ready(Ok(guard)),
            Ok(None) => Poll::Pending,
            Err(e) => Poll::Ready(Err(e)),
        }
    }
}

/// The two things a schedule can do to a mutex: attempt an acquisition,
/// or release the guard it holds.
pub enum MutexOp {
    Acquire,
    Release,
}

/// How one operation moves the status word.
pub open spec fn op_step(s: MutexState, op: MutexOp) -> MutexState {
    match op {
        MutexOp::Acquire => if acquire_succeeds(s) {
            (MutexState { locked: true, ..s })
        } else {
            s
        },
        MutexOp::Release => (MutexState { locked: false, ..s }),
    }
}

/// The status word after a whole interleaving.
pub open spec fn state_after(s0: MutexState, ops: Seq<MutexOp>) -> MutexState
    decreases ops.len(),
{
    if ops.len() == 0 {
        s0
    } else {
        state_after(op_step(s0, ops[0]), ops.drop_first())
    }
}

/// An interleaving is valid when a release only happens while the mutex
/// is locked — a guard can only be given back by whoever holds one.
pub open spec fn valid_ops(s0: MutexState, ops: Seq<MutexOp>) -> bool
    decreases ops.len(),
{
    ops.len() == 0 || ((ops[0] is Release ==> s0.locked) && valid_ops(
        op_step(s0, ops[0]),
        ops.drop_first(),
    ))
}

/// How many acquisition attempts in the interleaving handed out a guard.
pub open spec fn guards_created(s0: MutexState, ops: Seq<MutexOp>) -> int
    decreases ops.len(),
{
    if ops.len() == 0 {
        0
    } else {
        (if ops[0] is Acquire && acquire_succeeds(s0) {
            1int
        } else {
            0int
        }) + guards_created(op_step(s0, ops[0]), ops.drop_first())
    }
}

/// How many guards the interleaving gave back.
pub open spec fn guards_released(ops: Seq<MutexOp>) -> int
    decreases ops.len(),
{
    if ops.len() == 0 {
        0
    } else {
        (if ops[0] is Release {
            1int
        } else {
            0int
        }) + guards_released(ops.drop_first())
    }
}

/// The guards still out after an interleaving.
pub open spec fn guards_outstanding(s0: MutexState, ops: Seq<MutexOp>) -> int {
    guards_created(s0, ops) - guards_released(ops)
}

proof fn lemma_outstanding_tracks_lock(s0: MutexState, ops: Seq<MutexOp>)
    requires
        valid_ops(s0, ops),
    ensures
        guards_outstanding(s0, ops) == (if state_after(s0, ops).locked {
            1int
        } else {
            0int
        }) - (if s0.locked {
            1int
        } else {
            0int
        }),
    decreases ops.len(),
{
    if ops.len() > 0 {
        lemma_outstanding_tracks_lock(op_step(s0, ops[0]), ops.drop_first());
    }
}

proof fn lemma_valid_ops_prefix(s0: MutexState, ops: Seq<MutexOp>, k: int)
    requires
        valid_ops(s0, ops),
        0 <= k <= ops.len(),
    ensures
        valid_ops(s0, ops.take(k)),
    decreases ops.len(),
{
    if ops.len() > 0 && k > 0 {
        lemma_valid_ops_prefix(op_step(s0, ops[0]), ops.drop_first(), k - 1);
        assert(ops.take(k)[0] == ops[0]);
        assert(ops.take(k).drop_first() =~= ops.drop_first().take(k - 1));
    }
}

/// At most one guard exists at any instant for a given mutex, across any
/// valid interleaving of acquisition attempts and releases starting from
/// an open mutex: after every prefix of the interleaving, the guards
/// still out number exactly one when the mutex is locked and zero when
/// it is open — never more.
pub proof fn lemma_at_most_one_guard(s0: MutexState, ops: Seq<MutexOp>, k: int)
    requires
        valid_ops(s0, ops),
        !s0.locked,
        0 <= k <= ops.len(),
    ensures
        guards_outstanding(s0, ops.take(k)) == (if state_after(s0, ops.take(k)).locked {
            1int
        } else {
            0int
        }),
        0 <= guards_outstanding(s0, ops.take(k)) <= 1,
{
    lemma_valid_ops_prefix(s0, ops, k);
    lemma_outstanding_tracks_lock(s0, ops.take(k));
}

} // verus!
