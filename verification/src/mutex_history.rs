//! Histories of one mutex, and what holds of all of them.
//!
//! The spinlock serialises the critical sections of a mutex, so whatever
//! the workers do to it, the flag and the queue go through a sequence of
//! steps of [`LockView`]. A history is such a sequence; the theorems below
//! are about every history, whoever took the steps and in whatever order.

use std::task::Waker;
use vstd::prelude::*;

use crate::lock::{LockStep, LockView};

verus! {

/// One critical section of a mutex.
pub enum LockOp {
    /// A step of acquiring with `handle`; `granted` is the allocator's
    /// answer, should it be asked for room in the queue.
    Lock { handle: Waker, granted: bool },
    /// A non-blocking attempt.
    TryLock,
    /// The release of a guard.
    Unlock,
}

impl LockOp {
    /// The state after this step is taken in state `s`.
    pub open spec fn apply(self, s: LockView) -> LockView {
        match self {
            LockOp::Lock { handle, granted } => s.lock(handle, granted),
            LockOp::TryLock => s.try_lock(),
            LockOp::Unlock => s.unlock(),
        }
    }

    /// Whether this step, taken in state `s`, hands out a guard.
    pub open spec fn grants(self, s: LockView) -> bool {
        match self {
            LockOp::Lock { handle, granted } => s.lock_step(granted) == LockStep::Acquired,
            LockOp::TryLock => !s.locked,
            LockOp::Unlock => false,
        }
    }

    /// The handle that this step, taken in state `s`, parks.
    pub open spec fn parks(self, s: LockView) -> Option<Waker> {
        match self {
            LockOp::Lock { handle, granted } => if s.lock_step(granted) == LockStep::Parked {
                Some(handle)
            } else {
                None
            },
            _ => None,
        }
    }

    /// The handle that this step, taken in state `s`, invokes.
    pub open spec fn wakes(self, s: LockView) -> Option<Waker> {
        match self {
            LockOp::Unlock => s.next(),
            _ => None,
        }
    }
}

/// The state that the history `ops` leads to from `s`.
pub open spec fn run(s: LockView, ops: Seq<LockOp>) -> LockView
    decreases ops.len(),
{
    if ops.len() == 0 {
        s
    } else {
        ops.last().apply(run(s, ops.drop_last()))
    }
}

/// The handles that `ops` parks, starting from `s`, in the order in which
/// they register.
pub open spec fn parked(s: LockView, ops: Seq<LockOp>) -> Seq<Waker>
    decreases ops.len(),
{
    if ops.len() == 0 {
        Seq::empty()
    } else {
        match ops.last().parks(run(s, ops.drop_last())) {
            Some(handle) => parked(s, ops.drop_last()).push(handle),
            None => parked(s, ops.drop_last()),
        }
    }
}

/// The handles that `ops` invokes, starting from `s`, in the order in which
/// they are woken.
pub open spec fn woken(s: LockView, ops: Seq<LockOp>) -> Seq<Waker>
    decreases ops.len(),
{
    if ops.len() == 0 {
        Seq::empty()
    } else {
        match ops.last().wakes(run(s, ops.drop_last())) {
            Some(handle) => woken(s, ops.drop_last()).push(handle),
            None => woken(s, ops.drop_last()),
        }
    }
}

/// The number of releases in `ops`.
pub open spec fn releases(ops: Seq<LockOp>) -> nat
    decreases ops.len(),
{
    if ops.len() == 0 {
        0
    } else if ops.last() is Unlock {
        releases(ops.drop_last()) + 1
    } else {
        releases(ops.drop_last())
    }
}

/// Everyone who waits or has waited in the history `ops` from `s`, in
/// order of registration: those already parked in `s`, then the newcomers.
pub open spec fn registered(s: LockView, ops: Seq<LockOp>) -> Seq<Waker> {
    s.waiters + parked(s, ops)
}

/// The number of guards alive after the history `ops` of a new mutex:
/// those handed out less those released.
pub open spec fn guards(ops: Seq<LockOp>) -> int
    decreases ops.len(),
{
    if ops.len() == 0 {
        0
    } else {
        let before = ops.drop_last();
        guards(before) + (if ops.last().grants(run(LockView::fresh(), before)) {
            1int
        } else {
            0int
        }) - (if ops.last() is Unlock {
            1int
        } else {
            0int
        })
    }
}

/// Whether `ops` is a history that guards can produce: a release gives a
/// guard back, so each one finds a guard alive.
pub open spec fn disciplined(ops: Seq<LockOp>) -> bool
    decreases ops.len(),
{
    ops.len() == 0 || (disciplined(ops.drop_last()) && (ops.last() is Unlock ==> guards(
        ops.drop_last(),
    ) >= 1))
}

/// The waiter that the last step of `ops` woke, if it woke one: the
/// candidate that is to try next.
pub open spec fn candidate(s: LockView, ops: Seq<LockOp>) -> Option<Waker> {
    if ops.len() == 0 {
        None
    } else {
        ops.last().wakes(run(s, ops.drop_last()))
    }
}

/// Whether `ops` hands the lock on without barging: whenever a release
/// wakes a waiter, the next step is that waiter's own attempt, so nobody
/// takes the free lock from under it.
pub open spec fn handed_on(s: LockView, ops: Seq<LockOp>) -> bool
    decreases ops.len(),
{
    ops.len() == 0 || (handed_on(s, ops.drop_last()) && match candidate(s, ops.drop_last()) {
        Some(waiter) => ops.last() matches LockOp::Lock { handle, .. } && handle == waiter,
        None => true,
    })
}

/// The waiters that acquired the lock on being woken, in the order in which
/// they acquired it.
pub open spec fn served(s: LockView, ops: Seq<LockOp>) -> Seq<Waker>
    decreases ops.len(),
{
    if ops.len() == 0 {
        Seq::empty()
    } else {
        let before = ops.drop_last();
        match candidate(s, before) {
            Some(waiter) => if ops.last() matches LockOp::Lock { handle, .. } && handle == waiter
                && ops.last().grants(run(s, before)) {
                served(s, before).push(waiter)
            } else {
                served(s, before)
            },
            None => served(s, before),
        }
    }
}

/// A disciplined history stays disciplined when it is cut short.
pub proof fn lemma_disciplined_prefix(ops: Seq<LockOp>, k: int)
    requires
        disciplined(ops),
        0 <= k <= ops.len(),
    ensures
        disciplined(ops.take(k)),
    decreases ops.len(),
{
    if k == ops.len() {
        assert(ops.take(k) =~= ops);
    } else {
        assert(ops.drop_last().take(k) =~= ops.take(k));
        lemma_disciplined_prefix(ops.drop_last(), k);
    }
}

/// The flag counts the guards: after any disciplined history of a new
/// mutex, the mutex is locked if and only if exactly one guard is alive,
/// and free if and only if none is.
pub proof fn lemma_flag_counts_guards(ops: Seq<LockOp>)
    requires
        disciplined(ops),
    ensures
        guards(ops) == (if run(LockView::fresh(), ops).locked {
            1int
        } else {
            0int
        }),
    decreases ops.len(),
{
    if ops.len() > 0 {
        lemma_flag_counts_guards(ops.drop_last());
    }
}

/// Mutual exclusion: at every instant of a disciplined history of a new
/// mutex at most one guard is alive.
pub proof fn lemma_mutual_exclusion(ops: Seq<LockOp>, k: int)
    requires
        disciplined(ops),
        0 <= k <= ops.len(),
    ensures
        0 <= guards(ops.take(k)) <= 1,
{
    lemma_disciplined_prefix(ops, k);
    lemma_flag_counts_guards(ops.take(k));
}

/// Nobody is lost and nobody is overtaken: those woken so far, followed by
/// those still parked, are exactly those who registered, in registration
/// order.
pub proof fn lemma_fifo(s: LockView, ops: Seq<LockOp>)
    ensures
        woken(s, ops) + run(s, ops).waiters == registered(s, ops),
    decreases ops.len(),
{
    if ops.len() > 0 {
        let before = ops.drop_last();
        lemma_fifo(s, before);
        if let Some(handle) = ops.last().parks(run(s, before)) {
            let earlier = parked(s, before);
            assert(s.waiters + earlier.push(handle) =~= (s.waiters + earlier).push(handle));
        }
    }
}

/// First come, first woken: the wakeups of a history go to its registrants
/// in registration order, so of two waiters the one that registered first
/// is woken first.
pub proof fn lemma_fifo_fairness(s: LockView, ops: Seq<LockOp>, a: int, b: int)
    requires
        0 <= a < b < woken(s, ops).len(),
    ensures
        b < registered(s, ops).len(),
        woken(s, ops)[a] == registered(s, ops)[a],
        woken(s, ops)[b] == registered(s, ops)[b],
{
    lemma_fifo(s, ops);
}

/// A release that wakes nobody finds nobody waiting: the wakeups of a
/// history fall short of its releases only once everyone who waited at its
/// start has been woken.
pub proof fn lemma_releases_wake(s: LockView, ops: Seq<LockOp>)
    ensures
        woken(s, ops).len() <= releases(ops),
        woken(s, ops).len() == releases(ops) || woken(s, ops).len() >= s.waiters.len(),
    decreases ops.len(),
{
    if ops.len() > 0 {
        let before = ops.drop_last();
        lemma_releases_wake(s, before);
        lemma_fifo(s, before);
    }
}

/// No waiter starves: whoever stands at position `i` of the queue is woken
/// by the release number `i + 1` that follows, whatever else happens in
/// between.
pub proof fn lemma_bounded_wait(s: LockView, ops: Seq<LockOp>, i: int)
    requires
        0 <= i < s.waiters.len(),
        releases(ops) > i,
    ensures
        woken(s, ops).len() > i,
        woken(s, ops)[i] == s.waiters[i],
{
    lemma_releases_wake(s, ops);
    lemma_fifo(s, ops);
    assert(registered(s, ops)[i] == s.waiters[i]);
}

/// A release hands the lock on: right after it the lock is free, so the
/// woken waiter acquires if it is the next to try, whatever the allocator
/// would have answered.
pub proof fn lemma_handoff(s: LockView, handle: Waker, granted: bool)
    ensures
        !s.unlock().locked,
        s.unlock().lock_step(granted) == LockStep::Acquired,
        s.unlock().lock(handle, granted).locked,
        s.unlock().lock(handle, granted).waiters == s.unlock().waiters,
{
}

/// Where nobody barges, to be woken is to acquire: the waiters are served
/// in the order in which they were woken, and all of them have been served
/// but the candidate that has yet to try.
pub proof fn lemma_served_as_woken(s: LockView, ops: Seq<LockOp>)
    requires
        handed_on(s, ops),
    ensures
        served(s, ops) == (if candidate(s, ops) is Some {
            woken(s, ops).drop_last()
        } else {
            woken(s, ops)
        }),
    decreases ops.len(),
{
    if ops.len() > 0 {
        let before = ops.drop_last();
        lemma_served_as_woken(s, before);
    }
}

/// First come, first served: where nobody barges, the waiters acquire the
/// lock in the order in which they registered. Of two waiters that have
/// both acquired, the one that registered first acquired first.
pub proof fn lemma_first_come_first_served(s: LockView, ops: Seq<LockOp>, a: int, b: int)
    requires
        handed_on(s, ops),
        0 <= a < b < served(s, ops).len(),
    ensures
        b < registered(s, ops).len(),
        served(s, ops)[a] == registered(s, ops)[a],
        served(s, ops)[b] == registered(s, ops)[b],
{
    lemma_served_as_woken(s, ops);
    lemma_fifo_fairness(s, ops, a, b);
}

/// Every waiter gets the lock: where nobody barges, whoever stands at
/// position `i` of the queue has acquired the lock once release number
/// `i + 1` has woken it and it has tried.
pub proof fn lemma_waiter_acquires(s: LockView, ops: Seq<LockOp>, i: int)
    requires
        handed_on(s, ops),
        0 <= i < s.waiters.len(),
        releases(ops) > i,
        candidate(s, ops) is None,
    ensures
        served(s, ops).len() > i,
        served(s, ops)[i] == s.waiters[i],
{
    lemma_served_as_woken(s, ops);
    lemma_bounded_wait(s, ops, i);
}

} // verus!
