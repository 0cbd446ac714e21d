//! Critical sections: what holding the guard is good for.
//!
//! A task that holds the guard of a mutex may read the protected value and
//! write it back changed, in as many steps as it likes and with any number
//! of other tasks trying to get in meanwhile. This module follows a counter
//! through every interleaving of such tasks and shows that no increment is
//! ever lost.

use std::task::Waker;
use vstd::prelude::*;

use crate::lock::{LockStep, LockView};

verus! {

/// A mutex around a counter, with the tasks that are inside a section.
pub struct SectionView {
    /// The flag and the queue of the mutex.
    pub lock: LockView,
    /// The protected counter.
    pub value: int,
    /// The tasks that hold a guard.
    pub inside: Set<nat>,
    /// What each task has read and not yet written back.
    pub seen: Map<nat, int>,
}

/// One step of one task.
pub enum Access {
    /// The task takes a step of acquiring the mutex.
    Lock { task: nat, handle: Waker, granted: bool },
    /// The task tries the mutex without waiting.
    TryLock { task: nat },
    /// The task reads the counter through its guard.
    Read { task: nat },
    /// The task writes back what it read, plus one, through its guard.
    Write { task: nat },
    /// The task releases its guard.
    Unlock { task: nat },
}

impl SectionView {
    /// A new mutex around a counter that stands at `value`.
    pub open spec fn fresh(value: int) -> SectionView {
        SectionView { lock: LockView::fresh(), value, inside: Set::empty(), seen: Map::empty() }
    }

    /// Whether `task` is about to write: it holds a guard and has read.
    pub open spec fn writing(self, task: nat) -> bool {
        self.inside.contains(task) && self.seen.dom().contains(task)
    }
}

impl Access {
    /// The state after this step is taken in `s`. A task without a guard
    /// cannot reach the counter and has no guard to release: such a step does
    /// nothing.
    pub open spec fn apply(self, s: SectionView) -> SectionView {
        match self {
            Access::Lock { task, handle, granted } => SectionView {
                lock: s.lock.lock(handle, granted),
                inside: if s.lock.lock_step(granted) == LockStep::Acquired {
                    s.inside.insert(task)
                } else {
                    s.inside
                },
                ..s
            },
            Access::TryLock { task } => SectionView {
                lock: s.lock.try_lock(),
                inside: if !s.lock.locked {
                    s.inside.insert(task)
                } else {
                    s.inside
                },
                ..s
            },
            Access::Read { task } => if s.inside.contains(task) {
                SectionView { seen: s.seen.insert(task, s.value), ..s }
            } else {
                s
            },
            Access::Write { task } => if s.writing(task) {
                SectionView { value: s.seen[task] + 1, seen: s.seen.remove(task), ..s }
            } else {
                s
            },
            Access::Unlock { task } => if s.inside.contains(task) {
                SectionView {
                    lock: s.lock.unlock(),
                    inside: s.inside.remove(task),
                    seen: s.seen.remove(task),
                    ..s
                }
            } else {
                s
            },
        }
    }

    /// The task that this step, taken in `s`, lets in.
    pub open spec fn admits(self, s: SectionView) -> Option<nat> {
        match self {
            Access::Lock { task, handle, granted } => if s.lock.lock_step(granted)
                == LockStep::Acquired {
                Some(task)
            } else {
                None
            },
            Access::TryLock { task } => if !s.lock.locked {
                Some(task)
            } else {
                None
            },
            _ => None,
        }
    }

    /// Whether this step, taken in `s`, is a task inside releasing its guard.
    pub open spec fn leaves(self, s: SectionView) -> bool {
        self matches Access::Unlock { task } && s.inside.contains(task)
    }

    /// Whether this step, taken in `s`, writes the counter.
    pub open spec fn writes(self, s: SectionView) -> bool {
        self matches Access::Write { task } && s.writing(task)
    }
}

/// The state that the history `ops` leads to from a new mutex around a
/// counter that stands at `start`.
pub open spec fn run(start: int, ops: Seq<Access>) -> SectionView
    decreases ops.len(),
{
    if ops.len() == 0 {
        SectionView::fresh(start)
    } else {
        ops.last().apply(run(start, ops.drop_last()))
    }
}

/// The number of increments that the history `ops` makes.
pub open spec fn increments(start: int, ops: Seq<Access>) -> int
    decreases ops.len(),
{
    if ops.len() == 0 {
        0
    } else if ops.last().writes(run(start, ops.drop_last())) {
        increments(start, ops.drop_last()) + 1
    } else {
        increments(start, ops.drop_last())
    }
}

/// What holds after every history: the mutex is locked exactly while a task
/// is inside, no two tasks are inside, what a task has read is still what
/// the counter holds, and the counter has counted every increment.
pub open spec fn coherent(start: int, ops: Seq<Access>) -> bool {
    let s = run(start, ops);
    &&& s.lock.locked <==> exists|task: nat| s.inside.contains(task)
    &&& forall|a: nat, b: nat| s.inside.contains(a) && s.inside.contains(b) ==> a == b
    &&& forall|task: nat| #[trigger]
        s.seen.dom().contains(task) ==> s.inside.contains(task) && s.seen[task] == s.value
    &&& s.value == start + increments(start, ops)
}

/// Every history is coherent.
pub proof fn lemma_coherent(start: int, ops: Seq<Access>)
    ensures
        coherent(start, ops),
    decreases ops.len(),
{
    if ops.len() > 0 {
        lemma_coherent(start, ops.drop_last());
        let s = run(start, ops.drop_last());
        let t = run(start, ops);
        if let Some(task) = ops.last().admits(s) {
            assert(t.inside.contains(task));
        } else if ops.last().leaves(s) {
            assert(forall|w: nat| !t.inside.contains(w));
        } else if s.lock.locked {
            let w = choose|w: nat| s.inside.contains(w);
            assert(t.inside.contains(w));
        }
    }
}

/// Exclusive access: whatever the tasks do, no two of them are ever inside
/// at the same time.
pub proof fn lemma_one_inside(start: int, ops: Seq<Access>, a: nat, b: nat)
    requires
        run(start, ops).inside.contains(a),
        run(start, ops).inside.contains(b),
    ensures
        a == b,
{
    lemma_coherent(start, ops);
}

/// No update is lost: whatever the number of tasks and however their steps
/// interleave, the counter stands at its start plus the number of
/// increments made. A task that reads under the guard writes back one more
/// than the counter held at the very moment of the write.
pub proof fn lemma_no_lost_update(start: int, ops: Seq<Access>)
    ensures
        run(start, ops).value == start + increments(start, ops),
        forall|task: nat| #[trigger]
            run(start, ops).writing(task) ==> run(start, ops).seen[task] == run(
                start,
                ops,
            ).value,
{
    lemma_coherent(start, ops);
}

} // verus!
