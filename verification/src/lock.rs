//! The state that an asynchronous mutex guards with its spinlock: a flag and
//! a wait queue, always changed together.
//!
//! Every operation here is one critical section. The mutex takes its
//! spinlock, runs exactly one of them and lets go, so a run of the mutex
//! under any number of workers is a sequence of these steps: what is proved
//! of such sequences in [`crate::mutex_history`] holds of the mutex.

use std::task::Waker;
use vstd::prelude::*;

use crate::waitq::WaitQueue;

verus! {

/// How one step of acquiring the lock ended.
#[derive(Clone, Copy, Debug, PartialEq, Eq, Structural)]
pub enum LockStep {
    /// The lock was free and now belongs to the caller.
    Acquired,
    /// The lock is held; the caller's handle waits in the queue and will be
    /// invoked by a later release.
    Parked,
    /// The lock is held and the handle could not be queued for want of
    /// memory. Nothing was changed and nobody waits.
    OutOfMemory,
}

/// The flag and the queue as mathematical values.
pub struct LockView {
    /// Whether a guard is outstanding.
    pub locked: bool,
    /// The parked handles, next to be woken first.
    pub waiters: Seq<Waker>,
}

impl LockView {
    /// A mutex that was just made: free, with nobody waiting.
    pub open spec fn fresh() -> LockView {
        LockView { locked: false, waiters: Seq::empty() }
    }

    /// The state after a non-blocking attempt. The queue is never touched.
    pub open spec fn try_lock(self) -> LockView {
        LockView { locked: true, waiters: self.waiters }
    }

    /// How a step of acquiring ends in this state.
    pub open spec fn lock_step(self, granted: bool) -> LockStep {
        if !self.locked {
            LockStep::Acquired
        } else if granted {
            LockStep::Parked
        } else {
            LockStep::OutOfMemory
        }
    }

    /// The state after a step of acquiring with `handle`: taken if it was
    /// free; else with `handle` at the tail of the queue if room was
    /// `granted`; else unchanged.
    pub open spec fn lock(self, handle: Waker, granted: bool) -> LockView {
        if !self.locked {
            self.try_lock()
        } else if granted {
            LockView { locked: true, waiters: self.waiters.push(handle) }
        } else {
            self
        }
    }

    /// The handle that a release invokes, if anybody waits.
    pub open spec fn next(self) -> Option<Waker> {
        if self.waiters.len() > 0 {
            Some(self.waiters[0])
        } else {
            None
        }
    }

    /// The state after a release: the head waiter, if any, has left the
    /// queue and the flag is clear.
    pub open spec fn unlock(self) -> LockView {
        LockView {
            locked: false,
            waiters: if self.waiters.len() > 0 {
                self.waiters.drop_first()
            } else {
                self.waiters
            },
        }
    }
}

/// The flag and the wait queue of one mutex.
pub struct LockState {
    locked: bool,
    waiters: WaitQueue,
}

impl View for LockState {
    type V = LockView;

    closed spec fn view(&self) -> LockView {
        LockView { locked: self.locked, waiters: self.waiters@ }
    }
}

impl LockState {
    /// The state of a new mutex: free, nobody waiting.
    pub fn new() -> (state: LockState)
        ensures
            state@ == LockView::fresh(),
    {
        LockState { locked: false, waiters: WaitQueue::new() }
    }

    /// Whether a guard is outstanding.
    pub fn is_locked(&self) -> (locked: bool)
        ensures
            locked == self@.locked,
    {
        self.locked
    }

    /// The number of parked handles.
    pub fn waiting(&self) -> (n: usize)
        ensures
            n == self@.waiters.len(),
    {
        self.waiters.len()
    }

    /// Takes the lock if it is free. Says whether it did; a held lock is an
    /// ordinary outcome, not an error. Never allocates and never touches the
    /// queue.
    pub fn try_lock(&mut self) -> (acquired: bool)
        ensures
            acquired == !old(self)@.locked,
            final(self)@ == old(self)@.try_lock(),
    {
        if self.locked {
            false
        } else {
            self.locked = true;
            true
        }
    }

    /// One step of acquiring, with the allocator's answer given: takes the
    /// lock if it is free, else parks `handle` if room was `granted`, else
    /// reports the failure at once with the flag and the queue untouched.
    ///
    /// `granted` is looked at only when the lock is held.
    pub fn lock_granted(&mut self, handle: Waker, granted: bool) -> (step: LockStep)
        ensures
            step == old(self)@.lock_step(granted),
            final(self)@ == old(self)@.lock(handle, granted),
    {
        if self.try_lock() {
            LockStep::Acquired
        } else {
            match self.waiters.push_granted(handle, granted) {
                Ok(_) => LockStep::Parked,
                Err(_) => LockStep::OutOfMemory,
            }
        }
    }

    /// One step of acquiring: takes the lock if it is free, else parks
    /// `handle`. Check and registration are one step, so no release can
    /// slip between them and miss the new waiter.
    ///
    /// Room in the queue is asked for only when the lock is held; what
    /// happens then is [`lock_granted`](LockState::lock_granted) with the
    /// allocator's answer.
    pub fn lock(&mut self, handle: Waker) -> (step: LockStep)
        ensures
            step == old(self)@.lock_step(step == LockStep::Parked),
            final(self)@ == old(self)@.lock(handle, step == LockStep::Parked),
    {
        if self.locked {
            let granted = self.waiters.reserve();
            self.lock_granted(handle, granted)
        } else {
            self.lock_granted(handle, false)
        }
    }

    /// Releases the lock: invokes and removes the head waiter, if any, then
    /// clears the flag. Says whether a waiter was woken.
    ///
    /// The woken waiter is a candidate, not the new holder: it has to try
    /// again when it runs.
    pub fn unlock(&mut self) -> (woke: bool)
        ensures
            woke == old(self)@.next().is_some(),
            final(self)@ == old(self)@.unlock(),
    {
        let woke = self.waiters.wake_one();
        self.locked = false;
        woke
    }
}

} // verus!
