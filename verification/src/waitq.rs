//! A first-in, first-out queue of wake handles.
//!
//! The queue is the fairness contract of everything built on it: handles
//! leave in the order in which they came, so a waiter is never overtaken by
//! one that registered later.

use std::collections::VecDeque;
use std::task::Waker;
use vstd::prelude::*;

use crate::error::{try_reserve, AllocError};

verus! {

/// `std::task::Waker`, carried through as an opaque value.
#[verifier::external_type_specification]
#[verifier::external_body]
pub struct ExWaker(Waker);

/// `Waker::wake`: hands the handle to whoever made it, which schedules the
/// task behind it. Nothing is claimed of what that does.
#[verifier::external_body]
fn invoke(handle: Waker) {
    handle.wake()
}

/// An ordered collection of wake handles, served strictly in insertion order.
pub struct WaitQueue {
    handles: VecDeque<Waker>,
}

impl View for WaitQueue {
    type V = Seq<Waker>;

    /// The handles from the head (next to be woken) to the tail.
    closed spec fn view(&self) -> Seq<Waker> {
        self.handles@
    }
}

impl WaitQueue {
    /// An empty queue.
    pub fn new() -> (queue: WaitQueue)
        ensures
            queue@ == Seq::<Waker>::empty(),
    {
        WaitQueue { handles: VecDeque::new() }
    }

    /// The number of handles that wait.
    pub fn len(&self) -> (n: usize)
        ensures
            n == self@.len(),
    {
        self.handles.len()
    }

    /// Whether no handle waits.
    pub fn is_empty(&self) -> (empty: bool)
        ensures
            empty == (self@.len() == 0),
    {
        self.handles.len() == 0
    }

    /// Asks the allocator for room for one more handle and says whether it
    /// was granted. The queue's contents are untouched either way.
    pub fn reserve(&mut self) -> (granted: bool)
        ensures
            final(self)@ == old(self)@,
    {
        match try_reserve(&mut self.handles, 1) {
            Ok(_) => true,
            Err(_) => false,
        }
    }

    /// Appends `handle` at the tail if room was `granted`, and fails with
    /// the queue unchanged if it was not.
    ///
    /// This is [`push`](WaitQueue::push) with the allocator's answer given:
    /// a failure means "could not register to wait", never "acquired" and
    /// never "silently dropped".
    pub fn push_granted(&mut self, handle: Waker, granted: bool) -> (res: Result<(), AllocError>)
        ensures
            granted ==> res == Ok::<(), AllocError>(()) && final(self)@ == old(self)@.push(handle),
            !granted ==> res == Err::<(), AllocError>(AllocError) && final(self)@ == old(self)@,
    {
        if granted {
            self.handles.push_back(handle);
            Ok(())
        } else {
            Err(AllocError)
        }
    }

    /// Appends `handle` at the tail. On failure the queue is exactly as it
    /// was before the call.
    pub fn push(&mut self, handle: Waker) -> (res: Result<(), AllocError>)
        ensures
            res is Ok ==> final(self)@ == old(self)@.push(handle),
            res is Err ==> final(self)@ == old(self)@,
    {
        let granted = self.reserve();
        self.push_granted(handle, granted)
    }

    /// Removes the head handle, if any, and hands it out without invoking it.
    pub fn pop(&mut self) -> (head: Option<Waker>)
        ensures
            old(self)@.len() == 0 ==> head is None && final(self)@ == old(self)@,
            old(self)@.len() > 0 ==> head == Some(old(self)@[0]) && final(self)@ == old(
                self,
            )@.drop_first(),
    {
        self.handles.pop_front()
    }

    /// Removes and invokes the head handle, if any; says whether a waiter
    /// was woken.
    pub fn wake_one(&mut self) -> (woke: bool)
        ensures
            woke == (old(self)@.len() > 0),
            woke ==> final(self)@ == old(self)@.drop_first(),
            !woke ==> final(self)@ == old(self)@,
    {
        match self.pop() {
            Some(handle) => {
                invoke(handle);
                true
            },
            None => false,
        }
    }

    /// Invokes and removes every handle, head first. For draining a queue
    /// that is being torn down.
    pub fn wake_all(&mut self)
        ensures
            final(self)@ == Seq::<Waker>::empty(),
    {
        while self.wake_one()
            decreases self@.len(),
        {
        }
    }
}

} // verus!
