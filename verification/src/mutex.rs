//! An asynchronous mutex: a spinlock-guarded flag and wait queue around a
//! protected value.
//!
//! The spinlock is held for one state check at a time and never across a
//! suspension. A task that finds the mutex held leaves its wake handle in
//! the queue and suspends; the release of the guard wakes the head of the
//! queue and clears the flag in one critical section.

use std::task::Waker;
use vstd::prelude::*;

use crate::error::AllocError;
use crate::lock::{LockState, LockStep};

verus! {

/// `spin::mutex::SpinMutex`, the busy-wait lock, as an opaque value.
#[verifier::external_type_specification]
#[verifier::external_body]
#[verifier::reject_recursive_types(T)]
#[verifier::reject_recursive_types(R)]
pub struct ExSpinMutex<T: ?Sized, R>(spin::mutex::SpinMutex<T, R>);

/// `spin::mutex::SpinMutexGuard`, the proof of holding the busy-wait lock.
#[verifier::external_type_specification]
#[verifier::external_body]
#[verifier::reject_recursive_types(T)]
pub struct ExSpinMutexGuard<'a, T: ?Sized>(spin::mutex::SpinMutexGuard<'a, T>);

/// `spin::Spin`, the relax strategy that spins.
#[verifier::external_type_specification]
#[verifier::external_body]
pub struct ExSpin(spin::Spin);

/// `SpinMutex::new`: a spinlock around `state`.
#[verifier::external_body]
fn spin_new(state: LockState) -> (lock: spin::mutex::SpinMutex<LockState>) {
    spin::mutex::SpinMutex::new(state)
}

/// `SpinMutex::lock`: spins until the lock is free and takes it. What the
/// guarded state is then depends on what the other workers have done.
#[verifier::external_body]
fn spin_lock<'a>(lock: &'a spin::mutex::SpinMutex<LockState>) -> (held: spin::mutex::SpinMutexGuard<
    'a,
    LockState,
>) {
    lock.lock()
}

/// `SpinMutex::try_lock`: takes the lock if nobody holds it at this moment
/// and gives up at once if somebody does.
#[verifier::external_body]
fn spin_try_lock<'a>(lock: &'a spin::mutex::SpinMutex<LockState>) -> (held: Option<
    spin::mutex::SpinMutexGuard<'a, LockState>,
>) {
    lock.try_lock()
}

/// `DerefMut` of `SpinMutexGuard`: the guarded state, for as long as the
/// spinlock is held.
#[verifier::external_body]
fn guarded<'b, 'a>(held: &'b mut spin::mutex::SpinMutexGuard<'a, LockState>) -> (state: &'b mut LockState) {
    &mut **held
}

/// An asynchronous mutex around a value of type `T`.
///
/// Waiters are served first come, first woken.
///
/// The guard hands the protected value out by shared reference. A value
/// that is to be written under the mutex is one that can be written through
/// a shared reference, such as an atomic or a cell: the guard is what makes
/// sure that nobody else is at it.
///
/// Wake handles are invoked inside the spinlock. A handle whose callback
/// comes back to acquire the same mutex would wait for itself.
pub struct Mutex<T: ?Sized> {
    /// The flag and the wait queue, behind the spinlock.
    inner: spin::mutex::SpinMutex<LockState>,
    /// The protected value.
    data: T,
}

/// A pending acquisition of a [`Mutex`]: what [`Mutex::lock`] returns and
/// the executor drives.
pub struct Lock<'a, T: ?Sized> {
    mutex: &'a Mutex<T>,
}

/// The proof of holding a [`Mutex`].
///
/// The mutex stays held until the guard is given back with
/// [`release`](MutexGuard::release). A guard that merely goes out of scope
/// leaves the mutex held for good.
pub struct MutexGuard<'a, T: ?Sized> {
    mutex: &'a Mutex<T>,
}

/// What one step of an acquisition gave.
pub enum LockPoll<'a, T: ?Sized> {
    /// The mutex was free and is now held by the guard.
    Acquired(MutexGuard<'a, T>),
    /// The mutex is held; the task's handle waits in the queue and the
    /// task suspends.
    Parked,
    /// The mutex is held and the handle could not be queued for want of
    /// memory. The mutex is as it was and nobody waits.
    OutOfMemory(AllocError),
}

impl<T> View for Mutex<T> {
    type V = T;

    /// The protected value.
    open spec fn view(&self) -> T {
        *self.value()
    }
}

impl<T> Mutex<T> {
    /// A new mutex around `data`: free, with nobody waiting.
    pub fn new(data: T) -> (mutex: Mutex<T>)
        ensures
            mutex@ == data,
    {
        Mutex { inner: spin_new(LockState::new()), data }
    }

    /// Consumes the mutex and gives the protected value back. That no guard
    /// is outstanding is shown by owning the mutex.
    pub fn into_inner(self) -> (data: T)
        ensures
            data == self@,
    {
        self.data
    }
}

impl<T: ?Sized> Mutex<T> {
    /// The protected value, where it lies. For a value of known size
    /// `mutex@` is the value itself.
    pub closed spec fn value(&self) -> &T {
        &self.data
    }

    /// The protected value, for writing, without locking: an exclusive
    /// reference to the mutex shows that nobody else can be inside.
    pub fn get_mut(&mut self) -> (data: &mut T)
        ensures
            &*data == old(self).value(),
            final(self).value() == &*final(data),
    {
        &mut self.data
    }

    /// Starts acquiring the mutex. Nothing happens until the returned
    /// acquisition is driven with [`Lock::poll`].
    pub fn lock(&self) -> (pending: Lock<'_, T>)
        ensures
            pending.target() == self,
    {
        Lock { mutex: self }
    }

    /// Tries to acquire the mutex without waiting and without allocating.
    ///
    /// Gives no guard if the mutex is held, or if another worker is inside
    /// the spinlock at this very moment. Neither is an error. What the
    /// attempt does to the state that it finds behind the spinlock is
    /// [`LockState::try_lock`].
    pub fn try_lock(&self) -> (guard: Option<MutexGuard<'_, T>>)
        ensures
            guard matches Some(g) ==> g.origin() == self,
    {
        match spin_try_lock(&self.inner) {
            None => None,
            Some(mut held) => self.try_lock_in(guarded(&mut held)),
        }
    }

    /// The critical section of [`try_lock`](Mutex::try_lock), on the state
    /// that the spinlock guards: a guard if and only if the mutex was free.
    fn try_lock_in<'a>(&'a self, state: &mut LockState) -> (guard: Option<MutexGuard<'a, T>>)
        ensures
            guard is Some <==> !old(state)@.locked,
            guard matches Some(g) ==> g.origin() == self,
            final(state)@ == old(state)@.try_lock(),
    {
        if state.try_lock() {
            Some(MutexGuard { mutex: self })
        } else {
            None
        }
    }
}

/// Round trip: whatever goes into a new mutex comes out of it unchanged when
/// the mutex is consumed.
pub proof fn lemma_round_trip<T>(data: T, mutex: Mutex<T>, out: T)
    requires
        call_ensures(Mutex::<T>::new, (data,), mutex),
        call_ensures(Mutex::<T>::into_inner, (mutex,), out),
    ensures
        out == data,
{
}

impl<T> From<T> for Mutex<T> {
    /// A new mutex around `val`.
    fn from(val: T) -> (mutex: Mutex<T>)
        ensures
            mutex@ == val,
    {
        Mutex::new(val)
    }
}

impl<T> vstd::std_specs::convert::FromSpecImpl<T> for Mutex<T> {
    /// Two mutexes made of the same value are not the same mutex, so the
    /// conversion is no function of the value; what it keeps is stated on
    /// `from` itself.
    open spec fn obeys_from_spec() -> bool {
        false
    }

    open spec fn from_spec(val: T) -> Mutex<T> {
        arbitrary()
    }
}

impl<T: Default> Default for Mutex<T> {
    /// A new mutex around the default value of `T`.
    fn default() -> (mutex: Mutex<T>)
        ensures
            T::default.ensures((), mutex@),
    {
        Mutex::new(T::default())
    }
}

impl<'a, T: ?Sized> Lock<'a, T> {
    /// The mutex that is being acquired.
    pub closed spec fn target(&self) -> &'a Mutex<T> {
        self.mutex
    }

    /// Drives the acquisition one step, inside one critical section of the
    /// spinlock.
    ///
    /// If the mutex is free it is taken. If it is held, `handle` is parked
    /// in the wait queue: a release will invoke it, and the task then polls
    /// again. If the handle cannot be parked for want of memory the failure
    /// is reported at once, with the mutex as it was. What the step does to
    /// the state that it finds behind the spinlock is [`LockState::lock`].
    pub fn poll(&self, handle: Waker) -> (res: LockPoll<'a, T>)
        ensures
            res matches LockPoll::Acquired(g) ==> g.origin() == self.target(),
    {
        let mut held = spin_lock(&self.mutex.inner);
        self.poll_in(guarded(&mut held), handle)
    }

    /// The critical section of [`poll`](Lock::poll), on the state that the
    /// spinlock guards.
    fn poll_in(&self, state: &mut LockState, handle: Waker) -> (res: LockPoll<'a, T>)
        ensures
            res.step() == old(state)@.lock_step(res.step() == LockStep::Parked),
            res matches LockPoll::Acquired(g) ==> g.origin() == self.target(),
            final(state)@ == old(state)@.lock(handle, res.step() == LockStep::Parked),
    {
        match state.lock(handle) {
            LockStep::Acquired => LockPoll::Acquired(MutexGuard { mutex: self.mutex }),
            LockStep::Parked => LockPoll::Parked,
            LockStep::OutOfMemory => LockPoll::OutOfMemory(AllocError),
        }
    }
}

impl<'a, T: ?Sized> LockPoll<'a, T> {
    /// The outcome without the guard.
    pub open spec fn step(&self) -> LockStep {
        match self {
            LockPoll::Acquired(_) => LockStep::Acquired,
            LockPoll::Parked => LockStep::Parked,
            LockPoll::OutOfMemory(_) => LockStep::OutOfMemory,
        }
    }
}

impl<'a, T: ?Sized> MutexGuard<'a, T> {
    /// The mutex that this guard holds.
    pub closed spec fn origin(&self) -> &'a Mutex<T> {
        self.mutex
    }

    /// The mutex that a guard came from.
    pub fn source(guard: &MutexGuard<'a, T>) -> (mutex: &'a Mutex<T>)
        ensures
            mutex == guard.origin(),
    {
        guard.mutex
    }

    /// Releases the mutex, inside one critical section of the spinlock:
    /// invokes and removes the head waiter, if any, then clears the flag.
    /// Says whether a waiter was woken.
    ///
    /// Waking and clearing are one step, so no attempt can find the mutex
    /// free before the waiter has been woken. The woken waiter is a
    /// candidate, not the new holder: it has to try again when it runs.
    /// What the release does to the state that it finds behind the
    /// spinlock is [`LockState::unlock`].
    pub fn release(self) -> (woke: bool) {
        let mut held = spin_lock(&self.mutex.inner);
        MutexGuard::<'a, T>::release_in(guarded(&mut held))
    }

    /// The critical section of [`release`](MutexGuard::release), on the
    /// state that the spinlock guards.
    fn release_in(state: &mut LockState) -> (woke: bool)
        ensures
            woke == old(state)@.next().is_some(),
            final(state)@ == old(state)@.unlock(),
    {
        state.unlock()
    }
}

impl<'a, T: ?Sized> std::ops::Deref for MutexGuard<'a, T> {
    type Target = T;

    /// The protected value.
    fn deref(&self) -> (data: &T)
        ensures
            data == self.origin().value(),
    {
        &self.mutex.data
    }
}

} // verus!
