//! The concurrency core of a small freestanding runtime: allocation-fallible
//! synchronisation for cooperative tasks on several workers.
//!
//! - [`waitq`]: the FIFO queue of wake handles.
//! - [`lock`]: the flag and the queue of a mutex, as the sequential state
//!   machine that the mutex runs under its spinlock.
//! - [`mutex`]: the asynchronous mutex and its guard.
//! - [`sched`]: the bookkeeping of the scheduler: tasks, run queues, who
//!   runs what.
//! - [`mutex_history`], [`section`], [`sched_history`]: what holds of every
//!   run of a mutex, of the value it protects, and of a scheduler.
//! - [`guard`]: the owner of a block of memory.
//! - [`root`]: the root of the name space.
//!
//! Everything that can go wrong for want of memory reports [`AllocError`]
//! and leaves the state it was called on as it found it.

pub mod error;
pub mod guard;
pub mod lock;
pub mod mutex;
pub mod mutex_history;
pub mod root;
pub mod sched;
pub mod sched_history;
pub mod section;
pub mod waitq;

pub use error::AllocError;
pub use guard::AllocGuard;
pub use lock::{LockState, LockStep, LockView};
pub use mutex::{Lock, LockPoll, Mutex, MutexGuard};
pub use root::{ChanId, ChanType, Error, Root};
pub use sched::{SchedView, Scheduler, Task, TaskState};
pub use waitq::WaitQueue;
