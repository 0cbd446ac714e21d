//! The single recoverable failure of this crate, and the one place where
//! its queues ask for memory.

use std::collections::TryReserveError;
use std::collections::VecDeque;
use vstd::prelude::*;

verus! {

/// Memory for a waiter or a task could not be obtained.
///
/// It is never retried inside the crate: whoever receives it decides whether
/// to retry, to back off or to give up.
#[derive(Clone, Copy, Debug, PartialEq, Eq, Structural)]
pub struct AllocError;

/// `VecDeque::try_reserve`: asks for room for `additional` more elements.
/// Whether it is granted is the allocator's decision; either way the
/// elements stay as they are.
#[verifier::external_body]
pub(crate) fn try_reserve<T>(queue: &mut VecDeque<T>, additional: usize) -> (granted: Result<
    (),
    TryReserveError,
>)
    ensures
        final(queue)@ == old(queue)@,
{
    queue.try_reserve(additional)
}

} // verus!
