//! An owner of a block of memory that gives the block back to the allocator
//! when it goes out of scope, unless the block is taken out of it first.
//!
//! It is for code that allocates, then does something that can fail, and
//! only then hands the block on: every early return frees the block.

use vstd::prelude::*;

use crate::error::AllocError;

verus! {

/// A block of `size` bytes, all zero.
pub open spec fn zeroed(size: nat) -> Seq<u8> {
    Seq::new(size, |i: int| 0u8)
}

/// The owner of one block of bytes.
pub struct AllocGuard {
    block: Vec<u8>,
}

impl View for AllocGuard {
    type V = Seq<u8>;

    /// The bytes of the block.
    closed spec fn view(&self) -> Seq<u8> {
        self.block@
    }
}

impl AllocGuard {
    /// Makes a guard of `block`, for which room for `size` bytes was or was
    /// not `granted`: a zeroed block of `size` bytes if it was, the failure
    /// if it was not. What `block` held before does not matter.
    pub fn new_granted(block: Vec<u8>, size: usize, granted: bool) -> (res: Result<
        AllocGuard,
        AllocError,
    >)
        ensures
            granted ==> res is Ok && res->Ok_0@ == zeroed(size as nat),
            !granted ==> res is Err,
    {
        if !granted {
            return Err(AllocError);
        }
        let mut block = block;
        block.clear();
        while block.len() < size
            invariant
                block.len() <= size,
                block@ == zeroed(block.len() as nat),
            decreases size - block.len(),
        {
            block.push(0u8);
        }
        Ok(AllocGuard { block })
    }

    /// Allocates a zeroed block of `size` bytes. Fails, with nothing
    /// allocated, when the allocator has no room for it.
    ///
    /// A block of no bytes needs no memory: it is always had, and the
    /// allocator is not asked. A block of more than `isize::MAX` bytes
    /// cannot exist: it is refused, and the allocator is not asked either.
    pub fn new(size: usize) -> (res: Result<AllocGuard, AllocError>)
        ensures
            size == 0 ==> res is Ok,
            size > isize::MAX ==> res is Err,
            res matches Ok(guard) ==> guard@ == zeroed(size as nat),
    {
        if size == 0 {
            return AllocGuard::new_granted(Vec::new(), 0, true);
        }
        if size > isize::MAX as usize {
            return Err(AllocError);
        }
        let mut block: Vec<u8> = Vec::new();
        let granted = match block.try_reserve(size) {
            Ok(_) => true,
            Err(_) => false,
        };
        AllocGuard::new_granted(block, size, granted)
    }

    /// Adopts a block that was allocated elsewhere.
    pub fn from_ptr(block: Vec<u8>) -> (guard: AllocGuard)
        ensures
            guard@ == block@,
    {
        AllocGuard { block }
    }

    /// The size of the block in bytes.
    pub fn size(&self) -> (n: usize)
        ensures
            n == self@.len(),
    {
        self.block.len()
    }

    /// The block inside, for reading.
    pub fn ptr(&self) -> (block: &[u8])
        ensures
            block@ == self@,
    {
        self.block.as_slice()
    }

    /// The block inside, for writing.
    pub fn ptr_mut(&mut self) -> (block: &mut [u8])
        ensures
            block@ == old(self)@,
            final(self)@ == final(block)@,
    {
        self.block.as_mut_slice()
    }

    /// Ends the guard without freeing the block, which passes to the
    /// caller. Called when the ownership of the block is handed on.
    pub fn consume(self) -> (block: Vec<u8>)
        ensures
            block@ == self@,
    {
        self.block
    }
}

} // verus!
