//! A memory block with a word-level read/write boundary.
//!
//! The block is an owned byte arena; a fixed-size payload (one 64-bit
//! word) is encoded into and decoded out of it little-endian at
//! block-relative offsets.  The block itself keeps no cursor: the
//! caller (a stack or heap layer) owns that bookkeeping and passes the
//! offsets in.

use vstd::bytes::{spec_u64_from_le_bytes, spec_u64_to_le_bytes, u64_from_le_bytes, u64_to_le_bytes};
use vstd::prelude::*;
use vstd::slice::slice_subrange;

use crate::mem::defs::{is_pow2, BlockSize, MAX_ALIGNMENT, MAX_MEMBLOCK_SIZE};

verus! {

/// Number of bytes of one stored word.
pub const WORD_SIZE: usize = 8;

/// A holder for one raw allocation: its byte arena, total size,
/// alignment, and freed state.
pub struct MemBlock {
    arena: Vec<u8>,
    size: BlockSize,
    align: usize,
    is_freed: bool,
}

/// Block-level allocation and access errors.
#[derive(Debug, PartialEq, Eq, Structural)]
pub enum MemAllocError {
    EmptyMemory,
    InvalidBlockSize,
    InvalidAlignment,
    LayoutError,
    MemoryAlreadyFreed,
    MemoryOverflow,
    NotEnoughMemory,
    NotPowerOfTwo,
    NullPointer,
}

/// Block-level success reports.
#[derive(Debug, PartialEq, Eq, Structural)]
pub enum MemAllocSuccess {
    MemoryFreed,
    MemoryAlreadyFreed,
    DataPushedToMemory,
}

impl MemBlock {
    /// Size in bytes, as fixed at construction.
    pub closed spec fn spec_size(&self) -> nat {
        self.size as nat
    }

    /// Alignment in bytes, as fixed at construction.
    pub closed spec fn spec_align(&self) -> nat {
        self.align as nat
    }

    /// Whether the block's storage has been released.
    pub closed spec fn spec_freed(&self) -> bool {
        self.is_freed
    }

    /// The block's current contents.  A freed block holds nothing.
    pub closed spec fn spec_bytes(&self) -> Seq<u8> {
        self.arena@
    }

    /// Well-formedness: validated size and alignment, and an arena of
    /// exactly `size` bytes as long as the block is live.
    pub closed spec fn wf(&self) -> bool {
        &&& is_pow2(self.size as nat)
        &&& self.size <= MAX_MEMBLOCK_SIZE
        &&& is_pow2(self.align as nat)
        &&& self.align <= MAX_ALIGNMENT
        &&& if self.is_freed {
            self.arena@.len() == 0
        } else {
            self.arena@.len() == self.size
        }
    }

    /// Everything `wf` promises, available to callers that only see
    /// the spec accessors: most of all, that a live block's contents
    /// are exactly `size` bytes, which ties what `peek` and `pop`
    /// decode back to what `push` stored.
    pub proof fn lemma_wf(&self)
        requires
            self.wf(),
        ensures
            is_pow2(self.spec_size()),
            self.spec_size() <= MAX_MEMBLOCK_SIZE,
            !self.spec_freed() ==> self.spec_bytes().len() == self.spec_size(),
            self.spec_freed() ==> self.spec_bytes().len() == 0,
    {
    }

    /// Create a new memory block of `size` bytes (a power of two, no
    /// larger than [`MAX_MEMBLOCK_SIZE`]) with the given alignment (a
    /// power of two the platform can honour).
    pub fn new(size: BlockSize, align: usize) -> (r: Result<MemBlock, MemAllocError>)
        ensures
            r is Ok <==> (size <= MAX_MEMBLOCK_SIZE && is_pow2(size as nat) && is_pow2(
                align as nat,
            ) && align <= MAX_ALIGNMENT),
            r matches Ok(b) ==> b.wf() && b.spec_size() == size && b.spec_align() == align
                && !b.spec_freed() && b.spec_bytes().len() == size && forall|i: int|
                0 <= i < b.spec_bytes().len() ==> b.spec_bytes()[i] == 0u8,
            size > MAX_MEMBLOCK_SIZE ==> r == Err::<MemBlock, MemAllocError>(
                MemAllocError::InvalidBlockSize,
            ),
            size <= MAX_MEMBLOCK_SIZE && !is_pow2(size as nat) ==> r == Err::<
                MemBlock,
                MemAllocError,
            >(MemAllocError::NotPowerOfTwo),
            size <= MAX_MEMBLOCK_SIZE && is_pow2(size as nat) && !(is_pow2(align as nat) && align
                <= MAX_ALIGNMENT) ==> r == Err::<MemBlock, MemAllocError>(
                MemAllocError::LayoutError,
            ),
    {
        if size > MAX_MEMBLOCK_SIZE {
            return Err(MemAllocError::InvalidBlockSize);
        }
        if !crate::mem::defs::check_pow2(size) {
            return Err(MemAllocError::NotPowerOfTwo);
        }
        if !crate::mem::defs::check_pow2(align) || align > MAX_ALIGNMENT {
            return Err(MemAllocError::LayoutError);
        }
        let mut arena: Vec<u8> = Vec::new();
        let mut i: usize = 0;
        while i < size
            invariant
                i <= size,
                arena@.len() == i,
                forall|j: int| 0 <= j < i ==> arena@[j] == 0u8,
            decreases size - i,
        {
            arena.push(0u8);
            i = i + 1;
        }
        Ok(MemBlock { arena, size, align, is_freed: false })
    }

    /// Release the block's storage.  The first call frees it and
    /// reports `MemoryFreed`; every later call reports
    /// `MemoryAlreadyFreed` and has no effect.
    pub fn free(&mut self) -> (r: Result<MemAllocSuccess, MemAllocError>)
        requires
            old(self).wf(),
        ensures
            final(self).wf(),
            final(self).spec_size() == old(self).spec_size(),
            final(self).spec_align() == old(self).spec_align(),
            final(self).spec_freed(),
            !old(self).spec_freed() ==> r == Ok::<MemAllocSuccess, MemAllocError>(
                MemAllocSuccess::MemoryFreed,
            ),
            old(self).spec_freed() ==> r == Ok::<MemAllocSuccess, MemAllocError>(
                MemAllocSuccess::MemoryAlreadyFreed,
            ) && *final(self) == *old(self),
    {
        if !self.is_freed {
            let mut arena: Vec<u8> = Vec::new();
            core::mem::swap(&mut self.arena, &mut arena);
            self.is_freed = true;
            Ok(MemAllocSuccess::MemoryFreed)
        } else {
            Ok(MemAllocSuccess::MemoryAlreadyFreed)
        }
    }

    /// The offset of the block's start.  Offsets are block-relative,
    /// so the start is always 0.
    pub fn as_ptr(&self) -> (r: usize)
        ensures
            r == 0,
    {
        0
    }

    /// The block's size in bytes.
    pub fn get_size(&self) -> (r: usize)
        ensures
            r == self.spec_size(),
    {
        self.size
    }

    /// Push one word into the block and return the offset it can be
    /// read back from.  The word occupies the first word slot above
    /// the block start, so the returned offset equals the word size;
    /// a block too small for that slot reports `MemoryOverflow`.
    pub fn push(&mut self, data: u64) -> (r: Result<usize, MemAllocError>)
        requires
            old(self).wf(),
            !old(self).spec_freed(),
        ensures
            final(self).wf(),
            !final(self).spec_freed(),
            final(self).spec_size() == old(self).spec_size(),
            final(self).spec_align() == old(self).spec_align(),
            old(self).spec_size() >= 2 * WORD_SIZE ==> r == Ok::<usize, MemAllocError>(WORD_SIZE)
                && final(self).spec_bytes() == old(self).spec_bytes().subrange(0, WORD_SIZE as int)
                + spec_u64_to_le_bytes(data) + old(self).spec_bytes().subrange(
                2 * WORD_SIZE,
                old(self).spec_size() as int,
            ),
            old(self).spec_size() < 2 * WORD_SIZE ==> r == Err::<usize, MemAllocError>(
                MemAllocError::MemoryOverflow,
            ) && *final(self) == *old(self),
    {
        let offset = WORD_SIZE;
        if offset <= self.size && self.size - offset >= WORD_SIZE {
            let encoded = u64_to_le_bytes(data);
            let mut i: usize = 0;
            while i < WORD_SIZE
                invariant
                    i <= WORD_SIZE,
                    encoded@ == spec_u64_to_le_bytes(data),
                    encoded@.len() == WORD_SIZE,
                    2 * WORD_SIZE <= self.arena@.len() <= MAX_MEMBLOCK_SIZE,
                    self.arena@.len() == old(self).arena@.len(),
                    self.size == old(self).size,
                    self.align == old(self).align,
                    self.is_freed == old(self).is_freed,
                    forall|j: int| 0 <= j < WORD_SIZE ==> self.arena@[j] == old(self).arena@[j],
                    forall|j: int|
                        WORD_SIZE <= j < WORD_SIZE + i ==> self.arena@[j] == encoded@[j
                            - WORD_SIZE],
                    forall|j: int|
                        2 * WORD_SIZE <= j < self.arena@.len() ==> self.arena@[j] == old(
                            self,
                        ).arena@[j],
                decreases WORD_SIZE - i,
            {
                let b = encoded[i];
                self.arena[WORD_SIZE + i] = b;
                i = i + 1;
            }
            proof {
                assert(self.arena@ =~= old(self).arena@.subrange(0, WORD_SIZE as int)
                    + spec_u64_to_le_bytes(data) + old(self).arena@.subrange(
                    2 * WORD_SIZE,
                    old(self).arena@.len() as int,
                ));
            }
            Ok(offset)
        } else {
            Err(MemAllocError::MemoryOverflow)
        }
    }

    /// Decode the word stored at `ptr`.  The offset is not changed:
    /// this only looks at the memory.
    pub fn peek(&self, ptr: usize) -> (r: u64)
        requires
            self.wf(),
            !self.spec_freed(),
            ptr + WORD_SIZE <= self.spec_size(),
        ensures
            r == spec_u64_from_le_bytes(self.spec_bytes().subrange(ptr as int, ptr + WORD_SIZE)),
    {
        let s = slice_subrange(self.arena.as_slice(), ptr, ptr + WORD_SIZE);
        u64_from_le_bytes(s)
    }

    /// Pop the word that ends the caller's bookkeeping: read it at the
    /// cursor offset handed in, and return it together with its size
    /// and the cursor moved back by exactly that size — the inverse of
    /// the push that stored it.
    pub fn pop(&mut self, cursor_ptr: usize) -> (r: Result<(u64, usize, usize), MemAllocError>)
        requires
            old(self).wf(),
            !old(self).spec_freed(),
            WORD_SIZE <= cursor_ptr,
            cursor_ptr + WORD_SIZE <= old(self).spec_size(),
        ensures
            *final(self) == *old(self),
            r matches Ok((data, data_size, new_cursor)) && data == spec_u64_from_le_bytes(
                old(self).spec_bytes().subrange(cursor_ptr as int, cursor_ptr + WORD_SIZE),
            ) && data_size == WORD_SIZE && new_cursor == cursor_ptr - WORD_SIZE,
    {
        let data = self.peek(cursor_ptr);
        Ok((data, WORD_SIZE, cursor_ptr - WORD_SIZE))
    }
}

} // verus!
