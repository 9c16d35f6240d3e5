//! An owned memory block: exactly one allocation, with its size,
//! alignment and freed state.  `freed` moves from `false` to `true`
//! exactly once; a second `free` reports the double free and changes
//! nothing.

use vstd::prelude::*;

use crate::mem::allocator::{alloc_memblock, free_memblock, AllocError, AllocSuccess};
use crate::mem::defs::{is_pow2, BlockSize, ALIGNMENT, MAX_ALIGNMENT, MAX_MEMBLOCK_SIZE};

verus! {

/// A memory block for the stack or the heap: an owned byte arena with
/// a fixed size and alignment, and a freed flag.
pub struct MemBlock {
    arena: Vec<u8>,
    align: usize,
    size: BlockSize,
    is_freed: bool,
}

/// Memory block errors.
#[derive(Debug, PartialEq, Eq, Structural)]
pub enum MemError {
    OutOfMemory,
    PointerOverflow,
}

/// The outcome of one `free` step, as a function of whether the block
/// was already freed: `(reported success, freed afterwards)`.
pub open spec fn spec_free_step(freed_before: bool) -> (bool, bool) {
    (!freed_before, true)
}

impl MemBlock {
    /// Size in bytes, as fixed at construction.
    pub closed spec fn spec_size(&self) -> nat {
        self.size as nat
    }

    /// Alignment in bytes, as fixed at construction.
    pub closed spec fn spec_align(&self) -> nat {
        self.align as nat
    }

    /// Whether the block's storage has been released.
    pub closed spec fn spec_freed(&self) -> bool {
        self.is_freed
    }

    /// The block's current contents.  A freed block holds nothing.
    pub closed spec fn spec_bytes(&self) -> Seq<u8> {
        self.arena@
    }

    /// Well-formedness: validated size and alignment, and an arena of
    /// exactly `size` bytes as long as the block is live.
    pub closed spec fn wf(&self) -> bool {
        &&& is_pow2(self.size as nat)
        &&& self.size <= MAX_MEMBLOCK_SIZE
        &&& is_pow2(self.align as nat)
        &&& self.align <= MAX_ALIGNMENT
        &&& if self.is_freed {
            self.arena@.len() == 0
        } else {
            self.arena@.len() == self.size
        }
    }

    /// Everything `wf` promises about a live block, available to
    /// callers that only see the spec accessors.
    pub proof fn lemma_wf(&self)
        requires
            self.wf(),
        ensures
            is_pow2(self.spec_size()),
            self.spec_size() <= MAX_MEMBLOCK_SIZE,
            !self.spec_freed() ==> self.spec_bytes().len() == self.spec_size(),
            self.spec_freed() ==> self.spec_bytes().len() == 0,
    {
    }

    /// Generate a new memory block of `size` bytes with alignment
    /// [`ALIGNMENT`].  `size` must be a power of two no larger than
    /// [`MAX_MEMBLOCK_SIZE`]; otherwise the corresponding error is
    /// returned and nothing is allocated.
    pub fn new(size: usize) -> (r: Result<MemBlock, AllocError>)
        ensures
            r is Ok <==> (is_pow2(size as nat) && size <= MAX_MEMBLOCK_SIZE),
            r matches Ok(b) ==> b.wf() && b.spec_size() == size && b.spec_align() == ALIGNMENT
                && !b.spec_freed() && forall|i: int| 0 <= i < b.spec_bytes().len() ==> b.spec_bytes()[i] == 0u8,
            !is_pow2(size as nat) ==> r == Err::<MemBlock, AllocError>(AllocError::NotPowerOfTwo),
            is_pow2(size as nat) && size > MAX_MEMBLOCK_SIZE ==> r == Err::<MemBlock, AllocError>(
                AllocError::InvalidBlockSize,
            ),
    {
        proof {
            crate::mem::defs::lemma_pow2_constants();
        }
        if crate::mem::defs::check_pow2(size) {
            match alloc_memblock(size, ALIGNMENT) {
                Ok(arena) => Ok(
                    MemBlock { arena, align: ALIGNMENT, size, is_freed: false },
                ),
                Err(err) => Err(err),
            }
        } else {
            Err(AllocError::NotPowerOfTwo)
        }
    }

    /// The block's size in bytes.
    pub fn get_size(&self) -> (r: usize)
        ensures
            r == self.spec_size(),
    {
        self.size
    }

    /// The block's storage; offsets within the block index into it.
    pub fn get_ptr(&self) -> (r: &Vec<u8>)
        ensures
            r@ == self.spec_bytes(),
    {
        &self.arena
    }

    /// The offset of the block's start.  Offsets are block-relative,
    /// so the start is always 0.
    pub fn as_ptr(&self) -> (r: usize)
        ensures
            r == 0,
    {
        0
    }

    /// Read `len` bytes starting at `offset`.
    pub fn read_bytes(&self, offset: usize, len: usize) -> (r: Vec<u8>)
        requires
            self.wf(),
            !self.spec_freed(),
            offset + len <= self.spec_size(),
        ensures
            r@ == self.spec_bytes().subrange(offset as int, offset + len),
    {
        let mut out: Vec<u8> = Vec::new();
        let mut i: usize = 0;
        while i < len
            invariant
                i <= len,
                offset + len <= MAX_MEMBLOCK_SIZE,
                offset + len <= self.arena@.len(),
                out@ == self.arena@.subrange(offset as int, offset + i),
            decreases len - i,
        {
            out.push(self.arena[offset + i]);
            proof {
                assert(out@ =~= self.arena@.subrange(offset as int, offset + i + 1));
            }
            i = i + 1;
        }
        out
    }

    /// Write `data` starting at `offset`; the rest of the block is
    /// untouched.
    pub fn write_bytes(&mut self, offset: usize, data: &Vec<u8>)
        requires
            old(self).wf(),
            !old(self).spec_freed(),
            offset + data@.len() <= old(self).spec_size(),
        ensures
            final(self).wf(),
            final(self).spec_size() == old(self).spec_size(),
            final(self).spec_align() == old(self).spec_align(),
            !final(self).spec_freed(),
            final(self).spec_bytes() == old(self).spec_bytes().subrange(0, offset as int) + data@
                + old(self).spec_bytes().subrange(
                offset + data@.len(),
                old(self).spec_size() as int,
            ),
    {
        let mut i: usize = 0;
        while i < data.len()
            invariant
                i <= data@.len(),
                offset + data@.len() <= MAX_MEMBLOCK_SIZE,
                offset + data@.len() <= self.arena@.len(),
                self.arena@.len() == old(self).arena@.len(),
                self.align == old(self).align,
                self.size == old(self).size,
                self.is_freed == old(self).is_freed,
                forall|j: int| 0 <= j < offset ==> self.arena@[j] == old(self).arena@[j],
                forall|j: int|
                    offset <= j < offset + i ==> self.arena@[j] == data@[j - offset],
                forall|j: int|
                    offset + data@.len() <= j < self.arena@.len() ==> self.arena@[j] == old(
                        self,
                    ).arena@[j],
            decreases data@.len() - i,
        {
            let b = data[i];
            self.arena[offset + i] = b;
            i = i + 1;
        }
        proof {
            assert(self.arena@ =~= old(self).arena@.subrange(0, offset as int) + data@ + old(
                self,
            ).arena@.subrange(offset + data@.len(), old(self).arena@.len() as int));
        }
    }

    /// Release the block's storage.  The first call frees the arena
    /// and reports `MemoryFreed`; every later call reports
    /// `MemoryAlreadyFreed` and has no effect.  Size and alignment
    /// stay observable either way.
    pub fn free(&mut self) -> (r: Result<AllocSuccess, AllocError>)
        requires
            old(self).wf(),
        ensures
            final(self).wf(),
            final(self).spec_size() == old(self).spec_size(),
            final(self).spec_align() == old(self).spec_align(),
            (r is Ok, final(self).spec_freed()) == spec_free_step(old(self).spec_freed()),
            !old(self).spec_freed() ==> r == Ok::<AllocSuccess, AllocError>(
                AllocSuccess::MemoryFreed,
            ),
            old(self).spec_freed() ==> r == Err::<AllocSuccess, AllocError>(
                AllocError::MemoryAlreadyFreed,
            ) && *final(self) == *old(self),
    {
        if !self.is_freed {
            let mut arena: Vec<u8> = Vec::new();
            core::mem::swap(&mut self.arena, &mut arena);
            let r = free_memblock(self.size, self.align, arena);
            self.is_freed = true;
            r
        } else {
            Err(AllocError::MemoryAlreadyFreed)
        }
    }
}

/// Freeing a freshly allocated block succeeds, and freeing it a second
/// time reports the double free; the block stays freed and nothing
/// else about it changes (sizes and alignment are preserved by
/// [`MemBlock::free`] itself).
pub proof fn lemma_allocate_free_free()
    ensures
        ({
            let (ok1, freed1) = spec_free_step(false);
            let (ok2, freed2) = spec_free_step(freed1);
            ok1 && !ok2 && freed1 && freed2
        }),
{
}

} // verus!
