//! Block allocation primitives.
//!
//! A block is an owned byte arena with an explicit size and alignment;
//! callers address its contents with offsets from the block start, so
//! no raw addresses ever escape this layer.  Size and alignment are
//! validated before any storage is obtained.

use vstd::prelude::*;

use crate::mem::defs::{is_pow2, BlockSize, MAX_ALIGNMENT, MAX_MEMBLOCK_SIZE};

verus! {

/// Successful outcomes of allocator operations.
#[derive(Debug, PartialEq, Eq, Structural)]
pub enum AllocSuccess {
    MemoryFreed,
    PointerFreed,
}

/// Allocation failures.
#[derive(Debug, PartialEq, Eq, Structural)]
pub enum AllocError {
    NotPowerOfTwo,
    InvalidBlockSize,
    InvalidAlignment,
    ConstraintsNotSatisfied,
    NotEnoughMemory,
    NullPointer,
    MemoryAlreadyFreed,
}

/// The conditions under which a `(size, align)` request is granted:
/// both must be powers of two, the size must not exceed the block cap,
/// and the alignment must be realizable on the platform.
pub open spec fn alloc_request_ok(size: nat, align: nat) -> bool {
    &&& is_pow2(size)
    &&& is_pow2(align)
    &&& size <= MAX_MEMBLOCK_SIZE
    &&& align <= MAX_ALIGNMENT
}

/// Obtain storage for a memory block of `block_size` bytes with the
/// given alignment.  The storage is returned as an owned, zeroed byte
/// arena of exactly `block_size` bytes; offsets into it start at 0.
pub fn alloc_memblock(block_size: BlockSize, align: usize) -> (r: Result<Vec<u8>, AllocError>)
    ensures
        r is Ok <==> alloc_request_ok(block_size as nat, align as nat),
        r matches Ok(v) ==> v@.len() == block_size && forall|i: int|
            0 <= i < v@.len() ==> v@[i] == 0u8,
        !(is_pow2(block_size as nat) && is_pow2(align as nat)) ==> r == Err::<
            Vec<u8>,
            AllocError,
        >(AllocError::NotPowerOfTwo),
        is_pow2(block_size as nat) && is_pow2(align as nat) && block_size > MAX_MEMBLOCK_SIZE ==> r
            == Err::<Vec<u8>, AllocError>(AllocError::InvalidBlockSize),
        is_pow2(block_size as nat) && is_pow2(align as nat) && block_size <= MAX_MEMBLOCK_SIZE
            && align > MAX_ALIGNMENT ==> r == Err::<Vec<u8>, AllocError>(
            AllocError::ConstraintsNotSatisfied,
        ),
{
    if !crate::mem::defs::check_pow2(block_size) || !crate::mem::defs::check_pow2(align) {
        return Err(AllocError::NotPowerOfTwo);
    }
    if block_size > MAX_MEMBLOCK_SIZE {
        return Err(AllocError::InvalidBlockSize);
    }
    if align > MAX_ALIGNMENT {
        return Err(AllocError::ConstraintsNotSatisfied);
    }
    let mut arena: Vec<u8> = Vec::new();
    let mut i: usize = 0;
    while i < block_size
        invariant
            i <= block_size,
            arena@.len() == i,
            forall|j: int| 0 <= j < i ==> arena@[j] == 0u8,
        decreases block_size - i,
    {
        arena.push(0u8);
        i = i + 1;
    }
    Ok(arena)
}

/// Release the storage of a memory block.  The size and alignment are
/// validated as they were on allocation; the arena itself is consumed.
pub fn free_memblock(block_size: BlockSize, align: usize, arena: Vec<u8>) -> (r: Result<
    AllocSuccess,
    AllocError,
>)
    ensures
        r is Ok <==> (is_pow2(align as nat) && align <= MAX_ALIGNMENT),
        r matches Ok(s) ==> s is MemoryFreed,
        !(is_pow2(align as nat) && align <= MAX_ALIGNMENT) ==> r == Err::<
            AllocSuccess,
            AllocError,
        >(AllocError::ConstraintsNotSatisfied),
{
    if !crate::mem::defs::check_pow2(align) || align > MAX_ALIGNMENT {
        return Err(AllocError::ConstraintsNotSatisfied);
    }
    let _ = arena;
    Ok(AllocSuccess::MemoryFreed)
}

} // verus!
