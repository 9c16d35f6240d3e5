//! Shared definitions for the memory layer: the block size type, the
//! global alignment, the block size cap, and the power-of-two predicate
//! that every block size and alignment must satisfy.

use vstd::prelude::*;

verus! {

/// Byte size of a memory block.
pub type BlockSize = usize;

/// Upper bound on the byte size of a single memory block.
pub const MAX_MEMBLOCK_SIZE: usize = 4096;

/// Alignment, in bytes, of every block, and the boundary the stack
/// cursor is rounded down to on allocation.
pub const ALIGNMENT: usize = 8;

/// Largest alignment the underlying platform is assumed to honour;
/// a request beyond it is not realizable.
pub const MAX_ALIGNMENT: usize = 4096;

/// Spec-level power-of-two test.
pub open spec fn is_pow2(n: nat) -> bool
    decreases n,
{
    if n == 0 {
        false
    } else if n == 1 {
        true
    } else {
        n % 2 == 0 && is_pow2(n / 2)
    }
}

/// The fixed sizes of this layer are themselves powers of two.
pub proof fn lemma_pow2_constants()
    ensures
        is_pow2(ALIGNMENT as nat),
        is_pow2(MAX_MEMBLOCK_SIZE as nat),
        is_pow2(MAX_ALIGNMENT as nat),
{
    reveal_with_fuel(is_pow2, 14);
    assert(is_pow2(8nat));
    assert(is_pow2(4096nat));
}

/// Executable power-of-two test, proved against `is_pow2`.
pub fn check_pow2(n: usize) -> (r: bool)
    ensures
        r == is_pow2(n as nat),
{
    if n == 0 {
        return false;
    }
    let mut m: usize = n;
    while m > 1
        invariant
            1 <= m <= n,
            is_pow2(n as nat) == is_pow2(m as nat),
        decreases m,
    {
        if m % 2 != 0 {
            return false;
        }
        m = m / 2;
    }
    true
}

} // verus!
