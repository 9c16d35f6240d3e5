//! Memory block allocation, writing, reading and de-allocation.

use hhat_core::mem::allocator::{alloc_memblock, free_memblock, AllocError, AllocSuccess};
use hhat_core::mem::base;
use hhat_core::mem::block;
use hhat_core::mem::defs::MAX_MEMBLOCK_SIZE;

/// Create small memory blocks with `alloc_memblock` and `base::MemBlock`.
#[test]
fn create_memblock_small() {
    println!("Create memblock small:");

    let align: usize = 8;
    let block_size: usize = (1 << 4) as usize; // 16
    let block_ptr1 = alloc_memblock(block_size, align);
    let block_ptr2 = alloc_memblock(block_size, align);

    let arena1: Vec<u8> = match block_ptr1 {
        Ok(x) => {
            println!("  - allocated memory 1! {:} , {:}", x.len(), block_size);
            x
        }
        Err(_) => {
            return assert!(false);
        }
    };

    let arena2: Vec<u8> = match block_ptr2 {
        Ok(x) => {
            println!("  - allocated memory 2! {:}, {:}", x.len(), block_size);
            x
        }
        Err(_) => return assert!(false),
    };

    let mut memblock: base::MemBlock = match base::MemBlock::new(block_size) {
        Ok(x) => {
            assert_eq!(x.get_size(), block_size);
            println!("  - memblock ptr is equal to {:}", block_size + 16);
            x
        }
        Err(_) => {
            return assert!(false);
        }
    };

    match free_memblock(block_size, align, arena1) {
        Ok(AllocSuccess::MemoryFreed) => assert!(true),
        Ok(_other) => assert!(false),
        Err(_) => assert!(false),
    };

    match free_memblock(block_size, align, arena2) {
        Ok(AllocSuccess::MemoryFreed) => assert!(true),
        Ok(_other) => assert!(false),
        Err(_) => assert!(false),
    };

    match memblock.free() {
        Ok(AllocSuccess::MemoryFreed) => assert!(true),
        Ok(_other) => assert!(false),
        Err(_) => assert!(false),
    }
}

/// Create the largest memory blocks enabled with `base::MemBlock`.
#[test]
fn create_memblock_large() {
    println!("Create memblock large:");

    assert!(MAX_MEMBLOCK_SIZE.is_power_of_two());

    let mut memblock: base::MemBlock = match base::MemBlock::new(MAX_MEMBLOCK_SIZE) {
        Ok(x) => {
            assert_eq!(x.get_size(), MAX_MEMBLOCK_SIZE);
            println!("memblock with the expected size {:}", MAX_MEMBLOCK_SIZE);
            x
        }
        Err(_) => {
            return assert!(false);
        }
    };

    let _ = memblock.free();
}

/// Memory block allocation, writing, reading and de-allocation.
#[test]
fn test_simple_memblock_operations() {
    println!("== simple memblock alloc ==");

    let max_size = MAX_MEMBLOCK_SIZE;
    assert_eq!(max_size, MAX_MEMBLOCK_SIZE);

    let mut memblock = block::MemBlock::new(max_size, 8usize).unwrap();
    println!(" - memblock");
    println!("   - [x] ptr: {}", memblock.as_ptr());

    let data_ptr = memblock.push(1u64).unwrap();
    println!("   - [x] input data: {}", 1u64);
    assert!(memblock.as_ptr() + 8 <= memblock.as_ptr() + memblock.get_size());
    println!("   - [x] push data, received ptr: {:}", data_ptr);

    let retrieved_data = memblock.peek(data_ptr);
    assert_eq!(retrieved_data, 1u64);
    println!("   - [x] peek data: {:}", retrieved_data);

    let (d, ds, p) = match memblock.pop(data_ptr) {
        Ok((x, y, z)) => (x, y, z),
        Err(e) => panic!("{:?}", e),
    };
    assert_eq!(d, 1u64);
    assert_eq!(ds, 8);
    assert_eq!(p, memblock.as_ptr());
    println!("   - [x] pop data:");
    println!("   -   - [x] retrieved data: {:}", d);
    println!("   -   - [x] retrieved data size: {:}", ds);
    println!("   -   - [x] retrieved new pointer: {:}", p);

    memblock.free().unwrap();
    println!("   - [x] memblock freed");

    println!("=====================");
}

/// Many memory blocks allocation, writing, reading and de-allocation.
#[test]
fn test_many_memblocks_operations() {}

/// A non-power-of-two size is rejected before any allocation.
#[test]
fn allocate_rejects_non_power_of_two() {
    assert!(matches!(
        alloc_memblock(24, 8),
        Err(AllocError::NotPowerOfTwo)
    ));
    assert!(matches!(
        base::MemBlock::new(24),
        Err(AllocError::NotPowerOfTwo)
    ));
    assert!(matches!(
        alloc_memblock(16, 3),
        Err(AllocError::NotPowerOfTwo)
    ));
}

/// An alignment beyond the platform bound is not realizable.
#[test]
fn allocate_rejects_unrealizable_constraints() {
    assert!(matches!(
        alloc_memblock(16, 8192),
        Err(AllocError::ConstraintsNotSatisfied)
    ));
    assert!(matches!(
        alloc_memblock(8192, 8),
        Err(AllocError::InvalidBlockSize)
    ));
    assert!(matches!(
        base::MemBlock::new(8192),
        Err(AllocError::InvalidBlockSize)
    ));
}

/// Allocate, free, free again: success, then the double free is
/// reported, and the block stays observable and uncorrupted.
#[test]
fn free_then_free_reports_double_free() {
    let mut b = base::MemBlock::new(64).unwrap();
    assert!(matches!(b.free(), Ok(AllocSuccess::MemoryFreed)));
    assert!(matches!(b.free(), Err(AllocError::MemoryAlreadyFreed)));
    assert_eq!(b.get_size(), 64);
    // and once more: still only the report, no corruption
    assert!(matches!(b.free(), Err(AllocError::MemoryAlreadyFreed)));
    assert_eq!(b.get_size(), 64);
}

/// The idempotent free of the block layer: the first call frees, every
/// later call only reports.
#[test]
fn block_free_is_idempotent() {
    let mut b = block::MemBlock::new(64, 8).unwrap();
    assert!(matches!(b.free(), Ok(block::MemAllocSuccess::MemoryFreed)));
    assert!(matches!(
        b.free(),
        Ok(block::MemAllocSuccess::MemoryAlreadyFreed)
    ));
}

/// Writing bytes and reading the same range back returns them
/// bit-identically, at any in-range offset.
#[test]
fn write_read_round_trip() {
    let mut b = base::MemBlock::new(64).unwrap();
    b.write_bytes(5, &vec![1, 2, 3]);
    assert_eq!(b.read_bytes(5, 3), vec![1, 2, 3]);
    // a fresh block reads zero elsewhere
    assert_eq!(b.read_bytes(0, 5), vec![0, 0, 0, 0, 0]);
    assert_eq!(b.read_bytes(8, 2), vec![0, 0]);
    // offsets at the very end work too
    b.write_bytes(61, &vec![9, 8, 7]);
    assert_eq!(b.read_bytes(61, 3), vec![9, 8, 7]);
    // the first write is still intact
    assert_eq!(b.read_bytes(5, 3), vec![1, 2, 3]);
}

/// Block-level size and layout validation.
#[test]
fn block_new_validation() {
    assert!(matches!(
        block::MemBlock::new(8192, 8),
        Err(block::MemAllocError::InvalidBlockSize)
    ));
    assert!(matches!(
        block::MemBlock::new(24, 8),
        Err(block::MemAllocError::NotPowerOfTwo)
    ));
    assert!(matches!(
        block::MemBlock::new(16, 3),
        Err(block::MemAllocError::LayoutError)
    ));
    assert!(matches!(
        free_memblock(16, 3, Vec::new()),
        Err(AllocError::ConstraintsNotSatisfied)
    ));
}

/// A too-small block reports overflow on push.
#[test]
fn block_push_overflow() {
    let mut b = block::MemBlock::new(8, 8).unwrap();
    assert!(matches!(b.push(7u64), Err(block::MemAllocError::MemoryOverflow)));
    let mut b2 = block::MemBlock::new(16, 8).unwrap();
    assert_eq!(b2.push(7u64).unwrap(), 8);
}
