//! The paged bump stack: page allocation, alignment, payload
//! round-trips, paging in, and popping as the inverse of pushing.

use hhat_core::mem::defs::MAX_MEMBLOCK_SIZE;
use hhat_core::mem::stack::{StackError, StackMemory, StackPage};

/// A stack page of 64 bytes: pushing an 8-byte value moves the cursor
/// down by 8, peeking at the returned offset yields the value, and a
/// push of 64 more bytes no longer fits.
#[test]
fn page_push_peek_and_exhaustion() {
    let mut page = StackPage::new(64).unwrap();
    assert_eq!(page.cursor(), 64);

    let off = page.allocate(8).unwrap();
    assert_eq!(off, 56); // cursor decreased by 8, alignment-rounded
    assert_eq!(page.cursor(), 56);

    page.write(&vec![42, 0, 0, 0, 0, 0, 0, 0], off);
    assert_eq!(page.peek(off), 42);

    assert!(matches!(page.allocate(64), Err(StackError::NotEnoughMemory)));
    assert_eq!(page.cursor(), 56);
}

/// When the current page is exhausted, the stack pages in a new one
/// and the retried push succeeds.
#[test]
fn stack_opens_new_page_on_exhaustion() {
    let mut stack = StackMemory::new(2);
    // fill the first page completely
    let off0 = stack.push_bytes(MAX_MEMBLOCK_SIZE).unwrap();
    assert_eq!(off0, 0);
    assert_eq!(stack.page_cursor(0), 0);

    // the next push no longer fits there: a second page is opened
    let off1 = stack.push_bytes(64).unwrap();
    assert_eq!(off1, MAX_MEMBLOCK_SIZE - 64);
    assert_eq!(stack.page_cursor(1), MAX_MEMBLOCK_SIZE - 64);

    // the pushed slot on the new page holds data like any other
    stack.write(&vec![42, 0, 0, 0, 0, 0, 0, 0], off1);
    assert_eq!(stack.peek(off1), 42);
    assert_eq!(stack.read(off1, 2), vec![42, 0]);

    // the page budget is exhausted: a full-size push now fails
    assert!(matches!(
        stack.push_bytes(MAX_MEMBLOCK_SIZE),
        Err(StackError::NotEnoughMemory)
    ));
}

/// Page sizes are validated: not a power of two, too large, or too
/// small for one aligned slot.
#[test]
fn page_size_validation() {
    assert!(matches!(StackPage::new(63), Err(StackError::SizeNotPowerOfTwo)));
    assert!(matches!(
        StackPage::new(2 * MAX_MEMBLOCK_SIZE),
        Err(StackError::InvalidBlockSize)
    ));
    assert!(matches!(StackPage::new(4), Err(StackError::InvalidBlockSize)));
    assert!(StackPage::new(8).is_ok());
    assert!(StackPage::new(MAX_MEMBLOCK_SIZE).is_ok());
}

/// Allocation sizes are rounded to the alignment boundary: a 3-byte
/// push still moves the cursor a full slot down.
#[test]
fn allocation_rounds_to_alignment() {
    let mut page = StackPage::new(64).unwrap();
    let off = page.allocate(3).unwrap();
    assert_eq!(off, 56);
    let off2 = page.allocate(9).unwrap();
    assert_eq!(off2, 40);
}

/// Popping the size just pushed returns the cursor to its pre-push
/// value, also for sizes that were alignment-rounded.
#[test]
fn pop_is_inverse_of_push() {
    let mut stack = StackMemory::new(1);
    let before = stack.page_cursor(0);
    assert_eq!(before, MAX_MEMBLOCK_SIZE);

    stack.push_bytes(8).unwrap();
    assert_eq!(stack.page_cursor(0), MAX_MEMBLOCK_SIZE - 8);
    stack.pop(8);
    assert_eq!(stack.page_cursor(0), before);

    stack.push_bytes(13).unwrap();
    assert_eq!(stack.page_cursor(0), MAX_MEMBLOCK_SIZE - 16);
    stack.pop(13);
    assert_eq!(stack.page_cursor(0), before);
}

/// A zero page budget means no page can ever be opened.
#[test]
fn zero_budget_stack_cannot_push() {
    let mut stack = StackMemory::new(0);
    assert!(matches!(stack.push_bytes(8), Err(StackError::NotEnoughMemory)));
    assert!(matches!(stack.new_page(64), Err(StackError::NotEnoughMemory)));
}

/// `new_page` validates the size and respects the budget.
#[test]
fn new_page_validation() {
    let mut stack = StackMemory::new(2);
    assert!(matches!(stack.new_page(63), Err(StackError::SizeNotPowerOfTwo)));
    assert!(matches!(stack.new_page(4), Err(StackError::InvalidBlockSize)));
    assert!(matches!(
        stack.new_page(2 * MAX_MEMBLOCK_SIZE),
        Err(StackError::InvalidBlockSize)
    ));
    assert!(stack.new_page(64).is_ok());
    assert_eq!(stack.page_cursor(1), 64);
    assert!(matches!(stack.new_page(64), Err(StackError::NotEnoughMemory)));
}

/// Page-level write and read round-trip any payload at any in-range
/// offset.
#[test]
fn page_write_read_round_trip() {
    let mut page = StackPage::new(64).unwrap();
    page.write(&vec![1, 2, 3, 4], 10);
    assert_eq!(page.read(10, 4), vec![1, 2, 3, 4]);
    assert_eq!(page.read(9, 1), vec![0]);
    page.write(&vec![255], 0);
    assert_eq!(page.read(0, 2), vec![255, 0]);
    assert_eq!(page.read(10, 4), vec![1, 2, 3, 4]);
}

/// Freeing a page releases its block.
#[test]
fn page_free() {
    let mut page = StackPage::new(64).unwrap();
    assert!(page.free().is_ok());
}
