//! The stack memory container: pages of block storage used as a
//! downward-growing bump allocator.
//!
//! A [`StackPage`] owns one memory block and a cursor that starts at
//! the top of the block and only moves down on allocation, rounded
//! down to the alignment boundary.  A [`StackMemory`] holds an ordered
//! sequence of pages up to a configured maximum; when the current page
//! is exhausted it pages in a new one and retries once.  Popping is
//! the exact inverse of the matching push: the caller supplies the
//! size it pushed and the cursor returns to its pre-push value.

use vstd::bytes::{spec_u64_from_le_bytes, u64_from_le_bytes};
use vstd::prelude::*;

use crate::mem::allocator::{AllocError, AllocSuccess};
use crate::mem::base::MemBlock;
use crate::mem::defs::{is_pow2, ALIGNMENT, MAX_MEMBLOCK_SIZE};

verus! {

/// Possible stack errors to communicate.
#[derive(Debug, PartialEq, Eq, Structural)]
pub enum StackError {
    InvalidBlockSize,
    InvalidAlignment,
    InvalidStackPage,
    LayoutError,
    MemoryAlreadyFreed,
    NoNextPointer,
    NotEnoughMemory,
    NullPointer,
    SizeNotPowerOfTwo,
}

/// `x` rounded down to the alignment boundary.
pub open spec fn spec_align_down(x: int) -> int {
    x - (x % (ALIGNMENT as int))
}

/// `x` rounded up to the alignment boundary.
pub open spec fn spec_align_up(x: int) -> int {
    spec_align_down(x + (ALIGNMENT as int) - 1)
}

/// A power of two at least as large as the alignment is a multiple of
/// the alignment.
pub proof fn lemma_pow2_aligned(n: nat)
    requires
        is_pow2(n),
        n >= ALIGNMENT,
    ensures
        n % (ALIGNMENT as nat) == 0,
    decreases n,
{
    if n == ALIGNMENT {
    } else {
        assert(n % 2 == 0 && is_pow2(n / 2));
        if n / 2 < ALIGNMENT {
            // An even number strictly between the alignment and twice
            // the alignment has no power-of-two half.
            reveal_with_fuel(is_pow2, 4);
            assert(false);
        }
        lemma_pow2_aligned(n / 2);
        assert(n == 2 * (n / 2)) by (nonlinear_arith)
            requires
                n % 2 == 0,
        ;
        assert((2 * (n / 2)) % 8 == 0) by (nonlinear_arith)
            requires
                (n / 2) % 8 == 0,
        ;
    }
}

/// Rounding down lands on the boundary and never moves up.
pub proof fn lemma_align_down(x: int)
    requires
        x >= 0,
    ensures
        spec_align_down(x) % (ALIGNMENT as int) == 0,
        x - (ALIGNMENT as int) < spec_align_down(x) <= x,
{
    assert((x - (x % 8)) % 8 == 0 && x - 8 < x - (x % 8) <= x) by (nonlinear_arith)
        requires
            x >= 0,
    ;
}

/// From an aligned cursor, allocating `n` bytes moves the cursor down
/// by exactly `n` rounded up to the alignment; popping that amount is
/// therefore the exact inverse of the push.
pub proof fn lemma_push_pop_cursor(c: int, n: int)
    requires
        c % (ALIGNMENT as int) == 0,
        0 <= n <= c,
    ensures
        spec_align_down(c - n) == c - spec_align_up(n),
        spec_align_down(c - n) + spec_align_up(n) == c,
{
    assert((c - n) - ((c - n) % 8) == c - ((n + 7) - ((n + 7) % 8))) by (nonlinear_arith)
        requires
            c % 8 == 0,
            0 <= n <= c,
    ;
}

/// Writing a payload into a byte store and reading the same range back
/// yields the payload, bit for bit.
pub proof fn lemma_write_read_round_trip(bytes: Seq<u8>, offset: int, data: Seq<u8>)
    requires
        0 <= offset,
        offset + data.len() <= bytes.len(),
    ensures
        (bytes.subrange(0, offset) + data + bytes.subrange(
            offset + data.len(),
            bytes.len() as int,
        )).subrange(offset, offset + data.len()) == data,
{
    assert((bytes.subrange(0, offset) + data + bytes.subrange(
        offset + data.len(),
        bytes.len() as int,
    )).subrange(offset, offset + data.len()) =~= data);
}

/// Stack page memory: one memory block used for bump allocation.
///
/// Create one with `StackPage::new(size)`, where `size` is a power of
/// two between [`ALIGNMENT`] and [`MAX_MEMBLOCK_SIZE`].  The cursor
/// starts at the top and moves down on `alloc`.
pub struct StackPage {
    memblock: MemBlock,
    cursor: usize,
    top: usize,
}

impl StackPage {
    /// The page's current cursor offset.
    pub closed spec fn spec_cursor(&self) -> int {
        self.cursor as int
    }

    /// The page's top offset: the size of its block.
    pub closed spec fn spec_top(&self) -> int {
        self.top as int
    }

    /// The page's current contents.
    pub closed spec fn spec_bytes(&self) -> Seq<u8> {
        self.memblock.spec_bytes()
    }

    /// Whether the page's block has been released.
    pub closed spec fn spec_freed(&self) -> bool {
        self.memblock.spec_freed()
    }

    /// Well-formedness: a live, validated block of at least one
    /// aligned slot, with an aligned cursor between start and top.
    pub closed spec fn wf(&self) -> bool {
        &&& self.memblock.wf()
        &&& !self.memblock.spec_freed()
        &&& self.top == self.memblock.spec_size()
        &&& ALIGNMENT <= self.top <= MAX_MEMBLOCK_SIZE
        &&& self.top % ALIGNMENT == 0
        &&& self.cursor <= self.top
        &&& self.cursor % ALIGNMENT == 0
    }

    /// Open a page of `size` bytes: a power of two between
    /// [`ALIGNMENT`] and [`MAX_MEMBLOCK_SIZE`].  The cursor starts at
    /// the top.
    pub fn new(size: usize) -> (r: Result<StackPage, StackError>)
        ensures
            r is Ok <==> (is_pow2(size as nat) && ALIGNMENT <= size <= MAX_MEMBLOCK_SIZE),
            r matches Ok(p) ==> p.wf() && p.spec_cursor() == size && p.spec_top() == size
                && p.spec_bytes().len() == size,
            !is_pow2(size as nat) ==> r == Err::<StackPage, StackError>(
                StackError::SizeNotPowerOfTwo,
            ),
            is_pow2(size as nat) && !(ALIGNMENT <= size <= MAX_MEMBLOCK_SIZE) ==> r == Err::<
                StackPage,
                StackError,
            >(StackError::InvalidBlockSize),
    {
        match MemBlock::new(size) {
            Ok(memblock) => {
                if size < ALIGNMENT {
                    return Err(StackError::InvalidBlockSize);
                }
                proof {
                    lemma_pow2_aligned(size as nat);
                    memblock.lemma_wf();
                }
                Ok(StackPage { memblock, cursor: size, top: size })
            },
            Err(x) => match x {
                AllocError::ConstraintsNotSatisfied => Err(StackError::LayoutError),
                AllocError::InvalidAlignment => Err(StackError::InvalidAlignment),
                AllocError::InvalidBlockSize => Err(StackError::InvalidBlockSize),
                AllocError::MemoryAlreadyFreed => Err(StackError::MemoryAlreadyFreed),
                AllocError::NotEnoughMemory => Err(StackError::NotEnoughMemory),
                AllocError::NotPowerOfTwo => Err(StackError::SizeNotPowerOfTwo),
                AllocError::NullPointer => Err(StackError::NullPointer),
            },
        }
    }

    /// Make `alloc_size` bytes available on the page: the cursor moves
    /// down by the requested size and is rounded down to the alignment
    /// boundary; the new cursor offset is returned.  If the request
    /// does not fit below the cursor, nothing changes and
    /// `NotEnoughMemory` is reported.
    pub fn allocate(&mut self, alloc_size: usize) -> (r: Result<usize, StackError>)
        requires
            old(self).wf(),
        ensures
            final(self).wf(),
            final(self).spec_top() == old(self).spec_top(),
            final(self).spec_bytes() == old(self).spec_bytes(),
            alloc_size <= old(self).spec_cursor() ==> {
                &&& r == Ok::<usize, StackError>(
                    spec_align_down(old(self).spec_cursor() - alloc_size) as usize,
                )
                &&& final(self).spec_cursor() == spec_align_down(
                    old(self).spec_cursor() - alloc_size,
                )
                &&& final(self).spec_cursor() == old(self).spec_cursor() - spec_align_up(
                    alloc_size as int,
                )
            },
            alloc_size > old(self).spec_cursor() ==> r == Err::<usize, StackError>(
                StackError::NotEnoughMemory,
            ) && *final(self) == *old(self),
    {
        if alloc_size > self.cursor {
            return Err(StackError::NotEnoughMemory);
        }
        let next_unaligned = self.cursor - alloc_size;
        let next = next_unaligned - (next_unaligned % ALIGNMENT);
        proof {
            lemma_align_down(next_unaligned as int);
            lemma_push_pop_cursor(old(self).spec_cursor(), alloc_size as int);
        }
        self.cursor = next;
        Ok(next)
    }

    /// Write `data` at `offset`; staying inside the page is the
    /// caller's responsibility, stated as a precondition.  Returns the
    /// offset the payload was written at.
    pub fn write(&mut self, data: &Vec<u8>, offset: usize) -> (r: usize)
        requires
            old(self).wf(),
            offset + data@.len() <= old(self).spec_top(),
        ensures
            final(self).wf(),
            final(self).spec_cursor() == old(self).spec_cursor(),
            final(self).spec_top() == old(self).spec_top(),
            final(self).spec_bytes() == old(self).spec_bytes().subrange(0, offset as int) + data@
                + old(self).spec_bytes().subrange(
                offset + data@.len(),
                old(self).spec_top(),
            ),
            r == offset,
    {
        self.memblock.write_bytes(offset, data);
        offset
    }

    /// Read `len` bytes starting at `offset`.
    pub fn read(&self, offset: usize, len: usize) -> (r: Vec<u8>)
        requires
            self.wf(),
            offset + len <= self.spec_top(),
        ensures
            r@ == self.spec_bytes().subrange(offset as int, offset + len),
    {
        self.memblock.read_bytes(offset, len)
    }

    /// Decode the 64-bit word stored little-endian at `offset`.
    pub fn peek(&self, offset: usize) -> (r: u64)
        requires
            self.wf(),
            offset + 8 <= self.spec_top(),
        ensures
            r == spec_u64_from_le_bytes(self.spec_bytes().subrange(offset as int, offset + 8)),
    {
        proof {
            self.memblock.lemma_wf();
        }
        let bytes = self.memblock.read_bytes(offset, 8);
        u64_from_le_bytes(bytes.as_slice())
    }

    /// Release the page's memory block: afterwards the page is marked
    /// freed and holds no storage.  Offsets and cursor stay readable,
    /// so a torn-down page is still observable, just empty.
    pub fn free(&mut self) -> (r: Result<AllocSuccess, AllocError>)
        requires
            old(self).wf(),
        ensures
            r == Ok::<AllocSuccess, AllocError>(AllocSuccess::MemoryFreed),
            final(self).spec_freed(),
            final(self).spec_bytes().len() == 0,
            final(self).spec_top() == old(self).spec_top(),
            final(self).spec_cursor() == old(self).spec_cursor(),
    {
        let r = self.memblock.free();
        proof {
            self.memblock.lemma_wf();
        }
        r
    }

    /// The page's current cursor offset.
    pub fn cursor(&self) -> (r: usize)
        ensures
            r == self.spec_cursor(),
    {
        self.cursor
    }
}

/// The stack memory container.
///
/// It holds the `StackPage`s opened so far (up to a configured
/// maximum) and the index of the current page — always the newest.
pub struct StackMemory {
    pages: Vec<StackPage>,
    cur_page: usize,
    max_pages: usize,
}

impl StackMemory {
    /// The pages as a sequence.
    pub closed spec fn spec_pages(&self) -> Seq<StackPage> {
        self.pages@
    }

    /// The index of the current page.
    pub closed spec fn spec_cur_page(&self) -> int {
        self.cur_page as int
    }

    /// The configured maximum number of pages.
    pub closed spec fn spec_max_pages(&self) -> int {
        self.max_pages as int
    }

    /// Well-formedness: every page is well formed, the page count is
    /// within the configured maximum, and the current page is the
    /// newest one.
    pub closed spec fn wf(&self) -> bool {
        &&& forall|i: int| 0 <= i < self.pages@.len() ==> (#[trigger] self.pages@[i]).wf()
        &&& self.pages@.len() <= self.max_pages
        &&& if self.pages@.len() == 0 {
            self.cur_page == 0
        } else {
            self.cur_page == self.pages@.len() - 1
        }
    }

    /// Whether a request of `n` bytes fits on the current page.
    pub open spec fn spec_fits_current(&self, n: int) -> bool {
        self.spec_pages().len() > 0 && n <= self.spec_pages()[self.spec_cur_page()].spec_cursor()
    }

    /// Whether a request of `n` bytes could be served by paging in a
    /// fresh page.
    pub open spec fn spec_can_page_in(&self, n: int) -> bool {
        self.spec_pages().len() < self.spec_max_pages() && n <= MAX_MEMBLOCK_SIZE
    }

    /// Create a stack that may hold up to `max_size` pages.  With a
    /// nonzero budget one page of [`MAX_MEMBLOCK_SIZE`] bytes is
    /// opened at once; with a zero budget the stack starts (and stays)
    /// empty.
    pub fn new(max_size: usize) -> (r: StackMemory)
        ensures
            r.wf(),
            r.spec_max_pages() == max_size,
            max_size == 0 ==> r.spec_pages().len() == 0,
            max_size > 0 ==> r.spec_pages().len() == 1 && r.spec_cur_page() == 0 && r.spec_pages()[0].spec_cursor()
                == MAX_MEMBLOCK_SIZE && r.spec_pages()[0].spec_top() == MAX_MEMBLOCK_SIZE
                && r.spec_pages()[0].spec_bytes().len() == MAX_MEMBLOCK_SIZE,
    {
        if max_size == 0 {
            StackMemory { pages: Vec::new(), cur_page: 0, max_pages: 0 }
        } else {
            proof {
                crate::mem::defs::lemma_pow2_constants();
            }
            match StackPage::new(MAX_MEMBLOCK_SIZE) {
                Ok(page) => {
                    let mut pages: Vec<StackPage> = Vec::new();
                    pages.push(page);
                    StackMemory { pages, cur_page: 0, max_pages: max_size }
                },
                Err(_) => vstd::pervasive::unreached(),
            }
        }
    }

    /// Open a new page of `size` bytes and make it current.  Fails
    /// with `NotEnoughMemory` when the page budget is exhausted, and
    /// with the page's own error when `size` is invalid.
    pub fn new_page(&mut self, size: usize) -> (r: Result<(), StackError>)
        requires
            old(self).wf(),
        ensures
            final(self).wf(),
            final(self).spec_max_pages() == old(self).spec_max_pages(),
            r is Ok <==> (old(self).spec_pages().len() < old(self).spec_max_pages() && is_pow2(
                size as nat,
            ) && ALIGNMENT <= size <= MAX_MEMBLOCK_SIZE),
            r is Ok ==> {
                &&& final(self).spec_pages().len() == old(self).spec_pages().len() + 1
                &&& final(self).spec_cur_page() == old(self).spec_pages().len()
                &&& final(self).spec_pages()[final(self).spec_cur_page()].spec_cursor() == size
                &&& final(self).spec_pages()[final(self).spec_cur_page()].spec_top() == size
                &&& final(self).spec_pages()[final(self).spec_cur_page()].spec_bytes().len()
                    == size
                &&& forall|i: int|
                    0 <= i < old(self).spec_pages().len() ==> final(self).spec_pages()[i] == old(
                        self,
                    ).spec_pages()[i]
            },
            old(self).spec_pages().len() >= old(self).spec_max_pages() ==> r == Err::<
                (),
                StackError,
            >(StackError::NotEnoughMemory) && *final(self) == *old(self),
            old(self).spec_pages().len() < old(self).spec_max_pages() && !is_pow2(size as nat)
                ==> r == Err::<(), StackError>(StackError::SizeNotPowerOfTwo),
            old(self).spec_pages().len() < old(self).spec_max_pages() && is_pow2(size as nat)
                && !(ALIGNMENT <= size <= MAX_MEMBLOCK_SIZE) ==> r == Err::<(), StackError>(
                StackError::InvalidBlockSize,
            ),
            !(r is Ok) ==> *final(self) == *old(self),
    {
        if self.pages.len() >= self.max_pages {
            return Err(StackError::NotEnoughMemory);
        }
        match StackPage::new(size) {
            Ok(page) => {
                self.pages.push(page);
                self.cur_page = self.pages.len() - 1;
                Ok(())
            },
            Err(err) => Err(err),
        }
    }

    /// The cursor of page `page_num`.
    pub fn page_cursor(&self, page_num: usize) -> (r: usize)
        requires
            self.wf(),
            page_num < self.spec_pages().len(),
        ensures
            r == self.spec_pages()[page_num as int].spec_cursor(),
    {
        self.pages[page_num].cursor()
    }

    /// Push room for `n` bytes onto the stack: bump the current page's
    /// cursor down, or — if the request no longer fits there — page in
    /// a fresh page of [`MAX_MEMBLOCK_SIZE`] bytes and retry once.
    /// Returns the offset of the pushed slot on the current page.
    /// Exhausting the page budget fails with `NotEnoughMemory`.
    pub fn push_bytes(&mut self, n: usize) -> (r: Result<usize, StackError>)
        requires
            old(self).wf(),
        ensures
            final(self).wf(),
            final(self).spec_max_pages() == old(self).spec_max_pages(),
            r is Ok <==> old(self).spec_fits_current(n as int) || old(self).spec_can_page_in(
                n as int,
            ),
            old(self).spec_fits_current(n as int) ==> {
                &&& final(self).spec_pages().len() == old(self).spec_pages().len()
                &&& final(self).spec_cur_page() == old(self).spec_cur_page()
                &&& final(self).spec_pages()[final(self).spec_cur_page()].spec_cursor()
                    == spec_align_down(
                    old(self).spec_pages()[old(self).spec_cur_page()].spec_cursor() - n,
                )
                &&& final(self).spec_pages()[final(self).spec_cur_page()].spec_top() == old(
                    self,
                ).spec_pages()[old(self).spec_cur_page()].spec_top()
                &&& final(self).spec_pages()[final(self).spec_cur_page()].spec_bytes() == old(
                    self,
                ).spec_pages()[old(self).spec_cur_page()].spec_bytes()
                &&& forall|i: int|
                    0 <= i < old(self).spec_pages().len() && i != old(self).spec_cur_page()
                        ==> final(self).spec_pages()[i] == old(self).spec_pages()[i]
                &&& r == Ok::<usize, StackError>(
                    spec_align_down(
                        old(self).spec_pages()[old(self).spec_cur_page()].spec_cursor() - n,
                    ) as usize,
                )
            },
            !old(self).spec_fits_current(n as int) && old(self).spec_can_page_in(n as int) ==> {
                &&& final(self).spec_pages().len() == old(self).spec_pages().len() + 1
                &&& final(self).spec_cur_page() == old(self).spec_pages().len()
                &&& final(self).spec_pages()[final(self).spec_cur_page()].spec_cursor()
                    == spec_align_down(MAX_MEMBLOCK_SIZE - n)
                &&& final(self).spec_pages()[final(self).spec_cur_page()].spec_top()
                    == MAX_MEMBLOCK_SIZE
                &&& final(self).spec_pages()[final(self).spec_cur_page()].spec_bytes().len()
                    == MAX_MEMBLOCK_SIZE
                &&& forall|i: int|
                    0 <= i < old(self).spec_pages().len() ==> final(self).spec_pages()[i] == old(
                        self,
                    ).spec_pages()[i]
                &&& r == Ok::<usize, StackError>(spec_align_down(MAX_MEMBLOCK_SIZE - n) as usize)
            },
            !old(self).spec_fits_current(n as int) && !old(self).spec_can_page_in(n as int) ==> {
                &&& r == Err::<usize, StackError>(StackError::NotEnoughMemory)
                &&& final(self).spec_pages() == old(self).spec_pages()
                &&& final(self).spec_cur_page() == old(self).spec_cur_page()
            },
    {
        if self.pages.len() > 0 {
            let ghost pre = *self;
            let mut page = match self.pages.pop() {
                Some(p) => p,
                None => vstd::pervasive::unreached(),
            };
            let fits = n <= page.cursor();
            if fits {
                let r = page.allocate(n);
                self.pages.push(page);
                proof {
                    assert(self.pages@ =~= pre.pages@.update(
                        pre.pages@.len() - 1,
                        self.pages@.last(),
                    ));
                }
                match r {
                    Ok(off) => {
                        return Ok(off);
                    },
                    Err(_) => {
                        return vstd::pervasive::unreached();
                    },
                }
            }
            self.pages.push(page);
            proof {
                assert(self.pages@ =~= pre.pages@);
            }
        }
        // The request does not fit on the current page (or there is no
        // page yet): page in a fresh one and retry once.
        if n > MAX_MEMBLOCK_SIZE {
            return Err(StackError::NotEnoughMemory);
        }
        proof {
            crate::mem::defs::lemma_pow2_constants();
        }
        match self.new_page(MAX_MEMBLOCK_SIZE) {
            Ok(()) => {
                let ghost mid = *self;
                let mut page = match self.pages.pop() {
                    Some(p) => p,
                    None => vstd::pervasive::unreached(),
                };
                let r = page.allocate(n);
                self.pages.push(page);
                proof {
                    assert(self.pages@ =~= mid.pages@.update(
                        mid.pages@.len() - 1,
                        self.pages@.last(),
                    ));
                }
                match r {
                    Ok(off) => Ok(off),
                    Err(_) => vstd::pervasive::unreached(),
                }
            },
            Err(_) => Err(StackError::NotEnoughMemory),
        }
    }

    /// Write `data` at `offset` on the current page; staying inside
    /// the page is the caller's responsibility, stated as a
    /// precondition.  Returns the offset written at.
    pub fn write(&mut self, data: &Vec<u8>, offset: usize) -> (r: usize)
        requires
            old(self).wf(),
            old(self).spec_pages().len() > 0,
            offset + data@.len() <= old(self).spec_pages()[old(self).spec_cur_page()].spec_top(),
        ensures
            final(self).wf(),
            final(self).spec_max_pages() == old(self).spec_max_pages(),
            final(self).spec_pages().len() == old(self).spec_pages().len(),
            final(self).spec_cur_page() == old(self).spec_cur_page(),
            final(self).spec_pages()[final(self).spec_cur_page()].spec_cursor() == old(
                self,
            ).spec_pages()[old(self).spec_cur_page()].spec_cursor(),
            final(self).spec_pages()[final(self).spec_cur_page()].spec_top() == old(
                self,
            ).spec_pages()[old(self).spec_cur_page()].spec_top(),
            final(self).spec_pages()[final(self).spec_cur_page()].spec_bytes() == old(
                self,
            ).spec_pages()[old(self).spec_cur_page()].spec_bytes().subrange(0, offset as int)
                + data@ + old(self).spec_pages()[old(self).spec_cur_page()].spec_bytes().subrange(
                offset + data@.len(),
                old(self).spec_pages()[old(self).spec_cur_page()].spec_top(),
            ),
            forall|i: int|
                0 <= i < old(self).spec_pages().len() && i != old(self).spec_cur_page()
                    ==> final(self).spec_pages()[i] == old(self).spec_pages()[i],
            r == offset,
    {
        let ghost pre = *self;
        let mut page = match self.pages.pop() {
            Some(p) => p,
            None => vstd::pervasive::unreached(),
        };
        let r = page.write(data, offset);
        self.pages.push(page);
        proof {
            assert(self.pages@ =~= pre.pages@.update(pre.pages@.len() - 1, self.pages@.last()));
        }
        r
    }

    /// Read `len` bytes starting at `offset` on the current page.
    pub fn read(&self, offset: usize, len: usize) -> (r: Vec<u8>)
        requires
            self.wf(),
            self.spec_pages().len() > 0,
            offset + len <= self.spec_pages()[self.spec_cur_page()].spec_top(),
        ensures
            r@ == self.spec_pages()[self.spec_cur_page()].spec_bytes().subrange(
                offset as int,
                offset + len,
            ),
    {
        let cur = self.cur_page;
        self.pages[cur].read(offset, len)
    }

    /// Decode the 64-bit word stored little-endian at `offset` on the
    /// current page.
    pub fn peek(&self, offset: usize) -> (r: u64)
        requires
            self.wf(),
            self.spec_pages().len() > 0,
            offset + 8 <= self.spec_pages()[self.spec_cur_page()].spec_top(),
        ensures
            r == spec_u64_from_le_bytes(
                self.spec_pages()[self.spec_cur_page()].spec_bytes().subrange(
                    offset as int,
                    offset + 8,
                ),
            ),
    {
        let cur = self.cur_page;
        self.pages[cur].peek(offset)
    }

    /// Pop the `n` bytes pushed by the immediately preceding push on
    /// the current page: the cursor returns to its pre-push value.
    /// Supplying anything but the size of that push — crossing a page
    /// boundary included — is a caller error, excluded by contract.
    pub fn pop(&mut self, n: usize)
        requires
            old(self).wf(),
            old(self).spec_pages().len() > 0,
            old(self).spec_pages()[old(self).spec_cur_page()].spec_cursor() + spec_align_up(
                n as int,
            ) <= old(self).spec_pages()[old(self).spec_cur_page()].spec_top(),
        ensures
            final(self).wf(),
            final(self).spec_max_pages() == old(self).spec_max_pages(),
            final(self).spec_pages().len() == old(self).spec_pages().len(),
            final(self).spec_cur_page() == old(self).spec_cur_page(),
            final(self).spec_pages()[final(self).spec_cur_page()].spec_cursor() == old(
                self,
            ).spec_pages()[old(self).spec_cur_page()].spec_cursor() + spec_align_up(n as int),
            final(self).spec_pages()[final(self).spec_cur_page()].spec_top() == old(
                self,
            ).spec_pages()[old(self).spec_cur_page()].spec_top(),
            final(self).spec_pages()[final(self).spec_cur_page()].spec_bytes() == old(
                self,
            ).spec_pages()[old(self).spec_cur_page()].spec_bytes(),
            forall|i: int|
                0 <= i < old(self).spec_pages().len() && i != old(self).spec_cur_page()
                    ==> final(self).spec_pages()[i] == old(self).spec_pages()[i],
    {
        let ghost pre = *self;
        let mut page = match self.pages.pop() {
            Some(p) => p,
            None => vstd::pervasive::unreached(),
        };
        proof {
            assert(n as int <= spec_align_up(n as int)) by (nonlinear_arith);
            lemma_align_down(n + ALIGNMENT - 1);
        }
        let step = (n + ALIGNMENT - 1) - ((n + ALIGNMENT - 1) % ALIGNMENT);
        page.cursor_restore(step);
        self.pages.push(page);
        proof {
            assert(self.pages@ =~= pre.pages@.update(pre.pages@.len() - 1, self.pages@.last()));
        }
    }
}

impl StackPage {
    /// Move the cursor back up by an aligned step: the unwinding half
    /// of the bump discipline.
    fn cursor_restore(&mut self, step: usize)
        requires
            old(self).wf(),
            step as int % (ALIGNMENT as int) == 0,
            old(self).spec_cursor() + step <= old(self).spec_top(),
        ensures
            final(self).wf(),
            final(self).spec_top() == old(self).spec_top(),
            final(self).spec_bytes() == old(self).spec_bytes(),
            final(self).spec_cursor() == old(self).spec_cursor() + step,
    {
        self.cursor = self.cursor + step;
    }
}

} // verus!
