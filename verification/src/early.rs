//! Early boot-time allocator over one raw region: bytes grow forward
//! from the start, pages grow backward from the end, and a shrinking
//! free gap is left between the two cursors.
//!
//! ```text
//! [ bytes-used | free gap | pages-used ]
//! start       b_pos      p_pos       end
//! ```
//!
//! Byte deallocation is reference-counted in bulk: only the number of
//! outstanding byte allocations is tracked, and the byte cursor rewinds
//! to the region start when the last one is freed.  Pages are never
//! reclaimed.

use vstd::prelude::*;
use vstd::arithmetic::power2::{lemma_pow2_pos, lemma_pow2_strictly_increases, lemma_pow2_unfold, pow2};
use crate::align::{align_down, align_up, lemma_align_down, lemma_align_up};
use crate::capability::ByteAllocator;
use crate::err::AllocError;

verus! {

/// Early double-ended allocator; `PAGE_SIZE` is fixed for its lifetime.
pub struct EarlyAllocator<const PAGE_SIZE: usize> {
    /// First address of the owned region.
    pub start: usize,
    /// One past the last address of the owned region.
    pub end: usize,
    /// Byte cursor, moving from `start` toward `end`.
    pub b_pos: usize,
    /// Page cursor, moving from `end` toward `start`.
    pub p_pos: usize,
    /// Number of outstanding byte allocations.
    pub b_count: usize,
}

impl<const PAGE_SIZE: usize> EarlyAllocator<PAGE_SIZE> {
    /// Region bounds are ordered and the two cursors stay inside them
    /// without crossing.
    pub open spec fn wf(self) -> bool {
        self.start <= self.b_pos <= self.p_pos <= self.end
    }

    /// State and result of one byte allocation, as one mathematical
    /// step: the byte cursor is rounded up to the alignment, and the
    /// request fails without any mutation when the end of the
    /// allocation cannot be represented or would cross the page cursor.
    pub open spec fn spec_alloc_bytes(a: Self, size: usize, align: usize) -> (Self, Result<
        usize,
        AllocError,
    >) {
        let s = align_up(a.b_pos as int, align as int);
        if s + size > usize::MAX {
            (a, Err(AllocError::NoMemory))
        } else if s + size > a.p_pos {
            (a, Err(AllocError::MemoryOverlap))
        } else {
            (
                (Self {
                    b_pos: (s + size) as usize,
                    b_count: (a.b_count + 1) as usize,
                    ..a
                }),
                Ok(s as usize),
            )
        }
    }

    /// State and result of one page allocation, as one mathematical
    /// step: the new page cursor is the old one minus the requested
    /// bytes, rounded *down* to the alignment (which may land below the
    /// tight bound; the crossing check accounts for that).
    pub open spec fn spec_alloc_pages(a: Self, num_pages: usize, align_pow2: usize) -> (Self, Result<
        usize,
        AllocError,
    >) {
        let align = pow2(align_pow2 as nat) as int;
        let size = num_pages * PAGE_SIZE;
        if align > usize::MAX {
            (a, Err(AllocError::NoMemory))
        } else if size > usize::MAX {
            (a, Err(AllocError::NoMemory))
        } else if a.p_pos < size {
            (a, Err(AllocError::NoMemory))
        } else {
            let s = align_down(a.p_pos - size, align);
            if s < a.b_pos {
                (a, Err(AllocError::MemoryOverlap))
            } else {
                ((Self { p_pos: s as usize, ..a }), Ok(s as usize))
            }
        }
    }

    /// An empty allocator; unusable until `init` gives it a region.
    pub fn new() -> (r: Self)
        ensures
            r.start == 0,
            r.end == 0,
            r.b_pos == 0,
            r.p_pos == 0,
            r.b_count == 0,
            r.wf(),
    {
        Self { start: 0, end: 0, b_pos: 0, p_pos: 0, b_count: 0 }
    }

    /// Adopt the region `[start, start + size)`; both cursors start at
    /// their own end of it, and no byte allocation is outstanding.
    pub fn init(&mut self, start: usize, size: usize)
        requires
            start + size <= usize::MAX,
        ensures
            final(self).start == start,
            final(self).end == start + size,
            final(self).b_pos == start,
            final(self).p_pos == start + size,
            final(self).b_count == 0,
            final(self).wf(),
    {
        self.start = start;
        self.b_pos = start;
        self.end = start + size;
        self.p_pos = start + size;
        self.b_count = 0;
    }

    /// Region growth is out of scope for the early allocator: the call
    /// always fails and changes nothing.
    pub fn add_memory(&mut self, _start: usize, _size: usize) -> (r: Result<(), AllocError>)
        ensures
            *final(self) == *old(self),
            r == Err::<(), AllocError>(AllocError::NoMemory),
    {
        Err(AllocError::NoMemory)
    }

    /// Serve one byte request of `size` bytes at the given power-of-two
    /// alignment.  On success the returned address is aligned, lies in
    /// the byte zone of the region, and the byte cursor moves just past
    /// it; on failure nothing changes.
    pub fn allocate(&mut self, size: usize, align: usize) -> (r: Result<usize, AllocError>)
        requires
            old(self).wf(),
            vstd::arithmetic::power2::is_pow2(align as int),
            old(self).b_count < usize::MAX,
        ensures
            final(self).wf(),
            (*final(self), r) == Self::spec_alloc_bytes(*old(self), size, align),
            r matches Ok(a) ==> {
                &&& (a as int) % (align as int) == 0
                &&& old(self).start <= old(self).b_pos <= a
                &&& a + size <= old(self).p_pos <= old(self).end
                &&& final(self).b_pos == a + size
                &&& final(self).b_count == old(self).b_count + 1
                &&& final(self).p_pos == old(self).p_pos
                &&& final(self).start == old(self).start
                &&& final(self).end == old(self).end
            },
            r is Err ==> *final(self) == *old(self),
    {
        proof {
            reveal(vstd::arithmetic::power2::is_pow2);
            lemma_align_up(self.b_pos as int, align as int);
        }
        let rem: usize = self.b_pos % align;
        let alloc_start: usize = if rem == 0 {
            self.b_pos
        } else {
            match self.b_pos.checked_add(align - rem) {
                Some(v) => v,
                None => {
                    return Err(AllocError::NoMemory);
                },
            }
        };
        let alloc_end: usize = match alloc_start.checked_add(size) {
            Some(v) => v,
            None => {
                return Err(AllocError::NoMemory);
            },
        };
        if alloc_end > self.p_pos {
            return Err(AllocError::MemoryOverlap);
        }
        self.b_pos = alloc_end;
        self.b_count = self.b_count + 1;
        Ok(alloc_start)
    }

    /// Free one byte allocation.  The address and layout are ignored:
    /// only the count of outstanding allocations is kept, so freeing
    /// while others remain live reclaims nothing, and freeing the last
    /// one rewinds the byte cursor to the region start in one step.
    pub fn dealloc(&mut self, _pos: usize, _size: usize, _align: usize)
        requires
            old(self).wf(),
        ensures
            final(self).wf(),
            old(self).b_count == 0 ==> *final(self) == *old(self),
            old(self).b_count > 1 ==> *final(self) == (Self {
                b_count: (old(self).b_count - 1) as usize,
                ..*old(self)
            }),
            old(self).b_count == 1 ==> *final(self) == (Self {
                b_count: 0,
                b_pos: old(self).start,
                ..*old(self)
            }),
    {
        if self.b_count == 0 {
            return;
        }
        self.b_count = self.b_count - 1;
        if self.b_count == 0 {
            self.b_pos = self.start;
        }
    }

    /// Serve one page request: `num_pages` pages, aligned to
    /// `2^align_pow2`.  On success the returned address is aligned,
    /// lies in the page zone of the region, and becomes the new page
    /// cursor; on failure nothing changes.
    #[verifier::loop_isolation(false)]
    pub fn alloc_pages(&mut self, num_pages: usize, align_pow2: usize) -> (r: Result<
        usize,
        AllocError,
    >)
        requires
            old(self).wf(),
        ensures
            final(self).wf(),
            (*final(self), r) == Self::spec_alloc_pages(*old(self), num_pages, align_pow2),
            r matches Ok(a) ==> {
                &&& (a as int) % (pow2(align_pow2 as nat) as int) == 0
                &&& old(self).start <= old(self).b_pos <= a
                &&& a + num_pages * PAGE_SIZE <= old(self).p_pos <= old(self).end
                &&& final(self).p_pos == a
                &&& final(self).b_pos == old(self).b_pos
                &&& final(self).b_count == old(self).b_count
                &&& final(self).start == old(self).start
                &&& final(self).end == old(self).end
            },
            r is Err ==> *final(self) == *old(self),
    {
        proof {
            vstd::arithmetic::power2::lemma2_to64();
        }
        let mut align: usize = 1;
        let mut i: usize = 0;
        while i < align_pow2
            invariant
                i <= align_pow2,
                align == pow2(i as nat),
            decreases align_pow2 - i,
        {
            if align > usize::MAX / 2 {
                proof {
                    lemma_pow2_unfold((i + 1) as nat);
                    if i + 1 < align_pow2 {
                        lemma_pow2_strictly_increases((i + 1) as nat, align_pow2 as nat);
                    }
                }
                return Err(AllocError::NoMemory);
            }
            align = align * 2;
            proof {
                lemma_pow2_unfold((i + 1) as nat);
            }
            i = i + 1;
        }
        proof {
            lemma_pow2_pos(align_pow2 as nat);
        }
        let size: usize = match num_pages.checked_mul(PAGE_SIZE) {
            Some(v) => v,
            None => {
                return Err(AllocError::NoMemory);
            },
        };
        let base: usize = match self.p_pos.checked_sub(size) {
            Some(v) => v,
            None => {
                return Err(AllocError::NoMemory);
            },
        };
        proof {
            lemma_align_down(base as int, align as int);
        }
        let alloc_start: usize = base - base % align;
        if alloc_start < self.b_pos {
            return Err(AllocError::MemoryOverlap);
        }
        self.p_pos = alloc_start;
        Ok(alloc_start)
    }

    /// Pages are kernel-lifetime allocations: freeing them is a no-op.
    pub fn dealloc_pages(&mut self, _pos: usize, _num_pages: usize)
        ensures
            *final(self) == *old(self),
    {
    }

    /// Size of the owned region in bytes.
    pub fn total_bytes(&self) -> (r: usize)
        requires
            self.wf(),
        ensures
            r == self.end - self.start,
    {
        self.end - self.start
    }

    /// Bytes handed out from the byte zone.
    pub fn used_bytes(&self) -> (r: usize)
        requires
            self.wf(),
        ensures
            r == self.b_pos - self.start,
    {
        self.b_pos - self.start
    }

    /// Bytes of the free gap between the two cursors.
    pub fn available_bytes(&self) -> (r: usize)
        requires
            self.wf(),
        ensures
            r == self.p_pos - self.b_pos,
    {
        self.p_pos - self.b_pos
    }

    /// Size of the owned region in whole pages.
    pub fn total_pages(&self) -> (r: usize)
        requires
            self.wf(),
            PAGE_SIZE >= 1,
        ensures
            r == (self.end - self.start) / (PAGE_SIZE as int),
    {
        (self.end - self.start) / PAGE_SIZE
    }

    /// Whole pages handed out from the page zone.
    pub fn used_pages(&self) -> (r: usize)
        requires
            self.wf(),
            PAGE_SIZE >= 1,
        ensures
            r == (self.end - self.p_pos) / (PAGE_SIZE as int),
    {
        (self.end - self.p_pos) / PAGE_SIZE
    }

    /// Whole pages that still fit into the free gap.
    pub fn available_pages(&self) -> (r: usize)
        requires
            self.wf(),
            PAGE_SIZE >= 1,
        ensures
            r == (self.p_pos - self.b_pos) / (PAGE_SIZE as int),
    {
        (self.p_pos - self.b_pos) / PAGE_SIZE
    }
}

/// The early allocator offers the byte-allocator capability over the
/// byte zone of its region (the page zone eats the free gap from the
/// other side, so `avail` is the gap between the two cursors).
impl<const PAGE_SIZE: usize> ByteAllocator for EarlyAllocator<PAGE_SIZE> {
    open spec fn wf(&self) -> bool {
        self.start <= self.b_pos <= self.p_pos <= self.end
    }

    open spec fn lo(&self) -> int {
        self.start as int
    }

    open spec fn hi(&self) -> int {
        self.end as int
    }

    open spec fn total(&self) -> int {
        self.end - self.start
    }

    open spec fn used(&self) -> int {
        self.b_pos - self.start
    }

    open spec fn avail(&self) -> int {
        self.p_pos - self.b_pos
    }

    open spec fn alloc_pre(&self, size: usize, align: usize) -> bool {
        vstd::arithmetic::power2::is_pow2(align as int) && self.b_count < usize::MAX
    }

    open spec fn dealloc_pre(&self, pos: usize, size: usize, align: usize) -> bool {
        true
    }

    fn new() -> (r: Self) {
        EarlyAllocator::new()
    }

    fn init(&mut self, start: usize, size: usize) {
        EarlyAllocator::init(self, start, size)
    }

    fn allocate(&mut self, size: usize, align: usize) -> (r: Result<usize, AllocError>) {
        EarlyAllocator::allocate(self, size, align)
    }

    fn dealloc(&mut self, pos: usize, size: usize, align: usize) {
        EarlyAllocator::dealloc(self, pos, size, align)
    }

    fn total_bytes(&self) -> (r: usize) {
        EarlyAllocator::total_bytes(self)
    }

    fn used_bytes(&self) -> (r: usize) {
        EarlyAllocator::used_bytes(self)
    }

    fn available_bytes(&self) -> (r: usize) {
        EarlyAllocator::available_bytes(self)
    }
}

} // verus!
