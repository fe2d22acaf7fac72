//! Composite byte allocator: a fixed-size metadata pool in front of a
//! pattern-tuned data pool.
//!
//! The outer region is statically partitioned at `init`: the first
//! `META_SIZE` bytes go to the metadata sub-allocator (any
//! implementation of the byte-allocator capability, typically a
//! segregated-fit allocator supplied by the kernel), and the rest of
//! the fixed `MAX_SIZE` window goes to a `BumpAllocator`.  Requests are
//! routed by alignment alone: the container metadata records of the
//! embedding kernel are allocated with alignment `META_ALIGN`, anything
//! else is workload data.  Freeing a metadata record of exactly
//! `BULK_RESET_SIZE` bytes marks the end of a generation of transient
//! data and triggers the data pool's bulk tail release.

use vstd::prelude::*;
use crate::bump::BumpAllocator;
use crate::capability::ByteAllocator;
use crate::err::AllocError;

verus! {

/// Total addressable window of the composite allocator, fixed at
/// compile time; `total_bytes` reports it regardless of the size the
/// region was initialised with.
pub const MAX_SIZE: usize = 0x7d91000;

/// Size of the metadata pool carved from the front of the region.
pub const META_SIZE: usize = 0x40000;

/// Alignment that marks a request as a metadata-record request.
pub const META_ALIGN: usize = 8;

/// Freeing a metadata record of exactly this many bytes signals that a
/// generation of transient data allocations has ended, and bulk-resets
/// the data pool's tail zone.
pub const BULK_RESET_SIZE: usize = 0x180;

/// Composite byte allocator over one region: metadata pool in front,
/// bump-allocated data pool behind it.
pub struct LabByteAllocator<M: ByteAllocator> {
    /// Metadata records, aligned by `META_ALIGN`.
    pub meta_pool: M,
    /// Workload data, everything else.
    pub data_pool: BumpAllocator,
}

impl<M: ByteAllocator> LabByteAllocator<M> {
    /// Both pools are internally consistent and together never account
    /// for more than the fixed window.
    pub open spec fn wf(self) -> bool {
        &&& self.meta_pool.wf()
        &&& self.data_pool.wf()
        &&& 0 <= self.meta_pool.used() <= self.meta_pool.total()
        &&& self.meta_pool.total() + (self.data_pool.end - self.data_pool.start) <= MAX_SIZE
    }

    /// Bytes handed out by both pools together.
    pub open spec fn spec_used(self) -> int {
        self.meta_pool.used() + (self.data_pool.head - self.data_pool.start) + (
        self.data_pool.end - self.data_pool.tail)
    }

    /// An empty composite; unusable until `init` gives it a region.
    pub fn new() -> (r: Self)
        ensures
            r.wf(),
            r.meta_pool.total() == 0,
            r.meta_pool.used() == 0,
            r.data_pool == (BumpAllocator { start: 0, end: 0, head: 0, tail: 0, counts: 0 }),
    {
        Self { meta_pool: M::new(), data_pool: BumpAllocator::new() }
    }

    /// Partition the fixed `MAX_SIZE` window starting at `start`: the
    /// metadata pool gets `[start, start + META_SIZE)`, the data pool
    /// the rest.  The `size` argument is accepted for interface parity
    /// but the partition is static.
    pub fn init(&mut self, start: usize, _size: usize)
        requires
            old(self).meta_pool.wf(),
            start + MAX_SIZE <= usize::MAX,
        ensures
            final(self).wf(),
            final(self).meta_pool.lo() == start,
            final(self).meta_pool.hi() == start + META_SIZE,
            final(self).meta_pool.total() == META_SIZE,
            final(self).meta_pool.used() == 0,
            final(self).data_pool == (BumpAllocator {
                start: (start + META_SIZE) as usize,
                end: (start + MAX_SIZE) as usize,
                head: (start + META_SIZE) as usize,
                tail: (start + MAX_SIZE) as usize,
                counts: old(self).data_pool.counts,
            }),
    {
        self.meta_pool.init(start, META_SIZE);
        self.data_pool.init(start + META_SIZE, MAX_SIZE - META_SIZE);
    }

    /// Region growth is out of scope: the call always fails and
    /// changes nothing.
    pub fn add_memory(&mut self, _start: usize, _size: usize) -> (r: Result<(), AllocError>)
        ensures
            *final(self) == *old(self),
            r == Err::<(), AllocError>(AllocError::NoMemory),
    {
        Err(AllocError::NoMemory)
    }

    /// Serve one byte request, routed by alignment: metadata-record
    /// requests (`align == META_ALIGN`) go to the metadata pool and
    /// never move the data pool's cursors; every other request goes to
    /// the data pool and never touches the metadata pool.
    pub fn allocate(&mut self, size: usize, align: usize) -> (r: Result<usize, AllocError>)
        requires
            old(self).wf(),
            align == META_ALIGN ==> old(self).meta_pool.alloc_pre(size, align),
            align != META_ALIGN ==> old(self).data_pool.counts < usize::MAX,
        ensures
            final(self).wf(),
            align == META_ALIGN ==> {
                &&& final(self).data_pool == old(self).data_pool
                &&& final(self).meta_pool.lo() == old(self).meta_pool.lo()
                &&& final(self).meta_pool.hi() == old(self).meta_pool.hi()
                &&& final(self).meta_pool.total() == old(self).meta_pool.total()
                &&& (r matches Ok(a) ==> {
                    &&& old(self).meta_pool.lo() <= a
                    &&& a + size <= old(self).meta_pool.hi()
                    &&& old(self).meta_pool.used() + size <= final(self).meta_pool.used()
                })
                &&& (r is Err ==> final(self).meta_pool == old(self).meta_pool)
            },
            align != META_ALIGN ==> {
                &&& final(self).meta_pool == old(self).meta_pool
                &&& (final(self).data_pool, r) == BumpAllocator::spec_alloc(
                    old(self).data_pool,
                    size,
                )
                &&& (r matches Ok(a) ==> old(self).data_pool.start <= a && a + size <= old(
                    self,
                ).data_pool.end)
            },
    {
        if align == META_ALIGN {
            self.meta_pool.allocate(size, align)
        } else {
            self.data_pool.allocate(size, align)
        }
    }

    /// Release one byte allocation, routed by alignment.  Non-metadata
    /// frees are absorbed without any effect (the data pool only
    /// reclaims in bulk).  A metadata free is forwarded to the metadata
    /// pool; if it releases exactly `BULK_RESET_SIZE` bytes, the data
    /// pool's whole tail zone is bulk-released as a side effect.
    pub fn dealloc(&mut self, pos: usize, size: usize, align: usize)
        requires
            old(self).wf(),
            align == META_ALIGN ==> old(self).meta_pool.dealloc_pre(pos, size, align),
        ensures
            final(self).wf(),
            align != META_ALIGN ==> *final(self) == *old(self),
            align == META_ALIGN ==> {
                &&& final(self).meta_pool.lo() == old(self).meta_pool.lo()
                &&& final(self).meta_pool.hi() == old(self).meta_pool.hi()
                &&& final(self).meta_pool.total() == old(self).meta_pool.total()
                &&& final(self).meta_pool.used() <= old(self).meta_pool.used()
                &&& (size == BULK_RESET_SIZE ==> final(self).data_pool == (BumpAllocator {
                    tail: old(self).data_pool.end,
                    ..old(self).data_pool
                }))
                &&& (size != BULK_RESET_SIZE ==> final(self).data_pool == old(self).data_pool)
            },
    {
        if align == META_ALIGN {
            self.meta_pool.dealloc(pos, size, align);
            if size == BULK_RESET_SIZE {
                self.data_pool.reset_tail();
            }
        }
    }

    /// The fixed window size, regardless of the actual partition.
    pub fn total_bytes(&self) -> (r: usize)
        ensures
            r == MAX_SIZE,
    {
        MAX_SIZE
    }

    /// Bytes handed out by both pools together.
    pub fn used_bytes(&self) -> (r: usize)
        requires
            self.wf(),
        ensures
            r == self.spec_used(),
    {
        self.meta_pool.used_bytes() + self.data_pool.used_bytes()
    }

    /// Bytes of the fixed window not handed out.
    pub fn available_bytes(&self) -> (r: usize)
        requires
            self.wf(),
        ensures
            r == MAX_SIZE - self.spec_used(),
    {
        MAX_SIZE - self.used_bytes()
    }
}

} // verus!
