//! The byte-allocator capability interface.
//!
//! Every byte allocator of the crate serves requests out of one owned
//! region and accounts for the bytes it has handed out.  The composite
//! allocator holds *any* implementation of this capability as its
//! metadata pool, so a segregated-fit allocator supplied by the
//! embedding kernel can stand in that position without the composite
//! knowing its algorithm.

use vstd::prelude::*;
use crate::err::AllocError;

verus! {

/// One owned region of bytes served by bump- or fit-style bookkeeping.
///
/// The abstract model is the region (`lo`..`hi`, of size `total`) and
/// the number of bytes currently handed out (`used`).  Implementations
/// publish their own internal invariant (`wf`) and their own demands on
/// requests (`alloc_pre`, `dealloc_pre`).
pub trait ByteAllocator: Sized {
    /// The implementation's internal invariant.
    open spec fn wf(&self) -> bool {
        true
    }

    /// First address of the owned region.
    open spec fn lo(&self) -> int {
        0
    }

    /// One past the last address of the owned region.
    open spec fn hi(&self) -> int {
        0
    }

    /// Size in bytes of the owned region.
    open spec fn total(&self) -> int {
        0
    }

    /// Bytes currently handed out.
    open spec fn used(&self) -> int {
        0
    }

    /// Bytes that can still be served.
    open spec fn avail(&self) -> int {
        0
    }

    /// What the implementation demands of an allocation request.
    open spec fn alloc_pre(&self, size: usize, align: usize) -> bool {
        true
    }

    /// What the implementation demands of a deallocation request.
    open spec fn dealloc_pre(&self, pos: usize, size: usize, align: usize) -> bool {
        true
    }

    /// An empty allocator; unusable until `init` gives it a region.
    fn new() -> (r: Self)
        ensures
            r.wf(),
            r.total() == 0,
            r.used() == 0,
    ;

    /// Adopt the region `[start, start + size)`, with nothing handed
    /// out yet.
    fn init(&mut self, start: usize, size: usize)
        requires
            old(self).wf(),
            start + size <= usize::MAX,
        ensures
            final(self).wf(),
            final(self).lo() == start,
            final(self).hi() == start + size,
            final(self).total() == size,
            final(self).used() == 0,
    ;

    /// Serve one byte request.  A successful allocation lies inside the
    /// owned region and is accounted for; a failed one changes nothing.
    fn allocate(&mut self, size: usize, align: usize) -> (r: Result<usize, AllocError>)
        requires
            old(self).wf(),
            old(self).alloc_pre(size, align),
        ensures
            final(self).wf(),
            final(self).lo() == old(self).lo(),
            final(self).hi() == old(self).hi(),
            final(self).total() == old(self).total(),
            0 <= final(self).used() <= final(self).total(),
            r matches Ok(a) ==> {
                &&& old(self).lo() <= a
                &&& a + size <= old(self).hi()
                &&& old(self).used() + size <= final(self).used()
            },
            r is Err ==> *final(self) == *old(self),
    ;

    /// Release one byte allocation previously served by this
    /// allocator.  Accounting never grows on release.
    fn dealloc(&mut self, pos: usize, size: usize, align: usize)
        requires
            old(self).wf(),
            old(self).dealloc_pre(pos, size, align),
        ensures
            final(self).wf(),
            final(self).lo() == old(self).lo(),
            final(self).hi() == old(self).hi(),
            final(self).total() == old(self).total(),
            0 <= final(self).used() <= old(self).used(),
    ;

    /// Size of the owned region.
    fn total_bytes(&self) -> (r: usize)
        requires
            self.wf(),
        ensures
            r == self.total(),
    ;

    /// Bytes currently handed out.
    fn used_bytes(&self) -> (r: usize)
        requires
            self.wf(),
        ensures
            r == self.used(),
    ;

    /// Bytes that can still be served.
    fn available_bytes(&self) -> (r: usize)
        requires
            self.wf(),
        ensures
            r == self.avail(),
    ;
}

} // verus!
