//! Double-ended bump allocator tuned to a cyclic allocation pattern.
//!
//! One region is split into a *head* zone that grows forward (long-lived
//! allocations) and a *tail* zone that grows backward (transient
//! allocations released together by one bulk reset).  Placement is chosen
//! by a cyclic counter.  Tail allocations are deliberately allowed to
//! overlap earlier tail allocations of the same generation: the new tail
//! position is computed from the region end, not from the current tail.

use vstd::prelude::*;
use crate::err::AllocError;

verus! {

/// Length of the placement cycle: within every block of `CYCLE`
/// consecutive requests, the odd-positioned ones (first, third, ...)
/// go to the tail zone and the even-positioned ones go to the head zone.
pub const CYCLE: usize = 15;

/// Double-ended bump allocator over `[start, end)`.
///
/// Cursor layout: `start <= head <= tail <= end`; the head zone is
/// `[start, head)`, the tail zone `[tail, end)`, and the gap between the
/// two cursors is free.
pub struct BumpAllocator {
    /// First address of the owned region.
    pub start: usize,
    /// One past the last address of the owned region.
    pub end: usize,
    /// Forward cursor: everything in `[start, head)` is handed out.
    pub head: usize,
    /// Backward cursor: everything in `[tail, end)` is handed out.
    pub tail: usize,
    /// Number of allocation requests seen so far; drives placement.
    pub counts: usize,
}

impl BumpAllocator {
    /// Region bounds are ordered and the two cursors stay inside them
    /// without crossing.
    pub open spec fn wf(self) -> bool {
        self.start <= self.head <= self.tail <= self.end
    }

    /// The next request is placed in the tail zone when the number of
    /// requests already seen is at an odd position of the current cycle.
    pub open spec fn places_tail(counts: usize) -> bool {
        (counts % CYCLE) % 2 == 0
    }

    /// State and result of one allocation request, as one mathematical
    /// step: the counter always advances; tail placement re-derives the
    /// new tail from the region end (intentional overlap of transient
    /// allocations), head placement advances the head cursor.
    pub open spec fn spec_alloc(a: BumpAllocator, size: usize) -> (BumpAllocator, Result<
        usize,
        AllocError,
    >) {
        let bumped = (BumpAllocator { counts: (a.counts + 1) as usize, ..a });
        if Self::places_tail(a.counts) {
            if a.end - size >= a.head {
                (
                    (BumpAllocator { tail: (a.end - size) as usize, ..bumped }),
                    Ok((a.end - size) as usize),
                )
            } else {
                (bumped, Err(AllocError::NoMemory))
            }
        } else {
            if a.head + size <= a.tail {
                (
                    (BumpAllocator { head: (a.head + size) as usize, ..bumped }),
                    Ok(a.head),
                )
            } else {
                (bumped, Err(AllocError::NoMemory))
            }
        }
    }

    /// An empty allocator; unusable until `init` gives it a region.
    pub fn new() -> (r: Self)
        ensures
            r.start == 0,
            r.end == 0,
            r.head == 0,
            r.tail == 0,
            r.counts == 0,
            r.wf(),
    {
        Self { start: 0, end: 0, head: 0, tail: 0, counts: 0 }
    }

    /// Adopt the region `[start, start + size)`; both zones start empty.
    pub fn init(&mut self, start: usize, size: usize)
        requires
            start + size <= usize::MAX,
        ensures
            final(self).start == start,
            final(self).end == start + size,
            final(self).head == start,
            final(self).tail == start + size,
            final(self).counts == old(self).counts,
            final(self).wf(),
    {
        self.start = start;
        self.end = start + size;
        self.head = start;
        self.tail = self.end;
    }

    /// Serve one request of `size` bytes.  The alignment of the request
    /// is accepted for interface parity but not used: placement never
    /// adjusts addresses.  The zone is chosen by the cyclic counter; on
    /// exhaustion the cursors are left unchanged (the counter still
    /// advances).
    pub fn allocate(&mut self, size: usize, _align: usize) -> (r: Result<usize, AllocError>)
        requires
            old(self).wf(),
            old(self).counts < usize::MAX,
        ensures
            final(self).wf(),
            (*final(self), r) == Self::spec_alloc(*old(self), size),
            final(self).start == old(self).start,
            final(self).end == old(self).end,
            final(self).counts == old(self).counts + 1,
            r matches Ok(a) ==> old(self).start <= a && a + size <= old(self).end,
            r is Err ==> final(self).head == old(self).head && final(self).tail == old(
                self,
            ).tail,
    {
        self.counts = self.counts + 1;

        if ((self.counts - 1) % CYCLE) % 2 == 0 {
            // Transient allocations: placed at the end so that one bulk
            // reset can release the whole generation at once.
            self.alloc_tail(size)
        } else {
            // Long-lived allocations: placed at the head of the region.
            self.alloc_head(size)
        }
    }

    /// Head placement: advance the forward cursor by `size`.
    fn alloc_head(&mut self, size: usize) -> (r: Result<usize, AllocError>)
        requires
            old(self).wf(),
        ensures
            final(self).wf(),
            final(self).start == old(self).start,
            final(self).end == old(self).end,
            final(self).tail == old(self).tail,
            final(self).counts == old(self).counts,
            if old(self).head + size <= old(self).tail {
                final(self).head == old(self).head + size && r == Ok::<usize, AllocError>(
                    old(self).head,
                )
            } else {
                final(self).head == old(self).head && r == Err::<usize, AllocError>(
                    AllocError::NoMemory,
                )
            },
    {
        let next_head = match self.head.checked_add(size) {
            Some(v) => v,
            None => {
                return Err(AllocError::NoMemory);
            },
        };

        if self.tail < next_head {
            Err(AllocError::NoMemory)
        } else {
            self.head = next_head;
            Ok(next_head - size)
        }
    }

    /// Tail placement: the new tail is derived from the region end, not
    /// from the current tail, so a new transient allocation may alias
    /// the range of the previous one of the same size.  The targeted
    /// workload re-issues a buffer of identical content, which makes the
    /// overlap harmless and saves the copy; this is deliberate and must
    /// not be "corrected" into a non-overlapping bump.
    fn alloc_tail(&mut self, size: usize) -> (r: Result<usize, AllocError>)
        requires
            old(self).wf(),
        ensures
            final(self).wf(),
            final(self).start == old(self).start,
            final(self).end == old(self).end,
            final(self).head == old(self).head,
            final(self).counts == old(self).counts,
            if old(self).end - size >= old(self).head {
                final(self).tail == old(self).end - size && r == Ok::<usize, AllocError>(
                    (old(self).end - size) as usize,
                )
            } else {
                final(self).tail == old(self).tail && r == Err::<usize, AllocError>(
                    AllocError::NoMemory,
                )
            },
    {
        let next_tail = match self.end.checked_sub(size) {
            Some(v) => v,
            None => {
                return Err(AllocError::NoMemory);
            },
        };

        if next_tail < self.head {
            Err(AllocError::NoMemory)
        } else {
            self.tail = next_tail;
            Ok(next_tail)
        }
    }

    /// Bulk-release the whole tail zone: every transient allocation of
    /// the current generation is dropped in one step.
    pub fn reset_tail(&mut self)
        requires
            old(self).wf(),
        ensures
            final(self).wf(),
            final(self).tail == old(self).end,
            final(self).start == old(self).start,
            final(self).end == old(self).end,
            final(self).head == old(self).head,
            final(self).counts == old(self).counts,
    {
        self.tail = self.end;
    }

    /// Bytes handed out from both zones together.
    pub fn used_bytes(&self) -> (r: usize)
        requires
            self.wf(),
        ensures
            r == (self.head - self.start) + (self.end - self.tail),
    {
        (self.head - self.start) + (self.end - self.tail)
    }

    /// Size of the owned region.
    pub fn total_bytes(&self) -> (r: usize)
        requires
            self.wf(),
        ensures
            r == self.end - self.start,
    {
        self.end - self.start
    }
}

/// Cycle placement law: the k-th allocation request (k counted from 1,
/// so the request arriving when `counts == k - 1`) is placed in the
/// tail zone exactly when `((k - 1) % CYCLE) % 2 == 0` — within every
/// block of `CYCLE` requests, the odd-positioned ones go to the tail
/// and the even-positioned ones to the head.  Whatever the outcome, a
/// tail-placed request never moves the head cursor and a head-placed
/// request never moves the tail cursor.
pub proof fn lemma_cycle_placement(a: BumpAllocator, size: usize, k: int)
    requires
        a.wf(),
        a.counts < usize::MAX,
        k == a.counts + 1,
    ensures
        BumpAllocator::places_tail(a.counts) <==> ((k - 1) % (CYCLE as int)) % 2 == 0,
        BumpAllocator::places_tail(a.counts) ==> BumpAllocator::spec_alloc(a, size).0.head
            == a.head,
        !BumpAllocator::places_tail(a.counts) ==> BumpAllocator::spec_alloc(a, size).0.tail
            == a.tail,
{
}

/// Tail overlap law: when two consecutive requests are both tail-placed
/// and ask for the same size, and the first succeeds, the second
/// succeeds as well and returns the very same address — the new range
/// aliases the previous one instead of stacking below it, by design.
pub proof fn lemma_tail_overlap(a: BumpAllocator, size: usize)
    requires
        a.wf(),
        a.counts + 2 <= usize::MAX,
        BumpAllocator::places_tail(a.counts),
        BumpAllocator::places_tail((a.counts + 1) as usize),
        BumpAllocator::spec_alloc(a, size).1 is Ok,
    ensures
        BumpAllocator::spec_alloc(BumpAllocator::spec_alloc(a, size).0, size).1
            == BumpAllocator::spec_alloc(a, size).1,
        BumpAllocator::spec_alloc(BumpAllocator::spec_alloc(a, size).0, size).0.tail
            == BumpAllocator::spec_alloc(a, size).0.tail,
{
}

} // verus!
