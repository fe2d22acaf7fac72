//! Allocation errors shared by every allocator in the crate.

use vstd::prelude::*;

verus! {

/// Why an allocation request could not be served.
#[derive(Clone, Copy, Debug, PartialEq, Eq, Structural)]
pub enum AllocError {
    /// The request cannot be satisfied within the owning region,
    /// including arithmetic overflow while computing bounds.
    NoMemory,
    /// The computed allocation would cross into the opposing
    /// cursor's territory.
    MemoryOverlap,
}

} // verus!
