//! Kernel memory-allocation substrate: an early double-ended region
//! allocator (bytes forward, pages backward), a pattern-tuned head/tail
//! bump allocator, and a composite byte allocator that splits a region
//! into a metadata pool (served by any implementation of the byte
//! allocator capability) and a data pool (served by the bump allocator).
//! A simple salted hash map rounds out the crate as an independent
//! container.

pub mod align;
pub mod bump;
pub mod capability;
pub mod composite;
pub mod early;
pub mod err;
pub mod hashmap;
