use kernel_alloc::composite::{LabByteAllocator, BULK_RESET_SIZE, MAX_SIZE, META_ALIGN, META_SIZE};
use kernel_alloc::early::EarlyAllocator;
use kernel_alloc::err::AllocError;

// The metadata pool can be any implementation of the byte-allocator
// capability; the early allocator serves that role here.
type Meta = EarlyAllocator<0x1000>;

fn fresh() -> LabByteAllocator<Meta> {
    let mut c: LabByteAllocator<Meta> = LabByteAllocator::new();
    c.init(0x10000, MAX_SIZE);
    c
}

#[test]
fn init_partitions_statically() {
    let c = fresh();
    assert_eq!(c.meta_pool.start, 0x10000);
    assert_eq!(c.meta_pool.end, 0x10000 + META_SIZE);
    assert_eq!(c.data_pool.start, 0x10000 + META_SIZE);
    assert_eq!(c.data_pool.end, 0x10000 + MAX_SIZE);
    assert_eq!(c.data_pool.head, c.data_pool.start);
    assert_eq!(c.data_pool.tail, c.data_pool.end);
}

#[test]
fn metadata_requests_never_touch_the_data_pool() {
    let mut c = fresh();
    let before = (c.data_pool.head, c.data_pool.tail, c.data_pool.counts);
    let a = c.allocate(0x100, META_ALIGN).unwrap();
    assert!(a >= 0x10000);
    assert!(a + 0x100 <= 0x10000 + META_SIZE);
    assert_eq!(
        (c.data_pool.head, c.data_pool.tail, c.data_pool.counts),
        before
    );
}

#[test]
fn data_requests_never_touch_the_metadata_pool() {
    let mut c = fresh();
    let meta_used = c.meta_pool.used_bytes();
    let meta_b_pos = c.meta_pool.b_pos;
    let a = c.allocate(0x100, 16).unwrap();
    // First data request is tail-placed: re-derived from the data end.
    assert_eq!(a, 0x10000 + MAX_SIZE - 0x100);
    assert_eq!(c.data_pool.tail, a);
    assert_eq!(c.meta_pool.b_pos, meta_b_pos);
    assert_eq!(c.meta_pool.used_bytes(), meta_used);
}

#[test]
fn magic_free_size_resets_the_tail() {
    let mut c = fresh();
    // Build up some transient tail data.
    let a1 = c.allocate(0x40, 1).unwrap();
    assert_eq!(c.data_pool.tail, a1);
    // A metadata record backs them.
    let m = c.allocate(BULK_RESET_SIZE, META_ALIGN).unwrap();
    // Freeing the record of exactly the trigger size bulk-resets the
    // data pool's tail zone.
    c.dealloc(m, BULK_RESET_SIZE, META_ALIGN);
    assert_eq!(c.data_pool.tail, c.data_pool.end);
}

#[test]
fn other_free_sizes_do_not_reset_the_tail() {
    let mut c = fresh();
    let a1 = c.allocate(0x40, 1).unwrap();
    let m = c.allocate(0x100, META_ALIGN).unwrap();
    c.dealloc(m, 0x100, META_ALIGN);
    assert_eq!(c.data_pool.tail, a1);
}

#[test]
fn non_metadata_frees_are_ignored() {
    let mut c = fresh();
    let a1 = c.allocate(0x40, 1).unwrap();
    let head_before = c.data_pool.head;
    c.dealloc(a1, 0x40, 1);
    c.dealloc(a1, BULK_RESET_SIZE, 16);
    assert_eq!(c.data_pool.tail, a1);
    assert_eq!(c.data_pool.head, head_before);
}

#[test]
fn accounting_sums_both_pools() {
    let mut c = fresh();
    assert_eq!(c.total_bytes(), MAX_SIZE);
    assert_eq!(c.used_bytes(), 0);
    assert_eq!(c.available_bytes(), MAX_SIZE);
    c.allocate(0x100, META_ALIGN).unwrap();
    c.allocate(0x40, 1).unwrap();
    assert_eq!(c.used_bytes(), 0x140);
    assert_eq!(c.available_bytes(), MAX_SIZE - 0x140);
    // total_bytes reports the fixed window even though the partition
    // only hands out MAX_SIZE bytes in sum.
    assert_eq!(c.total_bytes(), MAX_SIZE);
}

#[test]
fn composite_add_memory_is_unsupported() {
    let mut c = fresh();
    assert_eq!(c.add_memory(0x9000000, 0x1000), Err(AllocError::NoMemory));
}

#[test]
fn data_pool_exhaustion_is_no_memory() {
    let mut c = fresh();
    assert_eq!(c.allocate(MAX_SIZE, 1), Err(AllocError::NoMemory));
    assert_eq!(c.data_pool.head, c.data_pool.start);
    assert_eq!(c.data_pool.tail, c.data_pool.end);
}

#[test]
fn init_ignores_the_size_argument() {
    let mut c: LabByteAllocator<Meta> = LabByteAllocator::new();
    // The partition is static: even a smaller size leaves the fixed
    // MAX_SIZE window split at META_SIZE.
    c.init(0x10000, 0x1000);
    assert_eq!(c.meta_pool.end, 0x10000 + META_SIZE);
    assert_eq!(c.data_pool.end, 0x10000 + MAX_SIZE);
    assert_eq!(c.total_bytes(), MAX_SIZE);
}
