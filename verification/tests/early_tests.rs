use kernel_alloc::early::EarlyAllocator;
use kernel_alloc::err::AllocError;

#[test]
fn early_new_is_empty() {
    let e = EarlyAllocator::<0x1000>::new();
    assert_eq!(e.start, 0);
    assert_eq!(e.end, 0);
    assert_eq!(e.b_pos, 0);
    assert_eq!(e.p_pos, 0);
    assert_eq!(e.b_count, 0);
}

#[test]
fn early_init_sets_cursors() {
    let mut e = EarlyAllocator::<0x1000>::new();
    e.init(0x1000, 0x1000);
    assert_eq!(e.start, 0x1000);
    assert_eq!(e.end, 0x2000);
    assert_eq!(e.b_pos, 0x1000);
    assert_eq!(e.p_pos, 0x2000);
    assert_eq!(e.total_bytes(), 0x1000);
    assert_eq!(e.used_bytes(), 0);
    assert_eq!(e.available_bytes(), 0x1000);
    assert_eq!(e.total_pages(), 1);
    assert_eq!(e.used_pages(), 0);
    assert_eq!(e.available_pages(), 1);
}

#[test]
fn byte_alloc_rounds_up_to_alignment() {
    let mut e = EarlyAllocator::<0x1000>::new();
    e.init(0x1000, 0x1000);
    assert_eq!(e.allocate(0x11, 8), Ok(0x1000));
    assert_eq!(e.b_pos, 0x1011);
    // The cursor is rounded up to the next multiple of 8 first.
    assert_eq!(e.allocate(0x3, 8), Ok(0x1018));
    assert_eq!(e.b_pos, 0x101b);
    assert_eq!(e.used_bytes(), 0x1b);
}

#[test]
fn early_reclaim_needs_all_frees() {
    let mut e = EarlyAllocator::<0x1000>::new();
    e.init(0x1000, 0x1000);
    assert_eq!(e.allocate(0x10, 1), Ok(0x1000));
    assert_eq!(e.allocate(0x10, 1), Ok(0x1010));
    assert_eq!(e.allocate(0x10, 1), Ok(0x1020));
    assert_eq!(e.b_count, 3);
    let avail = e.available_bytes();

    // Freeing while others remain live reclaims nothing.
    e.dealloc(0x1000, 0x10, 1);
    e.dealloc(0x1010, 0x10, 1);
    assert_eq!(e.b_pos, 0x1030);
    assert_eq!(e.available_bytes(), avail);

    // Freeing the last outstanding allocation rewinds the byte cursor.
    e.dealloc(0x1020, 0x10, 1);
    assert_eq!(e.b_pos, 0x1000);
    assert_eq!(e.used_bytes(), 0);
    assert_eq!(e.b_count, 0);

    // Freeing with nothing outstanding is a no-op.
    e.dealloc(0x1000, 0x10, 1);
    assert_eq!(e.b_count, 0);
    assert_eq!(e.b_pos, 0x1000);
}

#[test]
fn page_alloc_is_aligned() {
    let mut e = EarlyAllocator::<0x1000>::new();
    e.init(0x1000, 0x1000);
    let a = e.alloc_pages(1, 12).unwrap();
    assert_eq!(a % 0x1000, 0);
    assert!(a < 0x2000);
    assert_eq!(a, 0x1000);
    assert_eq!(e.p_pos, 0x1000);
    assert_eq!(e.used_pages(), 1);
    assert_eq!(e.available_pages(), 0);
}

#[test]
fn page_alloc_rounds_down() {
    let mut e = EarlyAllocator::<0x1000>::new();
    // Region end is not page-aligned: the tight bound 0x1001 is rounded
    // down to 0x1000, which is still above the byte cursor.
    e.init(0x1000, 0x1001);
    assert_eq!(e.alloc_pages(1, 12), Ok(0x1000));
    assert_eq!(e.p_pos, 0x1000);
}

#[test]
fn byte_alloc_overlap_is_rejected() {
    let mut e = EarlyAllocator::<0x1000>::new();
    e.init(0x1000, 0x1000);
    assert_eq!(e.allocate(0x2000, 1), Err(AllocError::MemoryOverlap));
    // No partial mutation on failure.
    assert_eq!(e.b_pos, 0x1000);
    assert_eq!(e.p_pos, 0x2000);
    assert_eq!(e.b_count, 0);
}

#[test]
fn byte_alloc_overflow_is_no_memory() {
    let mut e = EarlyAllocator::<0x1000>::new();
    e.init(usize::MAX - 0xfff, 0xfff);
    assert_eq!(e.allocate(0x2000, 1), Err(AllocError::NoMemory));
    assert_eq!(e.b_pos, usize::MAX - 0xfff);
}

#[test]
fn page_alloc_exhaustion() {
    let mut e = EarlyAllocator::<0x1000>::new();
    e.init(0x1000, 0x1000);
    // More pages than the region has ever held: the page cursor would
    // underflow.
    assert_eq!(e.alloc_pages(3, 0), Err(AllocError::NoMemory));
    assert_eq!(e.p_pos, 0x2000);
    // Enough address space below the cursor, but it would cross into
    // the byte zone.
    assert_eq!(e.allocate(0x10, 1), Ok(0x1000));
    assert_eq!(e.alloc_pages(1, 0), Err(AllocError::MemoryOverlap));
    assert_eq!(e.p_pos, 0x2000);
    assert_eq!(e.b_pos, 0x1010);
}

#[test]
fn page_alloc_huge_alignment_is_no_memory() {
    let mut e = EarlyAllocator::<0x1000>::new();
    e.init(0x1000, 0x1000);
    assert_eq!(e.alloc_pages(1, usize::BITS as usize), Err(AllocError::NoMemory));
    assert_eq!(e.p_pos, 0x2000);
}

#[test]
fn dealloc_pages_is_a_no_op() {
    let mut e = EarlyAllocator::<0x1000>::new();
    e.init(0x1000, 0x2000);
    let a = e.alloc_pages(1, 12).unwrap();
    let p_pos = e.p_pos;
    e.dealloc_pages(a, 1);
    assert_eq!(e.p_pos, p_pos);
    assert_eq!(e.used_pages(), 1);
}

#[test]
fn early_add_memory_is_unsupported() {
    let mut e = EarlyAllocator::<0x1000>::new();
    e.init(0x1000, 0x1000);
    assert_eq!(e.add_memory(0x4000, 0x1000), Err(AllocError::NoMemory));
    assert_eq!(e.end, 0x2000);
}

#[test]
fn init_resets_the_outstanding_count() {
    let mut e = EarlyAllocator::<0x1000>::new();
    e.init(0x1000, 0x1000);
    e.allocate(0x10, 1).unwrap();
    e.allocate(0x10, 1).unwrap();
    assert_eq!(e.b_count, 2);
    // Re-initialising hands the allocator a fresh region with no
    // outstanding byte allocations.
    e.init(0x4000, 0x1000);
    assert_eq!(e.b_count, 0);
    // The first free after re-init is therefore a no-op, not a rewind
    // driven by a stale count.
    assert_eq!(e.allocate(0x10, 1), Ok(0x4000));
    e.dealloc(0x4000, 0x10, 1);
    assert_eq!(e.b_pos, 0x4000);
    assert_eq!(e.b_count, 0);
}
