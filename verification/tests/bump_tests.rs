use kernel_alloc::bump::{BumpAllocator, CYCLE};
use kernel_alloc::err::AllocError;

#[test]
fn bump_new_is_empty() {
    let b = BumpAllocator::new();
    assert_eq!(b.start, 0);
    assert_eq!(b.end, 0);
    assert_eq!(b.head, 0);
    assert_eq!(b.tail, 0);
    assert_eq!(b.counts, 0);
}

#[test]
fn bump_init_sets_cursors() {
    let mut b = BumpAllocator::new();
    b.init(0x1000, 0x100);
    assert_eq!(b.start, 0x1000);
    assert_eq!(b.end, 0x1100);
    assert_eq!(b.head, 0x1000);
    assert_eq!(b.tail, 0x1100);
    assert_eq!(b.total_bytes(), 0x100);
    assert_eq!(b.used_bytes(), 0);
}

#[test]
fn cycle_placement_over_two_blocks() {
    let mut b = BumpAllocator::new();
    b.init(0x1000, 0x100);
    let mut next_head = 0x1000usize;
    for k in 1..=2 * CYCLE {
        let a = b.allocate(1, 1).unwrap();
        if ((k - 1) % CYCLE) % 2 == 0 {
            // Tail placement: always re-derived from the region end.
            assert_eq!(a, 0x10ff);
            assert_eq!(b.tail, 0x10ff);
        } else {
            // Head placement: sequential from the head cursor.
            assert_eq!(a, next_head);
            next_head += 1;
        }
        assert_eq!(b.counts, k);
    }
    // 1st, 3rd, ..., 15th, 16th, 18th, ..., 30th went to the tail:
    // 8 + 8 = 16 tail placements, 14 head placements of one byte each.
    assert_eq!(b.head, 0x1000 + 14);
}

#[test]
fn tail_allocations_alias() {
    let mut b = BumpAllocator::new();
    b.init(0x1000, 0x100);
    // Request 15 and request 16 are consecutive and both tail-placed.
    for _ in 1..=14 {
        b.allocate(1, 1).unwrap();
    }
    let first = b.allocate(0x20, 1).unwrap();
    let second = b.allocate(0x20, 1).unwrap();
    assert_eq!(first, 0x1100 - 0x20);
    assert_eq!(second, first);
    assert_eq!(b.tail, first);
}

#[test]
fn head_exhaustion_leaves_cursors() {
    let mut b = BumpAllocator::new();
    b.init(0, 4);
    // Request 1 is tail-placed.
    assert_eq!(b.allocate(2, 1), Ok(2));
    assert_eq!(b.tail, 2);
    // Request 2 is head-placed and does not fit in front of the tail.
    assert_eq!(b.allocate(3, 1), Err(AllocError::NoMemory));
    assert_eq!(b.head, 0);
    assert_eq!(b.tail, 2);
    // The counter still advanced on failure.
    assert_eq!(b.counts, 2);
}

#[test]
fn tail_exhaustion_leaves_cursors() {
    let mut b = BumpAllocator::new();
    b.init(0, 4);
    // Request 1 is tail-placed and larger than the whole region.
    assert_eq!(b.allocate(5, 1), Err(AllocError::NoMemory));
    assert_eq!(b.head, 0);
    assert_eq!(b.tail, 4);
    assert_eq!(b.counts, 1);
}

#[test]
fn reset_tail_releases_the_tail_zone() {
    let mut b = BumpAllocator::new();
    b.init(0x1000, 0x100);
    b.allocate(0x10, 1).unwrap();
    assert_eq!(b.tail, 0x10f0);
    assert_eq!(b.used_bytes(), 0x10);
    b.reset_tail();
    assert_eq!(b.tail, 0x1100);
    assert_eq!(b.used_bytes(), 0);
}

#[test]
fn used_bytes_counts_both_zones() {
    let mut b = BumpAllocator::new();
    b.init(0x1000, 0x100);
    b.allocate(0x10, 1).unwrap(); // tail
    b.allocate(0x8, 1).unwrap(); // head
    assert_eq!(b.used_bytes(), 0x18);
    assert_eq!(b.total_bytes(), 0x100);
}

#[test]
fn init_does_not_reset_the_counter() {
    let mut b = BumpAllocator::new();
    b.init(0x1000, 0x100);
    b.allocate(1, 1).unwrap(); // request 1: tail
    b.init(0x2000, 0x100);
    assert_eq!(b.counts, 1);
    // The next request is number 2 of the cycle and goes to the head.
    assert_eq!(b.allocate(1, 1), Ok(0x2000));
    assert_eq!(b.head, 0x2001);
    assert_eq!(b.tail, 0x2100);
}
