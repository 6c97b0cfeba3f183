use lib::bump::{plan_bump, plan_rewind, BumpAllocator, DANGLING, NULL, STATIC_HEAP_SIZE};

const REGION_START: usize = 0x1000_0000;
const REGION_SIZE: usize = 8 * 1024 * 1024;
const STATIC_HEAP: usize = 0x4000;

fn initialised() -> BumpAllocator {
    let mut a = BumpAllocator::new();
    a.init(REGION_START, REGION_SIZE);
    a
}

#[test]
fn bump_tests_test_box_alloc() {
    let mut a = initialised();
    let p = a.allocate(4, 4, STATIC_HEAP);
    assert_ne!(p, NULL);
    assert_eq!(p % 4, 0);
    assert_eq!(p, REGION_START);
    assert_eq!(a.current(), REGION_START + 4);
}

#[test]
fn bump_tests_test_vec_alloc() {
    // The buffers a growing vector of 1024 `i32` asks for.
    let mut a = initialised();
    let mut last_end = REGION_START;
    let mut cap = 4;
    while cap <= 1024 {
        let p = a.allocate(cap * 4, 4, STATIC_HEAP);
        assert_ne!(p, NULL);
        assert!(p >= last_end);
        last_end = p + cap * 4;
        cap *= 2;
    }
    assert_eq!(a.current(), last_end);
}

#[test]
fn bump_tests_test_alignment() {
    let mut a = initialised();
    let _ = a.allocate(1, 1, STATIC_HEAP);
    let p = a.allocate(1, 64, STATIC_HEAP);
    assert_eq!(p % 64, 0);
    assert_eq!(p, REGION_START + 64);
}

#[test]
fn bump_tests_test_alignment_matrix() {
    let mut a = initialised();
    for &align in &[8usize, 16, 32, 64, 128] {
        let p = a.allocate(1, align, STATIC_HEAP);
        assert_ne!(p, NULL);
        assert_eq!(p % align, 0);
    }
}

#[test]
fn bump_tests_test_zst_box() {
    let mut a = initialised();
    let pa = a.allocate(0, 1, STATIC_HEAP);
    let pb = a.allocate(0, 1, STATIC_HEAP);
    assert_ne!(pa, 0);
    assert_ne!(pb, 0);
    assert_eq!(pa, DANGLING);
    assert_eq!(pb, DANGLING);
}

// A zero-sized value never reaches the allocator; a zero-sized request
// that does gets the dangling address 1 whatever its alignment, and leaves
// the cursor where it was, so the next aligned request is still aligned.
#[test]
fn bump_tests_test_zst_alignment() {
    let mut a = initialised();
    let before = a.current();
    let z = a.allocate(0, 64, STATIC_HEAP);
    assert_eq!(z, DANGLING);
    assert_eq!(a.current(), before);
    let p = a.allocate(1, 64, STATIC_HEAP);
    assert_eq!(p % 64, 0);
}

#[test]
fn bump_tests_test_zst_vec_capacity() {
    let mut a = initialised();
    let before = a.current();
    for _ in 0..1000 {
        assert_eq!(a.allocate(0, 1, STATIC_HEAP), DANGLING);
    }
    assert_eq!(a.current(), before);
}

#[test]
fn bump_tests_test_threadsafe_no_overlap_alloc_only() {
    const THREADS: usize = 8;
    const ALLOCS_PER_THREAD: usize = 128;
    const SIZE: usize = 64;
    let mut a = initialised();
    let mut ranges = Vec::new();
    for _ in 0..THREADS * ALLOCS_PER_THREAD {
        let p = a.allocate(SIZE, 8, STATIC_HEAP);
        assert_ne!(p, NULL);
        ranges.push((p, p + SIZE));
    }
    for i in 0..ranges.len() {
        for j in i + 1..ranges.len() {
            assert!(ranges[i].1 <= ranges[j].0 || ranges[j].1 <= ranges[i].0);
        }
    }
}

#[test]
fn bump_tests_test_oom_is_graceful() {
    let mut a = initialised();
    let mut granted = 0;
    loop {
        let p = a.allocate(1024 * 1024, 8, STATIC_HEAP);
        if p == NULL {
            break;
        }
        granted += 1;
    }
    assert_eq!(granted, 8);
    let cursor = a.current();
    assert_eq!(a.allocate(1024 * 1024, 8, STATIC_HEAP), NULL);
    assert_eq!(a.current(), cursor);
}

#[test]
fn test_zst_does_not_advance_bump() {
    let mut a = initialised();
    let p1 = a.allocate(16, 8, STATIC_HEAP);
    let _z = a.allocate(0, 1, STATIC_HEAP);
    let p2 = a.allocate(16, 8, STATIC_HEAP);
    assert_eq!(p2 - p1, 16);
}

#[test]
fn new_allocator_is_empty() {
    let a = BumpAllocator::new();
    assert!(!a.is_initialized());
    assert_eq!(a.start(), 0);
    assert_eq!(a.end(), 0);
    assert_eq!(a.current(), 0);
}

#[test]
fn init_sets_region() {
    let a = initialised();
    assert!(a.is_initialized());
    assert_eq!(a.start(), REGION_START);
    assert_eq!(a.end(), REGION_START + REGION_SIZE);
    assert_eq!(a.current(), REGION_START);
}

#[test]
fn first_request_claims_static_heap() {
    let mut a = BumpAllocator::new();
    let p = a.allocate(10, 8, STATIC_HEAP);
    assert!(a.is_initialized());
    assert_eq!(p, STATIC_HEAP);
    assert_eq!(a.start(), STATIC_HEAP);
    assert_eq!(a.end(), STATIC_HEAP + STATIC_HEAP_SIZE);
    assert_eq!(a.current(), STATIC_HEAP + 10);
}

#[test]
fn zero_size_request_does_not_initialise() {
    let mut a = BumpAllocator::new();
    assert_eq!(a.allocate(0, 8, STATIC_HEAP), DANGLING);
    assert!(!a.is_initialized());
}

#[test]
fn ensure_init_keeps_existing_region() {
    let mut a = initialised();
    a.ensure_init(STATIC_HEAP);
    assert_eq!(a.start(), REGION_START);
    let mut b = BumpAllocator::new();
    b.ensure_init(STATIC_HEAP);
    assert_eq!(b.start(), STATIC_HEAP);
    assert_eq!(b.end(), STATIC_HEAP + STATIC_HEAP_SIZE);
}

#[test]
fn static_heap_is_exhausted_exactly() {
    let mut a = BumpAllocator::new();
    let p = a.allocate(STATIC_HEAP_SIZE, 1, STATIC_HEAP);
    assert_eq!(p, STATIC_HEAP);
    assert_eq!(a.allocate(1, 1, STATIC_HEAP), NULL);
}

#[test]
fn padding_is_skipped_before_aligned_block() {
    let mut a = initialised();
    let p1 = a.allocate(3, 1, STATIC_HEAP);
    let p2 = a.allocate(8, 16, STATIC_HEAP);
    assert_eq!(p1, REGION_START);
    assert_eq!(p2, REGION_START + 16);
    assert_eq!(a.current(), REGION_START + 24);
}

#[test]
fn dealloc_of_last_block_rewinds() {
    let mut a = initialised();
    let _p1 = a.allocate(3, 1, STATIC_HEAP);
    let p2 = a.allocate(8, 16, STATIC_HEAP);
    a.dealloc(p2, 8, 16);
    assert_eq!(a.current(), p2);
    let p3 = a.allocate(8, 16, STATIC_HEAP);
    assert_eq!(p3, p2);
}

#[test]
fn dealloc_of_earlier_block_is_noop() {
    let mut a = initialised();
    let p1 = a.allocate(16, 8, STATIC_HEAP);
    let _p2 = a.allocate(16, 8, STATIC_HEAP);
    let cursor = a.current();
    a.dealloc(p1, 16, 8);
    assert_eq!(a.current(), cursor);
}

#[test]
fn same_layout_blocks_are_adjacent() {
    let mut a = initialised();
    let _ = a.allocate(5, 1, STATIC_HEAP);
    let p1 = a.allocate(32, 32, STATIC_HEAP);
    let p2 = a.allocate(32, 32, STATIC_HEAP);
    assert_eq!(p2, p1 + 32);
}

#[test]
fn plan_bump_exact_values() {
    assert_eq!(plan_bump(100, 200, 10, 16), Some((112, 122)));
    assert_eq!(plan_bump(100, 121, 10, 16), None);
    assert_eq!(plan_bump(96, 106, 10, 16), Some((96, 106)));
}

#[test]
fn plan_rewind_exact_values() {
    assert_eq!(plan_rewind(122, 112, 10, 16), Some(112));
    assert_eq!(plan_rewind(122, 100, 10, 16), Some(100));
    assert_eq!(plan_rewind(122, 90, 10, 16), None);
}

#[test]
fn blocks_stay_disjoint_across_many_requests() {
    let mut a = initialised();
    let layouts = [(3usize, 1usize), (40, 8), (1, 64), (100, 16), (7, 4), (64, 128)];
    let mut blocks = Vec::new();
    for &(size, align) in layouts.iter() {
        let p = a.allocate(size, align, STATIC_HEAP);
        assert_ne!(p, NULL);
        assert!(p >= REGION_START && p + size <= REGION_START + REGION_SIZE);
        blocks.push((p, p + size));
    }
    for i in 0..blocks.len() {
        for j in i + 1..blocks.len() {
            assert!(blocks[i].1 <= blocks[j].0);
        }
    }
}

#[test]
fn refused_request_stays_refused_after_other_requests() {
    let mut a = BumpAllocator::new();
    a.init(REGION_START, 4096);
    assert_eq!(a.allocate(5000, 8, STATIC_HEAP), NULL);
    let small = a.allocate(100, 8, STATIC_HEAP);
    assert_ne!(small, NULL);
    assert_eq!(a.allocate(5000, 8, STATIC_HEAP), NULL);
}

#[test]
fn granted_bytes_fit_region() {
    let mut a = BumpAllocator::new();
    a.init(REGION_START, 4096);
    let mut total = 0;
    for k in 0..100usize {
        let size = 1 + k % 50;
        if a.allocate(size, 8, STATIC_HEAP) != NULL {
            total += size;
        }
    }
    assert!(total <= 4096);
    assert!(a.current() <= a.end());
    assert!(a.start() <= a.current());
}

#[test]
fn two_returns_rewind_adjacent_blocks() {
    let mut a = initialised();
    let p1 = a.allocate(16, 8, STATIC_HEAP);
    let p2 = a.allocate(16, 8, STATIC_HEAP);
    assert_eq!(p2, p1 + 16);
    a.dealloc(p2, 16, 8);
    a.dealloc(p1, 16, 8);
    assert_eq!(a.current(), p1);
}

#[test]
fn two_returns_stop_at_padding() {
    let mut a = initialised();
    let p1 = a.allocate(3, 1, STATIC_HEAP);
    let p2 = a.allocate(8, 16, STATIC_HEAP);
    assert_ne!(p2, p1 + 3);
    a.dealloc(p2, 8, 16);
    a.dealloc(p1, 3, 1);
    assert_eq!(a.current(), p2);
}

#[test]
fn init_keeps_static_heap_blocks_apart() {
    let mut a = BumpAllocator::new();
    let early = a.allocate(100, 8, STATIC_HEAP);
    assert_eq!(early, STATIC_HEAP);
    a.init(REGION_START, REGION_SIZE);
    for _ in 0..50 {
        let p = a.allocate(100, 8, STATIC_HEAP);
        assert!(p + 100 <= early || early + 100 <= p);
        assert!(p >= REGION_START);
    }
}
