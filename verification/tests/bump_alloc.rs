use interference_mitigation::bump::{bump_alloc, bump_can_alloc, RawSimpleAlloc, StupidAlloc};

#[test]
fn fresh_allocator_has_no_room() {
    let a = StupidAlloc::new();
    assert!(!a.can_alloc(0, 1));
    assert!(!a.can_alloc(1, 8));
}

#[test]
fn blocks_follow_each_other_aligned() {
    let mut a = StupidAlloc::new();
    a.init(0x1001, 0x1000);
    assert!(a.can_alloc(3, 1));
    let first = a.allocate(3, 1);
    assert_eq!(first, 0x1001);
    assert!(a.can_alloc(16, 16));
    let second = a.allocate(16, 16);
    assert_eq!(second, 0x1010);
    assert!(second >= first + 3);
    let third = a.allocate(1, 8);
    assert_eq!(third, 0x1020);
}

#[test]
fn block_may_not_reach_the_end() {
    let mut a = RawSimpleAlloc::new();
    a.init(0, 64);
    // a block that would end exactly at the end of the region is refused
    assert!(!a.can_alloc(64, 1));
    assert!(a.can_alloc(63, 1));
    assert_eq!(a.allocate(63, 1), 0);
    assert!(!a.can_alloc(1, 1));
    assert!(a.can_alloc(0, 1));
}

#[test]
fn alignment_can_exhaust_the_region() {
    let mut a = StupidAlloc::new();
    a.init(1, 40);
    assert!(!a.can_alloc(8, 64));
    assert!(a.can_alloc(8, 32));
    assert_eq!(a.allocate(8, 32), 32);
}

#[test]
fn dealloc_gives_nothing_back() {
    let mut a = StupidAlloc::new();
    a.init(0, 100);
    let b = a.allocate(50, 1);
    a.dealloc(b, 50, 1);
    assert!(!a.can_alloc(50, 1));
    assert_eq!(a.allocate(10, 1), 50);
}

#[test]
fn free_functions_agree() {
    assert_eq!(bump_alloc(5, 100, 10, 4), 8);
    assert!(bump_can_alloc(5, 100, 10, 4));
    assert!(!bump_can_alloc(usize::MAX - 2, usize::MAX, 1, 8));
    assert!(!bump_can_alloc(8, 18, 10, 4));
}
