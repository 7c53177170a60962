use kernel::simple_alloc::PushAllocatorInternal;

#[test]
fn bump_allocator_aligns_and_advances() {
    let mut a = PushAllocatorInternal::new();
    assert!(!a.is_configured());
    a.configure(0x1001, 0x2000);
    assert!(a.is_configured());
    assert_eq!(a.alloc_bytes(16, 16), Some(0x1010));
    assert_eq!(a.current_byte(), 0x1020);
    assert_eq!(a.alloc_bytes(1, 1), Some(0x1020));
    assert_eq!(a.alloc_bytes(8, 8), Some(0x1028));
    assert_eq!(a.current_byte(), 0x1030);
    assert_eq!(a.end(), 0x2000);
}

#[test]
fn bump_allocator_refuses_past_the_end() {
    let mut a = PushAllocatorInternal::new();
    a.configure(0x1000, 0x1100);
    assert_eq!(a.alloc_bytes(0x100, 1), Some(0x1000));
    assert_eq!(a.alloc_bytes(1, 1), None);
    assert_eq!(a.current_byte(), 0x1100);
    assert_eq!(a.alloc_bytes(0, 1), Some(0x1100));
}

#[test]
fn successive_allocations_do_not_overlap() {
    let mut a = PushAllocatorInternal::new();
    a.configure(3, 1000);
    let b1 = a.alloc_bytes(10, 4).unwrap();
    let b2 = a.alloc_bytes(20, 32).unwrap();
    assert_eq!(b1, 4);
    assert_eq!(b2, 32);
    assert!(b1 + 10 <= b2);
    assert!(b2 + 20 <= 1000);
}

#[test]
fn any_sequence_of_allocations_is_disjoint() {
    let mut a = PushAllocatorInternal::new();
    a.configure(7, 4096);
    let reqs: [(usize, usize); 6] = [(3, 1), (10, 8), (1, 64), (0, 4), (100, 16), (5, 2)];
    let mut blocks: Vec<(usize, usize)> = Vec::new();
    for &(size, align) in reqs.iter() {
        let start = a.alloc_bytes(size, align).unwrap();
        assert_eq!(start % align, 0);
        blocks.push((start, size));
    }
    for (i, &(s1, n1)) in blocks.iter().enumerate() {
        for &(s2, _) in blocks[i + 1..].iter() {
            assert!(s1 + n1 <= s2);
        }
    }
    assert_eq!(blocks[1].0, 16);
    assert_eq!(blocks[2].0, 64);
}
