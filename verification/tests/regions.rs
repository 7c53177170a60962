use kernel::common::buf_vec::BufVec;
use kernel::common::region::Region;
use kernel::memory_map::{free_regions, largest_region, subtract_from_all};

fn span(r: &Region) -> (usize, usize) {
    (r.start(), r.end())
}

#[test]
fn region_needs_a_nonempty_range() {
    assert!(Region::try_new(5, 5).is_none());
    assert!(Region::try_new(6, 5).is_none());
    let r = Region::try_new(5, 9).unwrap();
    assert_eq!(span(&r), (5, 9));
    assert_eq!(r.size(), 4);
}

#[test]
fn subtract_splits_around_a_hole() {
    let a = Region::new(0, 100);
    let b = Region::new(40, 60);
    let [l, r] = a.subtract(&b);
    assert_eq!(span(&l.unwrap()), (0, 40));
    assert_eq!(span(&r.unwrap()), (60, 100));
}

#[test]
fn subtract_of_covering_region_leaves_nothing() {
    let a = Region::new(10, 20);
    let b = Region::new(0, 30);
    let [l, r] = a.subtract(&b);
    assert!(l.is_none());
    assert!(r.is_none());
}

#[test]
fn subtract_of_disjoint_region_keeps_everything() {
    let a = Region::new(10, 20);
    let below = Region::new(0, 5);
    let [l, r] = a.subtract(&below);
    assert!(l.is_none());
    assert_eq!(span(&r.unwrap()), (10, 20));
    let above = Region::new(25, 30);
    let [l, r] = a.subtract(&above);
    assert_eq!(span(&l.unwrap()), (10, 20));
    assert!(r.is_none());
}

#[test]
fn intersects_is_strict_at_the_edges() {
    let a = Region::new(10, 20);
    assert!(a.intersects(&Region::new(15, 25)));
    assert!(!a.intersects(&Region::new(20, 25)));
    assert!(!a.intersects(&Region::new(0, 10)));
    assert!(a.intersects(&Region::new(0, 11)));
}

#[test]
fn free_regions_avoid_every_used_region() {
    let mut avail: BufVec<Region, 128> = BufVec::new();
    avail.push(Region::new(0x0, 0x9F000)).unwrap();
    avail.push(Region::new(0x100000, 0x7FE0000)).unwrap();
    let mut used: BufVec<Region, 64> = BufVec::new();
    used.push(Region::new(0x1000, 0x20000)).unwrap();
    used.push(Region::new(0x100000, 0x200000)).unwrap();
    used.push(Region::new(0x300000, 0x301000)).unwrap();
    let free = free_regions(&avail, &used).unwrap();
    let spans: Vec<(usize, usize)> = (0..free.len()).map(|i| span(&free.index(i))).collect();
    assert_eq!(
        spans,
        vec![(0x0, 0x1000), (0x20000, 0x9F000), (0x200000, 0x300000), (0x301000, 0x7FE0000)]
    );
    for i in 0..free.len() {
        for j in 0..used.len() {
            assert!(!used.index(j).intersects(&free.index(i)));
        }
    }
    let best = largest_region(&free).unwrap();
    assert_eq!(span(&best), (0x301000, 0x7FE0000));
}

#[test]
fn subtract_from_all_fails_past_capacity() {
    let mut avail: BufVec<Region, 128> = BufVec::new();
    for i in 0..128usize {
        avail.push(Region::new(i * 100, i * 100 + 50)).unwrap();
    }
    let hole_everywhere = Region::new(0, 1);
    assert!(subtract_from_all(&avail, &hole_everywhere).is_ok());
    let mut split: BufVec<Region, 128> = BufVec::new();
    for i in 0..65usize {
        split.push(Region::new(i * 100, i * 100 + 50)).unwrap();
    }
    // Every region loses its middle: 65 regions become 130 pieces.
    let mut used: BufVec<Region, 64> = BufVec::new();
    let mut cut: BufVec<Region, 128> = BufVec::new();
    for i in 0..65usize {
        cut.push(Region::new(i * 100 + 10, i * 100 + 20)).unwrap();
    }
    used.push(Region::new(1_000_000, 1_000_001)).unwrap();
    assert!(free_regions(&split, &used).is_ok());
    let mut fails = false;
    let mut cur = split;
    for i in 0..65usize {
        match subtract_from_all(&cur, &cut.index(i)) {
            Ok(next) => cur = next,
            Err(()) => {
                fails = true;
                break;
            }
        }
    }
    assert!(fails);
}

#[test]
fn largest_region_prefers_the_last_of_equals() {
    let mut v: BufVec<Region, 128> = BufVec::new();
    assert!(largest_region(&v).is_none());
    v.push(Region::new(0, 10)).unwrap();
    v.push(Region::new(100, 110)).unwrap();
    v.push(Region::new(200, 205)).unwrap();
    assert_eq!(span(&largest_region(&v).unwrap()), (100, 110));
}
