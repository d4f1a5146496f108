use extent::Domain;
use extent::Extent;
use extent::ExtentIter;
use extent::ExtentRevIter;
use std::fmt::Debug;
use std::ops::Range;
use std::ops::RangeInclusive;

fn collect_fwd<N: Domain>(mut it: ExtentIter<N>) -> Vec<N> {
    let mut v = Vec::new();
    while let Some(x) = it.next() {
        v.push(x);
    }
    v
}

fn collect_rev<N: Domain>(mut it: ExtentRevIter<N>) -> Vec<N> {
    let mut v = Vec::new();
    while let Some(x) = it.next() {
        v.push(x);
    }
    v
}

fn check_sensible<N: Domain + Debug>(a: N, b: N) {
    let e = Extent::new(a, b);
    assert!(e.contains(a));
    assert!(e.contains(b));
    assert!(e.lo() <= e.hi());
    let ri: RangeInclusive<N> = e.clone().to_range_inclusive();
    let e2: Extent<N> = Extent::from_range_inclusive(ri);
    assert_eq!(e, e2);
    match e.to_range() {
        Ok(r) => {
            let r: Range<N> = r;
            let e3: Extent<N> = Extent::from_range(r);
            assert_eq!(e, e3);
        }
        Err(_) => {
            assert_eq!(e.hi_unchecked(), N::max_value());
        }
    }
}

fn check_set_ops<N: Domain + Ord + Debug>(a: N, b: N, c: N) {
    let mut v = [a, b, c];
    v.sort();
    let a = v[0];
    let b = v[1];
    let c = v[2];
    let ab = Extent::from_range_inclusive(a..=b);
    let bc = Extent::from_range_inclusive(b..=c);
    let ac = Extent::from_range_inclusive(a..=c);
    let bb = Extent::from_range_inclusive(b..=b);
    let empty: Extent<N> = Extent::empty();
    assert_eq!(ab.union(bc), ac);
    assert_eq!(ab.union(ac), ac);
    assert_eq!(bc.union(ac), ac);
    assert_eq!(ac.union(ab), ac);
    assert_eq!(ac.union(bc), ac);

    assert_eq!(ab.union(empty), ab);
    assert_eq!(empty.union(ab), ab);

    assert_eq!(ab.intersect(bc), bb);
    assert_eq!(ab.intersect(ac), ab);
    assert_eq!(bc.intersect(ac), bc);
    assert_eq!(bb.intersect(ac), bb);
    assert_eq!(bb.intersect(ab), bb);
    assert_eq!(bb.intersect(bc), bb);

    assert_eq!(ab.intersect(empty), empty);
    assert_eq!(empty.intersect(ab), empty);
}

#[test]
fn test_basics() {
    let elts = vec![
        i32::MIN,
        i32::MIN + 1,
        i32::MIN + 2,
        -2,
        -1,
        0,
        1,
        2,
        i32::MAX - 2,
        i32::MAX - 1,
        i32::MAX,
    ];
    for a in elts.iter() {
        for b in elts.iter() {
            check_sensible(*a, *b);
            for c in elts.iter() {
                check_set_ops(*a, *b, *c);
            }
        }
    }

    let v: Vec<_> = collect_fwd(Extent::from_range_inclusive(0..=5).iter());
    assert_eq!(v, vec![0, 1, 2, 3, 4, 5]);

    let rv: Vec<_> = collect_rev(Extent::from_range_inclusive(0..=5).iter().rev());
    assert_eq!(rv, vec![5, 4, 3, 2, 1, 0]);

    let ev: Vec<u32> = collect_fwd(Extent::<u32>::empty().iter());
    assert_eq!(ev, vec![]);
}

#[test]
fn test_new_contains_endpoints() {
    let e = Extent::new(-7i32, 12);
    assert!(e.contains(-7));
    assert!(e.contains(12));
    assert!(e.contains(0));
    assert!(!e.contains(-8));
    assert!(!e.contains(13));
    assert!(e.lo() <= e.hi());
}

#[test]
fn test_new_normalizes_order() {
    assert_eq!(Extent::new(5, 2), Extent::new(2, 5));
    assert_eq!(Extent::new(5u8, 5), Extent::new(5u8, 5));
    let e = Extent::new(9i64, -3);
    assert_eq!(e.lo(), Some(-3));
    assert_eq!(e.hi(), Some(9));
}

#[test]
fn test_empty_is_canonical() {
    let e: Extent<i32> = Extent::empty();
    assert!(e.is_empty());
    assert_eq!(e.lo(), None);
    assert_eq!(e.hi(), None);
    assert_eq!(e.lo_unchecked(), 1);
    assert_eq!(e.hi_unchecked(), 0);
    assert!(!e.contains(0));
    assert!(!e.contains(1));
    assert_eq!(Extent::<i32>::default(), e);
}

#[test]
fn test_empty_iter_and_len() {
    let e: Extent<u32> = Extent::empty();
    assert_eq!(e.len(), 0);
    let mut it = e.iter();
    assert_eq!(it.next(), None);
    assert_eq!(it.next(), None);
    let mut rit = e.iter().rev();
    assert_eq!(rit.next(), None);
}

#[test]
fn test_new_unchecked() {
    let kept = Extent::new_unchecked(2i32, 5);
    assert_eq!(kept, Extent::new(2, 5));
    let swapped = Extent::new_unchecked(5i32, 2);
    assert!(swapped.is_empty());
    assert_eq!(swapped, Extent::empty());
    let sentinel = Extent::new_unchecked(1u8, 0);
    assert_eq!(sentinel, Extent::empty());
}

#[test]
fn test_len_values() {
    assert_eq!(Extent::new(2i32, 5).len(), 4);
    assert_eq!(Extent::new(7u64, 7).len(), 1);
    assert_eq!(Extent::new(i32::MIN, i32::MAX).len(), 0);
    assert_eq!(Extent::new(0u8, 255).len(), 0);
    assert_eq!(Extent::new(1u8, 255).len(), 255);
}

#[test]
fn test_union_hull_and_identity() {
    let low = Extent::new(0i32, 1);
    let high = Extent::new(5i32, 6);
    assert_eq!(low.union(high), Extent::new(0, 6));
    assert_eq!(high.union(low), Extent::new(0, 6));
    let empty: Extent<i32> = Extent::empty();
    assert_eq!(low.union(empty), low);
    assert_eq!(empty.union(high), high);
    assert_eq!(empty.union(empty), empty);
}

#[test]
fn test_intersect_disjoint_is_empty() {
    let low = Extent::new(0i32, 1);
    let high = Extent::new(5i32, 6);
    assert!(low.intersect(high).is_empty());
    assert!(high.intersect(low).is_empty());
    assert_eq!(low.intersect(high), Extent::empty());
    let touching = Extent::new(1i32, 5);
    assert_eq!(low.intersect(touching), Extent::new(1, 1));
}

#[test]
fn test_iter_forward() {
    let v = collect_fwd(Extent::from_range_inclusive(0i32..=5).iter());
    assert_eq!(v, vec![0, 1, 2, 3, 4, 5]);
}

#[test]
fn test_iter_reverse() {
    let rv = collect_rev(Extent::from_range_inclusive(0i32..=5).iter().rev());
    assert_eq!(rv, vec![5, 4, 3, 2, 1, 0]);
}

#[test]
fn test_rev_of_partly_consumed_iter() {
    let mut it = Extent::new(0i32, 5).iter();
    assert_eq!(it.next(), Some(0));
    assert_eq!(it.next(), Some(1));
    let rv = collect_rev(it.rev());
    assert_eq!(rv, vec![5, 4, 3, 2]);
}

#[test]
fn test_boundary_iteration_at_max() {
    let v = collect_fwd(Extent::new(250u8, 255).iter());
    assert_eq!(v, vec![250, 251, 252, 253, 254, 255]);
    let v = collect_fwd(Extent::new(i32::MAX - 2, i32::MAX).iter());
    assert_eq!(v, vec![i32::MAX - 2, i32::MAX - 1, i32::MAX]);
    let rv = collect_rev(Extent::new(250u8, 255).iter().rev());
    assert_eq!(rv, vec![255, 254, 253, 252, 251, 250]);
}

#[test]
fn test_boundary_iteration_at_min() {
    let rv = collect_rev(Extent::new(i8::MIN, i8::MIN + 2).iter().rev());
    assert_eq!(rv, vec![i8::MIN + 2, i8::MIN + 1, i8::MIN]);
    let rv = collect_rev(Extent::new(0u8, 2).iter().rev());
    assert_eq!(rv, vec![2, 1, 0]);
    let v = collect_fwd(Extent::new(i8::MIN, i8::MIN + 2).iter());
    assert_eq!(v, vec![i8::MIN, i8::MIN + 1, i8::MIN + 2]);
}

#[test]
fn test_full_domain_iteration() {
    let v = collect_fwd(Extent::new(0u8, 255).iter());
    assert_eq!(v.len(), 256);
    assert_eq!(v[0], 0);
    assert_eq!(v[255], 255);
    let rv = collect_rev(Extent::new(0u8, 255).iter().rev());
    assert_eq!(rv.len(), 256);
    assert_eq!(rv[0], 255);
    assert_eq!(rv[255], 0);
}

#[test]
fn test_to_range_fails_at_domain_max() {
    assert!(Extent::new(0u8, 255).to_range().is_err());
    assert!(Extent::new(i32::MAX, i32::MAX).to_range().is_err());
    assert_eq!(Extent::new(0u8, 254).to_range(), Ok(0u8..255));
    let empty: Extent<u8> = Extent::empty();
    assert_eq!(empty.to_range(), Ok(0u8..0));
}

#[test]
fn test_from_range() {
    assert!(Extent::from_range(3i32..3).is_empty());
    assert!(Extent::from_range(5i32..2).is_empty());
    assert_eq!(Extent::from_range(1i32..4), Extent::new(1, 3));
    assert_eq!(Extent::from_range(7u16..8), Extent::new(7u16, 7));
}

#[test]
fn test_round_trip_exclusive() {
    let e = Extent::new(-4i32, 9);
    let r = e.to_range().unwrap();
    assert_eq!(r, -4i32..10);
    assert_eq!(Extent::from_range(r), e);
    let empty: Extent<i32> = Extent::empty();
    assert_eq!(Extent::from_range(empty.to_range().unwrap()), empty);
}

#[test]
fn test_round_trip_inclusive() {
    let e = Extent::new(-4i32, 9);
    let ri = e.to_range_inclusive();
    assert_eq!(ri, -4i32..=9);
    assert_eq!(Extent::from_range_inclusive(ri), e);
    let top = Extent::new(0u8, 255);
    assert_eq!(Extent::from_range_inclusive(top.to_range_inclusive()), top);
    let empty: Extent<u8> = Extent::empty();
    let degenerate = empty.to_range_inclusive();
    assert_eq!(degenerate, 1u8..=0);
    assert_eq!(Extent::from_range_inclusive(degenerate), empty);
}

#[test]
fn test_from_range_inclusive() {
    assert_eq!(Extent::from_range_inclusive(2i32..=5), Extent::new(2, 5));
    assert!(Extent::from_range_inclusive(5i32..=2).is_empty());
    let mut exhausted = 0i32..=2;
    while exhausted.next().is_some() {}
    assert!(Extent::from_range_inclusive(exhausted).is_empty());
}

#[test]
fn test_every_domain_type() {
    assert_eq!(collect_fwd(Extent::new(1u16, 3).iter()), vec![1, 2, 3]);
    assert_eq!(collect_fwd(Extent::new(1u32, 3).iter()), vec![1, 2, 3]);
    assert_eq!(collect_fwd(Extent::new(1u64, 3).iter()), vec![1, 2, 3]);
    assert_eq!(collect_fwd(Extent::new(1usize, 3).iter()), vec![1, 2, 3]);
    assert_eq!(collect_fwd(Extent::new(-1i8, 1).iter()), vec![-1, 0, 1]);
    assert_eq!(collect_fwd(Extent::new(-1i16, 1).iter()), vec![-1, 0, 1]);
    assert_eq!(collect_fwd(Extent::new(-1i64, 1).iter()), vec![-1, 0, 1]);
    assert_eq!(collect_fwd(Extent::new(-1isize, 1).iter()), vec![-1, 0, 1]);
    assert_eq!(Extent::new(250u8, 255).len(), 6);
    assert_eq!(Extent::new(i16::MIN, i16::MAX).len(), 0);
}
