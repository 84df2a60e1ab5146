use plot_planner::iota;
use plot_planner::pack::Aosoa;
use plot_planner::pack::SimdChunkIter;
use plot_planner::Mask;
use plot_planner::Pack;

#[test]
fn iota_matches_lane_indices() {
    assert_eq!(iota::<1>().into_vec(), vec![0]);
    assert_eq!(iota::<2>().into_vec(), vec![0, 1]);
    assert_eq!(iota::<4>().into_vec(), vec![0, 1, 2, 3]);
    assert_eq!(iota::<8>().into_vec(), vec![0, 1, 2, 3, 4, 5, 6, 7]);
    assert_eq!(
        iota::<16>().into_vec(),
        (0..16).collect::<Vec<usize>>()
    );
}

#[test]
fn splat_fills_every_lane() {
    let p: Pack<u8, 4> = Pack::splat(7);
    assert_eq!(p.into_vec(), vec![7, 7, 7, 7]);
}

#[test]
fn mask_algebra() {
    let a: Mask<4> = Mask::from_vec(vec![true, false, true, false]);
    let b: Mask<4> = Mask::from_vec(vec![true, true, false, false]);
    let both = a.and(&b);
    assert!(both.test(0));
    assert!(!both.test(1));
    assert!(!both.test(2));
    assert!(!both.test(3));
    assert!(a.any());
    assert!(!a.all());
    let none: Mask<4> = Mask::splat(false);
    assert!(!none.any());
    let full: Mask<4> = Mask::splat(true);
    assert!(full.all());

    let either = a.or(&b);
    assert!(either.test(0) && either.test(1) && either.test(2));
    assert!(!either.test(3));
    let flipped = a.not();
    assert!(!flipped.test(0) && flipped.test(1));
    assert!(!flipped.test(2) && flipped.test(3));
}

#[test]
fn mask_bitmask_and_trailing_zeros() {
    let m: Mask<4> = Mask::from_vec(vec![false, true, false, true]);
    assert_eq!(m.to_bitmask(), 0b1010);
    assert_eq!(m.trailing_zeros(), 1);
    assert_eq!(m.to_bitmask().trailing_zeros(), 1);

    let none: Mask<4> = Mask::splat(false);
    assert_eq!(none.to_bitmask(), 0);
    assert_eq!(none.trailing_zeros(), 4);

    let full: Mask<3> = Mask::splat(true);
    assert_eq!(full.to_bitmask(), 0b111);
    assert_eq!(full.trailing_zeros(), 0);
}

#[test]
fn chunk_iter_splits_lanes() {
    let p: Pack<u32, 8> = Pack::from_vec(vec![10, 11, 12, 13, 14, 15, 16, 17]);
    let mut it: SimdChunkIter<u32, 8, 4> = SimdChunkIter::new(p);
    let first = it.next().expect("first chunk");
    assert_eq!(first.into_vec(), vec![10, 11, 12, 13]);
    let second = it.next().expect("second chunk");
    assert_eq!(second.into_vec(), vec![14, 15, 16, 17]);
    assert!(it.next().is_none());
}

#[test]
fn aosoa_iter_masks_the_tail() {
    let a: Aosoa<u8, 4> = Aosoa {
        inner: vec![1, 2],
        total_len: 5,
    };
    assert_eq!(a.total_len(), 5);
    let chunks = a.iter_simd();
    assert_eq!(chunks.len(), 2);
    assert_eq!(chunks[0].0, 1);
    assert!(chunks[0].1.test(0) && chunks[0].1.test(3));
    assert_eq!(chunks[1].0, 2);
    assert!(chunks[1].1.test(0));
    assert!(!chunks[1].1.test(1));
    assert!(!chunks[1].1.test(2));
    assert!(!chunks[1].1.test(3));
}
