use plot_planner::soa::DotPack;
use plot_planner::soa::EdgePack;
use plot_planner::soa::GenerationBufferVec;
use plot_planner::soa::PointPack;
use plot_planner::Mask;
use plot_planner::Pack;

#[test]
fn masked_push_keeps_lengths_equal() {
    let mut buf: GenerationBufferVec<f32> = GenerationBufferVec::new();
    let masks = [
        vec![true, false, true, false],
        vec![false, false, false, false],
        vec![true, true, true, true],
        vec![false, true, false, true],
    ];
    for (round, lanes) in masks.iter().enumerate() {
        let base = round as f32;
        let point: PointPack<f32, 4> = PointPack {
            x: Pack::from_vec(vec![base, base + 0.25, base + 0.5, base + 0.75]),
            y: Pack::from_vec(vec![-base, -base - 0.25, -base - 0.5, -base - 0.75]),
        };
        let mask: Mask<4> = Mask::from_vec(lanes.clone());
        buf.push_points(&point, &mask);
        assert_eq!(buf.points.x.len(), buf.points.y.len());
        assert_eq!(buf.points.x.len(), buf.points.len());
    }
    assert_eq!(buf.points.len(), 8);
}

#[test]
fn masked_push_appends_only_active_lanes() {
    let mut buf: GenerationBufferVec<f32> = GenerationBufferVec::new();
    let point: PointPack<f32, 4> = PointPack {
        x: Pack::from_vec(vec![1.0, 2.0, 3.0, 4.0]),
        y: Pack::from_vec(vec![5.0, 6.0, 7.0, 8.0]),
    };
    let mask: Mask<4> = Mask::from_vec(vec![true, false, true, false]);
    let indices = buf.push_points(&point, &mask);
    assert_eq!(buf.points.x, vec![1.0, 3.0]);
    assert_eq!(buf.points.y, vec![5.0, 7.0]);
    assert_eq!(indices.at(0), 0);
    assert_eq!(indices.at(2), 1);
}

#[test]
fn masked_push_reports_placement_positions() {
    let mut buf: GenerationBufferVec<i64> = GenerationBufferVec::new();
    let first: PointPack<i64, 4> = PointPack {
        x: Pack::from_vec(vec![1, 2, 3, 4]),
        y: Pack::from_vec(vec![1, 2, 3, 4]),
    };
    buf.push_points(&first, &Mask::splat(true));
    let second: PointPack<i64, 4> = PointPack {
        x: Pack::from_vec(vec![5, 6, 7, 8]),
        y: Pack::from_vec(vec![5, 6, 7, 8]),
    };
    let mask: Mask<4> = Mask::from_vec(vec![false, true, true, false]);
    let indices = buf.push_points(&second, &mask);
    assert_eq!(indices.at(1), 4);
    assert_eq!(indices.at(2), 5);
    assert_eq!(buf.points.len(), 6);
}

#[test]
fn edge_and_dot_pushes_share_the_mask() {
    let mut buf: GenerationBufferVec<f32> = GenerationBufferVec::new();
    let edges: EdgePack<usize, 4> = EdgePack {
        from: Pack::from_vec(vec![0, 1, 2, 3]),
        to: Pack::from_vec(vec![1, 2, 3, 0]),
    };
    let mask: Mask<4> = Mask::from_vec(vec![true, true, false, false]);
    buf.push_lines(&edges, &mask);
    assert_eq!(buf.edges.from, vec![0, 1]);
    assert_eq!(buf.edges.to, vec![1, 2]);

    let dots: DotPack<4> = DotPack {
        index: Pack::from_vec(vec![9, 8, 7, 6]),
    };
    let mask: Mask<4> = Mask::from_vec(vec![false, false, true, true]);
    buf.push_dots(&dots, &mask);
    assert_eq!(buf.dots.index, vec![7, 6]);
}

#[test]
fn edge_slice_get_masks_past_the_end() {
    let mut buf: GenerationBufferVec<f32> = GenerationBufferVec::new();
    let edges: EdgePack<usize, 4> = EdgePack {
        from: Pack::from_vec(vec![10, 11, 12, 13]),
        to: Pack::from_vec(vec![20, 21, 22, 23]),
    };
    buf.push_lines(&edges, &Mask::splat(true));
    let (pack, mask) = buf.edges.get::<4>(2);
    assert!(mask.test(0) && mask.test(1));
    assert!(!mask.test(2) && !mask.test(3));
    assert_eq!(pack.from.at(0), 12);
    assert_eq!(pack.to.at(1), 23);
}
