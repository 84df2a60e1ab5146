use plot_planner::optimization::dsu::Dsu;
use plot_planner::optimization::fw::floyd_warshall_simd;
use plot_planner::optimization::matrix::AdjacencyMatrix;
use plot_planner::path::Point;
use plot_planner::path::SectionBuffer;
use plot_planner::sketch::splitter;
use plot_planner::sketch::ImageBounds;
use plot_planner::soa::EdgePack;
use plot_planner::Mask;
use plot_planner::Pack;

#[test]
fn dsu_unites_and_finds() {
    let mut dsu = Dsu::new(6);
    for v in 0..6 {
        assert_eq!(dsu.find(v), v);
    }
    assert!(dsu.union(0, 1));
    assert!(dsu.union(2, 3));
    assert!(!dsu.union(1, 0));
    assert_eq!(dsu.find(0), dsu.find(1));
    assert_ne!(dsu.find(1), dsu.find(2));
    assert!(dsu.union(1, 3));
    assert_eq!(dsu.find(0), dsu.find(2));
    assert_eq!(dsu.find(3), dsu.find(1));
    assert_ne!(dsu.find(4), dsu.find(5));
    assert!(dsu.union(4, 5));
    assert!(!dsu.union(5, 4));
}

#[test]
fn matrix_masked_get_and_set() {
    let mut matrix = AdjacencyMatrix {
        weights: vec![0u64; 9],
        size: 3,
    };
    let pos: EdgePack<usize, 4> = EdgePack {
        from: Pack::from_vec(vec![0, 1, 2, 9]),
        to: Pack::from_vec(vec![1, 2, 0, 9]),
    };
    let vals: Pack<u64, 4> = Pack::from_vec(vec![10, 20, 30, 40]);
    let mask: Mask<4> = Mask::from_vec(vec![true, true, false, true]);
    matrix.set(&pos, &vals, &mask);
    // Lane 2 was masked off and lane 3 is out of bounds: neither wrote.
    assert_eq!(matrix.weight_at(0, 1), 10);
    assert_eq!(matrix.weight_at(1, 2), 20);
    assert_eq!(matrix.weight_at(2, 0), 0);

    let (got, gmask) = matrix.get::<4>(&pos);
    assert!(gmask.test(0) && gmask.test(1) && gmask.test(2));
    assert!(!gmask.test(3));
    assert_eq!(got.at(0), 10);
    assert_eq!(got.at(1), 20);
    assert_eq!(got.at(2), 0);
    assert_eq!(matrix.extent(), 3);
}

#[test]
fn splitter_halves_the_taller_side_first() {
    let region = ImageBounds {
        x: 0,
        y: 0,
        width: 4,
        height: 3,
    };
    let (top, bottom) = splitter(region);
    let bottom = bottom.expect("a tall region splits");
    assert_eq!(top, ImageBounds { x: 0, y: 0, width: 4, height: 1 });
    assert_eq!(bottom, ImageBounds { x: 0, y: 1, width: 4, height: 2 });
    assert_eq!(top.height + bottom.height, region.height);

    let row = ImageBounds {
        x: 2,
        y: 5,
        width: 4,
        height: 1,
    };
    let (left, right) = splitter(row);
    let right = right.expect("a wide region splits");
    assert_eq!(left, ImageBounds { x: 2, y: 5, width: 2, height: 1 });
    assert_eq!(right, ImageBounds { x: 4, y: 5, width: 2, height: 1 });
    assert_eq!(left.width + right.width, row.width);

    let cell = ImageBounds {
        x: 7,
        y: 9,
        width: 1,
        height: 1,
    };
    let (same, none) = splitter(cell);
    assert_eq!(same, cell);
    assert!(none.is_none());
}

#[test]
fn view_saturates_its_offsets() {
    let region = ImageBounds {
        x: u32::MAX - 1,
        y: 0,
        width: 8,
        height: 8,
    };
    let sub = region.view(5, 3, 2, 2);
    assert_eq!(sub.x, u32::MAX);
    assert_eq!(sub.y, 3);
    assert_eq!(sub.width, 2);
    assert_eq!(sub.height, 2);
}

#[test]
fn section_buffer_collects_points() {
    let mut buf: SectionBuffer<f32> = SectionBuffer::new();
    buf.push_point(Point::new(1.0, 2.0, 0.5));
    buf.push_point(Point::new(-3.0, 4.0, 1.5));
    assert_eq!(buf.points.len(), 2);
    assert_eq!(buf.points[0].x, 1.0);
    assert_eq!(buf.points[1].y, 4.0);
    assert_eq!(buf.points[1].size, 1.5);
    assert_eq!(buf.edges.len(), 0);
}

#[test]
fn all_pairs_relaxation_finds_the_shortcut() {
    let big = 1_000u64;
    let mut weights = vec![big; 9];
    weights[0 * 3 + 1] = 2; // 0 -> 1
    weights[1 * 3 + 2] = 3; // 1 -> 2
    weights[0 * 3 + 2] = 10; // 0 -> 2 direct
    let mut matrix = AdjacencyMatrix { weights, size: 3 };
    floyd_warshall_simd(&mut matrix);
    for v in 0..3 {
        assert_eq!(matrix.weight_at(v, v), 0);
    }
    assert_eq!(matrix.weight_at(0, 1), 2);
    assert_eq!(matrix.weight_at(1, 2), 3);
    assert_eq!(matrix.weight_at(0, 2), 5);
}
