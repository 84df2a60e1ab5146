use plot_planner::cube::Cube;
use plot_planner::rng::Xoroshiro64Star;
use plot_planner::screening::prepare_screening_bounds;
use plot_planner::screening::screen_outcome;
use plot_planner::screening::CellBounds;
use plot_planner::screening::FMScreeningGenerator;
use plot_planner::screening::FMScreeningProcess;
use plot_planner::screening::ScreenError;
use plot_planner::screening::ScreeningIterator;
use plot_planner::screening::ScreeningMode;
use plot_planner::soa::GenerationBufferVec;
use plot_planner::soa::PointPack;
use plot_planner::Pack;

/// Runs one full screening pass over an 8x8 image laid out with identity
/// placement, a unit-resolution grid anchored at the pixel centers, and the
/// given constant intensity, mirroring the host's float work lane by lane.
fn screen_constant_image(intensity: u8, mode: ScreeningMode, seed: u64) -> GenerationBufferVec<f32> {
    // Grid origin (0.5, 0.5), resolution 1, strict: the image corners map
    // to grid coordinates [-0.5, 7.5] on both axes, so the strict ranges
    // are ceil(-0.5) = 0 to floor(7.5) = 7.
    let bounds = prepare_screening_bounds(8, 8, 0, 7, 0, 7).expect("bounds are not empty");
    let mut proc = FMScreeningGenerator::start(bounds, seed, mode);
    let mut buffer: GenerationBufferVec<f32> = GenerationBufferVec::new();
    while let Some((cells, mask)) = proc.next_cells::<8>() {
        let mut xs: Vec<f32> = Vec::new();
        let mut ys: Vec<f32> = Vec::new();
        let mut samples: Vec<u8> = Vec::new();
        for k in 0..8 {
            // World position of the cell: origin + index * resolution;
            // always inside the image AABB for this geometry.
            xs.push(0.5 + cells.x.at(k) as f32);
            ys.push(0.5 + cells.y.at(k) as f32);
            samples.push(intensity);
        }
        let world: PointPack<f32, 8> = PointPack {
            x: Pack::from_vec(xs),
            y: Pack::from_vec(ys),
        };
        proc.screen_pack(&world, &mask, &Pack::from_vec(samples), &mut buffer);
    }
    buffer
}

#[test]
fn black_image_dark_mode_emits_every_center() {
    let buffer = screen_constant_image(0, ScreeningMode::DarkAreas, 42);
    assert_eq!(buffer.points.len(), 64);
    // Raster order, column fastest: (0.5, 0.5), (1.5, 0.5), ... (7.5, 7.5).
    assert_eq!(buffer.points.x[0], 0.5);
    assert_eq!(buffer.points.y[0], 0.5);
    assert_eq!(buffer.points.x[1], 1.5);
    assert_eq!(buffer.points.y[1], 0.5);
    assert_eq!(buffer.points.x[63], 7.5);
    assert_eq!(buffer.points.y[63], 7.5);
    for j in 0..8 {
        for i in 0..8 {
            assert_eq!(buffer.points.x[j * 8 + i], 0.5 + i as f32);
            assert_eq!(buffer.points.y[j * 8 + i], 0.5 + j as f32);
        }
    }
    assert_eq!(screen_outcome(buffer.points.len()), Ok(64));
    // Each emitted point's buffer position was recorded as a dot.
    assert_eq!(buffer.dots.index, (0..64).collect::<Vec<usize>>());
}

#[test]
fn white_image_bright_mode_emits_almost_all() {
    let buffer = screen_constant_image(255, ScreeningMode::BrightAreas, 7);
    assert!(buffer.points.len() >= 60);
}

#[test]
fn zero_area_image_reports_empty_bounds() {
    let buffer: GenerationBufferVec<f32> = GenerationBufferVec::new();
    let r = prepare_screening_bounds(0, 0, 0, 0, 0, 0);
    assert!(matches!(r, Err(ScreenError::EmptyBounds)));
    assert_eq!(buffer.points.len(), 0);
}

#[test]
fn inverted_ranges_report_empty_bounds() {
    assert!(matches!(
        prepare_screening_bounds(4, 4, 3, 2, 0, 5),
        Err(ScreenError::EmptyBounds)
    ));
    assert!(matches!(
        CellBounds::new(0, 5, 7, 6),
        Err(ScreenError::EmptyBounds)
    ));
}

#[test]
fn bounds_preparation_is_deterministic() {
    let a = prepare_screening_bounds(640, 480, -3, 12, 2, 9).expect("bounds");
    let b = prepare_screening_bounds(640, 480, -3, 12, 2, 9).expect("bounds");
    assert_eq!(a.i_min, b.i_min);
    assert_eq!(a.j_min, b.j_min);
    assert_eq!(a.width, b.width);
    assert_eq!(a.height, b.height);
    assert_eq!(a.width, 16);
    assert_eq!(a.height, 8);
}

#[test]
fn raster_walk_packs_cells_column_fastest() {
    let bounds = CellBounds::new(0, 2, 10, 11).expect("bounds");
    let mut walk = ScreeningIterator::new(bounds);
    assert_eq!(walk.cells_left(), 6);
    let (cells, mask) = walk.next_cells::<4>().expect("first pack");
    for k in 0..4 {
        assert!(mask.test(k));
    }
    assert_eq!(cells.x.at(0), 0);
    assert_eq!(cells.y.at(0), 10);
    assert_eq!(cells.x.at(1), 1);
    assert_eq!(cells.x.at(2), 2);
    assert_eq!(cells.y.at(2), 10);
    assert_eq!(cells.x.at(3), 0);
    assert_eq!(cells.y.at(3), 11);
    let (cells, mask) = walk.next_cells::<4>().expect("second pack");
    assert!(mask.test(0) && mask.test(1));
    assert!(!mask.test(2) && !mask.test(3));
    assert_eq!(cells.x.at(0), 1);
    assert_eq!(cells.y.at(1), 11);
    assert!(walk.next_cells::<4>().is_none());
    assert_eq!(walk.cells_left(), 0);
}

#[test]
fn screening_is_reproducible_from_the_seed() {
    let a = screen_constant_image(128, ScreeningMode::BrightAreas, 99);
    let b = screen_constant_image(128, ScreeningMode::BrightAreas, 99);
    assert_eq!(a.points.len(), b.points.len());
    assert_eq!(a.points.x, b.points.x);
    assert_eq!(a.points.y, b.points.y);
    assert_eq!(a.dots.index, b.dots.index);
}

#[test]
fn threshold_draws_are_deterministic() {
    let mut a = Xoroshiro64Star::seed_from_u64(12345);
    let mut b = Xoroshiro64Star::seed_from_u64(12345);
    for _ in 0..32 {
        assert_eq!(a.next_u32(), b.next_u32());
    }
    let mut c = Xoroshiro64Star::seed_from_u64(12346);
    let mut differs = false;
    let mut a2 = Xoroshiro64Star::seed_from_u64(12345);
    for _ in 0..32 {
        if a2.next_u32() != c.next_u32() {
            differs = true;
        }
    }
    assert!(differs);
}

#[test]
fn empty_screening_reports_no_points() {
    assert_eq!(
        screen_outcome(0),
        Err(ScreenError::NoPointsEmitted)
    );
    assert_eq!(screen_outcome(17), Ok(17));
}

#[test]
fn cube_rejects_mismatched_data() {
    assert!(matches!(
        Cube::from_image(3, 3, vec![0; 8]),
        Err(ScreenError::ImageDecodeFailed)
    ));
    let cube = Cube::from_image(3, 2, vec![10, 20, 30, 40, 50, 60]).expect("cube");
    assert_eq!(cube.sample(0, 0), 10);
    assert_eq!(cube.sample(2, 0), 30);
    assert_eq!(cube.sample(0, 1), 40);
    assert_eq!(cube.sample(2, 1), 60);
}

#[test]
fn generator_yields_a_fresh_process() {
    let _gen = FMScreeningGenerator::new();
    let bounds = CellBounds::new(0, 1, 0, 1).expect("bounds");
    let proc: FMScreeningProcess =
        FMScreeningGenerator::start(bounds, 5, ScreeningMode::DarkAreas);
    let (left, max_left) = proc.min_left();
    assert_eq!(left, 4);
    assert_eq!(max_left, Some(4));
}
