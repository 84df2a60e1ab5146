use plot_planner::dots::DotsOptimizationProcess;
use plot_planner::optimization::matrix::AdjacencyMatrix;
use plot_planner::optimization::rpp::RppBaselineSolver;
use plot_planner::optimization::rpp::RppControlFlow;
use plot_planner::optimization::tsp::nearest_neighbor;
use plot_planner::optimization::tsp::tour_weight;
use plot_planner::optimization::tsp::two_opt_pass;
use plot_planner::optimization::tsp::Error;
use plot_planner::optimization::tsp::TravellingSalesmanBuilder;
use plot_planner::optimization::OptimizationControlFlow;
use plot_planner::optimization::OptimizationProcess;
use plot_planner::soa::EdgeSlice;

/// Encodes a non-negative finite float as an integer key whose order
/// matches float order, the way the host feeds costs to the optimizer.
fn cost_key(c: f32) -> u64 {
    let bits = c.to_bits();
    if bits & 0x8000_0000 != 0 {
        (!bits) as u64
    } else {
        (bits | 0x8000_0000) as u64
    }
}

/// The asymmetric displacement cost of the reference settings: a diagonal
/// Riemannian part on absolute coordinates plus a vertical drift that makes
/// downward (negative-y) motion cheaper.
fn energy_cost(dx: f32, dy: f32, up: f32, down: f32, sideways: f32) -> f32 {
    let w_xx = sideways * sideways;
    let w_yy = ((up + down) / 2.0) * ((up + down) / 2.0);
    let a_y = (up - down) / 2.0;
    let symmetric = (dx.abs() * w_xx * dx.abs() + dy.abs() * w_yy * dy.abs()).sqrt();
    symmetric + dy * a_y
}

/// The direction-change penalty: `k (1 - cos t) / 2` with an epsilon floor
/// against zero-length steps.
fn turn_penalty(k: f32, vin: (f32, f32), vout: (f32, f32)) -> f32 {
    let dot = vin.0 * vout.0 + vin.1 * vout.1;
    let mag = (vin.0 * vin.0 + vin.1 * vin.1).sqrt() * (vout.0 * vout.0 + vout.1 * vout.1).sqrt();
    let cos = dot / mag.max(f32::EPSILON);
    (k * (1.0 - cos) / 2.0).clamp(0.0, k)
}

fn greedy_tour(
    points: &[(f32, f32)],
    start: (f32, f32),
    penalties: (f32, f32, f32),
    turn_k: f32,
) -> Vec<usize> {
    let (up, down, sideways) = penalties;
    let mut proc = DotsOptimizationProcess::new(points.len());
    let mut prev: Option<(f32, f32)> = None;
    let mut current = start;
    while !proc.done() {
        let mut keys: Vec<u64> = Vec::new();
        for p in points {
            let (dx, dy) = (p.0 - current.0, p.1 - current.1);
            let mut w = energy_cost(dx, dy, up, down, sideways);
            if let Some(prev) = prev {
                let vin = (current.0 - prev.0, current.1 - prev.1);
                if turn_k != 0.0 {
                    w += turn_penalty(turn_k, vin, (dx, dy));
                }
            }
            keys.push(cost_key(w));
        }
        let next = proc.step(&keys);
        prev = Some(current);
        current = points[next];
    }
    proc.current_tour().clone()
}

#[test]
fn linear_path_is_visited_in_order() {
    let points = [(0.0, 0.0), (1.0, 0.0), (2.0, 0.0)];
    let tour = greedy_tour(&points, (0.0, 0.0), (1.0, 1.0, 1.0), 0.0);
    assert_eq!(tour, vec![0, 1, 2]);
}

#[test]
fn gravity_prefers_the_downward_dot() {
    let points = [(0.0, 1.0), (0.0, -1.0)];
    let tour = greedy_tour(&points, (0.0, 0.0), (1.5, 0.1, 1.0), 0.0);
    assert_eq!(tour[0], 1);
    assert_eq!(tour, vec![1, 0]);
}

#[test]
fn turn_penalty_avoids_the_double_turn() {
    let points = [(0.0, 0.0), (1.0, 0.0), (1.0, 1.0), (0.0, 1.0)];
    let tour = greedy_tour(&points, (0.0, 0.0), (1.0, 1.0, 1.0), 100.0);
    assert_eq!(tour, vec![0, 1, 2, 3]);
}

#[test]
fn optimizer_permutes_its_input() {
    let points = [
        (3.0, 1.0),
        (-2.0, 4.0),
        (0.5, -0.5),
        (7.0, 7.0),
        (-1.0, -6.0),
        (2.0, 2.0),
    ];
    let tour = greedy_tour(&points, (0.0, 0.0), (1.5, 0.1, 1.0), 25.0);
    let mut sorted = tour.clone();
    sorted.sort();
    assert_eq!(sorted, (0..points.len()).collect::<Vec<usize>>());
}

#[test]
fn nearest_neighbor_breaks_ties_toward_smaller_index() {
    // From vertex 0 both 1 and 2 cost the same; the smaller index wins.
    let weights: Vec<u64> = vec![
        0, 5, 5, //
        9, 0, 1, //
        9, 1, 0,
    ];
    let matrix = AdjacencyMatrix { weights, size: 3 };
    let path = nearest_neighbor(&matrix, 0).expect("tour");
    assert_eq!(path.tour(), &vec![0, 1, 2]);
    assert_eq!(*path.total_weight(), 6);
}

#[test]
fn nearest_neighbor_refuses_an_empty_graph() {
    let matrix = AdjacencyMatrix {
        weights: Vec::<u64>::new(),
        size: 0,
    };
    assert!(matches!(nearest_neighbor(&matrix, 0), Err(Error::EmptyGraph)));
}

#[test]
fn builder_requires_a_start_vertex() {
    let matrix = AdjacencyMatrix {
        weights: vec![0u64, 1, 1, 0],
        size: 2,
    };
    let r = TravellingSalesmanBuilder::on(&matrix).approximate();
    assert!(matches!(r, Err(Error::NoStartVertex)));
    let path = TravellingSalesmanBuilder::on(&matrix)
        .start_at(1)
        .approximate()
        .expect("tour");
    assert_eq!(path.consume_tour(), vec![1, 0]);
}

#[test]
fn accepted_two_opt_swap_strictly_improves() {
    // Four collinear points; the scrambled tour backtracks.
    let mut weights: Vec<u64> = Vec::new();
    for i in 0..4u64 {
        for j in 0..4u64 {
            weights.push(if i > j { i - j } else { j - i });
        }
    }
    let matrix = AdjacencyMatrix { weights, size: 4 };
    let mut tour: Vec<usize> = vec![0, 2, 1, 3];
    let before = tour_weight(&matrix, &tour);
    assert_eq!(before, 5);
    let improved = two_opt_pass(&matrix, &mut tour);
    assert!(improved);
    let after = tour_weight(&matrix, &tour);
    assert!(after < before);
    assert_eq!(tour, vec![0, 1, 2, 3]);
    assert_eq!(after, 3);
    // A second pass finds nothing and leaves the tour alone.
    assert!(!two_opt_pass(&matrix, &mut tour));
    assert_eq!(tour, vec![0, 1, 2, 3]);
}

#[test]
fn test_rpp_baseline_finds_path() {
    // Create a 4x4 distance matrix
    // 0 -> 1 (dist 1)
    // 1 -> 2 (dist 1)
    // 2 -> 3 (dist 1)
    // Others are far away (100)
    let size = 4;
    let mut weights = vec![100u64; size * size];

    // Diagonals are 0
    for i in 0..size {
        weights[i * size + i] = 0;
    }

    // Set specific path weights
    weights[0 * size + 1] = 1;
    weights[1 * size + 2] = 1;
    weights[2 * size + 3] = 1;

    let matrix = AdjacencyMatrix { weights, size };

    // Define Required Edges in a scrambled order to test the greedy search
    // We must visit: (2,3), (0,1), (1,2)
    let required = EdgeSlice {
        from: vec![0usize, 2usize, 1usize],
        to: vec![1usize, 3usize, 2usize],
    };

    let mut solver = RppBaselineSolver::new(&required, 0);
    let mut visited_edges: Vec<(usize, usize)> = Vec::new();
    let tour = loop {
        let before = solver.tour.len();
        match solver.step(&matrix) {
            RppControlFlow::Finished(t) => {
                if solver.unvisited.from.is_empty() && before < t.len() {
                    let pair = (t[t.len() - 2], t[t.len() - 1]);
                    visited_edges.push(pair);
                }
                break t;
            }
            RppControlFlow::Ongoing { locked, .. } => {
                visited_edges.push(locked.expect("the step traversed an edge"));
            }
            RppControlFlow::Error => panic!("solver failed"),
        }
    };

    // Verify all 3 edges were visited
    assert_eq!(visited_edges.len(), 3);

    // Verify the tour order is correct based on proximity
    // Path should be (0,1) -> (1,2) -> (2,3)
    assert_eq!(visited_edges[0], (0, 1));
    assert_eq!(visited_edges[1], (1, 2));
    assert_eq!(visited_edges[2], (2, 3));
    assert_eq!(tour, vec![0, 1, 2, 3]);
}

#[test]
fn optimization_process_steps_to_convergence() {
    let weights: Vec<u64> = vec![
        0, 1, 4, //
        9, 0, 1, //
        1, 9, 0,
    ];
    let matrix = AdjacencyMatrix { weights, size: 3 };
    let mut dots = DotsOptimizationProcess::new(3);
    dots.force_visit(0);
    let mut proc = OptimizationProcess::Dots(dots);
    match proc.step(&matrix, 1) {
        OptimizationControlFlow::Ongoing { total_iterations } => {
            assert_eq!(total_iterations, 1)
        }
        _ => panic!("one step of three dots cannot converge"),
    }
    match proc.step(&matrix, 10) {
        OptimizationControlFlow::Converged => {}
        _ => panic!("ten more steps must converge"),
    }
    assert_eq!(proc.current_tour(), &vec![0, 1, 2]);
}
