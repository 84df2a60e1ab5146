//! Tour construction over graphs: the adjacency-matrix distance store with
//! masked lane-wise access, the greedy travelling-salesman baseline, the
//! rural-postman baseline over required edges, all-pairs shortest paths,
//! and the union-find helper for spanning-tree work.

pub mod dsu;
pub mod fw;
pub mod matrix;
pub mod mst;
pub mod process;
pub mod rpp;
pub mod tsp;

pub use process::OptimizationControlFlow;
pub use process::OptimizationProcess;
