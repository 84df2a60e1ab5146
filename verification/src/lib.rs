//! Core of a plot-planning pipeline: frequency-modulated halftone screening
//! of a raster image into world-space dots, followed by an energy-aware
//! greedy ordering of the dots into a tour.
//!
//! The library holds the combinatorial and integer parts of the pipeline:
//! lane-width packs and masks, structure-of-arrays buffers with masked
//! pushes, the raster walk over a grid-cell range, the probabilistic
//! threshold filter, the seedable random source, and the tour construction
//! over caller-supplied cost keys. Floating-point evaluation (grid-to-world
//! isometries, energy and turn costs) and all I/O live with the host.

pub mod cube;
pub mod dots;
pub mod optimization;
pub mod pack;
pub mod path;
pub mod rng;
pub mod screening;
pub mod sketch;
pub mod soa;

pub use pack::iota;
pub use pack::Mask;
pub use pack::Pack;
