//! Types for minimum-spanning-tree work over the generated graph.

use vstd::prelude::*;

verus! {

/// Why a spanning tree could not be formed.
#[derive(Debug, Copy, Clone, PartialEq, Eq, Structural)]
pub enum Error {
    /// The graph is empty or not connected, so no tree spans every vertex.
    PreconditionFailed,
}

/// A spanning tree: the edges kept, as ordered vertex pairs.
#[derive(Debug, Clone)]
pub struct MinimumSpanningTree {
    pub edges: Vec<(usize, usize)>,
}

} // verus!
