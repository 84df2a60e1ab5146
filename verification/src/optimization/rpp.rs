//! The rural-postman baseline: a tour that traverses every required edge,
//! built greedily. Each step moves to the required edge whose start vertex
//! is cheapest to reach from the current position — deadheading there when
//! the tour does not already stand on it — and traverses it.

use vstd::prelude::*;

use crate::optimization::matrix::AdjacencyMatrix;
use crate::soa::EdgeSlice;

verus! {

/// Why a rural-postman run refused to start or step.
#[derive(Debug, Copy, Clone, PartialEq, Eq, Structural)]
pub enum Error {
    /// No starting vertex was configured.
    NoStartVertex,
    /// The graph has no vertex.
    EmptyGraph,
    /// Some required edge could not be reached.
    UnconnectedGraph,
    /// The computation reached a state it cannot explain.
    InternalError,
    /// An edge needed by the tour has no weight.
    EdgeNotAvailable,
    /// A vertex neighbours itself.
    SelfReferential,
}

/// What one solver step reports.
#[derive(Debug, Clone)]
pub enum RppControlFlow {
    /// Every required edge has been traversed; the visit order so far.
    Finished(Vec<usize>),
    /// Required edges remain: the ones left, and the edge locked by the
    /// step just taken, if one was.
    Ongoing { left: EdgeSlice<usize>, locked: Option<(usize, usize)> },
    /// The step could not choose an edge.
    Error,
}

/// A greedy solver for the rural-postman baseline: the required edges not
/// yet traversed, and the vertex sequence walked so far.
pub struct RppBaselineSolver {
    pub unvisited: EdgeSlice<usize>,
    pub tour: Vec<usize>,
}

impl RppBaselineSolver {
    /// The solver's state stays inside a graph of `size` vertices.
    pub open spec fn wf(&self, size: int) -> bool {
        &&& self.unvisited.wf()
        &&& self.tour@.len() >= 1
        &&& forall|k: int|
            0 <= k < self.unvisited.from@.len() ==> self.unvisited.from@[k] < size
                && self.unvisited.to@[k] < size
        &&& forall|k: int| 0 <= k < self.tour@.len() ==> self.tour@[k] < size
    }

    /// Starts a solver on a copy of the required edges, the tour standing
    /// on the start vertex.
    pub fn new(required_edges: &EdgeSlice<usize>, start_vertex: usize) -> (r: RppBaselineSolver)
        requires
            required_edges.wf(),
        ensures
            r.unvisited.from@ == required_edges.from@,
            r.unvisited.to@ == required_edges.to@,
            r.tour@ == seq![start_vertex],
    {
        let unvisited = EdgeSlice {
            from: required_edges.from.clone(),
            to: required_edges.to.clone(),
        };
        let mut tour: Vec<usize> = Vec::new();
        tour.push(start_vertex);
        proof {
            assert(tour@ =~= seq![start_vertex]);
        }
        RppBaselineSolver { unvisited, tour }
    }

    /// Takes one greedy step: picks the required edge whose start vertex is
    /// cheapest to reach from the current position — the lowest index
    /// winning ties — removes it from the unvisited set by swapping in the
    /// last entry, deadheads to its start when not already there, and
    /// traverses it. With nothing left to do it reports the finished tour.
    pub fn step(&mut self, cost: &AdjacencyMatrix<u64>) -> (r: RppControlFlow)
        requires
            old(self).wf(cost.size as int),
            cost.wf(),
        ensures
            final(self).wf(cost.size as int),
            old(self).unvisited.spec_len() == 0 ==> {
                &&& *final(self) == *old(self)
                &&& (r matches RppControlFlow::Finished(t) && t@ == old(self).tour@)
            },
            old(self).unvisited.spec_len() > 0 ==> exists|b: int|
                #![trigger old(self).unvisited.from@[b]]
                {
                    let from_v = old(self).unvisited.from@[b];
                    let to_v = old(self).unvisited.to@[b];
                    let current = old(self).tour@.last();
                    &&& 0 <= b < old(self).unvisited.spec_len()
                    &&& (forall|q: int|
                        0 <= q < old(self).unvisited.spec_len()
                            ==> #[trigger] cost.spec_weight(
                            current as int,
                            old(self).unvisited.from@[q] as int,
                        ) >= cost.spec_weight(current as int, from_v as int))
                    &&& (forall|q: int|
                        0 <= q < b ==> #[trigger] cost.spec_weight(
                            current as int,
                            old(self).unvisited.from@[q] as int,
                        ) > cost.spec_weight(current as int, from_v as int))
                    &&& final(self).unvisited.from@ == old(self).unvisited.from@.update(
                        b,
                        old(self).unvisited.from@.last(),
                    ).drop_last()
                    &&& final(self).unvisited.to@ == old(self).unvisited.to@.update(
                        b,
                        old(self).unvisited.to@.last(),
                    ).drop_last()
                    &&& final(self).tour@ == if current == from_v {
                        old(self).tour@.push(to_v)
                    } else {
                        old(self).tour@.push(from_v).push(to_v)
                    }
                    &&& (if final(self).unvisited.spec_len() == 0 {
                        r matches RppControlFlow::Finished(t) && t@ == final(self).tour@
                    } else {
                        r matches RppControlFlow::Ongoing { left, locked }
                            && left.from@ == final(self).unvisited.from@
                            && left.to@ == final(self).unvisited.to@
                            && locked == Some((from_v, to_v))
                    })
                },
    {
        let len = self.unvisited.len();
        if len == 0 {
            return RppControlFlow::Finished(self.tour.clone());
        }
        let current = self.tour[self.tour.len() - 1];

        let mut best: usize = 0;
        let mut best_weight: u64 = cost.weight_at(current, self.unvisited.from[0]);
        let mut q: usize = 1;
        while q < len
            invariant
                cost.wf(),
                self.wf(cost.size as int),
                len == self.unvisited.spec_len(),
                current == self.tour@.last(),
                current < cost.size,
                1 <= q <= len,
                best < q,
                best_weight == cost.spec_weight(
                    current as int,
                    self.unvisited.from@[best as int] as int,
                ),
                forall|p: int|
                    0 <= p < q ==> #[trigger] cost.spec_weight(
                        current as int,
                        self.unvisited.from@[p] as int,
                    ) >= best_weight,
                forall|p: int|
                    0 <= p < best ==> #[trigger] cost.spec_weight(
                        current as int,
                        self.unvisited.from@[p] as int,
                    ) > best_weight,
            decreases len - q,
        {
            let w = cost.weight_at(current, self.unvisited.from[q]);
            if w < best_weight {
                best = q;
                best_weight = w;
            }
            q = q + 1;
        }

        let from_v = self.unvisited.from.swap_remove(best);
        let to_v = self.unvisited.to.swap_remove(best);
        if current != from_v {
            self.tour.push(from_v);
        }
        self.tour.push(to_v);

        if self.unvisited.len() == 0 {
            RppControlFlow::Finished(self.tour.clone())
        } else {
            RppControlFlow::Ongoing {
                left: EdgeSlice { from: self.unvisited.from.clone(), to: self.unvisited.to.clone() },
                locked: Some((from_v, to_v)),
            }
        }
    }
}

} // verus!
