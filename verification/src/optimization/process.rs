//! The optimization run a host drives incrementally: a tour over generated
//! line segments (the rural-postman baseline) or over generated dots (the
//! greedy nearest-neighbour), stepped a bounded number of times per call.

use vstd::prelude::*;

use crate::dots::DotsOptimizationProcess;
use crate::optimization::matrix::AdjacencyMatrix;
use crate::optimization::rpp::RppBaselineSolver;
use crate::optimization::rpp::RppControlFlow;

verus! {

/// What a chunk of optimization work reports.
#[derive(Debug, Clone)]
pub enum OptimizationControlFlow<E> {
    /// The run found its full tour, or otherwise met its criteria.
    Converged,
    /// Work remains; how many iterations this call performed.
    Ongoing { total_iterations: usize },
    /// The run cannot proceed.
    Error(E),
}

/// An optimization run over lines, over dots, or mixed.
pub enum OptimizationProcess {
    /// Ordering generated line segments: the rural-postman baseline.
    Lines(RppBaselineSolver),
    /// Ordering generated dots: the greedy nearest-neighbour.
    Dots(DotsOptimizationProcess),
    /// Ordering both at once; not offered yet.
    Mixed(()),
}

impl OptimizationProcess {
    /// A run is well formed against the distance matrix that drives it: a
    /// dots run orders exactly the matrix's vertices and has been seeded
    /// with a first dot; a lines run stays inside the matrix.
    pub open spec fn wf(&self, size: int) -> bool {
        match self {
            OptimizationProcess::Lines(solver) => solver.wf(size),
            OptimizationProcess::Dots(dots) => {
                &&& dots.wf()
                &&& dots.spec_n() == size
                &&& dots.spec_tour().len() >= 1
            },
            OptimizationProcess::Mixed(_) => false,
        }
    }

    /// Whether the run has its full tour.
    pub open spec fn spec_converged(&self) -> bool {
        match self {
            OptimizationProcess::Lines(solver) => solver.unvisited.spec_len() == 0,
            OptimizationProcess::Dots(dots) => dots.spec_tour().len() == dots.spec_n(),
            OptimizationProcess::Mixed(_) => false,
        }
    }

    /// The visit order found so far.
    pub fn current_tour(&self) -> (r: &Vec<usize>)
        requires
            !(self matches OptimizationProcess::Mixed(_)),
        ensures
            match self {
                OptimizationProcess::Lines(solver) => r@ == solver.tour@,
                OptimizationProcess::Dots(dots) => r@ == dots.spec_tour(),
                OptimizationProcess::Mixed(_) => false,
            },
    {
        match self {
            OptimizationProcess::Lines(solver) => &solver.tour,
            OptimizationProcess::Dots(dots) => dots.current_tour(),
            OptimizationProcess::Mixed(_) => unreached(),
        }
    }

    /// Runs up to `iterations` steps of the underlying solver against the
    /// distance matrix and returns control: converged when the tour is
    /// complete, else how many steps this call took. Each step is the
    /// solver's own verified greedy step: a dots run grows its tour by one
    /// dot per step; a lines run traverses one required edge per step.
    pub fn step(&mut self, cost: &AdjacencyMatrix<u64>, iterations: usize) -> (r:
        OptimizationControlFlow<()>)
        requires
            old(self).wf(cost.size as int),
            cost.wf(),
        ensures
            final(self).wf(cost.size as int),
            final(self).spec_converged() ==> (r matches OptimizationControlFlow::Converged),
            !final(self).spec_converged() ==> (r matches OptimizationControlFlow::Ongoing {
                total_iterations,
            } && total_iterations == iterations),
            *old(self) matches OptimizationProcess::Dots(d0) ==> (*final(self) matches
                OptimizationProcess::Dots(d1) && d1.spec_tour().len() == if d0.spec_tour().len()
                + iterations <= d0.spec_n() {
                d0.spec_tour().len() + iterations
            } else {
                d0.spec_n() as int
            }),
            *old(self) matches OptimizationProcess::Lines(s0) ==> (*final(self) matches
                OptimizationProcess::Lines(s1) && s1.unvisited.spec_len()
                == if iterations <= s0.unvisited.spec_len() {
                s0.unvisited.spec_len() - iterations
            } else {
                0int
            }),
    {
        match self {
            OptimizationProcess::Lines(solver) => {
                let ghost start_left = solver.unvisited.spec_len();
                let mut done: usize = 0;
                while done < iterations && solver.unvisited.len() > 0
                    invariant
                        cost.wf(),
                        solver.wf(cost.size as int),
                        done <= iterations,
                        done <= start_left,
                        solver.unvisited.spec_len() == start_left - done,
                    decreases iterations - done,
                {
                    let _report = solver.step(cost);
                    done = done + 1;
                }
                if solver.unvisited.len() == 0 {
                    OptimizationControlFlow::Converged
                } else {
                    OptimizationControlFlow::Ongoing { total_iterations: iterations }
                }
            },
            OptimizationProcess::Dots(dots) => {
                let n = cost.extent();
                let ghost start_len = dots.spec_tour().len();
                proof {
                    dots.lemma_wf();
                    crate::pack::lemma_count_active_bounds(dots.spec_visited(), n as int);
                }
                let mut done: usize = 0;
                while done < iterations && dots.current_tour().len() < n
                    invariant
                        cost.wf(),
                        n == cost.size,
                        dots.wf(),
                        dots.spec_n() == n,
                        dots.spec_tour().len() >= 1,
                        done <= iterations,
                        dots.spec_tour().len() == start_len + done,
                        dots.spec_tour().len() <= n,
                    decreases iterations - done,
                {
                    let current = dots.current_tour()[dots.current_tour().len() - 1];
                    proof {
                        dots.lemma_wf();
                    }
                    let mut keys: Vec<u64> = Vec::new();
                    let mut j: usize = 0;
                    while j < n
                        invariant
                            cost.wf(),
                            n == cost.size,
                            current < n,
                            j <= n,
                            keys@.len() == j,
                        decreases n - j,
                    {
                        keys.push(cost.weight_at(current, j));
                        j = j + 1;
                    }
                    dots.step(&keys);
                    done = done + 1;
                }
                if dots.current_tour().len() == n {
                    OptimizationControlFlow::Converged
                } else {
                    OptimizationControlFlow::Ongoing { total_iterations: iterations }
                }
            },
            OptimizationProcess::Mixed(_) => unreached(),
        }
    }
}

} // verus!
