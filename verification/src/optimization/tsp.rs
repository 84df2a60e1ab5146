//! The travelling-salesman baseline: a greedy nearest-neighbour tour over
//! an adjacency matrix, each move taking the cheapest edge to an unvisited
//! vertex with the smallest index winning ties, plus the builder that
//! configures a run.

use vstd::prelude::*;

use crate::dots::lemma_optimizer_permutes;
use crate::dots::DotsOptimizationProcess;
use crate::optimization::matrix::AdjacencyMatrix;

verus! {

/// Why a tour computation refused to run or to finish.
#[derive(Debug, Copy, Clone, PartialEq, Eq, Structural)]
pub enum Error {
    /// No starting vertex was configured.
    NoStartVertex,
    /// The graph has no vertex.
    EmptyGraph,
    /// Some vertex could not be reached.
    UnconnectedGraph,
    /// The computation reached a state it cannot explain.
    InternalError,
    /// An edge needed by the tour has no weight.
    EdgeNotAvailable,
    /// A vertex neighbours itself.
    SelfReferential,
}

/// Saturating addition of tour weights.
pub open spec fn spec_sat_add(a: u64, b: u64) -> u64 {
    if a + b > u64::MAX {
        u64::MAX
    } else {
        (a + b) as u64
    }
}

/// The saturating total weight of the edges a tour traverses in order.
pub open spec fn spec_tour_weight(m: &AdjacencyMatrix<u64>, tour: Seq<usize>) -> u64
    decreases tour.len(),
{
    if tour.len() <= 1 {
        0
    } else {
        spec_sat_add(
            spec_tour_weight(m, tour.drop_last()),
            m.spec_weight(tour[tour.len() - 2] as int, tour[tour.len() - 1] as int),
        )
    }
}

/// The per-candidate condition of the greedy choice at position `i`: the
/// chosen edge is no dearer than the edge to candidate `q`, and a candidate
/// with a smaller index than the chosen vertex is strictly dearer.
pub open spec fn spec_greedy_body(m: &AdjacencyMatrix<u64>, tour: Seq<usize>, i: int, q: int) -> bool {
    m.spec_weight(tour[i - 1] as int, tour[i] as int) <= m.spec_weight(tour[i - 1] as int, q) && (q
        < tour[i] ==> m.spec_weight(tour[i - 1] as int, q) > m.spec_weight(
        tour[i - 1] as int,
        tour[i] as int,
    ))
}

/// The greedy choice at position `i` of a tour: among the vertices not yet
/// visited when it was chosen, `tour[i]` has the cheapest edge from
/// `tour[i - 1]`, and every cheaper-indexed candidate is strictly dearer.
pub open spec fn spec_greedy_at(m: &AdjacencyMatrix<u64>, tour: Seq<usize>, i: int) -> bool {
    forall|q: int|
        0 <= q < m.size && !tour.subrange(0, i).contains(q as usize)
            ==> #[trigger] spec_greedy_body(m, tour, i, q)
}

/// The result of a travelling-salesman computation.
#[derive(Debug, Clone)]
pub struct TspPath<W> {
    tour: Vec<usize>,
    total_weight: W,
}

impl<W> TspPath<W> {
    pub closed spec fn spec_tour(&self) -> Seq<usize> {
        self.tour@
    }

    pub closed spec fn spec_total_weight(&self) -> W {
        self.total_weight
    }

    /// Takes the visit order out of the result.
    pub fn consume_tour(self) -> (r: Vec<usize>)
        ensures
            r@ == self.spec_tour(),
    {
        self.tour
    }

    /// The visit order.
    pub fn tour(&self) -> (r: &Vec<usize>)
        ensures
            r@ == self.spec_tour(),
    {
        &self.tour
    }

    /// The total weight of the tour.
    pub fn total_weight(&self) -> (r: &W)
        ensures
            *r == self.spec_total_weight(),
    {
        &self.total_weight
    }
}

/// Extending a tour by one vertex leaves its prefixes as they were.
proof fn lemma_push_prefix(t: Seq<usize>, x: usize, i: int)
    requires
        0 <= i <= t.len(),
    ensures
        t.push(x).subrange(0, i) =~= t.subrange(0, i),
{
}

/// Computes a greedy nearest-neighbour tour over a complete distance
/// matrix: starting at `start`, each move visits the unvisited vertex with
/// the cheapest edge from the current one, the smallest index winning ties.
/// An empty graph is refused; every pair of vertices has a weight, so the
/// tour always completes and is a permutation of the vertices.
pub fn nearest_neighbor(matrix: &AdjacencyMatrix<u64>, start_vertex: usize) -> (r: Result<
    TspPath<u64>,
    Error,
>)
    requires
        matrix.wf(),
        matrix.size > 0 ==> start_vertex < matrix.size,
    ensures
        match r {
            Err(e) => e == Error::EmptyGraph && matrix.size == 0,
            Ok(p) => {
                &&& matrix.size > 0
                &&& p.spec_tour().len() == matrix.size
                &&& p.spec_tour()[0] == start_vertex
                &&& forall|v: int|
                    0 <= v < matrix.size ==> #[trigger] p.spec_tour().contains(v as usize)
                &&& forall|i: int, j: int|
                    0 <= i < j < p.spec_tour().len() ==> p.spec_tour()[i] != p.spec_tour()[j]
                &&& forall|i: int| 1 <= i < p.spec_tour().len() ==> spec_greedy_at(
                    matrix,
                    p.spec_tour(),
                    i,
                )
                &&& p.spec_total_weight() == spec_tour_weight(matrix, p.spec_tour())
            },
        },
{
    let n = matrix.extent();
    if n == 0 {
        return Err(Error::EmptyGraph);
    }
    let mut proc = DotsOptimizationProcess::new(n);
    proc.force_visit(start_vertex);
    let mut total: u64 = 0;
    let mut current: usize = start_vertex;
    proof {
        assert(proc.spec_tour() =~= Seq::empty().push(start_vertex));
        assert(spec_tour_weight(matrix, proc.spec_tour()) == 0);
    }
    while proc.current_tour().len() < n
        invariant
            matrix.wf(),
            n == matrix.size,
            n > 0,
            proc.wf(),
            proc.spec_n() == n,
            1 <= proc.spec_tour().len() <= n,
            proc.spec_tour()[0] == start_vertex,
            current == proc.spec_tour().last(),
            current < n,
            total == spec_tour_weight(matrix, proc.spec_tour()),
            forall|i: int| 1 <= i < proc.spec_tour().len() ==> spec_greedy_at(
                matrix,
                proc.spec_tour(),
                i,
            ),
        decreases n - proc.spec_tour().len(),
    {
        let mut keys: Vec<u64> = Vec::new();
        let mut j: usize = 0;
        while j < n
            invariant
                matrix.wf(),
                n == matrix.size,
                current < n,
                j <= n,
                keys@.len() == j,
                forall|q: int|
                    0 <= q < j ==> keys@[q] == matrix.spec_weight(current as int, q),
            decreases n - j,
        {
            keys.push(matrix.weight_at(current, j));
            j = j + 1;
        }
        let ghost prev_tour = proc.spec_tour();
        let ghost prev_visited = proc.spec_visited();
        let ghost prev_current = current;
        proof {
            proc.lemma_wf();
        }
        let next = proc.step(&keys);
        let w = keys[next];
        total = if w > u64::MAX - total {
            u64::MAX
        } else {
            total + w
        };
        current = next;
        proof {
            let t = proc.spec_tour();
            assert(t == prev_tour.push(next));
            assert(t.drop_last() =~= prev_tour);
            assert(total == spec_tour_weight(matrix, t));
            proc.lemma_wf();
            let i = t.len() - 1;
            lemma_push_prefix(prev_tour, next, i);
            assert(t.subrange(0, i) =~= prev_tour);
            assert forall|q: int|
                0 <= q < matrix.size && !t.subrange(0, i).contains(
                    q as usize,
                ) implies #[trigger] spec_greedy_body(matrix, t, i, q) by {
                assert(!prev_tour.contains(q as usize));
                assert(!prev_visited[q]);
                assert(keys@[q] == matrix.spec_weight(prev_current as int, q));
                assert(keys@[next as int] <= keys@[q]);
                assert(t[i - 1] == prev_current && t[i] == next);
            }
            assert(spec_greedy_at(matrix, t, i));
            assert forall|i0: int| 1 <= i0 < t.len() - 1 implies spec_greedy_at(
                matrix,
                t,
                i0,
            ) by {
                lemma_push_prefix(prev_tour, next, i0);
                assert(spec_greedy_at(matrix, prev_tour, i0));
                assert(t.subrange(0, i0) =~= prev_tour.subrange(0, i0));
                assert(t[i0 - 1] == prev_tour[i0 - 1] && t[i0] == prev_tour[i0]);
                assert forall|q: int|
                    0 <= q < matrix.size && !t.subrange(0, i0).contains(
                        q as usize,
                    ) implies #[trigger] spec_greedy_body(matrix, t, i0, q) by {
                    assert(!prev_tour.subrange(0, i0).contains(q as usize));
                    assert(spec_greedy_body(matrix, prev_tour, i0, q));
                }
            }
        }
    }
    proof {
        lemma_optimizer_permutes(&proc);
    }
    let tour = proc.current_tour().clone();
    Ok(TspPath { tour, total_weight: total })
}

/// The entry point for computing a tour: names the graph, the start vertex,
/// and runs the approximation.
pub struct TravellingSalesmanBuilder<'a> {
    graph: &'a AdjacencyMatrix<u64>,
    start_vertex: Option<usize>,
}

impl<'a> TravellingSalesmanBuilder<'a> {
    pub closed spec fn spec_graph(&self) -> &'a AdjacencyMatrix<u64> {
        self.graph
    }

    pub closed spec fn spec_start(&self) -> Option<usize> {
        self.start_vertex
    }

    /// Constructs a builder for the given distance matrix.
    pub fn on(graph: &'a AdjacencyMatrix<u64>) -> (r: TravellingSalesmanBuilder<'a>)
        ensures
            r.spec_graph() == graph,
            r.spec_start() is None,
    {
        TravellingSalesmanBuilder { graph, start_vertex: None }
    }

    /// Sets the starting vertex; the nearest-neighbour run needs one.
    pub fn start_at(self, start: usize) -> (r: TravellingSalesmanBuilder<'a>)
        ensures
            r.spec_graph() == self.spec_graph(),
            r.spec_start() == Some(start),
    {
        TravellingSalesmanBuilder { start_vertex: Some(start), ..self }
    }

    /// Runs the greedy approximation; without a start vertex it refuses.
    pub fn approximate(self) -> (r: Result<TspPath<u64>, Error>)
        requires
            self.spec_graph().wf(),
            match self.spec_start() {
                Some(s) => self.spec_graph().size > 0 ==> s < self.spec_graph().size,
                None => true,
            },
        ensures
            self.spec_start() is None ==> r == Err::<TspPath<u64>, Error>(Error::NoStartVertex),
            match self.spec_start() {
                None => r == Err::<TspPath<u64>, Error>(Error::NoStartVertex),
                Some(s) => match r {
                    Err(e) => e == Error::EmptyGraph && self.spec_graph().size == 0,
                    Ok(p) => {
                        &&& p.spec_tour().len() == self.spec_graph().size
                        &&& p.spec_tour()[0] == s
                        &&& forall|v: int|
                            0 <= v < self.spec_graph().size
                                ==> #[trigger] p.spec_tour().contains(v as usize)
                        &&& forall|i: int, j: int|
                            0 <= i < j < p.spec_tour().len() ==> p.spec_tour()[i]
                                != p.spec_tour()[j]
                        &&& forall|i: int| 1 <= i < p.spec_tour().len() ==> spec_greedy_at(
                            self.spec_graph(),
                            p.spec_tour(),
                            i,
                        )
                        &&& p.spec_total_weight() == spec_tour_weight(
                            self.spec_graph(),
                            p.spec_tour(),
                        )
                    },
                },
            },
    {
        match self.start_vertex {
            None => Err(Error::NoStartVertex),
            Some(s) => nearest_neighbor(self.graph, s),
        }
    }
}

/// A tour with the segment strictly after `i` and up to `j` reversed.
pub open spec fn spec_reversed_segment(t: Seq<usize>, i: int, j: int) -> Seq<usize> {
    Seq::new(t.len(), |p: int| if i < p <= j { t[i + 1 + j - p] } else { t[p] })
}

/// One more edge extends a tour's weight by a saturating add.
proof fn lemma_tour_weight_snoc(m: &AdjacencyMatrix<u64>, t: Seq<usize>, p: int)
    requires
        1 <= p < t.len(),
    ensures
        spec_tour_weight(m, t.subrange(0, p + 1)) == spec_sat_add(
            spec_tour_weight(m, t.subrange(0, p)),
            m.spec_weight(t[p - 1] as int, t[p] as int),
        ),
{
    let s = t.subrange(0, p + 1);
    assert(s.drop_last() =~= t.subrange(0, p));
    assert(s[s.len() - 2] == t[p - 1] && s[s.len() - 1] == t[p]);
}

/// The saturating total weight of a tour, walked edge by edge.
pub fn tour_weight(matrix: &AdjacencyMatrix<u64>, tour: &Vec<usize>) -> (r: u64)
    requires
        matrix.wf(),
        forall|k: int| 0 <= k < tour@.len() ==> tour@[k] < matrix.size,
    ensures
        r == spec_tour_weight(matrix, tour@),
{
    if tour.len() == 0 {
        return 0;
    }
    let mut total: u64 = 0;
    let mut p: usize = 1;
    proof {
        assert(tour@.subrange(0, 1).len() == 1);
    }
    while p < tour.len()
        invariant
            matrix.wf(),
            forall|k: int| 0 <= k < tour@.len() ==> tour@[k] < matrix.size,
            1 <= p <= tour@.len(),
            total == spec_tour_weight(matrix, tour@.subrange(0, p as int)),
        decreases tour@.len() - p,
    {
        let w = matrix.weight_at(tour[p - 1], tour[p]);
        proof {
            lemma_tour_weight_snoc(matrix, tour@, p as int);
        }
        total = if w > u64::MAX - total {
            u64::MAX
        } else {
            total + w
        };
        p = p + 1;
    }
    proof {
        assert(tour@.subrange(0, tour@.len() as int) =~= tour@);
    }
    total
}

/// Builds the tour with the segment strictly after `i` and up to `j`
/// reversed; because the metric is asymmetric, every edge inside the
/// segment is afterwards traversed in the opposite direction.
fn reversed_segment(tour: &Vec<usize>, i: usize, j: usize) -> (r: Vec<usize>)
    requires
        i < j < tour@.len(),
    ensures
        r@ == spec_reversed_segment(tour@, i as int, j as int),
{
    let n = tour.len();
    let mut out: Vec<usize> = Vec::new();
    let mut p: usize = 0;
    while p < n
        invariant
            n == tour@.len(),
            i < j < n,
            p <= n,
            out@.len() == p,
            forall|q: int|
                0 <= q < p ==> out@[q] == spec_reversed_segment(tour@, i as int, j as int)[q],
        decreases n - p,
    {
        if i < p && p <= j {
            out.push(tour[i + 1 + (j - p)]);
        } else {
            out.push(tour[p]);
        }
        p = p + 1;
    }
    proof {
        assert(out@ =~= spec_reversed_segment(tour@, i as int, j as int));
    }
    out
}

/// One first-improvement pass of 2-opt local search: scans the pairs
/// `(i, j)` with `i + 1 < j` and reverses the sub-tour after `i` up to `j`
/// as soon as doing so strictly decreases the total tour weight. Reports
/// whether a swap was accepted: an accepted swap strictly decreases the
/// weight, and a pass that accepts none leaves the tour untouched because
/// no such reversal improves it — a driving loop may then stop.
pub fn two_opt_pass(matrix: &AdjacencyMatrix<u64>, tour: &mut Vec<usize>) -> (improved: bool)
    requires
        matrix.wf(),
        forall|k: int| 0 <= k < old(tour)@.len() ==> old(tour)@[k] < matrix.size,
    ensures
        forall|k: int| 0 <= k < final(tour)@.len() ==> final(tour)@[k] < matrix.size,
        !improved ==> final(tour)@ == old(tour)@,
        !improved ==> forall|i: int, j: int|
            0 <= i && i + 1 < j < old(tour)@.len() ==> spec_tour_weight(
                matrix,
                #[trigger] spec_reversed_segment(old(tour)@, i, j),
            ) >= spec_tour_weight(matrix, old(tour)@),
        improved ==> exists|i: int, j: int|
            {
                &&& 0 <= i
                &&& i + 1 < j < old(tour)@.len()
                &&& final(tour)@ == #[trigger] spec_reversed_segment(old(tour)@, i, j)
                &&& spec_tour_weight(matrix, final(tour)@) < spec_tour_weight(
                    matrix,
                    old(tour)@,
                )
            },
{
    let n = tour.len();
    if n < 3 {
        return false;
    }
    let base = tour_weight(matrix, tour);
    let mut i: usize = 0;
    while i < n - 2
        invariant
            matrix.wf(),
            n == tour@.len(),
            tour@ == old(tour)@,
            forall|k: int| 0 <= k < tour@.len() ==> tour@[k] < matrix.size,
            base == spec_tour_weight(matrix, tour@),
            n >= 3,
            i <= n - 2,
            forall|i0: int, j0: int|
                0 <= i0 < i && i0 + 1 < j0 < n ==> spec_tour_weight(
                    matrix,
                    #[trigger] spec_reversed_segment(tour@, i0, j0),
                ) >= base,
        decreases n - i,
    {
        let mut j: usize = i + 2;
        while j < n
            invariant
                matrix.wf(),
                n == tour@.len(),
                tour@ == old(tour)@,
                forall|k: int| 0 <= k < tour@.len() ==> tour@[k] < matrix.size,
                base == spec_tour_weight(matrix, tour@),
                i + 2 <= j,
                i + 2 < n,
                forall|i0: int, j0: int|
                    0 <= i0 < i && i0 + 1 < j0 < n ==> spec_tour_weight(
                        matrix,
                        #[trigger] spec_reversed_segment(tour@, i0, j0),
                    ) >= base,
                forall|j0: int|
                    i + 1 < j0 < j ==> spec_tour_weight(
                        matrix,
                        #[trigger] spec_reversed_segment(tour@, i as int, j0),
                    ) >= base,
            decreases n - j,
        {
            let candidate = reversed_segment(tour, i, j);
            proof {
                assert forall|k: int| 0 <= k < candidate@.len() implies candidate@[k]
                    < matrix.size by {
                    assert(candidate@[k] == spec_reversed_segment(tour@, i as int, j as int)[k]);
                }
            }
            let w = tour_weight(matrix, &candidate);
            if w < base {
                let ghost wit_i = i as int;
                let ghost wit_j = j as int;
                *tour = candidate;
                proof {
                    assert(spec_tour_weight(matrix, tour@) < spec_tour_weight(
                        matrix,
                        old(tour)@,
                    ));
                    assert(tour@ == spec_reversed_segment(old(tour)@, wit_i, wit_j));
                }
                return true;
            }
            j = j + 1;
        }
        i = i + 1;
    }
    false
}

} // verus!
