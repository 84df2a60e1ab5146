//! Greedy ordering of screened dots into a tour. The process holds the
//! visited set and the tour built so far; each step receives one cost key
//! per dot — an order-preserving integer encoding of the host's composite
//! weight for moving from the current dot — and visits the unvisited dot
//! with the least key, the smallest index winning ties. After as many steps
//! as there are dots the tour is a permutation of them.

use vstd::prelude::*;

use crate::pack::count_active;
use crate::pack::lemma_count_active_bounds;

verus! {

/// Setting one false flag adds one to the count of the active flags.
pub proof fn lemma_count_update(m: Seq<bool>, j: int, n: int)
    requires
        0 <= j < n <= m.len(),
        !m[j],
    ensures
        count_active(m.update(j, true), n) == count_active(m, n) + 1,
    decreases n,
{
    if j == n - 1 {
        assert(forall|q: int| 0 <= q < n - 1 ==> m.update(j, true)[q] == m[q]);
        lemma_count_same(m, m.update(j, true), n - 1);
    } else {
        lemma_count_update(m, j, n - 1);
    }
}

/// The count of the first `n` flags reads none past `n`.
pub proof fn lemma_count_same(a: Seq<bool>, b: Seq<bool>, n: int)
    requires
        forall|q: int| 0 <= q < n ==> a[q] == b[q],
    ensures
        count_active(a, n) == count_active(b, n),
    decreases n,
{
    if n > 0 {
        lemma_count_same(a, b, n - 1);
    }
}

/// A full count means every flag is set.
pub proof fn lemma_count_full(m: Seq<bool>, n: int)
    requires
        0 <= n <= m.len(),
        count_active(m, n) == n,
    ensures
        forall|v: int| 0 <= v < n ==> m[v],
    decreases n,
{
    if n > 0 {
        lemma_count_active_bounds(m, n - 1);
        assert(m[n - 1]);
        lemma_count_full(m, n - 1);
    }
}

/// The state of a greedy dot-ordering run.
pub struct DotsOptimizationProcess {
    visited: Vec<bool>,
    tour: Vec<usize>,
}

impl DotsOptimizationProcess {
    /// How many dots the run orders.
    pub closed spec fn spec_n(&self) -> nat {
        self.visited@.len()
    }

    /// The tour built so far.
    pub closed spec fn spec_tour(&self) -> Seq<usize> {
        self.tour@
    }

    /// Which dots have been visited.
    pub closed spec fn spec_visited(&self) -> Seq<bool> {
        self.visited@
    }

    /// The tour lists exactly the visited dots, each once.
    pub closed spec fn wf(&self) -> bool {
        &&& self.tour@.len() == count_active(self.visited@, self.spec_n() as int)
        &&& forall|i: int| 0 <= i < self.tour@.len() ==> self.tour@[i] < self.spec_n()
        &&& forall|i: int, j: int|
            0 <= i < j < self.tour@.len() ==> self.tour@[i] != self.tour@[j]
        &&& forall|v: int|
            0 <= v < self.spec_n() ==> (self.visited@[v] <==> self.tour@.contains(v as usize))
    }

    /// What well-formedness gives a caller: indices in range, no repeats,
    /// and the visited set mirrored by the tour.
    pub proof fn lemma_wf(&self)
        requires
            self.wf(),
        ensures
            self.spec_tour().len() == count_active(self.spec_visited(), self.spec_n() as int),
            self.spec_visited().len() == self.spec_n(),
            forall|i: int| 0 <= i < self.spec_tour().len() ==> self.spec_tour()[i] < self.spec_n(),
            forall|i: int, j: int|
                0 <= i < j < self.spec_tour().len() ==> self.spec_tour()[i] != self.spec_tour()[j],
            forall|v: int|
                0 <= v < self.spec_n() ==> (self.spec_visited()[v] <==> self.spec_tour().contains(
                    v as usize,
                )),
    {
    }

    /// Starts a run over `n` dots with an empty tour.
    pub fn new(n: usize) -> (r: DotsOptimizationProcess)
        ensures
            r.wf(),
            r.spec_n() == n,
            r.spec_tour().len() == 0,
            forall|v: int| 0 <= v < n ==> !r.spec_visited()[v],
    {
        let visited: Vec<bool> = vec![false; n];
        proof {
            lemma_count_none(visited@, n as int);
        }
        DotsOptimizationProcess { visited, tour: Vec::new() }
    }

    /// Whether every dot has been visited.
    pub fn done(&self) -> (r: bool)
        requires
            self.wf(),
        ensures
            r == (self.spec_tour().len() == self.spec_n()),
    {
        self.tour.len() == self.visited.len()
    }

    /// The dot the run currently stands on: the last one visited.
    pub fn current(&self) -> (r: Option<usize>)
        ensures
            match r {
                None => self.spec_tour().len() == 0,
                Some(v) => self.spec_tour().len() > 0 && v == self.spec_tour().last(),
            },
    {
        if self.tour.len() == 0 {
            None
        } else {
            Some(self.tour[self.tour.len() - 1])
        }
    }

    /// The tour built so far.
    pub fn current_tour(&self) -> (r: &Vec<usize>)
        ensures
            r@ == self.spec_tour(),
    {
        &self.tour
    }

    /// Visits the unvisited dot whose key is least, the smallest index
    /// winning a tie, and returns it. `keys[j]` is the host's composite
    /// weight of moving from the current dot to dot `j`, encoded so that
    /// integer order agrees with weight order.
    pub fn step(&mut self, keys: &Vec<u64>) -> (r: usize)
        requires
            old(self).wf(),
            keys@.len() == old(self).spec_n(),
            old(self).spec_tour().len() < old(self).spec_n(),
        ensures
            final(self).wf(),
            final(self).spec_n() == old(self).spec_n(),
            r < old(self).spec_n(),
            !old(self).spec_visited()[r as int],
            forall|q: int|
                0 <= q < old(self).spec_n() && !old(self).spec_visited()[q] ==> keys@[r as int]
                    <= keys@[q],
            forall|q: int|
                0 <= q < r && !old(self).spec_visited()[q] ==> keys@[q] > keys@[r as int],
            final(self).spec_tour() == old(self).spec_tour().push(r),
            final(self).spec_visited() == old(self).spec_visited().update(r as int, true),
    {
        let n = self.visited.len();
        let mut best: usize = 0;
        let mut best_key: u64 = 0;
        let mut found = false;
        let mut j: usize = 0;
        while j < n
            invariant
                self.visited@.len() == n,
                keys@.len() == n,
                j <= n,
                found == exists|q: int| 0 <= q < j && !self.visited@[q],
                found ==> {
                    &&& best < j
                    &&& !self.visited@[best as int]
                    &&& best_key == keys@[best as int]
                    &&& forall|q: int| 0 <= q < j && !self.visited@[q] ==> best_key <= keys@[q]
                    &&& forall|q: int|
                        0 <= q < best && !self.visited@[q] ==> keys@[q] > best_key
                },
            decreases n - j,
        {
            if !self.visited[j] && (!found || keys[j] < best_key) {
                best = j;
                best_key = keys[j];
                found = true;
            }
            j = j + 1;
        }
        proof {
            if !found {
                assert(forall|q: int| 0 <= q < n ==> self.visited@[q]);
                lemma_count_all(self.visited@, n as int);
                assert(false);
            }
        }
        self.mark(best);
        best
    }

    /// Visits a chosen dot regardless of its key: how a run is pinned to a
    /// required first dot.
    pub fn force_visit(&mut self, j: usize)
        requires
            old(self).wf(),
            j < old(self).spec_n(),
            !old(self).spec_visited()[j as int],
        ensures
            final(self).wf(),
            final(self).spec_n() == old(self).spec_n(),
            final(self).spec_tour() == old(self).spec_tour().push(j),
            final(self).spec_visited() == old(self).spec_visited().update(j as int, true),
    {
        self.mark(j);
    }

    /// Appends one unvisited dot to the tour and marks it visited.
    fn mark(&mut self, j: usize)
        requires
            old(self).wf(),
            j < old(self).spec_n(),
            !old(self).spec_visited()[j as int],
        ensures
            final(self).wf(),
            final(self).spec_n() == old(self).spec_n(),
            final(self).spec_tour() == old(self).spec_tour().push(j),
            final(self).spec_visited() == old(self).spec_visited().update(j as int, true),
    {
        let ghost n = self.spec_n();
        proof {
            lemma_count_update(self.visited@, j as int, n as int);
        }
        let marked = true;
        self.visited[j] = marked;
        self.tour.push(j);
        proof {
            broadcast use vstd::std_specs::vec::axiom_spec_len;

            assert(vstd::std_specs::vec::spec_vec_len(&self.visited) == self.visited@.len());
            let oldv = old(self).spec_visited();
            let newt = self.tour@;
            assert forall|v: int| 0 <= v < n implies (self.visited@[v] <==> newt.contains(
                v as usize,
            )) by {
                if v == j {
                    assert(newt[newt.len() - 1] == j);
                    assert(newt.contains(j));
                } else {
                    if oldv[v] {
                        let i = choose|i: int|
                            0 <= i < old(self).spec_tour().len() && old(self).spec_tour()[i]
                                == v as usize;
                        assert(newt[i] == v as usize);
                    } else {
                        if newt.contains(v as usize) {
                            let i = choose|i: int| 0 <= i < newt.len() && newt[i] == v as usize;
                            assert(newt[newt.len() - 1] == j);
                            assert(v as usize != j);
                            assert(i < newt.len() - 1);
                            assert(old(self).spec_tour()[i] == v as usize);
                        }
                    }
                }
            }
        }
    }
}

/// A fresh visited set counts to zero.
pub proof fn lemma_count_none(m: Seq<bool>, n: int)
    requires
        0 <= n <= m.len(),
        forall|q: int| 0 <= q < n ==> !m[q],
    ensures
        count_active(m, n) == 0,
    decreases n,
{
    if n > 0 {
        lemma_count_none(m, n - 1);
    }
}

/// An all-set visited set counts to its length.
pub proof fn lemma_count_all(m: Seq<bool>, n: int)
    requires
        0 <= n <= m.len(),
        forall|q: int| 0 <= q < n ==> m[q],
    ensures
        count_active(m, n) == n,
    decreases n,
{
    if n > 0 {
        lemma_count_all(m, n - 1);
    }
}

/// The optimizer permutes its input: a finished run's tour holds every dot
/// index exactly once.
pub proof fn lemma_optimizer_permutes(p: &DotsOptimizationProcess)
    requires
        p.wf(),
        p.spec_tour().len() == p.spec_n(),
    ensures
        forall|v: int| 0 <= v < p.spec_n() ==> #[trigger] p.spec_tour().contains(v as usize),
        forall|i: int, j: int|
            0 <= i < j < p.spec_tour().len() ==> p.spec_tour()[i] != p.spec_tour()[j],
        forall|i: int| 0 <= i < p.spec_tour().len() ==> p.spec_tour()[i] < p.spec_n(),
{
    p.lemma_wf();
    lemma_count_full(p.spec_visited(), p.spec_n() as int);
    assert forall|v: int| 0 <= v < p.spec_n() implies #[trigger] p.spec_tour().contains(
        v as usize,
    ) by {
        assert(p.spec_visited()[v]);
    }
}

} // verus!
