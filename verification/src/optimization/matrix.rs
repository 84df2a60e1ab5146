//! An adjacency matrix over a complete vertex set: weights in a flat
//! row-major buffer, read and written `L` lanes at a time with out-of-bounds
//! lanes masked off on both read and write.

use vstd::prelude::*;

use crate::pack::Mask;
use crate::pack::Pack;
use crate::soa::EdgePack;

verus! {

/// A distance store for a graph of `size` vertices: the weight of the edge
/// `from -> to` sits at flat index `from * size + to`.
#[derive(Debug, Clone)]
pub struct AdjacencyMatrix<W> {
    pub weights: Vec<W>,
    pub size: usize,
}

impl<W> AdjacencyMatrix<W> {
    /// The flat buffer holds one weight per ordered vertex pair.
    pub open spec fn wf(&self) -> bool {
        self.weights@.len() == self.size * self.size
    }

    /// The weight stored for the edge `from -> to`.
    pub open spec fn spec_weight(&self, from: int, to: int) -> W {
        self.weights@[from * self.size + to]
    }

    /// Whether a lane's vertex pair lies inside the matrix.
    pub open spec fn spec_in_bounds(&self, from: int, to: int) -> bool {
        0 <= from < self.size && 0 <= to < self.size
    }
}

/// In-range coordinates land inside the flat buffer.
proof fn lemma_flat_index<W>(m: &AdjacencyMatrix<W>, from: int, to: int)
    requires
        m.wf(),
        m.spec_in_bounds(from, to),
    ensures
        0 <= from * m.size + to < m.weights@.len(),
        from * m.size + to <= usize::MAX,
{
    assert(from * m.size + to < m.size * m.size) by (nonlinear_arith)
        requires
            0 <= from < m.size,
            0 <= to < m.size,
    ;
    assert(from * m.size >= 0) by (nonlinear_arith)
        requires
            from >= 0,
            m.size >= 0,
    ;
    broadcast use vstd::std_specs::vec::axiom_spec_len;

    assert(vstd::std_specs::vec::spec_vec_len(&m.weights) == m.weights@.len());
}

impl<W: Copy + Default> AdjacencyMatrix<W> {
    /// The number of vertices spanned.
    pub fn extent(&self) -> (r: usize)
        ensures
            r == self.size,
    {
        self.size
    }

    /// Reads one weight.
    pub fn weight_at(&self, from: usize, to: usize) -> (r: W)
        requires
            self.wf(),
            self.spec_in_bounds(from as int, to as int),
        ensures
            r == self.spec_weight(from as int, to as int),
    {
        proof {
            lemma_flat_index(self, from as int, to as int);
        }
        self.weights[from * self.size + to]
    }

    /// Loads `L` weights at the lanes' vertex pairs; a lane whose pair lies
    /// outside the matrix is masked off and its value is arbitrary.
    pub fn get<const L: usize>(&self, pos: &EdgePack<usize, L>) -> (r: (Pack<W, L>, Mask<L>))
        requires
            self.wf(),
            pos.wf(),
        ensures
            r.0.wf(),
            r.1.wf(),
            forall|k: int|
                0 <= k < L ==> r.1@[k] == self.spec_in_bounds(
                    pos.from@[k] as int,
                    pos.to@[k] as int,
                ),
            forall|k: int|
                0 <= k < L && r.1@[k] ==> r.0@[k] == self.spec_weight(
                    pos.from@[k] as int,
                    pos.to@[k] as int,
                ),
    {
        let mut values: Vec<W> = Vec::new();
        let mut flags: Vec<bool> = Vec::new();
        let mut k: usize = 0;
        while k < L
            invariant
                self.wf(),
                pos.wf(),
                k <= L,
                values@.len() == k,
                flags@.len() == k,
                forall|q: int|
                    0 <= q < k ==> flags@[q] == self.spec_in_bounds(
                        pos.from@[q] as int,
                        pos.to@[q] as int,
                    ),
                forall|q: int|
                    0 <= q < k && flags@[q] ==> values@[q] == self.spec_weight(
                        pos.from@[q] as int,
                        pos.to@[q] as int,
                    ),
            decreases L - k,
        {
            let from = pos.from.at(k);
            let to = pos.to.at(k);
            if from < self.size && to < self.size {
                proof {
                    lemma_flat_index(self, from as int, to as int);
                }
                values.push(self.weights[from * self.size + to]);
                flags.push(true);
            } else {
                values.push(W::default());
                flags.push(false);
            }
            k = k + 1;
        }
        (Pack::from_vec(values), Mask::from_vec(flags))
    }

    /// Stores one weight.
    pub fn set_weight_at(&mut self, from: usize, to: usize, w: W)
        requires
            old(self).wf(),
            old(self).spec_in_bounds(from as int, to as int),
        ensures
            final(self).wf(),
            final(self).size == old(self).size,
            final(self).weights@ == old(self).weights@.update(
                from * old(self).size + to,
                w,
            ),
    {
        proof {
            lemma_flat_index(self, from as int, to as int);
        }
        self.weights[from * self.size + to] = w;
    }

    /// Stores `L` weights at the lanes' vertex pairs where both the
    /// caller's mask and the bounds check allow; other lanes write nothing,
    /// and with several lanes on one pair the last active lane wins.
    pub fn set<const L: usize>(
        &mut self,
        pos: &EdgePack<usize, L>,
        value: &Pack<W, L>,
        mask: &Mask<L>,
    )
        requires
            old(self).wf(),
            pos.wf(),
            value.wf(),
            mask.wf(),
        ensures
            final(self).wf(),
            final(self).size == old(self).size,
            final(self).weights@ == spec_scatter(
                old(self).weights@,
                old(self).size as int,
                pos.from@,
                pos.to@,
                value@,
                mask@,
                L as int,
            ),
    {
        let mut k: usize = 0;
        while k < L
            invariant
                self.wf(),
                self.size == old(self).size,
                pos.wf(),
                value.wf(),
                mask.wf(),
                k <= L,
                self.weights@ == spec_scatter(
                    old(self).weights@,
                    old(self).size as int,
                    pos.from@,
                    pos.to@,
                    value@,
                    mask@,
                    k as int,
                ),
            decreases L - k,
        {
            let from = pos.from.at(k);
            let to = pos.to.at(k);
            if mask.test(k) && from < self.size && to < self.size {
                proof {
                    lemma_flat_index(self, from as int, to as int);
                }
                self.weights[from * self.size + to] = value.at(k);
            }
            k = k + 1;
        }
    }
}

/// The flat buffer after the first `n` lanes of a masked scatter: each
/// active in-bounds lane in turn writes its value at its pair's flat index.
pub open spec fn spec_scatter<W>(
    weights: Seq<W>,
    size: int,
    from: Seq<usize>,
    to: Seq<usize>,
    vals: Seq<W>,
    mask: Seq<bool>,
    n: int,
) -> Seq<W>
    decreases n,
{
    if n <= 0 {
        weights
    } else {
        let prev = spec_scatter(weights, size, from, to, vals, mask, n - 1);
        if mask[n - 1] && from[n - 1] < size && to[n - 1] < size {
            prev.update(from[n - 1] * size + to[n - 1], vals[n - 1])
        } else {
            prev
        }
    }
}

/// A scatter leaves every pair that no active lane targets unchanged, and
/// writes the last active lane targeting a pair.
pub proof fn lemma_scatter_reads<W>(
    weights: Seq<W>,
    size: int,
    from: Seq<usize>,
    to: Seq<usize>,
    vals: Seq<W>,
    mask: Seq<bool>,
    n: int,
    f: int,
    t: int,
)
    requires
        0 <= n <= from.len(),
        n <= to.len(),
        n <= vals.len(),
        n <= mask.len(),
        weights.len() == size * size,
        0 <= f < size,
        0 <= t < size,
    ensures
        spec_scatter(weights, size, from, to, vals, mask, n).len() == weights.len(),
        (forall|k: int| 0 <= k < n ==> !(mask[k] && from[k] == f && to[k] == t)) ==> spec_scatter(
            weights,
            size,
            from,
            to,
            vals,
            mask,
            n,
        )[f * size + t] == weights[f * size + t],
        forall|k: int|
            0 <= k < n && mask[k] && from[k] == f && to[k] == t && (forall|q: int|
                k < q < n ==> !(mask[q] && from[q] == f && to[q] == t)) ==> spec_scatter(
                weights,
                size,
                from,
                to,
                vals,
                mask,
                n,
            )[f * size + t] == vals[k],
    decreases n,
{
    assert(0 <= f * size + t < size * size) by (nonlinear_arith)
        requires
            0 <= f < size,
            0 <= t < size,
    ;
    if n > 0 {
        lemma_scatter_reads(weights, size, from, to, vals, mask, n - 1, f, t);
        let prev = spec_scatter(weights, size, from, to, vals, mask, n - 1);
        let cur = spec_scatter(weights, size, from, to, vals, mask, n);
        if mask[n - 1] && from[n - 1] < size && to[n - 1] < size {
            let fl = from[n - 1] as int;
            let tl = to[n - 1] as int;
            assert(0 <= fl * size + tl < size * size) by (nonlinear_arith)
                requires
                    0 <= fl < size,
                    0 <= tl < size,
            ;
            lemma_flat_distinct_general(size, f, t, fl, tl);
            assert(cur == prev.update(fl * size + tl, vals[n - 1]));
            if fl == f && tl == t {
                assert(cur[f * size + t] == vals[n - 1]);
            } else {
                assert(cur[f * size + t] == prev[f * size + t]);
            }
        } else {
            assert(cur == prev);
        }
        assert forall|k: int|
            0 <= k < n && mask[k] && from[k] == f && to[k] == t && (forall|q: int|
                k < q < n ==> !(mask[q] && from[q] == f && to[q] == t)) implies cur[f * size + t]
            == vals[k] by {
            if k == n - 1 {
            } else {
                assert(!(mask[n - 1] && from[n - 1] == f && to[n - 1] == t));
                assert(forall|q: int| k < q < n - 1 ==> !(mask[q] && from[q] == f && to[q] == t));
                assert(prev[f * size + t] == vals[k]);
            }
        }
    }
}

/// Two in-range pairs share a flat index only when they are the same pair.
proof fn lemma_flat_distinct_general(size: int, f1: int, t1: int, f2: int, t2: int)
    requires
        0 <= f1 < size,
        0 <= t1 < size,
        0 <= f2 < size,
        0 <= t2 < size,
    ensures
        (f1 * size + t1 == f2 * size + t2) == (f1 == f2 && t1 == t2),
{
    assert((f1 * size + t1 == f2 * size + t2) == (f1 == f2 && t1 == t2)) by (nonlinear_arith)
        requires
            0 <= f1 < size,
            0 <= t1 < size,
            0 <= f2 < size,
            0 <= t2 < size,
    ;
}

} // verus!
