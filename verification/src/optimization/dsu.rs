//! A minimal disjoint-set-union for spanning-tree work: vertices are dense
//! indices, every vertex points to a parent at most itself, and `find`
//! compresses paths as it walks. Compression and unions are proved to keep
//! and to merge the partition exactly.

use vstd::prelude::*;

verus! {

/// The representative of `i`'s set: follow parents while they descend.
pub open spec fn spec_root(p: Seq<usize>, i: int) -> int
    decreases i,
{
    if 0 <= i < p.len() && p[i] < i {
        spec_root(p, p[i] as int)
    } else {
        i
    }
}

/// Two vertices stand in the same set when their chains meet.
pub open spec fn spec_same_set(p: Seq<usize>, a: int, b: int) -> bool {
    spec_root(p, a) == spec_root(p, b)
}

/// A representative never lies above its vertex.
pub proof fn lemma_root_le(p: Seq<usize>, i: int)
    requires
        0 <= i < p.len(),
        forall|v: int| 0 <= v < p.len() ==> p[v] <= v,
    ensures
        spec_root(p, i) <= i,
    decreases i,
{
    if p[i] < i {
        lemma_root_le(p, p[i] as int);
    }
}

/// A vertex that is its own representative is its own parent.
pub proof fn lemma_root_entry(p: Seq<usize>, i: int)
    requires
        0 <= i < p.len(),
        forall|v: int| 0 <= v < p.len() ==> p[v] <= v,
        spec_root(p, i) == i,
    ensures
        p[i] == i,
{
    if p[i] < i {
        lemma_root_le(p, p[i] as int);
        assert(false);
    }
}

/// A root represents itself.
pub proof fn lemma_root_idempotent(p: Seq<usize>, i: int)
    requires
        0 <= i < p.len(),
        forall|v: int| 0 <= v < p.len() ==> p[v] <= v,
    ensures
        0 <= spec_root(p, i) < p.len(),
        p[spec_root(p, i)] == spec_root(p, i),
        spec_root(p, spec_root(p, i)) == spec_root(p, i),
    decreases i,
{
    if p[i] < i {
        lemma_root_idempotent(p, p[i] as int);
    }
}

/// Re-pointing `i` at its own representative moves no vertex to another
/// set.
pub proof fn lemma_compress_preserves(p: Seq<usize>, i: int, v: int)
    requires
        0 <= i < p.len(),
        0 <= v < p.len(),
        forall|q: int| 0 <= q < p.len() ==> p[q] <= q,
    ensures
        spec_root(p.update(i, spec_root(p, i) as usize), v) == spec_root(p, v),
    decreases v,
{
    lemma_root_idempotent(p, i);
    let rt = spec_root(p, i);
    let np = p.update(i, rt as usize);
    if v == i {
        lemma_root_le(p, i);
        if rt < i {
            lemma_compress_preserves(p, i, rt);
            lemma_root_idempotent(p, rt);
        } else {
            assert(rt == i);
        }
    } else {
        if np[v] < v {
            lemma_compress_preserves(p, i, np[v] as int);
        }
    }
}

/// Re-pointing one root at another maps exactly the first root's set onto
/// the second's and moves nothing else.
pub proof fn lemma_union_maps(p: Seq<usize>, r1: int, r2: int, v: int)
    requires
        0 <= r1 < p.len(),
        0 <= r2 < r1,
        p[r1] == r1,
        p[r2] == r2,
        0 <= v < p.len(),
        forall|q: int| 0 <= q < p.len() ==> p[q] <= q,
    ensures
        spec_root(p.update(r1, r2 as usize), v) == if spec_root(p, v) == r1 {
            r2
        } else {
            spec_root(p, v)
        },
    decreases v,
{
    let np = p.update(r1, r2 as usize);
    if v == r1 {
        lemma_root_idempotent(p, r2);
        if r2 < v {
            lemma_union_maps(p, r1, r2, r2);
        }
    } else {
        if np[v] < v {
            lemma_union_maps(p, r1, r2, np[v] as int);
        }
    }
}

/// A disjoint-set union over dense vertex indices.
pub struct Dsu {
    parent: Vec<usize>,
}

impl Dsu {
    /// Every parent points at most at its own vertex.
    pub closed spec fn wf(&self) -> bool {
        forall|v: int| 0 <= v < self.parent@.len() ==> self.parent@[v] <= v
    }

    pub closed spec fn spec_parents(&self) -> Seq<usize> {
        self.parent@
    }

    /// How many vertices the structure tracks.
    pub closed spec fn spec_len(&self) -> nat {
        self.parent@.len()
    }

    /// Initializes the structure with every vertex its own parent.
    pub fn new(n: usize) -> (r: Dsu)
        ensures
            r.wf(),
            r.spec_len() == n,
            forall|v: int| 0 <= v < n ==> spec_root(r.spec_parents(), v) == v,
    {
        let mut parent: Vec<usize> = Vec::new();
        let mut i: usize = 0;
        while i < n
            invariant
                i <= n,
                parent@.len() == i,
                forall|v: int| 0 <= v < i ==> parent@[v] == v,
            decreases n - i,
        {
            parent.push(i);
            i = i + 1;
        }
        Dsu { parent }
    }

    /// Finds the representative of the set containing `i`, compressing the
    /// path behind it; no vertex changes set.
    pub fn find(&mut self, i: usize) -> (r: usize)
        requires
            old(self).wf(),
            i < old(self).spec_len(),
        ensures
            final(self).wf(),
            final(self).spec_len() == old(self).spec_len(),
            r == spec_root(old(self).spec_parents(), i as int),
            r < final(self).spec_len(),
            final(self).spec_parents()[r as int] == r,
            forall|v: int|
                0 <= v < old(self).spec_len() ==> spec_root(final(self).spec_parents(), v)
                    == spec_root(old(self).spec_parents(), v),
        decreases i,
    {
        let p = self.parent[i];
        if p == i {
            proof {
                lemma_root_idempotent(self.parent@, i as int);
            }
            return i;
        }
        let root = self.find(p);
        let ghost mid = self.parent@;
        self.parent[i] = root;
        proof {
            assert(spec_root(mid, i as int) == spec_root(mid, p as int));
            assert(root == spec_root(mid, i as int));
            assert forall|v: int| 0 <= v < mid.len() implies spec_root(self.parent@, v)
                == spec_root(mid, v) by {
                lemma_compress_preserves(mid, i as int, v);
            }
            lemma_root_idempotent(mid, i as int);
        }
        root
    }

    /// Unites the sets containing `i` and `j`; reports whether they were
    /// separate. Afterwards two vertices share a set exactly when they
    /// already did, or one stood with `i` and the other with `j`.
    pub fn union(&mut self, i: usize, j: usize) -> (r: bool)
        requires
            old(self).wf(),
            i < old(self).spec_len(),
            j < old(self).spec_len(),
        ensures
            final(self).wf(),
            final(self).spec_len() == old(self).spec_len(),
            r == !spec_same_set(old(self).spec_parents(), i as int, j as int),
            forall|a: int, b: int|
                0 <= a < old(self).spec_len() && 0 <= b < old(self).spec_len() ==> (spec_same_set(
                    final(self).spec_parents(),
                    a,
                    b,
                ) <==> (spec_same_set(old(self).spec_parents(), a, b) || (spec_same_set(
                    old(self).spec_parents(),
                    a,
                    i as int,
                ) && spec_same_set(old(self).spec_parents(), b, j as int)) || (spec_same_set(
                    old(self).spec_parents(),
                    a,
                    j as int,
                ) && spec_same_set(old(self).spec_parents(), b, i as int)))),
    {
        let ri = self.find(i);
        let rj = self.find(j);
        let ghost mid = self.parent@;
        proof {
            lemma_root_entry(mid, ri as int);
            lemma_root_entry(mid, rj as int);
        }
        if ri == rj {
            return false;
        }
        if rj < ri {
            self.parent[ri] = rj;
            proof {
                assert forall|v: int| 0 <= v < mid.len() implies spec_root(self.parent@, v) == (
                if spec_root(mid, v) == ri {
                    rj as int
                } else {
                    spec_root(mid, v)
                }) by {
                    lemma_union_maps(mid, ri as int, rj as int, v);
                }
            }
        } else {
            self.parent[rj] = ri;
            proof {
                assert forall|v: int| 0 <= v < mid.len() implies spec_root(self.parent@, v) == (
                if spec_root(mid, v) == rj {
                    ri as int
                } else {
                    spec_root(mid, v)
                }) by {
                    lemma_union_maps(mid, rj as int, ri as int, v);
                }
            }
        }
        true
    }
}

} // verus!
