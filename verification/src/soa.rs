//! Structure-of-arrays records for the pipeline: packs of 2-D points, of
//! directed edges and of dot indices, and the growable parallel-array
//! slices they are pushed into. A masked push appends only the active lanes
//! of a pack, to every field simultaneously, and reports the indices at
//! which the active lanes were placed.

use vstd::prelude::*;

use crate::pack::count_active;
use crate::pack::Mask;
use crate::pack::Pack;

verus! {

/// The active lanes of `vals` among the first `n`, kept in lane order.
pub open spec fn masked_lanes<T>(vals: Seq<T>, mask: Seq<bool>, n: int) -> Seq<T>
    decreases n,
{
    if n <= 0 {
        Seq::empty()
    } else {
        masked_lanes(vals, mask, n - 1) + if mask[n - 1] {
            seq![vals[n - 1]]
        } else {
            Seq::empty()
        }
    }
}

/// The active lanes among the first `n` are as many as the mask marks.
pub proof fn lemma_masked_lanes_len<T>(vals: Seq<T>, mask: Seq<bool>, n: int)
    ensures
        masked_lanes(vals, mask, n).len() == count_active(mask, n),
    decreases n,
{
    if n > 0 {
        lemma_masked_lanes_len(vals, mask, n - 1);
    }
}

/// A pack of `L` coplanar 2-D points, stored as one pack per coordinate.
#[derive(Debug, Clone)]
pub struct PointPack<T, const L: usize> {
    pub x: Pack<T, L>,
    pub y: Pack<T, L>,
}

impl<T, const L: usize> PointPack<T, L> {
    pub open spec fn wf(&self) -> bool {
        self.x.wf() && self.y.wf()
    }
}

impl<T, const L: usize> crate::pack::AsSimdBundleTuple for PointPack<T, L> {
    type Tuple = (Pack<T, L>, Pack<T, L>);

    fn into_tuple(self) -> Self::Tuple {
        (self.x, self.y)
    }

    fn from_tuple(t: Self::Tuple) -> Self {
        PointPack { x: t.0, y: t.1 }
    }
}

impl<T: Copy, const L: usize> PointPack<T, L> {
    /// Broadcasts one point into every lane.
    pub fn splat(x: T, y: T) -> (r: PointPack<T, L>)
        ensures
            r.wf(),
            forall|k: int| 0 <= k < L ==> r.x@[k] == x && r.y@[k] == y,
    {
        PointPack { x: Pack::splat(x), y: Pack::splat(y) }
    }
}

/// A pack of `L` directed edges.
#[derive(Debug, Clone)]
pub struct EdgePack<V, const L: usize> {
    pub from: Pack<V, L>,
    pub to: Pack<V, L>,
}

impl<V, const L: usize> EdgePack<V, L> {
    pub open spec fn wf(&self) -> bool {
        self.from.wf() && self.to.wf()
    }
}

/// A pack of `L` indices into a point buffer.
#[derive(Debug, Clone)]
pub struct DotPack<const L: usize> {
    pub index: Pack<usize, L>,
}

impl<const L: usize> DotPack<L> {
    pub open spec fn wf(&self) -> bool {
        self.index.wf()
    }
}

/// Parallel growable arrays holding one 2-D point per entry.
#[derive(Debug, Clone)]
pub struct PointSlice<T> {
    pub x: Vec<T>,
    pub y: Vec<T>,
}

impl<T: Copy> PointSlice<T> {
    /// All fields hold one value per entry.
    pub open spec fn wf(&self) -> bool {
        self.x@.len() == self.y@.len()
    }

    pub open spec fn spec_len(&self) -> nat {
        self.x@.len()
    }

    /// Creates an empty buffer.
    pub fn new() -> (r: PointSlice<T>)
        ensures
            r.wf(),
            r.spec_len() == 0,
    {
        PointSlice { x: Vec::new(), y: Vec::new() }
    }

    /// The number of points held; every field has this length.
    pub fn len(&self) -> (r: usize)
        requires
            self.wf(),
        ensures
            r == self.spec_len(),
    {
        self.x.len()
    }

    /// Appends the active lanes of a pack, in lane order, to every field
    /// simultaneously. Lane `k`, if active, is placed at the old length
    /// plus the number of active lanes before `k`, and the returned pack
    /// reports that position; disabled lanes are not written and their
    /// returned lane holds a placeholder that must not be read.
    pub fn push_masked<const L: usize>(&mut self, item: &PointPack<T, L>, mask: &Mask<L>) -> (r:
        Pack<usize, L>)
        requires
            old(self).wf(),
            item.wf(),
            mask.wf(),
        ensures
            final(self).wf(),
            final(self).x@ == old(self).x@ + masked_lanes(item.x@, mask@, L as int),
            final(self).y@ == old(self).y@ + masked_lanes(item.y@, mask@, L as int),
            final(self).spec_len() == old(self).spec_len() + count_active(mask@, L as int),
            r.wf(),
            forall|k: int|
                0 <= k < L && mask@[k] ==> r@[k] == old(self).spec_len() + count_active(mask@, k),
    {
        let mut indices: Vec<usize> = Vec::new();
        let base = self.x.len();
        let mut i: usize = 0;
        while i < L
            invariant
                old(self).wf(),
                item.wf(),
                mask.wf(),
                self.wf(),
                i <= L,
                base == old(self).spec_len(),
                self.x@ == old(self).x@ + masked_lanes(item.x@, mask@, i as int),
                self.y@ == old(self).y@ + masked_lanes(item.y@, mask@, i as int),
                indices@.len() == i,
                forall|k: int|
                    0 <= k < i && mask@[k] ==> indices@[k] == base + count_active(mask@, k),
            decreases L - i,
        {
            proof {
                lemma_masked_lanes_len(item.x@, mask@, i as int);
            }
            if mask.test(i) {
                indices.push(self.x.len());
                self.x.push(*item.x.get(i));
                self.y.push(*item.y.get(i));
            } else {
                indices.push(0);
            }
            i = i + 1;
        }
        proof {
            lemma_masked_lanes_len(item.x@, mask@, L as int);
        }
        Pack::from_vec(indices)
    }
}

/// Parallel growable arrays holding one directed edge per entry.
#[derive(Debug, Clone)]
pub struct EdgeSlice<V> {
    pub from: Vec<V>,
    pub to: Vec<V>,
}

impl<V: Copy> EdgeSlice<V> {
    pub open spec fn wf(&self) -> bool {
        self.from@.len() == self.to@.len()
    }

    pub open spec fn spec_len(&self) -> nat {
        self.from@.len()
    }

    /// Creates an empty edge list.
    pub fn new() -> (r: EdgeSlice<V>)
        ensures
            r.wf(),
            r.spec_len() == 0,
    {
        EdgeSlice { from: Vec::new(), to: Vec::new() }
    }

    /// The number of edges held.
    pub fn len(&self) -> (r: usize)
        requires
            self.wf(),
        ensures
            r == self.spec_len(),
    {
        self.from.len()
    }

    /// Appends the active lanes of an edge pack to both fields.
    pub fn push_masked<const L: usize>(&mut self, item: &EdgePack<V, L>, mask: &Mask<L>) -> (r:
        Pack<usize, L>)
        requires
            old(self).wf(),
            item.wf(),
            mask.wf(),
        ensures
            final(self).wf(),
            final(self).from@ == old(self).from@ + masked_lanes(item.from@, mask@, L as int),
            final(self).to@ == old(self).to@ + masked_lanes(item.to@, mask@, L as int),
            final(self).spec_len() == old(self).spec_len() + count_active(mask@, L as int),
            r.wf(),
            forall|k: int|
                0 <= k < L && mask@[k] ==> r@[k] == old(self).spec_len() + count_active(mask@, k),
    {
        let mut indices: Vec<usize> = Vec::new();
        let base = self.from.len();
        let mut i: usize = 0;
        while i < L
            invariant
                old(self).wf(),
                item.wf(),
                mask.wf(),
                self.wf(),
                i <= L,
                base == old(self).spec_len(),
                self.from@ == old(self).from@ + masked_lanes(item.from@, mask@, i as int),
                self.to@ == old(self).to@ + masked_lanes(item.to@, mask@, i as int),
                indices@.len() == i,
                forall|k: int|
                    0 <= k < i && mask@[k] ==> indices@[k] == base + count_active(mask@, k),
            decreases L - i,
        {
            proof {
                lemma_masked_lanes_len(item.from@, mask@, i as int);
            }
            if mask.test(i) {
                indices.push(self.from.len());
                self.from.push(*item.from.get(i));
                self.to.push(*item.to.get(i));
            } else {
                indices.push(0);
            }
            i = i + 1;
        }
        proof {
            lemma_masked_lanes_len(item.from@, mask@, L as int);
        }
        Pack::from_vec(indices)
    }

    /// Loads up to `L` consecutive edges starting at `offset`; lanes past
    /// the end are disabled and hold the first entry as a placeholder.
    pub fn get<const L: usize>(&self, offset: usize) -> (r: (EdgePack<V, L>, Mask<L>))
        requires
            self.wf(),
            self.spec_len() > 0,
        ensures
            r.0.wf(),
            r.1.wf(),
            forall|k: int| 0 <= k < L ==> r.1@[k] == (offset + k < self.spec_len()),
            forall|k: int|
                0 <= k < L && offset + k < self.spec_len() ==> r.0.from@[k] == self.from@[offset
                    + k] && r.0.to@[k] == self.to@[offset + k],
    {
        let mut from: Vec<V> = Vec::new();
        let mut to: Vec<V> = Vec::new();
        let mut flags: Vec<bool> = Vec::new();
        let mut i: usize = 0;
        while i < L
            invariant
                self.wf(),
                self.spec_len() > 0,
                i <= L,
                from@.len() == i,
                to@.len() == i,
                flags@.len() == i,
                forall|k: int| 0 <= k < i ==> flags@[k] == (offset + k < self.spec_len()),
                forall|k: int|
                    0 <= k < i && offset + k < self.spec_len() ==> from@[k] == self.from@[offset
                        + k] && to@[k] == self.to@[offset + k],
            decreases L - i,
        {
            if offset < self.from.len() && i < self.from.len() - offset {
                from.push(self.from[offset + i]);
                to.push(self.to[offset + i]);
                flags.push(true);
            } else {
                from.push(self.from[0]);
                to.push(self.to[0]);
                flags.push(false);
            }
            i = i + 1;
        }
        (EdgePack { from: Pack::from_vec(from), to: Pack::from_vec(to) }, Mask::from_vec(flags))
    }
}

/// A growable array of dot indices.
#[derive(Debug, Clone)]
pub struct DotSlice {
    pub index: Vec<usize>,
}

impl DotSlice {
    pub open spec fn spec_len(&self) -> nat {
        self.index@.len()
    }

    /// Creates an empty dot list.
    pub fn new() -> (r: DotSlice)
        ensures
            r.spec_len() == 0,
    {
        DotSlice { index: Vec::new() }
    }

    /// The number of dots held.
    pub fn len(&self) -> (r: usize)
        ensures
            r == self.spec_len(),
    {
        self.index.len()
    }

    /// Appends the active lanes of a dot pack.
    pub fn push_masked<const L: usize>(&mut self, item: &DotPack<L>, mask: &Mask<L>) -> (r: Pack<
        usize,
        L,
    >)
        requires
            item.wf(),
            mask.wf(),
        ensures
            final(self).index@ == old(self).index@ + masked_lanes(item.index@, mask@, L as int),
            final(self).spec_len() == old(self).spec_len() + count_active(mask@, L as int),
            r.wf(),
            forall|k: int|
                0 <= k < L && mask@[k] ==> r@[k] == old(self).spec_len() + count_active(mask@, k),
    {
        let mut indices: Vec<usize> = Vec::new();
        let base = self.index.len();
        let mut i: usize = 0;
        while i < L
            invariant
                item.wf(),
                mask.wf(),
                i <= L,
                base == old(self).spec_len(),
                self.index@ == old(self).index@ + masked_lanes(item.index@, mask@, i as int),
                indices@.len() == i,
                forall|k: int|
                    0 <= k < i && mask@[k] ==> indices@[k] == base + count_active(mask@, k),
            decreases L - i,
        {
            proof {
                lemma_masked_lanes_len(item.index@, mask@, i as int);
            }
            if mask.test(i) {
                indices.push(self.index.len());
                self.index.push(*item.index.get(i));
            } else {
                indices.push(0);
            }
            i = i + 1;
        }
        proof {
            lemma_masked_lanes_len(item.index@, mask@, L as int);
        }
        Pack::from_vec(indices)
    }
}

/// The generation buffer every screening run fills: points, line segments
/// and dot indices, all structure-of-arrays.
pub struct GenerationBufferVec<T> {
    pub points: PointSlice<T>,
    pub edges: EdgeSlice<usize>,
    pub dots: DotSlice,
}

impl<T: Copy> GenerationBufferVec<T> {
    pub open spec fn wf(&self) -> bool {
        self.points.wf() && self.edges.wf()
    }

    /// Creates an empty generation buffer.
    pub fn new() -> (r: GenerationBufferVec<T>)
        ensures
            r.wf(),
            r.points.spec_len() == 0,
            r.edges.spec_len() == 0,
            r.dots.spec_len() == 0,
    {
        GenerationBufferVec { points: PointSlice::new(), edges: EdgeSlice::new(), dots: DotSlice::new() }
    }

    /// Appends the active lanes of a point pack.
    pub fn push_points<const L: usize>(&mut self, point: &PointPack<T, L>, mask: &Mask<L>) -> (r:
        Pack<usize, L>)
        requires
            old(self).wf(),
            point.wf(),
            mask.wf(),
        ensures
            final(self).wf(),
            final(self).edges == old(self).edges,
            final(self).dots == old(self).dots,
            final(self).points.x@ == old(self).points.x@ + masked_lanes(point.x@, mask@, L as int),
            final(self).points.y@ == old(self).points.y@ + masked_lanes(point.y@, mask@, L as int),
            final(self).points.spec_len() == old(self).points.spec_len() + count_active(
                mask@,
                L as int,
            ),
            r.wf(),
            forall|k: int|
                0 <= k < L && mask@[k] ==> r@[k] == old(self).points.spec_len() + count_active(
                    mask@,
                    k,
                ),
    {
        self.points.push_masked(point, mask)
    }

    /// Appends the active lanes of an edge pack.
    pub fn push_lines<const L: usize>(&mut self, line: &EdgePack<usize, L>, mask: &Mask<L>) -> (r:
        Pack<usize, L>)
        requires
            old(self).wf(),
            line.wf(),
            mask.wf(),
        ensures
            final(self).wf(),
            final(self).points == old(self).points,
            final(self).dots == old(self).dots,
            final(self).edges.from@ == old(self).edges.from@ + masked_lanes(
                line.from@,
                mask@,
                L as int,
            ),
            final(self).edges.to@ == old(self).edges.to@ + masked_lanes(line.to@, mask@, L as int),
            r.wf(),
            forall|k: int|
                0 <= k < L && mask@[k] ==> r@[k] == old(self).edges.spec_len() + count_active(
                    mask@,
                    k,
                ),
    {
        self.edges.push_masked(line, mask)
    }

    /// Appends the active lanes of a dot pack.
    pub fn push_dots<const L: usize>(&mut self, dots: &DotPack<L>, mask: &Mask<L>) -> (r: Pack<
        usize,
        L,
    >)
        requires
            old(self).wf(),
            dots.wf(),
            mask.wf(),
        ensures
            final(self).wf(),
            final(self).points == old(self).points,
            final(self).edges == old(self).edges,
            final(self).dots.index@ == old(self).dots.index@ + masked_lanes(
                dots.index@,
                mask@,
                L as int,
            ),
            r.wf(),
            forall|k: int|
                0 <= k < L && mask@[k] ==> r@[k] == old(self).dots.spec_len() + count_active(
                    mask@,
                    k,
                ),
    {
        self.dots.push_masked(dots, mask)
    }
}

/// Buffer consistency: however many masked pushes a buffer has taken, its
/// coordinate arrays are exactly as long as each other and as the buffer.
pub proof fn lemma_buffer_consistency<T: Copy>(b: &GenerationBufferVec<T>)
    requires
        b.wf(),
    ensures
        b.points.x@.len() == b.points.y@.len(),
        b.points.x@.len() == b.points.spec_len(),
        b.edges.from@.len() == b.edges.to@.len(),
{
}

} // verus!
