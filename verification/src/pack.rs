//! Lane-width packs and masks: the scalar-loop form of the wide-lane
//! abstractions the pipeline is built on. A `Pack<T, L>` is a bundle of `L`
//! scalar lanes; a `Mask<L>` is `L` boolean lanes that masked operations
//! consult so that disabled lanes are neither read nor written.

use vstd::prelude::*;

verus! {

/// A fixed-width bundle of `L` scalar lanes.
#[derive(Debug, Clone)]
pub struct Pack<T, const L: usize> {
    lanes: Vec<T>,
}

impl<T, const L: usize> View for Pack<T, L> {
    type V = Seq<T>;

    closed spec fn view(&self) -> Seq<T> {
        self.lanes@
    }
}

impl<T, const L: usize> Pack<T, L> {
    /// A pack is well formed when it holds exactly one value per lane.
    pub open spec fn wf(&self) -> bool {
        self@.len() == L
    }

    /// Wraps a vector of exactly `L` values as a pack.
    pub fn from_vec(lanes: Vec<T>) -> (r: Pack<T, L>)
        requires
            lanes@.len() == L,
        ensures
            r.wf(),
            r@ == lanes@,
    {
        Pack { lanes }
    }

    /// Returns the lanes as a vector.
    pub fn into_vec(self) -> (r: Vec<T>)
        ensures
            r@ == self@,
    {
        self.lanes
    }

    /// Reads one lane.
    pub fn get(&self, i: usize) -> (r: &T)
        requires
            self.wf(),
            i < L,
        ensures
            *r == self@[i as int],
    {
        &self.lanes[i]
    }
}

impl<T: Copy, const L: usize> Pack<T, L> {
    /// Broadcasts one scalar into every lane.
    pub fn splat(val: T) -> (r: Pack<T, L>)
        ensures
            r.wf(),
            forall|k: int| 0 <= k < L ==> r@[k] == val,
    {
        let mut lanes: Vec<T> = Vec::new();
        let mut i: usize = 0;
        while i < L
            invariant
                i <= L,
                lanes@.len() == i,
                forall|k: int| 0 <= k < i ==> lanes@[k] == val,
            decreases L - i,
        {
            lanes.push(val);
            i = i + 1;
        }
        Pack { lanes }
    }

    /// Reads one lane by value.
    pub fn at(&self, i: usize) -> (r: T)
        requires
            self.wf(),
            i < L,
        ensures
            r == self@[i as int],
    {
        self.lanes[i]
    }
}

/// The constant pack `[0, 1, ..., L - 1]`.
pub fn iota<const L: usize>() -> (r: Pack<usize, L>)
    ensures
        r.wf(),
        forall|k: int| 0 <= k < L ==> r@[k] == k,
{
    let mut lanes: Vec<usize> = Vec::new();
    let mut i: usize = 0;
    while i < L
        invariant
            i <= L,
            lanes@.len() == i,
            forall|k: int| 0 <= k < i ==> lanes@[k] == k,
        decreases L - i,
    {
        lanes.push(i);
        i = i + 1;
    }
    Pack { lanes }
}

/// `L` boolean lanes; `true` marks an active lane.
#[derive(Debug, Clone)]
pub struct Mask<const L: usize> {
    lanes: Vec<bool>,
}

impl<const L: usize> View for Mask<L> {
    type V = Seq<bool>;

    closed spec fn view(&self) -> Seq<bool> {
        self.lanes@
    }
}

/// How many of the first `n` lanes of a mask are active.
pub open spec fn count_active(m: Seq<bool>, n: int) -> int
    decreases n,
{
    if n <= 0 {
        0
    } else {
        count_active(m, n - 1) + if m[n - 1] { 1int } else { 0int }
    }
}

/// At most one lane is counted per position.
pub proof fn lemma_count_active_bounds(m: Seq<bool>, n: int)
    ensures
        0 <= count_active(m, n),
        n >= 0 ==> count_active(m, n) <= n,
    decreases n,
{
    if n > 0 {
        lemma_count_active_bounds(m, n - 1);
    }
}

impl<const L: usize> Mask<L> {
    /// A mask is well formed when it holds exactly one flag per lane.
    pub open spec fn wf(&self) -> bool {
        self@.len() == L
    }

    /// Wraps a vector of exactly `L` flags as a mask.
    pub fn from_vec(lanes: Vec<bool>) -> (r: Mask<L>)
        requires
            lanes@.len() == L,
        ensures
            r.wf(),
            r@ == lanes@,
    {
        Mask { lanes }
    }

    /// Broadcasts one flag into every lane.
    pub fn splat(val: bool) -> (r: Mask<L>)
        ensures
            r.wf(),
            forall|k: int| 0 <= k < L ==> r@[k] == val,
    {
        let mut lanes: Vec<bool> = Vec::new();
        let mut i: usize = 0;
        while i < L
            invariant
                i <= L,
                lanes@.len() == i,
                forall|k: int| 0 <= k < i ==> lanes@[k] == val,
            decreases L - i,
        {
            lanes.push(val);
            i = i + 1;
        }
        Mask { lanes }
    }

    /// Tests one lane.
    pub fn test(&self, i: usize) -> (r: bool)
        requires
            self.wf(),
            i < L,
        ensures
            r == self@[i as int],
    {
        self.lanes[i]
    }

    /// Whether any lane is active.
    pub fn any(&self) -> (r: bool)
        requires
            self.wf(),
        ensures
            r == exists|k: int| 0 <= k < L && self@[k],
    {
        let mut i: usize = 0;
        while i < L
            invariant
                self.wf(),
                i <= L,
                forall|k: int| 0 <= k < i ==> !self@[k],
            decreases L - i,
        {
            if self.lanes[i] {
                return true;
            }
            i = i + 1;
        }
        false
    }

    /// Whether every lane is active.
    pub fn all(&self) -> (r: bool)
        requires
            self.wf(),
        ensures
            r == forall|k: int| 0 <= k < L ==> self@[k],
    {
        let mut i: usize = 0;
        while i < L
            invariant
                self.wf(),
                i <= L,
                forall|k: int| 0 <= k < i ==> self@[k],
            decreases L - i,
        {
            if !self.lanes[i] {
                return false;
            }
            i = i + 1;
        }
        true
    }

    /// Lane-wise disjunction.
    pub fn or(&self, other: &Mask<L>) -> (r: Mask<L>)
        requires
            self.wf(),
            other.wf(),
        ensures
            r.wf(),
            forall|k: int| 0 <= k < L ==> r@[k] == (self@[k] || other@[k]),
    {
        let mut lanes: Vec<bool> = Vec::new();
        let mut i: usize = 0;
        while i < L
            invariant
                self.wf(),
                other.wf(),
                i <= L,
                lanes@.len() == i,
                forall|k: int| 0 <= k < i ==> lanes@[k] == (self@[k] || other@[k]),
            decreases L - i,
        {
            lanes.push(self.lanes[i] || other.lanes[i]);
            i = i + 1;
        }
        Mask { lanes }
    }

    /// Lane-wise negation.
    pub fn not(&self) -> (r: Mask<L>)
        requires
            self.wf(),
        ensures
            r.wf(),
            forall|k: int| 0 <= k < L ==> r@[k] == !self@[k],
    {
        let mut lanes: Vec<bool> = Vec::new();
        let mut i: usize = 0;
        while i < L
            invariant
                self.wf(),
                i <= L,
                lanes@.len() == i,
                forall|k: int| 0 <= k < i ==> lanes@[k] == !self@[k],
            decreases L - i,
        {
            lanes.push(!self.lanes[i]);
            i = i + 1;
        }
        Mask { lanes }
    }

    /// The lanes packed into the low bits of a word: bit `k` is set exactly
    /// when lane `k` is active, and every higher bit is clear.
    pub fn to_bitmask(&self) -> (r: u64)
        requires
            self.wf(),
            L <= 64,
        ensures
            forall|q: u64|
                q < L ==> #[trigger] ((r >> q) & 1) == (if self@[q as int] {
                    1u64
                } else {
                    0u64
                }),
            forall|q: u64| L <= q < 64 ==> #[trigger] ((r >> q) & 1) == 0,
    {
        let mut r: u64 = 0;
        let mut i: usize = 0;
        proof {
            assert(forall|q: u64| q < 64 ==> #[trigger] ((0u64 >> q) & 1) == 0) by (bit_vector);
        }
        while i < L
            invariant
                self.wf(),
                L <= 64,
                i <= L,
                forall|q: u64|
                    q < i ==> #[trigger] ((r >> q) & 1) == (if self@[q as int] {
                        1u64
                    } else {
                        0u64
                    }),
                forall|q: u64| i <= q < 64 ==> #[trigger] ((r >> q) & 1) == 0,
            decreases L - i,
        {
            if self.test(i) {
                let ghost old_r = r;
                let bit_index = i as u64;
                r = r | (1u64 << bit_index);
                proof {
                    assert forall|q: u64| q < 64 implies #[trigger] ((r >> q) & 1) == (if q
                        == bit_index {
                        1u64
                    } else {
                        (old_r >> q) & 1
                    }) by {
                        let x = old_r;
                        let b = bit_index;
                        assert(((x | (1u64 << b)) >> q) & 1 == (if q == b {
                            1u64
                        } else {
                            (x >> q) & 1
                        })) by (bit_vector)
                            requires
                                q < 64,
                                b < 64,
                        ;
                    }
                }
            }
            i = i + 1;
        }
        r
    }

    /// The index of the first active lane, or `L` when every lane is
    /// disabled: what counting the trailing zero bits of the bitmask gives.
    pub fn trailing_zeros(&self) -> (r: usize)
        requires
            self.wf(),
        ensures
            r <= L,
            r < L ==> self@[r as int] && forall|q: int| 0 <= q < r ==> !self@[q],
            r == L ==> forall|q: int| 0 <= q < L ==> !self@[q],
    {
        let mut i: usize = 0;
        while i < L
            invariant
                self.wf(),
                i <= L,
                forall|q: int| 0 <= q < i ==> !self@[q],
            decreases L - i,
        {
            if self.lanes[i] {
                return i;
            }
            i = i + 1;
        }
        L
    }

    /// Lane-wise conjunction.
    pub fn and(&self, other: &Mask<L>) -> (r: Mask<L>)
        requires
            self.wf(),
            other.wf(),
        ensures
            r.wf(),
            forall|k: int| 0 <= k < L ==> r@[k] == (self@[k] && other@[k]),
    {
        let mut lanes: Vec<bool> = Vec::new();
        let mut i: usize = 0;
        while i < L
            invariant
                self.wf(),
                other.wf(),
                i <= L,
                lanes@.len() == i,
                forall|k: int| 0 <= k < i ==> lanes@[k] == (self@[k] && other@[k]),
            decreases L - i,
        {
            lanes.push(self.lanes[i] && other.lanes[i]);
            i = i + 1;
        }
        Mask { lanes }
    }
}

/// A bundle of `L` lanes that one scalar can be broadcast into.
pub trait SimdBundle<const L: usize> where Self: Sized {
    type Scalar;

    /// Broadcasts one scalar into every lane.
    fn splat(val: Self::Scalar) -> Self;
}

impl<T: Copy, const L: usize> SimdBundle<L> for Pack<T, L> {
    type Scalar = T;

    fn splat(val: T) -> Self {
        Pack::splat(val)
    }
}

/// The same bundle shape over another lane width.
pub trait RebindSimd<const L2: usize> {
    type Output;
}

impl<T, const L: usize, const L2: usize> RebindSimd<L2> for Pack<T, L> {
    type Output = Pack<T, L2>;
}

/// A record of bundles seen as a tuple of its fields.
pub trait AsSimdBundleTuple where Self: Sized {
    type Tuple;

    /// Takes the record apart into its field bundles.
    fn into_tuple(self) -> Self::Tuple;

    /// Rebuilds the record from its field bundles.
    fn from_tuple(t: Self::Tuple) -> Self;
}

/// Walks a pack of `L` lanes in consecutive chunks of `L2`.
pub struct SimdChunkIter<T, const L: usize, const L2: usize> {
    data: Vec<T>,
    index: usize,
}

impl<T: Copy, const L: usize, const L2: usize> SimdChunkIter<T, L, L2> {
    pub closed spec fn spec_data(&self) -> Seq<T> {
        self.data@
    }

    pub closed spec fn spec_index(&self) -> nat {
        self.index as nat
    }

    pub closed spec fn wf(&self) -> bool {
        self.data@.len() == L && self.index <= L
    }

    /// Starts walking a pack from its first lane.
    pub fn new(simd: Pack<T, L>) -> (r: SimdChunkIter<T, L, L2>)
        requires
            simd.wf(),
        ensures
            r.wf(),
            r.spec_data() == simd@,
            r.spec_index() == 0,
    {
        SimdChunkIter { data: simd.into_vec(), index: 0 }
    }

    /// Yields the next `L2` lanes as a pack, or nothing when fewer than
    /// `L2` lanes are left.
    pub fn next(&mut self) -> (r: Option<Pack<T, L2>>)
        requires
            old(self).wf(),
        ensures
            final(self).wf(),
            final(self).spec_data() == old(self).spec_data(),
            match r {
                None => {
                    &&& old(self).spec_index() + L2 > L
                    &&& *final(self) == *old(self)
                },
                Some(chunk) => {
                    &&& old(self).spec_index() + L2 <= L
                    &&& chunk.wf()
                    &&& chunk@ == old(self).spec_data().subrange(
                        old(self).spec_index() as int,
                        old(self).spec_index() + L2,
                    )
                    &&& final(self).spec_index() == old(self).spec_index() + L2
                },
            },
    {
        if self.index > L || L2 > L - self.index {
            return None;
        }
        let mut lanes: Vec<T> = Vec::new();
        let mut k: usize = 0;
        while k < L2
            invariant
                self.wf(),
                self.index + L2 <= L,
                k <= L2,
                lanes@.len() == k,
                forall|q: int| 0 <= q < k ==> lanes@[q] == self.data@[self.index + q],
            decreases L2 - k,
        {
            lanes.push(self.data[self.index + k]);
            k = k + 1;
        }
        self.index = self.index + L2;
        proof {
            assert(lanes@ =~= old(self).spec_data().subrange(
                old(self).spec_index() as int,
                old(self).spec_index() + L2,
            ));
        }
        Some(Pack::from_vec(lanes))
    }
}

/// A pack split into chunks of a narrower lane width.
pub trait SplitSimd<const L: usize, const L2: usize> where Self: Sized {
    type Item;

    type Iter;

    /// Hands the lanes over to a chunk walk.
    fn split(self) -> Self::Iter;
}

impl<T: Copy, const L: usize, const L2: usize> SplitSimd<L, L2> for Pack<T, L> {
    type Item = Pack<T, L2>;

    type Iter = SimdChunkIter<T, L, L2>;

    fn split(self) -> Self::Iter {
        SimdChunkIter { data: self.into_vec(), index: 0 }
    }
}

/// How many packs of `l` lanes cover `total` elements.
pub open spec fn spec_chunk_count(total: int, l: int) -> int {
    (total + l - 1) / l
}

/// Chunked storage: `total_len` elements held in packs of `L` lanes.
#[derive(Debug, Clone)]
pub struct Aosoa<Inner, const L: usize> {
    pub inner: Vec<Inner>,
    pub total_len: usize,
}

impl<Inner, const L: usize> Aosoa<Inner, L> {
    /// The chunks cover the elements and no lane index overflows.
    pub open spec fn wf(&self) -> bool {
        &&& L > 0
        &&& self.total_len <= self.inner@.len() * L
        &&& self.inner@.len() * L <= usize::MAX
    }

    /// The number of elements, not the number of packs.
    pub fn total_len(&self) -> (r: usize)
        ensures
            r == self.total_len,
    {
        self.total_len
    }
}

impl<Inner: Copy, const L: usize> Aosoa<Inner, L> {
    /// The packs that cover the elements, each with the mask of its lanes
    /// that hold an element: every pack but the last is fully active, and
    /// the last disables the lanes past `total_len`.
    pub fn iter_simd(&self) -> (r: Vec<(Inner, Mask<L>)>)
        requires
            self.wf(),
        ensures
            r@.len() == spec_chunk_count(self.total_len as int, L as int),
            forall|c: int| 0 <= c < r@.len() ==> r@[c].0 == self.inner@[c],
            forall|c: int|
                0 <= c < r@.len() ==> (#[trigger] r@[c].1).wf() && forall|k: int|
                    0 <= k < L ==> r@[c].1@[k] == (c * L + k < self.total_len),
    {
        let total = self.total_len;
        let steps = if total == 0 {
            0
        } else {
            (total - 1) / L + 1
        };
        proof {
            if total == 0 {
                vstd::arithmetic::div_mod::lemma_fundamental_div_mod_converse_div(
                    L - 1,
                    L as int,
                    0,
                    L - 1,
                );
            } else {
                lemma_chunk_count(total as int, L as int);
                assert(steps <= self.inner@.len()) by (nonlinear_arith)
                    requires
                        L > 0,
                        steps * L <= total + L - 1,
                        total <= self.inner@.len() * L,
                ;
            }
        }
        let mut out: Vec<(Inner, Mask<L>)> = Vec::new();
        let mut c: usize = 0;
        let mut base: usize = 0;
        while c < steps
            invariant
                self.wf(),
                total == self.total_len,
                steps == spec_chunk_count(total as int, L as int),
                steps <= self.inner@.len(),
                c <= steps,
                base == c * L,
                c < steps ==> base < total,
                out@.len() == c,
                forall|q: int| 0 <= q < c ==> out@[q].0 == self.inner@[q],
                forall|q: int|
                    0 <= q < c ==> (#[trigger] out@[q].1).wf() && forall|k: int|
                        0 <= k < L ==> out@[q].1@[k] == (q * L + k < total),
            decreases steps - c,
        {
            proof {
                assert(c * L + L <= self.inner@.len() * L) by (nonlinear_arith)
                    requires
                        c < steps,
                        steps <= self.inner@.len(),
                        L > 0,
                ;
            }
            let mut flags: Vec<bool> = Vec::new();
            let mut k: usize = 0;
            while k < L
                invariant
                    k <= L,
                    base + L <= usize::MAX,
                    flags@.len() == k,
                    forall|q: int| 0 <= q < k ==> flags@[q] == (base + q < total),
                decreases L - k,
            {
                flags.push(base + k < total);
                k = k + 1;
            }
            out.push((self.inner[c], Mask::from_vec(flags)));
            base = base + L;
            c = c + 1;
            proof {
                assert(c * L == (c - 1) * L + L) by (nonlinear_arith);
                if c < steps {
                    lemma_chunk_progress(total as int, L as int, c as int);
                }
            }
        }
        out
    }
}

/// The chunk count is the least whole cover of the elements.
proof fn lemma_chunk_count(total: int, l: int)
    requires
        total >= 1,
        l > 0,
    ensures
        spec_chunk_count(total, l) == (total - 1) / l + 1,
        spec_chunk_count(total, l) * l >= total,
        spec_chunk_count(total, l) * l <= total + l - 1,
{
    vstd::arithmetic::div_mod::lemma_fundamental_div_mod(total - 1, l);
    vstd::arithmetic::div_mod::lemma_mod_bound(total - 1, l);
    let q = (total - 1) / l;
    let r = (total - 1) % l;
    assert(total + l - 1 == (q + 1) * l + r) by (nonlinear_arith)
        requires
            total - 1 == l * q + r,
    ;
    vstd::arithmetic::div_mod::lemma_fundamental_div_mod_converse_div(total + l - 1, l, q + 1, r);
    assert((q + 1) * l >= total && (q + 1) * l <= total + l - 1) by (nonlinear_arith)
        requires
            total - 1 == l * q + r,
            0 <= r < l,
    ;
}

/// Every chunk before the last starts inside the elements.
proof fn lemma_chunk_progress(total: int, l: int, c: int)
    requires
        total >= 0,
        l > 0,
        0 <= c < spec_chunk_count(total, l),
    ensures
        c * l < total,
{
    if total == 0 {
        vstd::arithmetic::div_mod::lemma_fundamental_div_mod_converse_div(l - 1, l, 0, l - 1);
    } else {
        lemma_chunk_count(total, l);
        assert(c * l < total) by (nonlinear_arith)
            requires
                l > 0,
                c < spec_chunk_count(total, l),
                spec_chunk_count(total, l) * l <= total + l - 1,
        ;
    }
}

} // verus!
