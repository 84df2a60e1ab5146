//! The frequency-modulated screening engine: a raster walk over the integer
//! grid-cell range that bounds the image, packed `L` cells at a time with a
//! trailing mask, and a lane-wise probabilistic filter that appends the
//! surviving lanes to the generation buffer.
//!
//! The host supplies, per pack, the world-space positions of the cells and
//! the containment and sample data that depend on the grid-to-world
//! isometry; everything combinatorial — the walk order, the threshold
//! draws, the emission mask and the masked append — is computed and
//! specified here.

use vstd::prelude::*;

use crate::pack::count_active;
use crate::pack::Mask;
use crate::pack::Pack;
use crate::rng::spec_output;
use crate::rng::spec_step;
use crate::rng::Xoroshiro64Star;
use crate::soa::masked_lanes;
use crate::soa::DotPack;
use crate::soa::GenerationBufferVec;
use crate::soa::PointPack;

verus! {

/// The errors a screening run surfaces.
#[derive(Clone, Copy, Debug, PartialEq, Eq, Structural)]
pub enum ScreenError {
    /// The bytes handed in were not a recognized image.
    ImageDecodeFailed,
    /// The integer grid ranges bounding the image are empty.
    EmptyBounds,
    /// The run walked every cell and emitted no dot.
    NoPointsEmitted,
    /// A non-finite or non-positive scalar was supplied.
    InvalidParameters,
}

/// Yield-by-return control flow of an incremental generation run.
pub enum GenerationControlFlow<E> {
    /// Every cell has been walked.
    Finished,
    /// More cells remain; `delta` units of work were done in this call.
    Ongoing { delta: usize },
    /// The run cannot proceed.
    Error(E),
}

/// Whether dots are deposited where the image is bright or where it is dark.
#[derive(Clone, Copy, Debug, PartialEq, Eq, Structural)]
pub enum ScreeningMode {
    /// Emit a lane when its sample is at least the drawn threshold.
    BrightAreas,
    /// Emit a lane when the drawn threshold exceeds its sample, or the
    /// sample is very dark.
    DarkAreas,
}

/// Samples below this intensity are always emitted in dark-areas mode.
pub const DARK_FLOOR: u8 = 50;

/// The lane-wise emission rule: in bright-areas mode a sample survives when
/// it reaches the threshold; in dark-areas mode when the threshold exceeds
/// it or it lies under the dark floor.
pub open spec fn spec_emits(mode: ScreeningMode, sample: u8, threshold: u8) -> bool {
    match mode {
        ScreeningMode::BrightAreas => sample >= threshold,
        ScreeningMode::DarkAreas => threshold > sample || sample < DARK_FLOOR,
    }
}

/// The integer grid index ranges `[i_min, i_max] x [j_min, j_max]` that
/// bound the image, derived by the host from the grid-space bounding box.
pub struct CellBounds {
    pub i_min: i64,
    pub j_min: i64,
    pub width: usize,
    pub height: usize,
}

impl CellBounds {
    /// Dimensions stay representable when offset from the range origin.
    pub open spec fn wf(&self) -> bool {
        &&& self.width <= i64::MAX
        &&& self.height <= i64::MAX
        &&& self.i_min + self.width <= i64::MAX
        &&& self.j_min + self.height <= i64::MAX
        &&& self.width * self.height <= usize::MAX
    }

    /// How many grid cells the range holds.
    pub open spec fn spec_cell_count(&self) -> nat {
        (self.width * self.height) as nat
    }

    /// Builds the ranges, rejecting an empty one: the screening step then
    /// emits zero dots and the caller learns why.
    pub fn new(i_min: i64, i_max: i64, j_min: i64, j_max: i64) -> (r: Result<
        CellBounds,
        ScreenError,
    >)
        requires
            i_max < i64::MAX,
            j_max < i64::MAX,
            i_min <= i_max ==> i_max - i_min < i64::MAX && i_max - i_min < usize::MAX,
            j_min <= j_max ==> j_max - j_min < i64::MAX && j_max - j_min < usize::MAX,
            (i_min <= i_max && j_min <= j_max) ==> (i_max - i_min + 1) * (j_max - j_min + 1)
                <= usize::MAX,
        ensures
            match r {
                Ok(b) => {
                    &&& i_min <= i_max
                    &&& j_min <= j_max
                    &&& b.wf()
                    &&& b.i_min == i_min
                    &&& b.j_min == j_min
                    &&& b.width == i_max - i_min + 1
                    &&& b.height == j_max - j_min + 1
                },
                Err(e) => e == ScreenError::EmptyBounds && (i_max < i_min || j_max < j_min),
            },
    {
        if i_max < i_min || j_max < j_min {
            return Err(ScreenError::EmptyBounds);
        }
        let width = ((i_max - i_min) as usize) + 1;
        let height = ((j_max - j_min) as usize) + 1;
        Ok(CellBounds { i_min, j_min, width, height })
    }
}

/// Derives the cell range one screening run walks, from the image's pixel
/// dimensions and the integer grid ranges the host computed from the
/// grid-space bounding box of the image corners. A zero-area image or an
/// inverted range collapses the bounds: the run emits zero dots and the
/// caller learns why.
pub fn prepare_screening_bounds(
    im_width: usize,
    im_height: usize,
    i_min: i64,
    i_max: i64,
    j_min: i64,
    j_max: i64,
) -> (r: Result<CellBounds, ScreenError>)
    requires
        i_max < i64::MAX,
        j_max < i64::MAX,
        i_min <= i_max ==> i_max - i_min < i64::MAX && i_max - i_min < usize::MAX,
        j_min <= j_max ==> j_max - j_min < i64::MAX && j_max - j_min < usize::MAX,
        (i_min <= i_max && j_min <= j_max) ==> (i_max - i_min + 1) * (j_max - j_min + 1)
            <= usize::MAX,
    ensures
        match r {
            Ok(b) => {
                &&& im_width > 0
                &&& im_height > 0
                &&& i_min <= i_max
                &&& j_min <= j_max
                &&& b.wf()
                &&& b.width > 0
                &&& b.i_min == i_min
                &&& b.j_min == j_min
                &&& b.width == i_max - i_min + 1
                &&& b.height == j_max - j_min + 1
            },
            Err(e) => e == ScreenError::EmptyBounds && (im_width == 0 || im_height == 0 || i_max
                < i_min || j_max < j_min),
        },
{
    if im_width == 0 || im_height == 0 {
        return Err(ScreenError::EmptyBounds);
    }
    CellBounds::new(i_min, i_max, j_min, j_max)
}

/// The grid index pair of the `c`-th cell of a raster walk: the column
/// index varies fastest.
pub open spec fn spec_cell_at(b: CellBounds, c: int) -> (int, int) {
    (b.i_min + c % (b.width as int), b.j_min + c / (b.width as int))
}

/// A raster walk over a cell range, packed `L` consecutive cells at a time.
/// A partial tail pack carries a mask that disables the out-of-range lanes.
pub struct ScreeningIterator {
    bounds: CellBounds,
    next: usize,
}

impl ScreeningIterator {
    pub closed spec fn wf(&self) -> bool {
        &&& self.bounds.wf()
        &&& self.bounds.width > 0
        &&& self.next <= self.bounds.spec_cell_count()
    }

    pub closed spec fn spec_bounds(&self) -> CellBounds {
        self.bounds
    }

    /// The walk position: how many cells have been yielded.
    pub closed spec fn spec_next(&self) -> nat {
        self.next as nat
    }

    /// Starts a walk at the first cell of a non-empty range.
    pub fn new(bounds: CellBounds) -> (r: ScreeningIterator)
        requires
            bounds.wf(),
            bounds.width > 0,
        ensures
            r.wf(),
            r.spec_bounds() == bounds,
            r.spec_next() == 0,
    {
        ScreeningIterator { bounds, next: 0 }
    }

    /// How many cells remain.
    pub fn cells_left(&self) -> (r: usize)
        requires
            self.wf(),
        ensures
            r == self.spec_bounds().spec_cell_count() - self.spec_next(),
    {
        proof {
            assert(self.bounds.width * self.bounds.height <= usize::MAX);
        }
        self.bounds.width * self.bounds.height - self.next
    }

    /// Yields the next pack of up to `L` cells in raster order, or nothing
    /// when the walk is finished. Active lane `k` holds the grid indices of
    /// cell `next + k`; trailing lanes past the end of the range are
    /// disabled and hold the range origin as a placeholder.
    pub fn next_cells<const L: usize>(&mut self) -> (r: Option<(PointPack<i64, L>, Mask<L>)>)
        requires
            old(self).wf(),
            L > 0,
        ensures
            final(self).wf(),
            final(self).spec_bounds() == old(self).spec_bounds(),
            match r {
                None => {
                    &&& old(self).spec_next() == old(self).spec_bounds().spec_cell_count()
                    &&& *final(self) == *old(self)
                },
                Some((cells, mask)) => {
                    let total = old(self).spec_bounds().spec_cell_count();
                    let start = old(self).spec_next();
                    &&& start < total
                    &&& cells.wf()
                    &&& mask.wf()
                    &&& final(self).spec_next() == if start + L <= total {
                        start + L
                    } else {
                        total as int
                    }
                    &&& forall|k: int| 0 <= k < L ==> mask@[k] == (start + k < total)
                    &&& forall|k: int|
                        0 <= k < L && start + k < total ==> cells.x@[k] == spec_cell_at(
                            old(self).spec_bounds(),
                            start + k,
                        ).0 && cells.y@[k] == spec_cell_at(old(self).spec_bounds(), start + k).1
                },
            },
    {
        let total = self.bounds.width * self.bounds.height;
        if self.next >= total {
            return None;
        }
        let ghost start = self.next as int;
        let w = self.bounds.width;
        let h = self.bounds.height;
        let mut xs: Vec<i64> = Vec::new();
        let mut ys: Vec<i64> = Vec::new();
        let mut flags: Vec<bool> = Vec::new();
        let mut k: usize = 0;
        while k < L
            invariant
                self.wf(),
                w == self.bounds.width,
                h == self.bounds.height,
                w > 0,
                total == w * h,
                total <= usize::MAX,
                start == self.next,
                start < total,
                k <= L,
                xs@.len() == k,
                ys@.len() == k,
                flags@.len() == k,
                forall|q: int| 0 <= q < k ==> flags@[q] == (start + q < total),
                forall|q: int|
                    0 <= q < k && start + q < total ==> xs@[q] == spec_cell_at(
                        self.bounds,
                        start + q,
                    ).0 && ys@[q] == spec_cell_at(self.bounds, start + q).1,
            decreases L - k,
        {
            if k < total - self.next {
                let c = self.next + k;
                let col = c % w;
                let row = c / w;
                proof {
                    assert(col < w && c == row * w + col) by {
                        vstd::arithmetic::div_mod::lemma_fundamental_div_mod(c as int, w as int);
                        vstd::arithmetic::div_mod::lemma_mod_bound(c as int, w as int);
                        assert((w as int) * (c as int / w as int) == (c as int / w as int) * (
                        w as int)) by (nonlinear_arith);
                    };
                    assert(row < h) by (nonlinear_arith)
                        requires
                            c == row * w + col,
                            0 <= col,
                            c < w * h,
                            w > 0,
                            0 <= row,
                    ;
                    assert(self.bounds.i_min + col <= i64::MAX);
                    assert(self.bounds.j_min + row <= i64::MAX);
                }
                xs.push(self.bounds.i_min + (col as i64));
                ys.push(self.bounds.j_min + (row as i64));
                flags.push(true);
            } else {
                xs.push(self.bounds.i_min);
                ys.push(self.bounds.j_min);
                flags.push(false);
            }
            k = k + 1;
        }
        if L < total - self.next {
            self.next = self.next + L;
        } else {
            self.next = total;
        }
        Some(
            (
                PointPack { x: Pack::from_vec(xs), y: Pack::from_vec(ys) },
                Mask::from_vec(flags),
            ),
        )
    }
}

/// The thresholds `n` consecutive draws from a generator state yield.
pub open spec fn spec_threshold_seq(s: (u32, u32), n: int) -> Seq<u8>
    decreases n,
{
    if n <= 0 {
        Seq::empty()
    } else {
        seq![(spec_output(s) >> 24) as u8] + spec_threshold_seq(spec_step(s), n - 1)
    }
}

/// The generator state after `n` draws.
pub open spec fn spec_state_after(s: (u32, u32), n: int) -> (u32, u32)
    decreases n,
{
    if n <= 0 {
        s
    } else {
        spec_state_after(spec_step(s), n - 1)
    }
}

/// The emission mask of one pack: a pure function of the mode, the
/// generator state, the active mask and the samples. Lane `k` survives when
/// it is active and its sample passes the `k`-th threshold draw.
pub open spec fn spec_emit_mask(
    mode: ScreeningMode,
    s: (u32, u32),
    active: Seq<bool>,
    samples: Seq<u8>,
    n: int,
) -> Seq<bool> {
    Seq::new(n as nat, |k: int| active[k] && spec_emits(mode, samples[k], spec_threshold_seq(s, n)[k]))
}

/// Threshold draws extend one at a time: the `n`-th draw comes from the
/// state after `n` steps.
pub proof fn lemma_threshold_seq_snoc(s: (u32, u32), n: int)
    requires
        n >= 0,
    ensures
        spec_threshold_seq(s, n + 1) =~= spec_threshold_seq(s, n).push(
            (spec_output(spec_state_after(s, n)) >> 24) as u8,
        ),
        spec_state_after(s, n + 1) == spec_step(spec_state_after(s, n)),
        spec_threshold_seq(s, n).len() == n,
    decreases n,
{
    if n == 0 {
        assert(spec_threshold_seq(s, 1) == seq![(spec_output(s) >> 24) as u8]
            + spec_threshold_seq(spec_step(s), 0));
        assert(spec_state_after(s, 1) == spec_state_after(spec_step(s), 0));
    } else {
        lemma_threshold_seq_snoc(spec_step(s), n - 1);
        assert(spec_threshold_seq(s, n + 1) == seq![(spec_output(s) >> 24) as u8]
            + spec_threshold_seq(spec_step(s), n));
        assert(spec_threshold_seq(s, n) == seq![(spec_output(s) >> 24) as u8]
            + spec_threshold_seq(spec_step(s), n - 1));
        assert(spec_state_after(s, n + 1) == spec_state_after(spec_step(s), n));
        assert(spec_state_after(s, n) == spec_state_after(spec_step(s), n - 1));
    }
}

/// Masked lanes whose active values count the active lanes before them
/// collapse to a run of consecutive positions starting at `base`.
pub proof fn lemma_masked_positions(vals: Seq<usize>, mask: Seq<bool>, n: int, base: nat)
    requires
        0 <= n,
        vals.len() >= n,
        mask.len() >= n,
        forall|k: int| 0 <= k < n && mask[k] ==> vals[k] == base + count_active(mask, k),
    ensures
        masked_lanes(vals, mask, n) =~= Seq::new(
            count_active(mask, n) as nat,
            |q: int| (base + q) as usize,
        ),
    decreases n,
{
    crate::pack::lemma_count_active_bounds(mask, n);
    if n > 0 {
        lemma_masked_positions(vals, mask, n - 1, base);
        crate::soa::lemma_masked_lanes_len(vals, mask, n - 1);
        crate::pack::lemma_count_active_bounds(mask, n - 1);
    }
}

/// One step of a frequency-modulated screening run: walks the cell range in
/// raster order and filters each pack of cells against fresh threshold
/// draws. The host supplies, per pack, the world positions of the cells and
/// the containment-and-sample data; the emission decision, the draws and
/// the buffer appends happen here and are pinned to spec functions of the
/// inputs, so a run is reproducible from the seed.
pub struct FMScreeningProcess {
    walk: ScreeningIterator,
    rng: Xoroshiro64Star,
    mode: ScreeningMode,
}

impl FMScreeningProcess {
    pub closed spec fn wf(&self) -> bool {
        self.walk.wf()
    }

    pub closed spec fn spec_walk(&self) -> ScreeningIterator {
        self.walk
    }

    pub closed spec fn spec_rng(&self) -> (u32, u32) {
        self.rng@
    }

    pub closed spec fn spec_mode(&self) -> ScreeningMode {
        self.mode
    }

    /// Yields the next pack of cells of the raster walk, or nothing when
    /// every cell has been walked; the random state is untouched.
    pub fn next_cells<const L: usize>(&mut self) -> (r: Option<(PointPack<i64, L>, Mask<L>)>)
        requires
            old(self).wf(),
            L > 0,
        ensures
            final(self).wf(),
            final(self).spec_rng() == old(self).spec_rng(),
            final(self).spec_mode() == old(self).spec_mode(),
            final(self).spec_walk().spec_bounds() == old(self).spec_walk().spec_bounds(),
            match r {
                None => {
                    &&& old(self).spec_walk().spec_next() == old(
                        self,
                    ).spec_walk().spec_bounds().spec_cell_count()
                    &&& final(self).spec_walk() == old(self).spec_walk()
                },
                Some((cells, mask)) => {
                    let b = old(self).spec_walk().spec_bounds();
                    let total = b.spec_cell_count();
                    let start = old(self).spec_walk().spec_next();
                    &&& start < total
                    &&& cells.wf()
                    &&& mask.wf()
                    &&& final(self).spec_walk().spec_next() == if start + L <= total {
                        start + L
                    } else {
                        total as int
                    }
                    &&& forall|k: int| 0 <= k < L ==> mask@[k] == (start + k < total)
                    &&& forall|k: int|
                        0 <= k < L && start + k < total ==> cells.x@[k] == spec_cell_at(
                            b,
                            start + k,
                        ).0 && cells.y@[k] == spec_cell_at(b, start + k).1
                },
            },
    {
        self.walk.next_cells()
    }

    /// How many cells are left to walk: the minimum and maximum number of
    /// emission decisions still ahead.
    pub fn min_left(&self) -> (r: (usize, Option<usize>))
        requires
            self.wf(),
        ensures
            r.0 == self.spec_walk().spec_bounds().spec_cell_count() - self.spec_walk().spec_next(),
            r.1 == Some(r.0),
    {
        let left = self.walk.cells_left();
        (left, Some(left))
    }

    /// The yield-by-return report after a batch of `delta` units of work:
    /// finished when no cell remains, else ongoing.
    pub fn flow(&self, delta: usize) -> (r: GenerationControlFlow<ScreenError>)
        requires
            self.wf(),
        ensures
            self.spec_walk().spec_next() == self.spec_walk().spec_bounds().spec_cell_count() ==> (
            r matches GenerationControlFlow::Finished),
            self.spec_walk().spec_next() < self.spec_walk().spec_bounds().spec_cell_count() ==> (
            r matches GenerationControlFlow::Ongoing { delta: d } && d == delta),
    {
        if self.walk.cells_left() == 0 {
            GenerationControlFlow::Finished
        } else {
            GenerationControlFlow::Ongoing { delta }
        }
    }

    /// Filters one pack: draws one threshold per lane, keeps the active
    /// lanes whose sample passes, and appends exactly those lanes to the
    /// point buffer, recording their buffer positions as dots. The emitted
    /// mask, the new random state and the buffer growth are all functions
    /// of the arguments and the old random state.
    pub fn screen_pack<T: Copy, const L: usize>(
        &mut self,
        world: &PointPack<T, L>,
        active: &Mask<L>,
        samples: &Pack<u8, L>,
        buffer: &mut GenerationBufferVec<T>,
    ) -> (r: Mask<L>)
        requires
            old(self).wf(),
            world.wf(),
            active.wf(),
            samples.wf(),
            old(buffer).wf(),
        ensures
            final(self).wf(),
            final(self).spec_walk() == old(self).spec_walk(),
            final(self).spec_mode() == old(self).spec_mode(),
            final(self).spec_rng() == spec_state_after(old(self).spec_rng(), L as int),
            r.wf(),
            r@ =~= spec_emit_mask(
                old(self).spec_mode(),
                old(self).spec_rng(),
                active@,
                samples@,
                L as int,
            ),
            final(buffer).wf(),
            final(buffer).edges == old(buffer).edges,
            final(buffer).points.x@ == old(buffer).points.x@ + masked_lanes(
                world.x@,
                r@,
                L as int,
            ),
            final(buffer).points.y@ == old(buffer).points.y@ + masked_lanes(
                world.y@,
                r@,
                L as int,
            ),
            final(buffer).points.spec_len() == old(buffer).points.spec_len() + count_active(
                r@,
                L as int,
            ),
            final(buffer).dots.index@ =~= old(buffer).dots.index@ + Seq::new(
                count_active(r@, L as int) as nat,
                |q: int| (old(buffer).points.spec_len() + q) as usize,
            ),
    {
        let ghost s0 = self.rng@;
        let mut thresholds: Vec<u8> = Vec::new();
        let mut i: usize = 0;
        while i < L
            invariant
                i <= L,
                thresholds@.len() == i,
                thresholds@ == spec_threshold_seq(s0, i as int),
                self.rng@ == spec_state_after(s0, i as int),
                self.walk == old(self).walk,
                self.mode == old(self).mode,
                old(self).wf(),
            decreases L - i,
        {
            proof {
                lemma_threshold_seq_snoc(s0, i as int);
            }
            let t = self.rng.next_threshold();
            thresholds.push(t);
            i = i + 1;
        }
        proof {
            lemma_threshold_seq_snoc(s0, L as int);
        }

        let mut flags: Vec<bool> = Vec::new();
        let mut k: usize = 0;
        while k < L
            invariant
                k <= L,
                active.wf(),
                samples.wf(),
                thresholds@.len() == L,
                thresholds@ == spec_threshold_seq(s0, L as int),
                flags@.len() == k,
                forall|q: int|
                    0 <= q < k ==> flags@[q] == (active@[q] && spec_emits(
                        self.mode,
                        samples@[q],
                        thresholds@[q],
                    )),
                self.mode == old(self).mode,
            decreases L - k,
        {
            let sample = samples.at(k);
            let threshold = thresholds[k];
            let passes = match self.mode {
                ScreeningMode::BrightAreas => sample >= threshold,
                ScreeningMode::DarkAreas => threshold > sample || sample < DARK_FLOOR,
            };
            flags.push(active.test(k) && passes);
            k = k + 1;
        }
        let emitted: Mask<L> = Mask::from_vec(flags);

        let ghost base = buffer.points.spec_len();
        let indices = buffer.push_points(world, &emitted);
        let dots = DotPack { index: indices };
        buffer.push_dots(&dots, &emitted);
        proof {
            lemma_masked_positions(dots.index@, emitted@, L as int, base);
        }
        emitted
    }
}

/// A factory for screening runs.
pub struct FMScreeningGenerator;

impl FMScreeningGenerator {
    /// Creates the factory.
    pub fn new() -> (r: FMScreeningGenerator)
        ensures
            true,
    {
        FMScreeningGenerator
    }

    /// Starts a run over a non-empty cell range with a seed and a mode.
    pub fn start(bounds: CellBounds, seed: u64, mode: ScreeningMode) -> (r: FMScreeningProcess)
        requires
            bounds.wf(),
            bounds.width > 0,
        ensures
            r.wf(),
            r.spec_walk().spec_bounds() == bounds,
            r.spec_walk().spec_next() == 0,
            r.spec_rng() == crate::rng::spec_state_of_seed(seed),
            r.spec_mode() == mode,
    {
        FMScreeningProcess {
            walk: ScreeningIterator::new(bounds),
            rng: Xoroshiro64Star::seed_from_u64(seed),
            mode,
        }
    }
}

/// The outcome a finished run reports: the number of points emitted, or the
/// empty failure when not one cell survived the filter.
pub fn screen_outcome(points_emitted: usize) -> (r: Result<usize, ScreenError>)
    ensures
        points_emitted > 0 ==> r == Ok::<usize, ScreenError>(points_emitted),
        points_emitted == 0 ==> r == Err::<usize, ScreenError>(ScreenError::NoPointsEmitted),
{
    if points_emitted == 0 {
        Err(ScreenError::NoPointsEmitted)
    } else {
        Ok(points_emitted)
    }
}

} // verus!
