//! The discrete Fourier coefficient engine, the epicycle chain
//! evaluator, and the per-frame animation driver.

use vstd::prelude::*;
use vstd::arithmetic::div_mod::{
    lemma_fundamental_div_mod, lemma_fundamental_div_mod_converse_div,
    lemma_fundamental_div_mod_converse_mod,
};
use crate::UNIT;
use crate::buffer::{Buffer, MAX_CAPACITY};
use crate::fixed::{abs_i, div_tz, lemma_tz_div_bound, lemma_tz_div_by_one, tz_div};
use crate::point::{lemma_rotate_zero, rotate, rotate_spec, Point, COORD_LIMIT};

verus! {

/// Longest path the coefficient engine accepts: a path of `n` samples
/// needs frequencies of magnitude up to `n / 2`, and the rotation rate
/// must stay in the signed 16-bit range.
pub const MAX_PATH_LEN: usize = 65535;

/// Largest frequency magnitude ever produced, `MAX_PATH_LEN / 2`.
pub const MAX_FREQ: i32 = 32767;

/// Largest sample coordinate magnitude the engine accepts — sixteen
/// units, far beyond what a normalised path can hold.
pub const SAMPLE_LIMIT: i64 = 0x10_0000;

/// Largest coefficient coordinate magnitude the engine produces.
pub const COEF_LIMIT: i64 = 0x20_0000;

/// All coordinates of `ps` bounded by `b` in magnitude.
pub open spec fn bounded(ps: Seq<Point>, b: int) -> bool {
    forall|i: int|
        0 <= i < ps.len() ==> abs_i((#[trigger] ps[i]).x as int) <= b && abs_i(ps[i].y as int) <= b
}

/// The angle by which sample `i` is turned while the frequency-`k`
/// coefficient is accumulated: `-k * i / n` of a full turn.
pub open spec fn dft_angle(k: int, i: int, n: int) -> int
    recommends
        n > 0,
{
    tz_div(-(k * i * (UNIT as int)), n)
}

/// Sum of the first `i` rotated samples of the frequency-`k`
/// accumulation over the path `ps`.
pub open spec fn coef_sum(ps: Seq<Point>, k: int, i: int) -> (int, int)
    decreases i,
{
    if i <= 0 {
        (0, 0)
    } else {
        let prev = coef_sum(ps, k, i - 1);
        let term = rotate_spec(ps[i - 1]@, dft_angle(k, i - 1, ps.len() as int));
        (prev.0 + term.0, prev.1 + term.1)
    }
}

/// The fixed-point Fourier coefficient `c_k` of the closed path `ps`:
/// the sum of all samples, each turned by `-k * i / n` of a full turn,
/// scaled by `1 / n`.
pub open spec fn coef_spec(ps: Seq<Point>, k: int) -> (int, int)
    recommends
        ps.len() > 0,
{
    let s = coef_sum(ps, k, ps.len() as int);
    (tz_div(s.0, ps.len() as int), tz_div(s.1, ps.len() as int))
}

/// One Fourier coefficient of the closed path: the amplitude for the
/// signed frequency `index`.
pub fn get_fourier_coef(points: &Vec<Point>, index: i32) -> (c: Point)
    requires
        1 <= points@.len() <= MAX_PATH_LEN,
        -MAX_FREQ <= index <= MAX_FREQ,
        bounded(points@, SAMPLE_LIMIT as int),
    ensures
        c@ == coef_spec(points@, index as int),
        abs_i(c.x as int) <= COEF_LIMIT,
        abs_i(c.y as int) <= COEF_LIMIT,
{
    let n = points.len();
    let mut sx: i64 = 0;
    let mut sy: i64 = 0;
    let mut i: usize = 0;
    while i < n
        invariant
            n == points@.len(),
            1 <= n <= MAX_PATH_LEN,
            -MAX_FREQ <= index <= MAX_FREQ,
            bounded(points@, SAMPLE_LIMIT as int),
            0 <= i <= n,
            sx == coef_sum(points@, index as int, i as int).0,
            sy == coef_sum(points@, index as int, i as int).1,
            abs_i(sx as int) <= i * (2 * SAMPLE_LIMIT),
            abs_i(sy as int) <= i * (2 * SAMPLE_LIMIT),
        decreases n - i,
    {
        proof {
            assert(-0x8000_0000_0000 <= (index as int) * (i as int) * (UNIT as int)
                <= 0x8000_0000_0000) by (nonlinear_arith)
                requires
                    -MAX_FREQ <= index <= MAX_FREQ,
                    0 <= i <= MAX_PATH_LEN,
            ;
            assert((i as int) * (2 * SAMPLE_LIMIT) <= (MAX_PATH_LEN as int) * (2 * SAMPLE_LIMIT))
                by (nonlinear_arith)
                requires
                    0 <= i <= MAX_PATH_LEN,
            ;
        }
        let num = (index as i64) * (i as i64) * UNIT;
        let angle = div_tz(-num, n as i64);
        let p = points[i];
        let term = rotate(p, angle);
        proof {
            assert(angle as int == dft_angle(index as int, i as int, n as int));
            assert(term@ == rotate_spec(points@[i as int]@, dft_angle(index as int, i as int, n as int)));
            assert((i as int) * (2 * SAMPLE_LIMIT) + 2 * SAMPLE_LIMIT == (i as int + 1) * (2
                * SAMPLE_LIMIT)) by (nonlinear_arith);
        }
        sx = sx + term.x;
        sy = sy + term.y;
        i += 1;
    }
    proof {
        assert((n as int) * (2 * SAMPLE_LIMIT) == (COEF_LIMIT as int) * (n as int))
            by (nonlinear_arith);
        lemma_tz_div_bound(sx as int, n as int, COEF_LIMIT as int);
        lemma_tz_div_bound(sy as int, n as int, COEF_LIMIT as int);
    }
    let cx = div_tz(sx, n as i64);
    let cy = div_tz(sy, n as i64);
    Point { x: cx, y: cy }
}

/// Largest x coordinate over the first `i` samples: one edge of the
/// axis-aligned bounding box of the points themselves.
pub open spec fn hi_x(ps: Seq<Point>, i: int) -> int
    recommends
        1 <= i <= ps.len(),
    decreases i,
{
    if i <= 1 {
        ps[0].x as int
    } else if ps[i - 1].x > hi_x(ps, i - 1) {
        ps[i - 1].x as int
    } else {
        hi_x(ps, i - 1)
    }
}

/// Smallest x coordinate over the first `i` samples.
pub open spec fn lo_x(ps: Seq<Point>, i: int) -> int
    recommends
        1 <= i <= ps.len(),
    decreases i,
{
    if i <= 1 {
        ps[0].x as int
    } else if ps[i - 1].x < lo_x(ps, i - 1) {
        ps[i - 1].x as int
    } else {
        lo_x(ps, i - 1)
    }
}

/// Largest y coordinate over the first `i` samples.
pub open spec fn hi_y(ps: Seq<Point>, i: int) -> int
    recommends
        1 <= i <= ps.len(),
    decreases i,
{
    if i <= 1 {
        ps[0].y as int
    } else if ps[i - 1].y > hi_y(ps, i - 1) {
        ps[i - 1].y as int
    } else {
        hi_y(ps, i - 1)
    }
}

/// Smallest y coordinate over the first `i` samples.
pub open spec fn lo_y(ps: Seq<Point>, i: int) -> int
    recommends
        1 <= i <= ps.len(),
    decreases i,
{
    if i <= 1 {
        ps[0].y as int
    } else if ps[i - 1].y < lo_y(ps, i - 1) {
        ps[i - 1].y as int
    } else {
        lo_y(ps, i - 1)
    }
}

/// The normalisation span: the larger extent of the axis-aligned
/// bounding box of the points.
pub open spec fn span_spec(ps: Seq<Point>) -> int
    recommends
        ps.len() >= 1,
{
    let w = hi_x(ps, ps.len() as int) - lo_x(ps, ps.len() as int);
    let h = hi_y(ps, ps.len() as int) - lo_y(ps, ps.len() as int);
    if w >= h {
        w
    } else {
        h
    }
}

/// Every sample lies inside the bounding box of the first `i` samples.
proof fn lemma_box_bounds(ps: Seq<Point>, i: int)
    requires
        1 <= i <= ps.len(),
    ensures
        lo_x(ps, i) <= hi_x(ps, i),
        lo_y(ps, i) <= hi_y(ps, i),
        forall|j: int|
            0 <= j < i ==> lo_x(ps, i) <= (#[trigger] ps[j]).x <= hi_x(ps, i) && lo_y(ps, i)
                <= ps[j].y <= hi_y(ps, i),
    decreases i,
{
    if i > 1 {
        lemma_box_bounds(ps, i - 1);
    }
}

/// `after` is `before` rescaled by the normalisation policy: every
/// coordinate multiplied by `UNIT / span`, or left alone when the box
/// has no extent at all.
pub open spec fn normalised(before: Seq<Point>, after: Seq<Point>) -> bool {
    &&& after.len() == before.len()
    &&& (span_spec(before) > 0 ==> forall|i: int|
        0 <= i < before.len() ==> (#[trigger] after[i]).x as int == tz_div(
            before[i].x * (UNIT as int),
            span_spec(before),
        ) && after[i].y as int == tz_div(before[i].y * (UNIT as int), span_spec(before)))
    &&& (span_spec(before) == 0 ==> after == before)
}

/// Rescales the path by its own bounding box, in place.
///
/// The box is the axis-aligned bounding box of the points themselves;
/// every coordinate is scaled by `UNIT / span`, where `span` is the
/// larger of the box's two extents, with no re-centering (the policy
/// the decomposition assumes throughout).  A zero-extent axis does not
/// constrain the scale, and a path whose box has no extent at all
/// (every sample identical — the degenerate case) is left unchanged
/// rather than divided by zero.  Because the path is not re-centered,
/// a path far from the origin relative to its own extent rescales to
/// large coordinates; callers that need a magnitude bound check the
/// result (`FourierSet::new` rejects such paths).
pub fn normalise(points: &mut Vec<Point>)
    requires
        old(points)@.len() >= 1,
        bounded(old(points)@, COORD_LIMIT as int),
    ensures
        normalised(old(points)@, final(points)@),
{
    let ghost orig = points@;
    let n = points.len();
    let first = points[0];
    let mut hix: i64 = first.x;
    let mut lox: i64 = first.x;
    let mut hiy: i64 = first.y;
    let mut loy: i64 = first.y;
    let mut i: usize = 1;
    while i < n
        invariant
            n == points@.len(),
            points@ == orig,
            bounded(orig, COORD_LIMIT as int),
            1 <= i <= n,
            hix == hi_x(orig, i as int),
            lox == lo_x(orig, i as int),
            hiy == hi_y(orig, i as int),
            loy == lo_y(orig, i as int),
            -COORD_LIMIT <= lox <= hix <= COORD_LIMIT,
            -COORD_LIMIT <= loy <= hiy <= COORD_LIMIT,
        decreases n - i,
    {
        let p = points[i];
        if p.x > hix {
            hix = p.x;
        }
        if p.x < lox {
            lox = p.x;
        }
        if p.y > hiy {
            hiy = p.y;
        }
        if p.y < loy {
            loy = p.y;
        }
        i += 1;
    }
    let w = hix - lox;
    let h = hiy - loy;
    let span = if w >= h {
        w
    } else {
        h
    };
    proof {
        assert(span == span_spec(orig));
        lemma_box_bounds(orig, n as int);
    }
    if span == 0 {
        return ;
    }
    let mut i: usize = 0;
    while i < n
        invariant
            n == points@.len(),
            points@.len() == orig.len(),
            bounded(orig, COORD_LIMIT as int),
            0 <= i <= n,
            span == span_spec(orig),
            span > 0,
            forall|j: int|
                0 <= j < i ==> (#[trigger] points@[j]).x as int == tz_div(
                    orig[j].x * (UNIT as int),
                    span as int,
                ) && points@[j].y as int == tz_div(orig[j].y * (UNIT as int), span as int),
            forall|j: int| i <= j < n ==> #[trigger] points@[j] == orig[j],
        decreases n - i,
    {
        let p = points[i];
        let q = Point { x: div_tz(p.x * UNIT, span), y: div_tz(p.y * UNIT, span) };
        points.set(i, q);
        i += 1;
    }
}

/// The frequency enumerated at position `j`: 0, 1, -1, 2, -2, ...
pub open spec fn freq_of(j: int) -> int
    recommends
        j >= 0,
{
    if j % 2 == 1 {
        (j + 1) / 2
    } else {
        -(j / 2)
    }
}

/// Executable mirror of `freq_of`.
fn freq_at(j: usize) -> (f: i32)
    requires
        j < MAX_PATH_LEN,
    ensures
        f as int == freq_of(j as int),
        -MAX_FREQ <= f <= MAX_FREQ,
{
    if j % 2 == 1 {
        ((j + 1) / 2) as i32
    } else {
        -((j / 2) as i32)
    }
}

/// Decomposes a normalised closed path of `n` samples into its ordered
/// coefficient sequence: exactly `n` coefficients, the frequencies
/// enumerated 0, 1, -1, 2, -2, ... — the draw order of the bar chain.
/// (The natural enumeration up to `n/2` would yield `n + 1` terms for
/// even `n`; its last term, the negative extreme, is the one dropped.)
pub fn fourier_transform(points: &Vec<Point>) -> (bars: Vec<(i32, Point)>)
    requires
        1 <= points@.len() <= MAX_PATH_LEN,
        bounded(points@, SAMPLE_LIMIT as int),
    ensures
        bars@.len() == points@.len(),
        forall|j: int|
            0 <= j < bars@.len() ==> (#[trigger] bars@[j]).0 as int == freq_of(j) && bars@[j].1@
                == coef_spec(points@, freq_of(j)) && -MAX_FREQ <= bars@[j].0 <= MAX_FREQ && abs_i(
                bars@[j].1.x as int,
            ) <= COEF_LIMIT && abs_i(bars@[j].1.y as int) <= COEF_LIMIT,
{
    let n = points.len();
    let mut bars: Vec<(i32, Point)> = Vec::new();
    let mut j: usize = 0;
    while j < n
        invariant
            n == points@.len(),
            1 <= n <= MAX_PATH_LEN,
            bounded(points@, SAMPLE_LIMIT as int),
            0 <= j <= n,
            bars@.len() == j,
            forall|m: int|
                0 <= m < j ==> (#[trigger] bars@[m]).0 as int == freq_of(m) && bars@[m].1@
                    == coef_spec(points@, freq_of(m)) && -MAX_FREQ <= bars@[m].0 <= MAX_FREQ
                    && abs_i(bars@[m].1.x as int) <= COEF_LIMIT && abs_i(bars@[m].1.y as int)
                    <= COEF_LIMIT,
        decreases n - j,
    {
        let f = freq_at(j);
        let c = get_fourier_coef(points, f);
        bars.push((f, c));
        j += 1;
    }
    bars
}

/// The cumulative epicycle chain: entry `j` is the sum of the
/// coefficient vectors `0..=j`, each turned by its frequency times the
/// time fraction `t`.  Entry `-1` (the chain's origin) is zero.
pub open spec fn chain_at(bars: Seq<(i32, Point)>, t: int, j: int) -> (int, int)
    decreases j + 1,
{
    if j < 0 {
        (0, 0)
    } else {
        let prev = chain_at(bars, t, j - 1);
        let term = rotate_spec(bars[j].1@, (bars[j].0 as int) * t);
        (prev.0 + term.0, prev.1 + term.1)
    }
}

/// The coefficient sequence for a path of `n` samples spans the
/// symmetric frequency range around zero: position 0 carries frequency
/// zero, every magnitude `k` with `2k < n` appears with both signs (the
/// positive one first), every enumerated frequency satisfies
/// `|2 * freq| <= n`, and for even `n` the single extreme `n / 2`
/// appears only positively — its negative twin is the term dropped to
/// keep the count at exactly `n`.
pub proof fn lemma_frequency_symmetry(n: int)
    requires
        1 <= n,
    ensures
        freq_of(0) == 0,
        forall|j: int| 0 <= j < n ==> -n <= 2 * #[trigger] freq_of(j) <= n,
        forall|k: int|
            1 <= k && 2 * k < n ==> #[trigger] freq_of(2 * k - 1) == k && freq_of(2 * k) == -k,
        n % 2 == 0 ==> freq_of(n - 1) == n / 2,
{
    lemma_fundamental_div_mod_converse_mod(0, 2, 0, 0);
    lemma_fundamental_div_mod_converse_div(0, 2, 0, 0);
    assert(freq_of(0) == 0);
    assert forall|j: int| 0 <= j < n implies -n <= 2 * #[trigger] freq_of(j) <= n by {
        lemma_fundamental_div_mod(j, 2);
        let q = j / 2;
        if j % 2 == 1 {
            lemma_fundamental_div_mod_converse_div(j + 1, 2, q + 1, 0);
            assert(freq_of(j) == q + 1);
        } else {
            assert(freq_of(j) == -q);
        }
        vstd::arithmetic::div_mod::lemma_div_pos_is_pos(j, 2);
    }
    assert forall|k: int| 1 <= k && 2 * k < n implies #[trigger] freq_of(2 * k - 1) == k
        && freq_of(2 * k) == -k by {
        lemma_fundamental_div_mod_converse_mod(2 * k - 1, 2, k - 1, 1);
        lemma_fundamental_div_mod_converse_div(2 * k, 2, k, 0);
        lemma_fundamental_div_mod_converse_mod(2 * k, 2, k, 0);
    }
    if n % 2 == 0 {
        lemma_fundamental_div_mod(n, 2);
        let m = n / 2;
        lemma_fundamental_div_mod_converse_mod(n - 1, 2, m - 1, 1);
        lemma_fundamental_div_mod_converse_div(n, 2, m, 0);
        assert(freq_of(n - 1) == m);
    }
}

/// Cumulative sum of the coefficient amplitudes `0..=j`.
pub open spec fn amp_prefix_sum(bars: Seq<(i32, Point)>, j: int) -> (int, int)
    decreases j + 1,
{
    if j < 0 {
        (0, 0)
    } else {
        let prev = amp_prefix_sum(bars, j - 1);
        (prev.0 + bars[j].1@.0, prev.1 + bars[j].1@.1)
    }
}

/// At time fraction zero every rotation is the identity, so the chain
/// is the plain cumulative sum of the coefficient amplitudes: the
/// exact fixed-point kernel of the reconstruction identity, of which
/// `lemma_single_sample_roundtrip` below is the one-sample instance.
pub proof fn lemma_chain_at_zero(bars: Seq<(i32, Point)>, j: int)
    requires
        j < bars.len(),
    ensures
        chain_at(bars, 0, j) == amp_prefix_sum(bars, j),
    decreases j + 1,
{
    if j >= 0 {
        lemma_chain_at_zero(bars, j - 1);
        assert((bars[j].0 as int) * 0 == 0) by (nonlinear_arith);
        lemma_rotate_zero(bars[j].1@);
    }
}

/// A path of a single sample is reconstructed exactly: its only
/// coefficient carries frequency zero and the full sample amplitude, so
/// the chain's terminal point equals the sample at every time fraction
/// — for such a path the decompose/evaluate round trip loses nothing.
pub proof fn lemma_single_sample_roundtrip(ps: Seq<Point>, bars: Seq<(i32, Point)>, t: int)
    requires
        ps.len() == 1,
        bars.len() == 1,
        bars[0].0 as int == freq_of(0),
        bars[0].1@ == coef_spec(ps, freq_of(0)),
    ensures
        chain_at(bars, t, 0) == ps[0]@,
{
    lemma_fundamental_div_mod_converse_mod(0, 2, 0, 0);
    lemma_fundamental_div_mod_converse_div(0, 2, 0, 0);
    assert(freq_of(0) == 0);
    assert(0 * 0 * (UNIT as int) == 0) by (nonlinear_arith);
    lemma_tz_div_by_one(0);
    assert(dft_angle(0, 0, 1) == 0);
    lemma_rotate_zero(ps[0]@);
    assert(coef_sum(ps, 0, 0) == (0int, 0int));
    assert(coef_sum(ps, 0, 1) == (0 + ps[0]@.0, 0 + ps[0]@.1));
    lemma_tz_div_by_one(ps[0]@.0);
    lemma_tz_div_by_one(ps[0]@.1);
    assert(coef_spec(ps, 0) == (ps[0]@.0, ps[0]@.1));
    assert((bars[0].0 as int) * t == 0) by (nonlinear_arith)
        requires
            bars[0].0 as int == 0,
    ;
    lemma_rotate_zero(bars[0].1@);
    assert(chain_at(bars, t, -1) == (0int, 0int));
    assert(chain_at(bars, t, 0) == (0 + bars[0].1@.0, 0 + bars[0].1@.1));
    assert(chain_at(bars, t, 0) == ps[0]@);
}

/// Why a path is rejected before decomposition.
#[derive(Clone, Copy, PartialEq, Eq, Structural, Debug)]
pub enum PathError {
    /// The path holds no points at all.
    EmptyPath,
    /// The path is so long that decomposing it would need a rotation
    /// rate outside the signed 16-bit range.
    FrequencyRange,
    /// After rescaling, a coordinate magnitude exceeds `SAMPLE_LIMIT`,
    /// the range the engine's fixed-point accumulation is sized for: a
    /// machine limit met only by paths whose distance from the origin
    /// is large relative to their own extent (the path is not
    /// re-centered).
    CoordinateRange,
}

/// The fill fraction of a trace buffer, in `1/UNIT` of a cycle.
pub open spec fn fill_frac(b: Buffer) -> int
    recommends
        b.size > 0,
{
    b.cursor * UNIT / (b.size as int)
}

/// One animated object: the sample count of its path, the ordered
/// coefficient sequence ("bars"), and the trace buffer that records the
/// chain's tip as the cycle advances.
pub struct FourierSet {
    pub n: usize,
    pub bars: Vec<(i32, Point)>,
    pub outline_buffer: Buffer,
}

impl FourierSet {
    /// The set's invariant: one coefficient per sample, every frequency
    /// in the 16-bit rotation-rate range, every amplitude bounded, and
    /// a well-formed trace buffer.
    pub open spec fn wf(self) -> bool {
        &&& 1 <= self.n <= MAX_PATH_LEN
        &&& self.bars@.len() == self.n
        &&& (forall|j: int|
            0 <= j < self.bars@.len() ==> -MAX_FREQ <= (#[trigger] self.bars@[j]).0 <= MAX_FREQ
                && abs_i(self.bars@[j].1.x as int) <= COEF_LIMIT && abs_i(
                self.bars@[j].1.y as int,
            ) <= COEF_LIMIT)
        &&& self.outline_buffer.wf()
    }

    /// Builds one animated set: rejects a malformed path, normalises
    /// the path in place, decomposes it, and allocates the empty trace
    /// buffer of the requested capacity.
    ///
    /// A path that rescales beyond the engine's coordinate range (it
    /// lies far from the origin relative to its own extent) is
    /// rejected with `CoordinateRange`; on that error the path has
    /// already been rescaled in place, as the length errors leave it
    /// untouched.
    pub fn new(points: &mut Vec<Point>, samples: usize) -> (r: Result<FourierSet, PathError>)
        requires
            bounded(old(points)@, COORD_LIMIT as int),
            samples <= MAX_CAPACITY,
        ensures
            (r is Ok) <==> (1 <= old(points)@.len() <= MAX_PATH_LEN && bounded(
                final(points)@,
                SAMPLE_LIMIT as int,
            )),
            old(points)@.len() == 0 ==> r == Err::<FourierSet, PathError>(PathError::EmptyPath)
                && final(points)@ == old(points)@,
            old(points)@.len() > MAX_PATH_LEN ==> r == Err::<FourierSet, PathError>(
                PathError::FrequencyRange,
            ) && final(points)@ == old(points)@,
            1 <= old(points)@.len() <= MAX_PATH_LEN ==> normalised(old(points)@, final(points)@),
            1 <= old(points)@.len() <= MAX_PATH_LEN && !bounded(final(points)@, SAMPLE_LIMIT as int)
                ==> r == Err::<FourierSet, PathError>(PathError::CoordinateRange),
            r is Ok ==> ({
                let s = r->Ok_0;
                &&& s.wf()
                &&& s.n == old(points)@.len()
                &&& s.bars@.len() == s.n
                &&& (forall|j: int|
                    0 <= j < s.bars@.len() ==> (#[trigger] s.bars@[j]).0 as int == freq_of(j)
                        && s.bars@[j].1@ == coef_spec(final(points)@, freq_of(j)))
                &&& s.outline_buffer.size == samples
                &&& s.outline_buffer.cursor == 0
            }),
    {
        let n = points.len();
        if n == 0 {
            return Err(PathError::EmptyPath);
        }
        if n > MAX_PATH_LEN {
            return Err(PathError::FrequencyRange);
        }
        normalise(points);
        let mut i: usize = 0;
        while i < n
            invariant
                n == points@.len(),
                n == old(points)@.len(),
                1 <= n <= MAX_PATH_LEN,
                0 <= i <= n,
                normalised(old(points)@, points@),
                forall|j: int|
                    0 <= j < i ==> abs_i((#[trigger] points@[j]).x as int) <= SAMPLE_LIMIT && abs_i(
                        points@[j].y as int,
                    ) <= SAMPLE_LIMIT,
            decreases n - i,
        {
            let p = points[i];
            if p.x > SAMPLE_LIMIT || p.x < -SAMPLE_LIMIT || p.y > SAMPLE_LIMIT || p.y
                < -SAMPLE_LIMIT {
                proof {
                    if bounded(points@, SAMPLE_LIMIT as int) {
                        assert(abs_i(points@[i as int].x as int) <= SAMPLE_LIMIT && abs_i(
                            points@[i as int].y as int,
                        ) <= SAMPLE_LIMIT);
                    }
                }
                return Err(PathError::CoordinateRange);
            }
            i += 1;
        }
        let bars = fourier_transform(points);
        Ok(FourierSet { n, bars, outline_buffer: Buffer::new(samples) })
    }

    /// The epicycle chain at time fraction `t` (in `1/UNIT` of a
    /// cycle): one cumulative point per coefficient, in enumeration
    /// order, recomputed fresh on every call.  The last entry is the
    /// reconstructed path position at `t`.
    pub fn get_bar_pos(&self, t: u32) -> (r: Vec<Point>)
        requires
            self.wf(),
        ensures
            r@.len() == self.bars@.len(),
            forall|j: int|
                0 <= j < r@.len() ==> (#[trigger] r@[j])@ == chain_at(self.bars@, t as int, j),
    {
        let n = self.bars.len();
        let mut out: Vec<Point> = Vec::new();
        let mut cx: i64 = 0;
        let mut cy: i64 = 0;
        let mut j: usize = 0;
        while j < n
            invariant
                self.wf(),
                n == self.bars@.len(),
                0 <= j <= n,
                out@.len() == j,
                cx == chain_at(self.bars@, t as int, j as int - 1).0,
                cy == chain_at(self.bars@, t as int, j as int - 1).1,
                abs_i(cx as int) <= j * (2 * COEF_LIMIT),
                abs_i(cy as int) <= j * (2 * COEF_LIMIT),
                forall|m: int|
                    0 <= m < j ==> (#[trigger] out@[m])@ == chain_at(self.bars@, t as int, m),
            decreases n - j,
        {
            let b = self.bars[j];
            proof {
                assert(-0x8000_0000_0000 <= (b.0 as int) * (t as int) <= 0x8000_0000_0000)
                    by (nonlinear_arith)
                    requires
                        -MAX_FREQ <= b.0 <= MAX_FREQ,
                        0 <= t <= u32::MAX,
                ;
            }
            let angle = (b.0 as i64) * (t as i64);
            let term = rotate(b.1, angle);
            proof {
                assert(abs_i(b.1.x as int) <= COEF_LIMIT && abs_i(b.1.y as int) <= COEF_LIMIT);
                assert((j as int + 1) * (2 * COEF_LIMIT) == (j as int) * (2 * COEF_LIMIT) + 2
                    * COEF_LIMIT) by (nonlinear_arith);
                assert((j as int) * (2 * COEF_LIMIT) <= (MAX_PATH_LEN as int) * (2 * COEF_LIMIT))
                    by (nonlinear_arith)
                    requires
                        0 <= j <= MAX_PATH_LEN,
                ;
            }
            cx = cx + term.x;
            cy = cy + term.y;
            out.push(Point { x: cx, y: cy });
            j += 1;
        }
        out
    }

    /// Evaluates the chain's terminal point at the trace buffer's own
    /// fill fraction and records it in the buffer.
    pub fn calc_next_bar_pos(&mut self)
        requires
            old(self).wf(),
            old(self).outline_buffer.cursor < old(self).outline_buffer.size,
        ensures
            final(self).wf(),
            final(self).n == old(self).n,
            final(self).bars@ == old(self).bars@,
            final(self).outline_buffer.size == old(self).outline_buffer.size,
            final(self).outline_buffer.cursor == old(self).outline_buffer.cursor + 1,
            final(self).outline_buffer.inner@.len() == old(self).outline_buffer.cursor + 1,
            forall|m: int|
                0 <= m < old(self).outline_buffer.cursor ==> final(self).outline_buffer.inner@[m]
                    == old(self).outline_buffer.inner@[m],
            final(self).outline_buffer.inner@[old(self).outline_buffer.cursor as int]@ == chain_at(
                old(self).bars@,
                fill_frac(old(self).outline_buffer),
                old(self).bars@.len() - 1,
            ),
    {
        let pf64 = self.outline_buffer.percent_full();
        proof {
            let c = self.outline_buffer.cursor as int;
            let s = self.outline_buffer.size as int;
            vstd::arithmetic::div_mod::lemma_div_is_ordered(
                c * (UNIT as int),
                s * (UNIT as int),
                s,
            );
            vstd::arithmetic::div_mod::lemma_div_multiples_vanish(UNIT as int, s);
            vstd::arithmetic::div_mod::lemma_div_pos_is_pos(c * (UNIT as int), s);
        }
        let pf = pf64 as u32;
        let chain = self.get_bar_pos(pf);
        let p = chain[chain.len() - 1];
        self.outline_buffer.push(p);
    }

    /// One frame of the animation driver at the global time fraction
    /// `t` (in `1/UNIT` of a cycle): recomputes the bar chain at `t`,
    /// catches the trace buffer up to `t` in steps of `1/size` of a
    /// cycle (each recorded point is the chain's terminal at the
    /// buffer's own fill fraction, so skipped frames leave no gaps),
    /// and returns the bar chain and the padded trace for the render
    /// sink.
    ///
    /// Cycle policy: the trace buffer never resets by itself.  Once
    /// full it stays full, and frames past the cycle boundary render a
    /// frozen final trace; a fresh cycle takes a fresh set.
    pub fn draw(&mut self, t: u32) -> (r: (Vec<Point>, Vec<Point>))
        requires
            old(self).wf(),
        ensures
            final(self).wf(),
            final(self).n == old(self).n,
            final(self).bars@ == old(self).bars@,
            final(self).outline_buffer.size == old(self).outline_buffer.size,
            r.0@.len() == old(self).bars@.len(),
            forall|j: int|
                0 <= j < r.0@.len() ==> (#[trigger] r.0@[j])@ == chain_at(
                    old(self).bars@,
                    t as int,
                    j,
                ),
            old(self).outline_buffer.cursor <= final(self).outline_buffer.cursor,
            final(self).outline_buffer.cursor <= final(self).outline_buffer.size,
            forall|m: int|
                0 <= m < old(self).outline_buffer.cursor ==> final(self).outline_buffer.inner@[m]
                    == old(self).outline_buffer.inner@[m],
            forall|c: int|
                old(self).outline_buffer.cursor <= c < final(self).outline_buffer.cursor ==> (
                #[trigger] final(self).outline_buffer.inner@[c])@ == chain_at(
                    old(self).bars@,
                    c * UNIT / (final(self).outline_buffer.size as int),
                    old(self).bars@.len() - 1,
                ) && c * UNIT / (final(self).outline_buffer.size as int) < t,
            final(self).outline_buffer.cursor == final(self).outline_buffer.size
                || final(self).outline_buffer.cursor * UNIT
                / (final(self).outline_buffer.size as int) >= t as int,
            r.1@ == final(self).outline_buffer.padded_seq(),
            r.1@.len() == final(self).outline_buffer.size,
    {
        let bars_chain = self.get_bar_pos(t);
        let ghost c0 = self.outline_buffer.cursor as int;
        let ghost inner0 = self.outline_buffer.inner@;
        let ghost bars0 = self.bars@;
        let ghost n0 = self.n;
        let ghost s0 = self.outline_buffer.size;
        while self.outline_buffer.has_capacity() && (self.outline_buffer.percent_full() < t as u64)
            invariant
                self.wf(),
                self.n == n0,
                self.bars@ == bars0,
                self.outline_buffer.size == s0,
                c0 <= self.outline_buffer.cursor,
                c0 == inner0.len(),
                forall|m: int| 0 <= m < c0 ==> self.outline_buffer.inner@[m] == inner0[m],
                forall|c: int|
                    c0 <= c < self.outline_buffer.cursor ==> (
                    #[trigger] self.outline_buffer.inner@[c])@ == chain_at(
                        bars0,
                        c * UNIT / (self.outline_buffer.size as int),
                        bars0.len() - 1,
                    ) && c * UNIT / (self.outline_buffer.size as int) < t,
            decreases self.outline_buffer.size - self.outline_buffer.cursor,
        {
            self.calc_next_bar_pos();
        }
        let outline = self.outline_buffer.read_padded();
        (bars_chain, outline)
    }
}

} // verus!
