//! The heightfield proper: a dense row-major grid of sample codes together
//! with the running minimum/maximum observed while the grid was filled.
//!
//! The extrema are tracked with a single-branch update — if the new sample
//! beats the current maximum only the maximum moves, otherwise the minimum is
//! checked — and the accumulators start at the codes of the numeric extremes.
//! That exact update order is part of the component's observable behaviour
//! and is pinned down by `observe_spec`.

use vstd::prelude::*;

use crate::BuildError;
use crate::grid::spec_index_of;

verus! {

/// Starting value of the running maximum: the order code of the smallest
/// finite sample under the sign-folded 8-byte encoding the host uses, so
/// that the first sample observed normally lands in the maximum branch.
pub const INITIAL_MAX_CODE: u64 = 0x0010_0000_0000_0000;

/// Starting value of the running minimum: the order code of the largest
/// finite sample under the same encoding.
pub const INITIAL_MIN_CODE: u64 = 0xFFEF_FFFF_FFFF_FFFF;

/// The pair of running extrema threaded through a fill of the grid.
#[derive(Clone, Copy, Debug, PartialEq, Eq, Structural)]
pub struct Extrema {
    pub max_code: u64,
    pub min_code: u64,
}

/// The accumulators before any sample has been observed.
pub open spec fn start_extrema() -> Extrema {
    Extrema { max_code: INITIAL_MAX_CODE, min_code: INITIAL_MIN_CODE }
}

/// One step of the running comparison: strictly one branch runs, so a sample
/// that sets a new maximum is never also checked against the minimum.
pub open spec fn observe_spec(e: Extrema, v: u64) -> Extrema {
    if v > e.max_code {
        Extrema { max_code: v, min_code: e.min_code }
    } else if v < e.min_code {
        Extrema { max_code: e.max_code, min_code: v }
    } else {
        e
    }
}

/// The extrema after observing every sample of `s` in order, starting
/// from `e`.
pub open spec fn fold_extrema(e: Extrema, s: Seq<u64>) -> Extrema
    decreases s.len(),
{
    if s.len() == 0 {
        e
    } else {
        fold_extrema(observe_spec(e, s[0]), s.subrange(1, s.len() as int))
    }
}

/// Observing one more sample at the end of a sequence is one more step of
/// the running comparison.
pub proof fn lemma_fold_extrema_push(e: Extrema, s: Seq<u64>, v: u64)
    ensures
        fold_extrema(e, s.push(v)) == observe_spec(fold_extrema(e, s), v),
    decreases s.len(),
{
    if s.len() == 0 {
        assert(s.push(v)[0] == v);
        assert(s.push(v).subrange(1, 1) =~= Seq::<u64>::empty());
        assert(fold_extrema(observe_spec(e, v), Seq::<u64>::empty()) == observe_spec(e, v));
        assert(fold_extrema(e, s) == e);
    } else {
        let tail = s.subrange(1, s.len() as int);
        assert(s.push(v)[0] == s[0]);
        assert(s.push(v).subrange(1, s.len() as int + 1) =~= tail.push(v));
        lemma_fold_extrema_push(observe_spec(e, s[0]), tail, v);
        assert(fold_extrema(e, s.push(v)) == fold_extrema(observe_spec(e, s[0]), tail.push(v)));
        assert(fold_extrema(e, s) == fold_extrema(observe_spec(e, s[0]), tail));
    }
}

impl Extrema {
    /// Fresh accumulators, ready for the first sample.
    pub fn start() -> (e: Extrema)
        ensures
            e == start_extrema(),
    {
        Extrema { max_code: INITIAL_MAX_CODE, min_code: INITIAL_MIN_CODE }
    }

    /// Feeds one sample through the single-branch running comparison.
    pub fn observe(&mut self, v: u64)
        ensures
            *final(self) == observe_spec(*old(self), v),
    {
        if v > self.max_code {
            self.max_code = v;
        } else if v < self.min_code {
            self.min_code = v;
        }
    }
}

/// The running maximum never falls, the running minimum never rises, every
/// observed sample ends up at or below the final maximum, and each
/// accumulator either still holds its starting value or holds one of the
/// samples.
pub proof fn lemma_fold_max_bounds(e: Extrema, s: Seq<u64>)
    ensures
        fold_extrema(e, s).max_code >= e.max_code,
        fold_extrema(e, s).min_code <= e.min_code,
        forall|j: int| 0 <= j < s.len() ==> #[trigger] s[j] <= fold_extrema(e, s).max_code,
        fold_extrema(e, s).max_code == e.max_code || exists|j: int|
            0 <= j < s.len() && #[trigger] s[j] == fold_extrema(e, s).max_code,
        fold_extrema(e, s).min_code == e.min_code || exists|j: int|
            0 <= j < s.len() && #[trigger] s[j] == fold_extrema(e, s).min_code,
    decreases s.len(),
{
    if s.len() > 0 {
        let e2 = observe_spec(e, s[0]);
        let tail = s.subrange(1, s.len() as int);
        lemma_fold_max_bounds(e2, tail);
        assert(e2.max_code >= s[0]);
        assert(fold_extrema(e, s).max_code >= e2.max_code);
        assert(forall|j: int| 1 <= j < s.len() ==> #[trigger] s[j] == tail[j - 1]);
        let fmax = fold_extrema(e, s).max_code;
        if fmax != e.max_code {
            if fmax == e2.max_code {
                assert(s[0] == fmax);
            } else {
                let j0 = choose|j: int| 0 <= j < tail.len() && #[trigger] tail[j] == fmax;
                assert(s[j0 + 1] == fmax);
            }
        }
        let fmin = fold_extrema(e, s).min_code;
        if fmin != e.min_code {
            if fmin == e2.min_code {
                assert(s[0] == fmin);
            } else {
                let j0 = choose|j: int| 0 <= j < tail.len() && #[trigger] tail[j] == fmin;
                assert(s[j0 + 1] == fmin);
            }
        }
    }
}

/// If the smallest sample of the sequence is attained at some position `i`
/// that is not a strict running maximum when it appears — in particular at
/// any position past the first — then the final running minimum lies at or
/// below every sample.  (A unique smallest sample in the very first slot is
/// consumed by the maximum branch and leaves the minimum untouched.)
pub proof fn lemma_fold_min_bounds(e: Extrema, s: Seq<u64>, i: int)
    requires
        0 <= i < s.len(),
        forall|j: int| 0 <= j < s.len() ==> s[i] <= #[trigger] s[j],
        i >= 1 || s[i] <= e.max_code || e.min_code <= s[i],
    ensures
        forall|j: int| 0 <= j < s.len() ==> fold_extrema(e, s).min_code <= #[trigger] s[j],
    decreases s.len(),
{
    let e2 = observe_spec(e, s[0]);
    let tail = s.subrange(1, s.len() as int);
    assert(forall|j: int| 1 <= j < s.len() ==> #[trigger] s[j] == tail[j - 1]);
    if i == 0 {
        // The first sample is the smallest; by assumption it either fails the
        // maximum branch or the starting minimum is already at or below it,
        // so the accumulators leave the first step at or below it.
        assert(e2.min_code <= s[0]);
        lemma_fold_max_bounds(e2, tail);
        assert(fold_extrema(e, s).min_code <= s[0]);
    } else {
        // The smallest sample sits in the tail; the maximum after the first
        // step is at least s[0], so it cannot be a strict running maximum
        // there, and the tail satisfies the same condition one slot earlier.
        assert(e2.max_code >= s[0]);
        assert(tail[i - 1] == s[i]);
        lemma_fold_min_bounds(e2, tail, i - 1);
        assert(fold_extrema(e, s).min_code <= s[i]);
    }
}

/// A completed heightfield: dimensions, the flat row-major grid of sample
/// codes, and the extrema tracked while the grid was filled.  Immutable
/// after construction.
#[derive(Debug)]
pub struct HeightField {
    width: usize,
    height: usize,
    values: Vec<u64>,
    extrema: Extrema,
}

impl HeightField {
    /// Number of columns.
    pub closed spec fn spec_width(self) -> int {
        self.width as int
    }

    /// Number of rows.
    pub closed spec fn spec_height(self) -> int {
        self.height as int
    }

    /// The stored samples, flat in row-major order.
    pub closed spec fn samples(self) -> Seq<u64> {
        self.values@
    }

    /// The extrema recorded during the fill.
    pub closed spec fn spec_extrema(self) -> Extrema {
        self.extrema
    }

    /// A well-formed field has at least one slot in each direction, one
    /// stored sample per slot, and extrema that are exactly the single-branch
    /// fold over the stored samples.
    pub open spec fn wf(self) -> bool {
        &&& self.spec_width() >= 1
        &&& self.spec_height() >= 1
        &&& self.samples().len() == self.spec_width() * self.spec_height()
        &&& self.spec_extrema() == fold_extrema(start_extrema(), self.samples())
    }

    /// Builds a field from samples listed in row-major order, running the
    /// extrema tracker over them in that same order.  Refused when either
    /// dimension is zero or the sample count does not match the grid.
    pub fn from_samples(width: usize, height: usize, samples: Vec<u64>) -> (r: Result<
        HeightField,
        BuildError,
    >)
        ensures
            match r {
                Ok(f) => {
                    &&& f.wf()
                    &&& f.spec_width() == width
                    &&& f.spec_height() == height
                    &&& f.samples() == samples@
                    &&& width >= 1
                    &&& height >= 1
                    &&& samples@.len() == width * height
                },
                Err(e) => {
                    &&& e == BuildError::InvalidDimensions
                    &&& (width == 0 || height == 0 || samples@.len() != width * height)
                },
            },
    {
        if width == 0 || height == 0 {
            return Err(BuildError::InvalidDimensions);
        }
        if samples.len() / width != height || samples.len() % width != 0 {
            proof {
                let n = samples@.len() as int;
                let w = width as int;
                let h = height as int;
                vstd::arithmetic::div_mod::lemma_fundamental_div_mod(n, w);
                assert(n != w * h) by (nonlinear_arith)
                    requires
                        w >= 1,
                        n == w * (n / w) + (n % w),
                        0 <= n % w < w,
                        (n / w != h) || (n % w != 0),
                ;
            }
            return Err(BuildError::InvalidDimensions);
        }
        proof {
            vstd::arithmetic::div_mod::lemma_fundamental_div_mod(
                samples@.len() as int,
                width as int,
            );
        }
        let mut ext = Extrema::start();
        let mut i: usize = 0;
        while i < samples.len()
            invariant
                i <= samples.len(),
                ext == fold_extrema(start_extrema(), samples@.take(i as int)),
            decreases samples.len() - i,
        {
            proof {
                assert(samples@.take(i + 1) =~= samples@.take(i as int).push(samples@[i as int]));
                lemma_fold_extrema_push(start_extrema(), samples@.take(i as int), samples@[i as int]);
            }
            ext.observe(samples[i]);
            i = i + 1;
        }
        proof {
            assert(samples@.take(samples@.len() as int) =~= samples@);
        }
        Ok(HeightField { width, height, values: samples, extrema: ext })
    }

    /// Number of columns.
    pub fn width(&self) -> (w: usize)
        ensures
            w == self.spec_width(),
    {
        self.width
    }

    /// Number of rows.
    pub fn height(&self) -> (h: usize)
        ensures
            h == self.spec_height(),
    {
        self.height
    }

    /// The tracked running maximum.
    pub fn max_code(&self) -> (c: u64)
        ensures
            c == self.spec_extrema().max_code,
    {
        self.extrema.max_code
    }

    /// The tracked running minimum.
    pub fn min_code(&self) -> (c: u64)
        ensures
            c == self.spec_extrema().min_code,
    {
        self.extrema.min_code
    }

    /// The flat row-major sample buffer, for export to a host.
    pub fn values(&self) -> (v: &Vec<u64>)
        ensures
            v@ == self.samples(),
    {
        &self.values
    }

    /// The sample stored at the coordinate `(x, y)`.
    pub fn value_at(&self, x: usize, y: usize) -> (v: u64)
        requires
            self.wf(),
            x < self.spec_width(),
            y < self.spec_height(),
        ensures
            v == self.samples()[spec_index_of(self.spec_width(), x as int, y as int)],
    {
        let n = self.values.len();
        assert(self.spec_width() * self.spec_height() == n);
        let i = crate::grid::index_of(self.width, self.height, x, y);
        self.values[i]
    }
}

/// Every stored sample lies between the tracked extrema, provided the
/// smallest sample is attained at some position other than only the very
/// first.  (A strictly rising fill takes the maximum branch on every step and
/// leaves the minimum at its starting sentinel; such fills are the one case
/// this bound excludes.)
pub proof fn lemma_samples_within_extrema(f: HeightField, i: int)
    requires
        f.wf(),
        0 <= i < f.samples().len(),
        forall|j: int| 0 <= j < f.samples().len() ==> f.samples()[i] <= #[trigger] f.samples()[j],
        i >= 1 || f.samples()[i] <= INITIAL_MAX_CODE,
    ensures
        forall|j: int|
            0 <= j < f.samples().len() ==> f.spec_extrema().min_code <= #[trigger] f.samples()[j]
                && f.samples()[j] <= f.spec_extrema().max_code,
{
    lemma_fold_max_bounds(start_extrema(), f.samples());
    lemma_fold_min_bounds(start_extrema(), f.samples(), i);
}

/// Every stored sample lies at or below the tracked maximum, whatever the
/// fill looked like.
pub proof fn lemma_samples_below_max(f: HeightField)
    requires
        f.wf(),
    ensures
        forall|j: int|
            0 <= j < f.samples().len() ==> #[trigger] f.samples()[j]
                <= f.spec_extrema().max_code,
{
    lemma_fold_max_bounds(start_extrema(), f.samples());
}

/// The tracked extrema are not invented: each one either still holds its
/// starting sentinel or is one of the stored samples.  Together with the
/// bounds above, a maximum that moved off its sentinel is exactly the
/// largest stored sample.
pub proof fn lemma_extrema_attained(f: HeightField)
    requires
        f.wf(),
    ensures
        f.spec_extrema().max_code == INITIAL_MAX_CODE || exists|j: int|
            0 <= j < f.samples().len() && #[trigger] f.samples()[j] == f.spec_extrema().max_code,
        f.spec_extrema().min_code == INITIAL_MIN_CODE || exists|j: int|
            0 <= j < f.samples().len() && #[trigger] f.samples()[j] == f.spec_extrema().min_code,
{
    lemma_fold_max_bounds(start_extrema(), f.samples());
}

/// Two fields built from the same dimensions and the same samples carry the
/// same extrema: the fill is deterministic.
pub proof fn lemma_build_deterministic(f1: HeightField, f2: HeightField)
    requires
        f1.wf(),
        f2.wf(),
        f1.samples() == f2.samples(),
    ensures
        f1.spec_extrema() == f2.spec_extrema(),
{
}

} // verus!
