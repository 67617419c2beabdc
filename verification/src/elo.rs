//! Elo ratings and the fixed-point outcome probability model.
//!
//! Probabilities are held in parts per billion (ppb): a probability `p`
//! is represented by the integer `p * 1_000_000_000` rounded to the
//! nearest unit.  The model's central invariant — the win, loss and draw
//! probabilities sum to exactly one — is then exact integer arithmetic
//! rather than a floating-point tolerance.
//!
//! The logistic Elo expectation `1 / (1 + 10^((black - white) / 400))`
//! is transcendental and is computed by the caller (it needs real
//! arithmetic, which this crate does not hold); it enters the model as
//! the `p_white_raw` argument.  The draw probability and the rescaling
//! of the win/loss split are exact rational arithmetic and are computed
//! and verified here.

use vstd::prelude::*;

verus! {

/// One probability unit is 1e-9, so certainty is `SCALE` units.
pub const SCALE: u64 = 1_000_000_000;

/// Draw probability for evenly matched players: 0.18, in ppb.
pub const MAX_DRAW_PPB: u64 = 180_000_000;

/// The draw model divides the rating gap by this to get the decay term:
/// a sensitivity of 0.05 per rating point is 1/20.
pub const DRAW_SENSITIVITY_DIV: u64 = 20;

/// An Elo rating: a non-negative integer, immutable once constructed.
#[derive(Clone, Copy, Debug, PartialEq, Eq, Structural)]
pub struct Rating(pub u32);

/// The absolute difference of two ratings.
pub open spec fn spec_gap(a: Rating, b: Rating) -> int {
    if a.0 >= b.0 {
        a.0 - b.0
    } else {
        b.0 - a.0
    }
}

impl Rating {
    /// The absolute rating gap between two players.
    pub fn gap(self, other: Rating) -> (g: u32)
        ensures
            g == spec_gap(self, other),
    {
        if self.0 >= other.0 {
            self.0 - other.0
        } else {
            other.0 - self.0
        }
    }
}

/// Win/loss/draw probabilities for one pairing, in ppb.
///
/// Well-formed values satisfy `white + black + draw == SCALE` exactly:
/// the sum-to-one invariant of the probability model.
#[derive(Clone, Copy, Debug, PartialEq, Eq, Structural)]
pub struct ExpectedOutcome {
    pub white: u64,
    pub black: u64,
    pub draw: u64,
}

impl ExpectedOutcome {
    /// The sum-to-one invariant: the three probabilities are a partition
    /// of certainty.
    pub open spec fn wf(self) -> bool {
        self.white + self.black + self.draw == SCALE
    }

    /// Builds an outcome distribution from its three parts, accepting it
    /// exactly when the parts sum to `SCALE`: a violation signals a
    /// miscalibrated model and is surfaced, never silently corrected.
    pub fn from_parts(white: u64, black: u64, draw: u64) -> (r: Option<ExpectedOutcome>)
        ensures
            r is Some <==> white + black + draw == SCALE,
            r is Some ==> r->Some_0 == (ExpectedOutcome { white, black, draw }),
            r is Some ==> r->Some_0.wf(),
    {
        if white <= SCALE && black <= SCALE - white && draw == SCALE - white - black {
            Some(ExpectedOutcome { white, black, draw })
        } else {
            None
        }
    }
}

/// The draw probability in ppb for a given absolute rating gap:
/// `0.18 / (1 + 0.05 * gap)`, as the exact rational
/// `(MAX_DRAW_PPB * 20) / (20 + gap)` rounded down.
pub open spec fn spec_draw_ppb(gap: int) -> int {
    (MAX_DRAW_PPB * DRAW_SENSITIVITY_DIV) as int / (DRAW_SENSITIVITY_DIV + gap)
}

/// The full model: from the rating gap and the caller-supplied logistic
/// expectation for white (`p_white_raw`, in ppb), the draw probability
/// decays with the gap, the raw win/loss split is rescaled to leave room
/// for the draw mass, and the draw mass absorbs the rounding remainder
/// so that the three parts sum to `SCALE` exactly.
pub open spec fn spec_expected_outcome(gap: int, p_white_raw: int) -> ExpectedOutcome {
    let d = spec_draw_ppb(gap);
    let w = p_white_raw * (SCALE - d) / (SCALE as int);
    let b = (SCALE - p_white_raw) * (SCALE - d) / (SCALE as int);
    ExpectedOutcome { white: w as u64, black: b as u64, draw: (SCALE - w - b) as u64 }
}

/// Estimates the probability of a draw, given two Elo ratings: capped at
/// `MAX_DRAW_PPB` for equal ratings and decaying as the gap widens.
pub fn probability_of_draw(white_elo: &Rating, black_elo: &Rating) -> (d: u64)
    ensures
        d == spec_draw_ppb(spec_gap(*white_elo, *black_elo)),
        d <= MAX_DRAW_PPB,
{
    let gap = white_elo.gap(*black_elo);
    let numer: u64 = MAX_DRAW_PPB * DRAW_SENSITIVITY_DIV;
    let d = numer / (DRAW_SENSITIVITY_DIV + gap as u64);
    proof {
        lemma_div_ordered_by_denominator(numer as int, DRAW_SENSITIVITY_DIV as int,
            DRAW_SENSITIVITY_DIV + gap);
    }
    d
}

/// Dividing a fixed non-negative numerator by a larger denominator gives
/// a result no larger.
proof fn lemma_div_ordered_by_denominator(x: int, d1: int, d2: int)
    requires
        x >= 0,
        0 < d1 <= d2,
    ensures
        x / d1 >= x / d2,
{
    assert(x / d1 >= x / d2) by (nonlinear_arith)
        requires
            x >= 0,
            0 < d1 <= d2,
    ;
}

/// Combines the draw model with the caller-supplied logistic expectation
/// for white into the final outcome distribution.
///
/// `p_white_raw` is the Elo expectation `1 / (1 + 10^((black - white) / 400))`
/// in ppb; computing it takes real arithmetic and is the caller's part.
/// Everything after it — the draw decay, the rescaling of the raw
/// win/loss split, and the exact sum-to-one invariant — is proved here.
pub fn calculate_expected_outcome(white_elo: &Rating, black_elo: &Rating, p_white_raw: u64) -> (r:
    ExpectedOutcome)
    requires
        p_white_raw <= SCALE,
    ensures
        r == spec_expected_outcome(spec_gap(*white_elo, *black_elo), p_white_raw as int),
        r.wf(),
        spec_draw_ppb(spec_gap(*white_elo, *black_elo)) <= r.draw <= spec_draw_ppb(
            spec_gap(*white_elo, *black_elo),
        ) + 2,
{
    let ghost gap = spec_gap(*white_elo, *black_elo);
    let p_draw = probability_of_draw(white_elo, black_elo);
    let keep: u64 = SCALE - p_draw;
    proof {
        lemma_scaled_split_bounds(p_white_raw as int, keep as int);
    }
    let p_white: u64 = p_white_raw * keep / SCALE;
    let p_black: u64 = (SCALE - p_white_raw) * keep / SCALE;
    let p_draw_adjusted: u64 = SCALE - p_white - p_black;
    ExpectedOutcome { white: p_white, black: p_black, draw: p_draw_adjusted }
}

/// Rescaling a split of `SCALE` by `keep / SCALE` with flooring keeps
/// both parts and their sum within `keep`, and loses less than two units
/// of the sum.
proof fn lemma_scaled_split_bounds(raw: int, keep: int)
    requires
        0 <= raw <= SCALE,
        0 <= keep <= SCALE,
    ensures
        0 <= raw * keep <= SCALE * SCALE,
        0 <= (SCALE - raw) * keep <= SCALE * SCALE,
        raw * keep / (SCALE as int) + (SCALE - raw) * keep / (SCALE as int) <= keep,
        raw * keep / (SCALE as int) + (SCALE - raw) * keep / (SCALE as int) >= keep - 2,
{
    assert(0 <= raw * keep <= SCALE * SCALE) by (nonlinear_arith)
        requires
            0 <= raw <= SCALE,
            0 <= keep <= SCALE,
    ;
    assert(0 <= (SCALE - raw) * keep <= SCALE * SCALE) by (nonlinear_arith)
        requires
            0 <= raw <= SCALE,
            0 <= keep <= SCALE,
    ;
    let s = SCALE as int;
    let a = raw * keep;
    let b = (SCALE - raw) * keep;
    assert(a + b == s * keep) by (nonlinear_arith)
        requires
            a == raw * keep,
            b == (SCALE - raw) * keep,
            s == SCALE as int,
    ;
    assert(s * (a / s) <= a < s * (a / s) + s) by (nonlinear_arith)
        requires
            s > 0,
            a >= 0,
    ;
    assert(s * (b / s) <= b < s * (b / s) + s) by (nonlinear_arith)
        requires
            s > 0,
            b >= 0,
    ;
    assert(s * (a / s + b / s) <= a + b < s * (a / s + b / s) + 2 * s) by (nonlinear_arith)
        requires
            s * (a / s) <= a < s * (a / s) + s,
            s * (b / s) <= b < s * (b / s) + s,
    ;
    assert(a / s + b / s <= keep && a / s + b / s >= keep - 2) by (nonlinear_arith)
        requires
            s > 0,
            s * (a / s + b / s) <= a + b < s * (a / s + b / s) + 2 * s,
            a + b == s * keep,
    ;
}

/// Evenly matched players get symmetric win odds and exactly the maximal
/// draw probability: with a zero rating gap and the logistic expectation
/// at one half, white's and black's probabilities are equal and the draw
/// mass is `MAX_DRAW_PPB` exactly.
pub proof fn lemma_symmetric_ratings(a: Rating, b: Rating)
    requires
        a.0 == b.0,
    ensures
        spec_expected_outcome(spec_gap(a, b), (SCALE / 2) as int).white == spec_expected_outcome(
            spec_gap(a, b),
            (SCALE / 2) as int,
        ).black,
        spec_expected_outcome(spec_gap(a, b), (SCALE / 2) as int).draw == MAX_DRAW_PPB,
{
    let s = SCALE as int;
    let half = s / 2;
    assert(spec_gap(a, b) == 0);
    assert(spec_draw_ppb(0) == MAX_DRAW_PPB);
    let keep = s - MAX_DRAW_PPB;
    assert(half * keep == 410_000_000 * s) by (nonlinear_arith)
        requires
            half == 500_000_000,
            keep == 820_000_000,
            s == 1_000_000_000,
    ;
    assert(half * keep / s == 410_000_000) by (nonlinear_arith)
        requires
            s > 0,
            half * keep == 410_000_000 * s,
    ;
    assert((s - half) * keep == half * keep);
}

/// White's rescaled win probability is monotone in the logistic
/// expectation at a fixed rating gap, and the draw probability is
/// non-increasing as the gap widens.  (The strict growth of the logistic
/// itself in white's rating lives with the real-arithmetic caller.)
pub proof fn lemma_model_monotone(gap1: int, gap2: int, raw1: int, raw2: int)
    requires
        0 <= gap1 <= gap2,
        0 <= raw1 <= raw2 <= SCALE,
    ensures
        spec_draw_ppb(gap1) >= spec_draw_ppb(gap2),
        spec_expected_outcome(gap1, raw1).white <= spec_expected_outcome(gap1, raw2).white,
        spec_expected_outcome(gap1, raw1).black >= spec_expected_outcome(gap1, raw2).black,
{
    lemma_div_ordered_by_denominator(
        (MAX_DRAW_PPB * DRAW_SENSITIVITY_DIV) as int,
        DRAW_SENSITIVITY_DIV + gap1,
        DRAW_SENSITIVITY_DIV + gap2,
    );
    let s = SCALE as int;
    let d = spec_draw_ppb(gap1);
    assert(0 <= d <= s) by {
        assert((MAX_DRAW_PPB * DRAW_SENSITIVITY_DIV) as int / (DRAW_SENSITIVITY_DIV as int)
            == MAX_DRAW_PPB);
        lemma_div_ordered_by_denominator(
            (MAX_DRAW_PPB * DRAW_SENSITIVITY_DIV) as int,
            DRAW_SENSITIVITY_DIV as int,
            DRAW_SENSITIVITY_DIV + gap1,
        );
        assert(d >= 0) by (nonlinear_arith)
            requires
                d == (MAX_DRAW_PPB * DRAW_SENSITIVITY_DIV) as int / (DRAW_SENSITIVITY_DIV + gap1),
                DRAW_SENSITIVITY_DIV + gap1 > 0,
        ;
    }
    let keep = s - d;
    assert(raw1 * keep <= raw2 * keep) by (nonlinear_arith)
        requires
            raw1 <= raw2,
            keep >= 0,
    ;
    assert(raw1 * keep / s <= raw2 * keep / s) by (nonlinear_arith)
        requires
            s > 0,
            0 <= raw1 * keep <= raw2 * keep,
    ;
    assert((s - raw2) * keep <= (s - raw1) * keep) by (nonlinear_arith)
        requires
            raw1 <= raw2 <= s,
            keep >= 0,
    ;
    assert((s - raw2) * keep / s <= (s - raw1) * keep / s) by (nonlinear_arith)
        requires
            s > 0,
            0 <= (s - raw2) * keep <= (s - raw1) * keep,
    ;
    lemma_scaled_split_bounds(raw1, keep);
    lemma_scaled_split_bounds(raw2, keep);
}

} // verus!
