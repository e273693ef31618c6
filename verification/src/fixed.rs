//! 16.16 fixed-point arithmetic used for every control value in the engine:
//! volumes, envelopes, frequencies in Hz, pitch periods in samples, vibrato
//! phases in cycles.  All operations are exact integer arithmetic with the
//! stated rounding, so contracts pin results down completely.

use vstd::prelude::*;
use crate::FP_ONE;

verus! {

/// Largest magnitude a fixed-point control value may take.  Keeping every
/// value well inside this bound keeps all products inside `i64`.
pub const FP_LIMIT: i64 = 0x4000_0000_0000;

/// Product of two fixed-point values, rounded toward negative infinity.
pub open spec fn fp_mul_spec(a: int, b: int) -> int {
    (a * b) / (FP_ONE as int)
}

/// Multiply two nonnegative fixed-point values.
pub fn fp_mul(a: i64, b: i64) -> (r: i64)
    requires
        0 <= a,
        0 <= b,
        a * b <= i64::MAX,
    ensures
        r == fp_mul_spec(a as int, b as int),
        0 <= r,
        r * FP_ONE <= a * b,
{
    proof {
        vstd::arithmetic::div_mod::lemma_div_multiples_vanish_fancy(
            (a * b) / (FP_ONE as int), (a * b) % (FP_ONE as int), FP_ONE as int);
        vstd::arithmetic::div_mod::lemma_div_is_ordered(0, a * b, FP_ONE as int);
        vstd::arithmetic::div_mod::lemma_fundamental_div_mod(a * b, FP_ONE as int);
    }
    (a * b) / FP_ONE
}

/// Quotient of two integers, truncated toward zero (the rounding the engine
/// uses whenever a value may be negative).
pub open spec fn div_trunc_spec(a: int, b: int) -> int {
    if a >= 0 {
        a / b
    } else {
        -((-a) / b)
    }
}

/// Divide, truncating toward zero.
pub fn div_trunc(a: i64, b: i64) -> (r: i64)
    requires
        0 < b,
        -0x4000_0000_0000_0000 <= a <= 0x4000_0000_0000_0000,
    ensures
        r == div_trunc_spec(a as int, b as int),
{
    if a >= 0 {
        proof {
            vstd::arithmetic::div_mod::lemma_div_is_ordered(0, a as int, b as int);
        }
        a / b
    } else {
        proof {
            vstd::arithmetic::div_mod::lemma_div_is_ordered(0, -(a as int), b as int);
        }
        -((-a) / b)
    }
}

/// Bounds on a product of a nonnegative factor and a signed factor.
pub proof fn lemma_mul_bounds_signed(x: int, xb: int, y: int, yb: int)
    requires
        0 <= x <= xb,
        -yb <= y <= yb,
    ensures
        -(xb * yb) <= x * y <= xb * yb,
{
    vstd::arithmetic::mul::lemma_mul_inequality(y, yb, x);
    vstd::arithmetic::mul::lemma_mul_inequality(-yb, y, x);
    vstd::arithmetic::mul::lemma_mul_inequality(x, xb, yb);
    vstd::arithmetic::mul::lemma_mul_is_commutative(x, y);
    vstd::arithmetic::mul::lemma_mul_is_commutative(x, yb);
    vstd::arithmetic::mul::lemma_mul_unary_negation(yb, x);
}

/// Bounds on a product of two signed factors.
pub proof fn lemma_mul_bounds_abs(x: int, xb: int, y: int, yb: int)
    requires
        -xb <= x <= xb,
        -yb <= y <= yb,
    ensures
        -(xb * yb) <= x * y <= xb * yb,
{
    if x >= 0 {
        lemma_mul_bounds_signed(x, xb, y, yb);
    } else {
        lemma_mul_bounds_signed(-x, xb, y, yb);
        vstd::arithmetic::mul::lemma_mul_unary_negation(x, y);
    }
}

/// A value forced into a closed interval.
pub open spec fn clamp_spec(x: int, lo: int, hi: int) -> int {
    if x < lo { lo } else if x > hi { hi } else { x }
}

/// Force a value into a closed interval.
pub fn clamp(x: i64, lo: i64, hi: i64) -> (r: i64)
    requires
        lo <= hi,
    ensures
        r == clamp_spec(x as int, lo as int, hi as int),
        lo <= r <= hi,
{
    if x < lo { lo } else if x > hi { hi } else { x }
}

/// Interpolation between fixed-point values `a` and `b`: weight 0 gives `a`,
/// weight `FP_ONE` gives `b`, intermediate weights round toward `a`.
pub open spec fn fp_lerp_spec(a: int, b: int, w: int) -> int {
    if b >= a {
        a + (w * (b - a)) / (FP_ONE as int)
    } else {
        a - (w * (a - b)) / (FP_ONE as int)
    }
}

/// Interpolate between two nonnegative fixed-point values.
pub fn fp_lerp(a: i64, b: i64, w: i64) -> (r: i64)
    requires
        0 <= a <= FP_LIMIT,
        0 <= b <= FP_LIMIT,
        0 <= w <= FP_ONE,
    ensures
        r == fp_lerp_spec(a as int, b as int, w as int),
        w == 0 ==> r == a,
        w == FP_ONE ==> r == b,
        a <= b ==> a <= r <= b,
        b <= a ==> b <= r <= a,
{
    if b >= a {
        let diff = b - a;
        proof {
            lemma_fp_scale_bounds(diff as int, w as int);
        }
        a + (w * diff) / FP_ONE
    } else {
        let diff = a - b;
        proof {
            lemma_fp_scale_bounds(diff as int, w as int);
        }
        a - (w * diff) / FP_ONE
    }
}

/// A weight of at most `FP_ONE` scales a nonnegative difference to a value
/// between 0 and the difference, exactly reaching it at full weight.
proof fn lemma_fp_scale_bounds(diff: int, w: int)
    requires
        0 <= diff,
        0 <= w <= FP_ONE,
    ensures
        0 <= (w * diff) / (FP_ONE as int) <= diff,
        w == FP_ONE ==> (w * diff) / (FP_ONE as int) == diff,
        w == 0 ==> (w * diff) / (FP_ONE as int) == 0,
{
    vstd::arithmetic::mul::lemma_mul_nonnegative(w, diff);
    vstd::arithmetic::mul::lemma_mul_inequality(w, FP_ONE as int, diff);
    vstd::arithmetic::div_mod::lemma_div_is_ordered(0, w * diff, FP_ONE as int);
    vstd::arithmetic::div_mod::lemma_div_is_ordered(w * diff, (FP_ONE as int) * diff, FP_ONE as int);
    vstd::arithmetic::div_mod::lemma_div_multiples_vanish(diff, FP_ONE as int);
}

/// Interpolation moves monotonically from `a` to `b` as the weight grows.
pub proof fn lemma_fp_lerp_monotonic(a: int, b: int, w1: int, w2: int)
    requires
        0 <= a,
        0 <= b,
        0 <= w1 <= w2 <= FP_ONE,
    ensures
        a <= b ==> fp_lerp_spec(a, b, w1) <= fp_lerp_spec(a, b, w2),
        b <= a ==> fp_lerp_spec(a, b, w2) <= fp_lerp_spec(a, b, w1),
{
    if a <= b {
        vstd::arithmetic::mul::lemma_mul_inequality(w1, w2, b - a);
        vstd::arithmetic::div_mod::lemma_div_is_ordered(w1 * (b - a), w2 * (b - a), FP_ONE as int);
    } else {
        vstd::arithmetic::mul::lemma_mul_inequality(w1, w2, a - b);
        vstd::arithmetic::div_mod::lemma_div_is_ordered(w1 * (a - b), w2 * (a - b), FP_ONE as int);
    }
}

/// The fixed-point product grows with either factor.
pub proof fn lemma_fp_mul_monotonic(a1: int, b1: int, a2: int, b2: int)
    requires
        0 <= a1 <= a2,
        0 <= b1 <= b2,
    ensures
        0 <= fp_mul_spec(a1, b1) <= fp_mul_spec(a2, b2),
{
    vstd::arithmetic::mul::lemma_mul_nonnegative(a1, b1);
    vstd::arithmetic::mul::lemma_mul_inequality(a1, a2, b1);
    vstd::arithmetic::mul::lemma_mul_inequality(b1, b2, a2);
    vstd::arithmetic::mul::lemma_mul_is_commutative(a2, b1);
    vstd::arithmetic::mul::lemma_mul_is_commutative(a2, b2);
    vstd::arithmetic::div_mod::lemma_div_is_ordered(0, a1 * b1, FP_ONE as int);
    vstd::arithmetic::div_mod::lemma_div_is_ordered(a1 * b1, a2 * b2, FP_ONE as int);
}

/// The product of two fixed-point values at most one is at most one.
pub proof fn lemma_fp_mul_unit(a: int, b: int)
    requires
        0 <= a <= FP_ONE,
        0 <= b <= FP_ONE,
    ensures
        0 <= fp_mul_spec(a, b) <= FP_ONE,
{
    lemma_fp_mul_monotonic(a, b, FP_ONE as int, FP_ONE as int);
    vstd::arithmetic::div_mod::lemma_div_multiples_vanish(FP_ONE as int, FP_ONE as int);
}

/// Interpolation stays between its endpoints and is exact at the ends.
pub proof fn lemma_fp_lerp_bounds(a: int, b: int, w: int)
    requires
        0 <= a,
        0 <= b,
        0 <= w <= FP_ONE,
    ensures
        a <= b ==> a <= fp_lerp_spec(a, b, w) <= b,
        b <= a ==> b <= fp_lerp_spec(a, b, w) <= a,
        w == 0 ==> fp_lerp_spec(a, b, w) == a,
        w == FP_ONE ==> fp_lerp_spec(a, b, w) == b,
{
    if b >= a {
        lemma_fp_scale_bounds(b - a, w);
    } else {
        lemma_fp_scale_bounds(a - b, w);
    }
}

/// The easing curve used for scheduled transitions: a smooth ramp from 0 at
/// progress 0 to `FP_ONE` at progress `FP_ONE`, with zero slope at both ends
/// (the fixed-point counterpart of the raised-cosine law).
pub open spec fn ease_spec(f: int) -> int {
    (f * f * (3 * (FP_ONE as int) - 2 * f)) / ((FP_ONE as int) * (FP_ONE as int))
}

/// Evaluate the easing curve at a progress fraction.
pub fn ease(f: i64) -> (r: i64)
    requires
        0 <= f <= FP_ONE,
    ensures
        r == ease_spec(f as int),
        0 <= r <= FP_ONE,
        f == 0 ==> r == 0,
        f == FP_ONE ==> r == FP_ONE,
{
    proof {
        vstd::arithmetic::mul::lemma_mul_upper_bound(f as int, FP_ONE as int, f as int, FP_ONE as int);
        lemma_ease_bounds(f as int);
    }
    (f * f * (3 * FP_ONE - 2 * f)) / (FP_ONE * FP_ONE)
}

/// The easing numerator stays within the square scale, so the curve maps
/// [0, FP_ONE] into [0, FP_ONE] and is exact at both ends.
pub proof fn lemma_ease_bounds(f: int)
    requires
        0 <= f <= FP_ONE,
    ensures
        0 <= f * f * (3 * (FP_ONE as int) - 2 * f),
        f * f * (3 * (FP_ONE as int) - 2 * f)
            <= (FP_ONE as int) * (FP_ONE as int) * (FP_ONE as int),
        0 <= ease_spec(f) <= FP_ONE,
        f == 0 ==> ease_spec(f) == 0,
        f == FP_ONE ==> ease_spec(f) == FP_ONE,
{
    let d = FP_ONE as int;
    assert(0 <= f * f * (3 * d - 2 * f)) by (nonlinear_arith)
        requires
            0 <= f <= d,
    ;
    assert(f * f * (3 * d - 2 * f) <= d * d * d) by (nonlinear_arith)
        requires
            0 <= f <= d,
    ;
    vstd::arithmetic::div_mod::lemma_div_is_ordered(0, f * f * (3 * d - 2 * f), d * d);
    vstd::arithmetic::div_mod::lemma_div_is_ordered(f * f * (3 * d - 2 * f), d * d * d, d * d);
    vstd::arithmetic::div_mod::lemma_div_multiples_vanish(d, d * d);
    assert(d * d * d == d * (d * d)) by (nonlinear_arith);
    if f == d {
        assert(f * f * (3 * d - 2 * f) == d * (d * d)) by (nonlinear_arith)
            requires
                f == d,
        ;
    }
}

/// The easing curve never decreases as the progress fraction grows.
pub proof fn lemma_ease_monotonic(f1: int, f2: int)
    requires
        0 <= f1 <= f2 <= FP_ONE,
    ensures
        ease_spec(f1) <= ease_spec(f2),
{
    let d = FP_ONE as int;
    assert(f1 * f1 * (3 * d - 2 * f1) <= f2 * f2 * (3 * d - 2 * f2)) by (nonlinear_arith)
        requires
            0 <= f1 <= f2 <= d,
    ;
    vstd::arithmetic::div_mod::lemma_div_is_ordered(
        f1 * f1 * (3 * d - 2 * f1), f2 * f2 * (3 * d - 2 * f2), d * d);
}

/// Fixed-point frequency ratio of `r` equal-tempered semitones, 0 <= r < 12.
pub open spec fn semitone_ratio_spec(r: int) -> int {
    if r == 0 { 65536 }
    else if r == 1 { 69433 }
    else if r == 2 { 73562 }
    else if r == 3 { 77936 }
    else if r == 4 { 82570 }
    else if r == 5 { 87480 }
    else if r == 6 { 92682 }
    else if r == 7 { 98193 }
    else if r == 8 { 104032 }
    else if r == 9 { 110218 }
    else if r == 10 { 116772 }
    else { 123715 }
}

/// Frequency ratio of `r` semitones above a reference pitch.
pub fn semitone_ratio(r: i64) -> (f: i64)
    requires
        0 <= r <= 11,
    ensures
        f == semitone_ratio_spec(r as int),
        FP_ONE <= f < 2 * FP_ONE,
{
    if r == 0 { 65536 }
    else if r == 1 { 69433 }
    else if r == 2 { 73562 }
    else if r == 3 { 77936 }
    else if r == 4 { 82570 }
    else if r == 5 { 87480 }
    else if r == 6 { 92682 }
    else if r == 7 { 98193 }
    else if r == 8 { 104032 }
    else if r == 9 { 110218 }
    else if r == 10 { 116772 }
    else { 123715 }
}

/// Fixed-point frequency in Hz of a note index in equal temperament with
/// A above middle C (note 69) at 440 Hz.
pub open spec fn note_frequency_spec(note: int) -> int {
    let d = note + 51;
    let q = d / 12;
    let t = 440 * semitone_ratio_spec(d % 12);
    if q == 4 { t / 64 }
    else if q == 5 { t / 32 }
    else if q == 6 { t / 16 }
    else if q == 7 { t / 8 }
    else if q == 8 { t / 4 }
    else if q == 9 { t / 2 }
    else if q == 10 { t }
    else if q == 11 { t * 2 }
    else if q == 12 { t * 4 }
    else if q == 13 { t * 8 }
    else { t * 16 }
}

/// Fixed-point frequency in Hz of a note index.
pub fn note_frequency(note: i32) -> (f: i64)
    requires
        0 <= note <= 127,
    ensures
        f == note_frequency_spec(note as int),
        8 * FP_ONE <= f <= 13000 * FP_ONE,
{
    let d: i64 = note as i64 + 51;
    let q = d / 12;
    let t = 440 * semitone_ratio(d % 12);
    if q == 4 { t / 64 }
    else if q == 5 { t / 32 }
    else if q == 6 { t / 16 }
    else if q == 7 { t / 8 }
    else if q == 8 { t / 4 }
    else if q == 9 { t / 2 }
    else if q == 10 { t }
    else if q == 11 { t * 2 }
    else if q == 12 { t * 4 }
    else if q == 13 { t * 8 }
    else { t * 16 }
}

/// Fixed-point ratio one octave below to one octave above a reference, for
/// `k` semitones above the lower octave, 0 <= k <= 25.
pub open spec fn octave_ratio_spec(k: int) -> int {
    if k < 12 { semitone_ratio_spec(k) / 2 }
    else if k < 24 { semitone_ratio_spec(k - 12) }
    else { semitone_ratio_spec(k - 24) * 2 }
}

fn octave_ratio(k: i64) -> (f: i64)
    requires
        0 <= k <= 25,
    ensures
        f == octave_ratio_spec(k as int),
        FP_ONE / 2 <= f < 4 * FP_ONE,
{
    if k < 12 { semitone_ratio(k) / 2 }
    else if k < 24 { semitone_ratio(k - 12) }
    else { semitone_ratio(k - 24) * 2 }
}

/// Pitch-bend multiplier for a signed amount of semitones in fixed point,
/// interpolated linearly between adjacent equal-tempered semitone ratios.
pub open spec fn bend_ratio_spec(semitones: int) -> int {
    let t = semitones + 12 * (FP_ONE as int);
    let k = t / (FP_ONE as int);
    fp_lerp_spec(octave_ratio_spec(k), octave_ratio_spec(k + 1), t % (FP_ONE as int))
}

/// Pitch-bend multiplier for a bend of `semitones` (fixed point, at most an
/// octave in either direction).
pub fn bend_ratio(semitones: i64) -> (r: i64)
    requires
        -12 * FP_ONE <= semitones <= 12 * FP_ONE,
    ensures
        r == bend_ratio_spec(semitones as int),
        FP_ONE / 2 <= r <= 4 * FP_ONE,
        semitones == 0 ==> r == FP_ONE,
        semitones == 12 * FP_ONE ==> r == 2 * FP_ONE,
{
    let t = semitones + 12 * FP_ONE;
    let k = t / FP_ONE;
    let f = t % FP_ONE;
    let r0 = octave_ratio(k);
    let r1 = octave_ratio(k + 1);
    fp_lerp(r0, r1, f)
}

} // verus!
