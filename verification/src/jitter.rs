//! Jitter: the random share of a delay that is given up, so that many
//! clients that retry at once do not come back at once.
//!
//! Fractions (jitter factors, multipliers, random scalars) are fixed-point
//! numbers counted in millionths: [`UNIT`] stands for 1.0. A jitter factor or
//! a scalar outside the range from 0.0 to 1.0 counts as the nearest bound.

use vstd::prelude::*;

verus! {

/// The fixed-point representation of 1.0.
pub const UNIT: i64 = 1_000_000;

/// A fraction brought into the range from 0.0 to 1.0.
pub open spec fn clamp_unit(x: i64) -> i64 {
    if x < 0 {
        0
    } else if x > UNIT {
        UNIT
    } else {
        x
    }
}

/// The share of a base delay that is kept, in parts of `UNIT * UNIT`:
/// `1 - jitter + scalar * jitter`, with both fractions clamped to at most 1.0.
pub open spec fn blend(jitter_factor: i64, scalar: i64) -> int {
    (UNIT - clamp_unit(jitter_factor)) * UNIT + clamp_unit(scalar) * clamp_unit(jitter_factor)
}

/// The delay in whole milliseconds after jitter: `base` times the blend, rounded down.
pub open spec fn jittered(base: u64, jitter_factor: i64, scalar: i64) -> int {
    base * blend(jitter_factor, scalar) / (UNIT * UNIT)
}

/// The blend lies between `1 - jitter` and 1.
pub proof fn lemma_blend_bounds(jitter_factor: i64, scalar: i64)
    ensures
        (UNIT - clamp_unit(jitter_factor)) * UNIT <= blend(jitter_factor, scalar) <= UNIT * UNIT,
        jitter_factor <= 0 ==> blend(jitter_factor, scalar) == UNIT * UNIT,
        scalar >= UNIT ==> blend(jitter_factor, scalar) == UNIT * UNIT,
{
    let j = clamp_unit(jitter_factor) as int;
    let r = clamp_unit(scalar) as int;
    assert(0 <= r * j <= UNIT * j) by (nonlinear_arith)
        requires
            0 <= r <= UNIT,
            0 <= j,
    ;
    assert((UNIT - j) * UNIT + UNIT * j == UNIT * UNIT) by (nonlinear_arith);
}

/// A jittered delay is never negative and never above the base delay; without
/// jitter it is the base delay itself.
pub proof fn lemma_jittered_bounds(base: u64, jitter_factor: i64, scalar: i64)
    ensures
        0 <= jittered(base, jitter_factor, scalar) <= base,
        jitter_factor <= 0 ==> jittered(base, jitter_factor, scalar) == base,
        scalar >= UNIT ==> jittered(base, jitter_factor, scalar) == base,
{
    lemma_blend_bounds(jitter_factor, scalar);
    let w = blend(jitter_factor, scalar);
    let d = UNIT * UNIT;
    assert(0 <= base * w <= base * d) by (nonlinear_arith)
        requires
            0 <= w <= d,
            0 <= base,
    ;
    assert(0 <= (base * w) / d <= base) by (nonlinear_arith)
        requires
            0 <= base * w <= base * d,
            d > 0,
    ;
    assert((base * d) / d == base) by (nonlinear_arith)
        requires
            d > 0,
    ;
}

/// More of the random scalar never shortens the delay.
pub proof fn lemma_jittered_monotonic(base: u64, jitter_factor: i64, low: i64, high: i64)
    requires
        low <= high,
    ensures
        jittered(base, jitter_factor, low) <= jittered(base, jitter_factor, high),
{
    let j = clamp_unit(jitter_factor) as int;
    let a = clamp_unit(low) as int;
    let b = clamp_unit(high) as int;
    let d = UNIT * UNIT;
    assert(a * j <= b * j) by (nonlinear_arith)
        requires
            a <= b,
            0 <= j,
    ;
    let wa = blend(jitter_factor, low);
    let wb = blend(jitter_factor, high);
    assert(base * wa <= base * wb) by (nonlinear_arith)
        requires
            wa <= wb,
            0 <= base,
    ;
    assert((base * wa) / d <= (base * wb) / d) by (nonlinear_arith)
        requires
            base * wa <= base * wb,
            d > 0,
    ;
}

/// Clamps a jitter factor to the range from 0.0 to 1.0.
pub fn normalize_jitter(jitter_factor: i64) -> (r: i64)
    ensures
        r == clamp_unit(jitter_factor),
{
    if jitter_factor < 0 {
        0
    } else if jitter_factor > UNIT {
        UNIT
    } else {
        jitter_factor
    }
}

/// The blend of `jitter_factor` and the random `scalar`, in parts of `UNIT * UNIT`.
pub fn blend_weight(jitter_factor: i64, scalar: i64) -> (w: u64)
    ensures
        w == blend(jitter_factor, scalar),
        w <= UNIT * UNIT,
{
    let unit: u64 = UNIT as u64;
    let j: u64 = normalize_jitter(jitter_factor) as u64;
    let r: u64 = normalize_jitter(scalar) as u64;
    proof {
        lemma_blend_bounds(jitter_factor, scalar);
        assert(0 <= r * j <= UNIT * UNIT) by (nonlinear_arith)
            requires
                0 <= r <= UNIT,
                0 <= j <= UNIT,
        ;
    }
    (unit - j) * unit + r * j
}

/// Scales `base` by the blend of `jitter_factor` and the random `scalar`.
pub fn apply_jitter(base: u64, jitter_factor: i64, scalar: i64) -> (d: u64)
    ensures
        d == jittered(base, jitter_factor, scalar),
        d <= base,
        jitter_factor <= 0 ==> d == base,
{
    let weight: u64 = blend_weight(jitter_factor, scalar);
    proof {
        lemma_jittered_bounds(base, jitter_factor, scalar);
    }
    assert(base * weight <= u64::MAX * (UNIT * UNIT)) by (nonlinear_arith)
        requires
            0 <= weight <= UNIT * UNIT,
            0 <= base <= u64::MAX,
    ;
    let scaled: u128 = (base as u128) * (weight as u128) / 1_000_000_000_000u128;
    scaled as u64
}

} // verus!
