//! Fixed-point sine and cosine on a 16-bit circle.
//!
//! Angles are measured in 1/[`TURN`] of a full circle, so wrapping an
//! angle is a plain remainder.  The half-wave values come from the
//! rational approximation `16 u / (5 - 4 u)` of `sin(pi t)` with
//! `u = t (1 - t)`, evaluated in integers; the result always lies in
//! `-FP_ONE ..= FP_ONE`.

use vstd::prelude::*;
use vstd::arithmetic::div_mod::{lemma_div_pos_is_pos, lemma_multiply_divide_le};
use crate::fixed::FP_ONE;

verus! {

/// Angle units in a full circle.
pub const TURN: i64 = 65536;

/// Angle units in half a circle.
pub const HALF_TURN: i64 = 32768;

/// Angle units in a quarter circle.
pub const QUARTER_TURN: i64 = 16384;

/// Angle units per radian, `TURN / (2 pi)` rounded.
pub const UNITS_PER_RADIAN: i64 = 10430;

/// The sine value for an angle in the first half circle, scaled by
/// `FP_ONE`.
pub open spec fn half_sin_spec(x: int) -> int {
    let u = x * (HALF_TURN - x);
    (16 * u * FP_ONE) / (5 * HALF_TURN * HALF_TURN - 4 * u)
}

/// The sine value for an angle in `0 .. TURN`, scaled by `FP_ONE`.
pub open spec fn sin_spec(a: int) -> int {
    if a < HALF_TURN {
        half_sin_spec(a)
    } else {
        -half_sin_spec(a - HALF_TURN)
    }
}

/// The cosine value for an angle in `0 .. TURN`, scaled by `FP_ONE`.
pub open spec fn cos_spec(a: int) -> int {
    sin_spec((a + QUARTER_TURN) % (TURN as int))
}

/// The half-wave approximation stays in `0 ..= FP_ONE`.
pub proof fn lemma_half_sin_bounds(x: int)
    requires
        0 <= x <= HALF_TURN,
    ensures
        0 <= half_sin_spec(x) <= FP_ONE,
{
    let h = HALF_TURN as int;
    let u = x * (h - x);
    assert(0 <= u && 4 * u <= h * h) by (nonlinear_arith)
        requires 0 <= x <= h && u == x * (h - x);
    let num = 16 * u * (FP_ONE as int);
    let den = 5 * h * h - 4 * u;
    assert(num >= 0) by (nonlinear_arith)
        requires u >= 0 && num == 16 * u * (FP_ONE as int);
    assert(den >= 4 * h * h);
    lemma_div_pos_is_pos(num, den);
    assert(num <= den * (FP_ONE as int)) by (nonlinear_arith)
        requires 4 * u <= h * h && num == 16 * u * (FP_ONE as int)
            && den == 5 * h * h - 4 * u && h == HALF_TURN as int;
    lemma_multiply_divide_le(num, den, FP_ONE as int);
}

/// The sine of any angle in `0 .. TURN` stays in `-FP_ONE ..= FP_ONE`.
pub proof fn lemma_sin_bounds(a: int)
    requires
        0 <= a < TURN,
    ensures
        -FP_ONE <= sin_spec(a) <= FP_ONE,
{
    if a < HALF_TURN {
        lemma_half_sin_bounds(a);
    } else {
        lemma_half_sin_bounds(a - HALF_TURN);
    }
}

/// The sine value on the first half circle.
fn half_sin(x: i64) -> (r: i64)
    requires
        0 <= x <= HALF_TURN,
    ensures
        r == half_sin_spec(x as int),
        0 <= r <= FP_ONE,
{
    proof {
        lemma_half_sin_bounds(x as int);
        assert(0 <= x * (HALF_TURN - x) <= HALF_TURN * HALF_TURN) by (nonlinear_arith)
            requires 0 <= x <= HALF_TURN;
    }
    let u = x * (HALF_TURN - x);
    (16 * u * FP_ONE) / (5 * HALF_TURN * HALF_TURN - 4 * u)
}

/// The sine of an angle in `0 .. TURN`, scaled by `FP_ONE`.
pub fn sin_fixed(a: i64) -> (r: i64)
    requires
        0 <= a < TURN,
    ensures
        r == sin_spec(a as int),
        -FP_ONE <= r <= FP_ONE,
{
    if a < HALF_TURN {
        half_sin(a)
    } else {
        -half_sin(a - HALF_TURN)
    }
}

/// The cosine of an angle in `0 .. TURN`, scaled by `FP_ONE`.
pub fn cos_fixed(a: i64) -> (r: i64)
    requires
        0 <= a < TURN,
    ensures
        r == cos_spec(a as int),
        -FP_ONE <= r <= FP_ONE,
{
    let shifted = (a + QUARTER_TURN) % TURN;
    sin_fixed(shifted)
}

} // verus!
