//! Fixed-point number base for the synthesizer core.
//!
//! Gains and samples are stored in `i64` values scaled by [`FP_ONE`]:
//! `FP_ONE` stands for 1.0, and a gain in the unit interval lies in
//! `0 ..= FP_ONE`.  Scaling one value by another divides the product by
//! `FP_ONE`, rounding the magnitude down, so scaling by a unit-interval
//! gain never increases a sample's magnitude.

use vstd::prelude::*;
use vstd::arithmetic::div_mod::{
    lemma_div_is_ordered, lemma_div_multiples_vanish, lemma_div_pos_is_pos,
};
use vstd::arithmetic::mul::lemma_mul_inequality;

verus! {

/// The fixed-point representation of 1.0.
pub const FP_ONE: i64 = 32768;

/// Largest envelope or note length, in samples, that the core accepts.
pub const MAX_ENV_LEN: usize = 0x4000_0000;

/// Largest audio frame (samples per callback) that the core accepts.
pub const MAX_FRAME: usize = 0x0010_0000;

/// Playback cursors are no longer advanced past this position.  It lies
/// a factor of two beyond the longest admitted envelope, so a release
/// window (at most `MAX_ENV_LEN` samples) always expires, and the voice
/// is reaped, before the cursor freezes; a frozen cursor only ever
/// belongs to a held note, whose output is constant by then.
pub const MAX_START: usize = 0x8000_0000;

/// Largest number of simultaneous voices the mixer accepts.
pub const MAX_VOICES: usize = 0x0100_0000;

/// Magnitude bound on the samples of every audio buffer the core touches.
pub const AUDIO_LIMIT: i64 = 0x100_0000_0000;

/// Scaling a sample `x` by a unit-interval gain `g`: the product divided
/// by `FP_ONE`, with the magnitude rounded toward zero.
pub open spec fn fp_mul(x: int, g: int) -> int {
    if x >= 0 {
        (x * g) / (FP_ONE as int)
    } else {
        -(((-x) * g) / (FP_ONE as int))
    }
}

/// Multiply a sample by a gain in `0 ..= FP_ONE`, rounding toward zero.
pub fn scale_signed(x: i64, g: i64) -> (r: i64)
    requires
        0 <= g <= FP_ONE,
        -AUDIO_LIMIT <= x <= AUDIO_LIMIT,
    ensures
        r == fp_mul(x as int, g as int),
        x >= 0 ==> 0 <= r <= x,
        x < 0 ==> x <= r <= 0,
{
    proof {
        lemma_fp_mul_bounded(x as int, g as int);
    }
    if x >= 0 {
        (x * g) / FP_ONE
    } else {
        -(((-x) * g) / FP_ONE)
    }
}

/// Scaling by a unit-interval gain keeps a nonnegative value in `0 ..= x`
/// and a negative value in `x ..= 0`.
pub proof fn lemma_fp_mul_bounded(x: int, g: int)
    requires
        0 <= g <= FP_ONE,
    ensures
        x >= 0 ==> 0 <= fp_mul(x, g) <= x,
        x < 0 ==> x <= fp_mul(x, g) <= 0,
{
    let s = FP_ONE as int;
    if x >= 0 {
        lemma_mul_inequality(g, s, x);
        assert(x * g == g * x) by (nonlinear_arith);
        assert(x * s == s * x) by (nonlinear_arith);
        lemma_div_is_ordered(x * g, x * s, s);
        lemma_div_multiples_vanish(x, s);
        if x * g > 0 {
            lemma_div_pos_is_pos(x * g, s);
        } else {
            assert(x * g == 0 || x == 0) by (nonlinear_arith)
                requires x >= 0 && g >= 0 && x * g <= 0;
        }
        assert(x * g >= 0) by (nonlinear_arith)
            requires x >= 0 && g >= 0;
        lemma_div_pos_is_pos(x * g, s);
    } else {
        let y = -x;
        lemma_mul_inequality(g, s, y);
        assert(y * g == g * y) by (nonlinear_arith);
        assert(y * s == s * y) by (nonlinear_arith);
        lemma_div_is_ordered(y * g, y * s, s);
        lemma_div_multiples_vanish(y, s);
        assert(y * g >= 0) by (nonlinear_arith)
            requires y >= 0 && g >= 0;
        lemma_div_pos_is_pos(y * g, s);
    }
}

/// Multiply two gains in `0 ..= FP_ONE`; the result stays in that range.
pub fn gain_mul(a: i64, b: i64) -> (r: i64)
    requires
        0 <= a <= FP_ONE,
        0 <= b <= FP_ONE,
    ensures
        r == fp_mul(a as int, b as int),
        0 <= r <= a,
        r <= b,
{
    proof {
        lemma_fp_mul_bounded(a as int, b as int);
        lemma_fp_mul_le_gain(a as int, b as int);
    }
    (a * b) / FP_ONE
}

/// Scaling a sample `a` by a signed unit-interval factor `b`: the sign
/// of the product, with the magnitude of `fp_mul`.
pub open spec fn fp_mul_signed(a: int, b: int) -> int {
    if b >= 0 {
        fp_mul(a, b)
    } else {
        -fp_mul(a, -b)
    }
}

/// Multiply a sample by a signed factor in `-FP_ONE ..= FP_ONE`,
/// rounding the magnitude toward zero; the magnitude never grows.
pub fn mul_signed(a: i64, b: i64) -> (r: i64)
    requires
        -AUDIO_LIMIT <= a <= AUDIO_LIMIT,
        -FP_ONE <= b <= FP_ONE,
    ensures
        r == fp_mul_signed(a as int, b as int),
        a >= 0 ==> -a <= r <= a,
        a < 0 ==> a <= r <= -a,
{
    if b >= 0 {
        scale_signed(a, b)
    } else {
        -scale_signed(a, -b)
    }
}

/// Scaling a value in `0 ..= FP_ONE` by a gain `g` stays at or below `g`.
pub proof fn lemma_fp_mul_le_gain(a: int, g: int)
    requires
        0 <= a <= FP_ONE,
        0 <= g,
    ensures
        fp_mul(a, g) <= g,
{
    let s = FP_ONE as int;
    lemma_mul_inequality(a, s, g);
    assert(a * g == g * a) by (nonlinear_arith);
    assert(s * g == g * s) by (nonlinear_arith);
    lemma_div_is_ordered(a * g, g * s, s);
    lemma_div_multiples_vanish(g, s);
}

} // verus!
