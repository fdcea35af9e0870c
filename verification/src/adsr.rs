//! ADSR envelope shapes: per-sample gain curves for the note-on phase
//! (attack, decay, held sustain) and the note-off phase (release, then
//! silence), plus the application of such a curve to one audio frame.
//!
//! All four parameters are fixed-point fractions: `ta`, `td` and `tr`
//! are shares of the note length, `ts` is the sustain gain.

use vstd::prelude::*;
use vstd::arithmetic::div_mod::{
    lemma_div_by_multiple, lemma_div_is_ordered, lemma_div_pos_is_pos,
    lemma_fundamental_div_mod, lemma_hoist_over_denominator, lemma_multiply_divide_le,
};
use vstd::arithmetic::mul::{lemma_mul_inequality, lemma_mul_is_distributive_add_other_way};
use vstd::math::min;
use crate::fixed::{fp_mul, gain_mul, scale_signed, AUDIO_LIMIT, FP_ONE, MAX_ENV_LEN, MAX_FRAME, MAX_START};
use crate::trigger_note_msg::NoteType;

verus! {

/// The envelope shape of one voice: attack, decay and release as
/// fixed-point fractions of the note length, sustain as a fixed-point
/// gain.
#[derive(Clone, Copy, Debug)]
pub struct Adsr {
    pub ta: i64,
    pub td: i64,
    pub ts: i64,
    pub tr: i64,
}

/// The attack share after normalization: when attack and decay together
/// would exceed the whole note, both are scaled down to fill it exactly;
/// otherwise the raw fractions stand.
pub open spec fn norm_attack(adsr: Adsr) -> int {
    let ad_sum = adsr.ta + adsr.td;
    if ad_sum < FP_ONE {
        adsr.ta as int
    } else {
        (adsr.ta * FP_ONE) / ad_sum
    }
}

/// The decay share after the same normalization.
pub open spec fn norm_decay(adsr: Adsr) -> int {
    let ad_sum = adsr.ta + adsr.td;
    if ad_sum < FP_ONE {
        adsr.td as int
    } else {
        (adsr.td * FP_ONE) / ad_sum
    }
}

/// The attack span scaled by `FP_ONE`: fractional samples of attack.
pub open spec fn fmax_attack(adsr: Adsr, size: int) -> int {
    norm_attack(adsr) * (size - 1)
}

/// The decay span scaled by `FP_ONE`.
pub open spec fn fmax_decay(adsr: Adsr, size: int) -> int {
    norm_decay(adsr) * (size - 1)
}

/// Whole samples of attack in a note-on envelope of `size` samples.
pub open spec fn attack_len(adsr: Adsr, size: int) -> int {
    min(fmax_attack(adsr, size) / (FP_ONE as int), size)
}

/// Whole samples of decay in a note-on envelope of `size` samples.
pub open spec fn decay_len(adsr: Adsr, size: int) -> int {
    min(fmax_decay(adsr, size) / (FP_ONE as int), size)
}

/// The note-on envelope's gain at index `i`: a linear ramp from
/// `last_value` to full scale, a linear ramp down to the sustain level,
/// then the sustain level held.
pub open spec fn env_on_at(adsr: Adsr, size: int, last_value: int, i: int) -> int {
    let ma = attack_len(adsr, size);
    let md = decay_len(adsr, size);
    if i < ma {
        last_value + ((FP_ONE - last_value) * (i * FP_ONE)) / fmax_attack(adsr, size)
    } else if i < ma + md {
        FP_ONE - ((FP_ONE - adsr.ts) * ((i - ma) * FP_ONE)) / fmax_decay(adsr, size)
    } else {
        adsr.ts as int
    }
}

/// Whole samples of release in a note-off envelope of `size` samples.
pub open spec fn release_len(adsr: Adsr, size: int) -> int {
    (adsr.tr * size) / (FP_ONE as int)
}

/// The note-off envelope's gain at index `i`: a linear ramp from the
/// sustain level to zero over the release window, then exact zero.
pub open spec fn env_off_at(adsr: Adsr, size: int, i: int) -> int {
    if i < release_len(adsr, size) {
        adsr.ts - (adsr.ts * (i * FP_ONE)) / (adsr.tr * size)
    } else {
        0
    }
}

/// The decay depth of the four-region curve, 0.7 in fixed point.
pub const FULL_DECAY_SPAN: i64 = 22938;

/// The sustain level of the four-region curve, 0.3 in fixed point.
pub const FULL_SUSTAIN: i64 = 9830;

/// The four-region curve's gain at index `i`: a ramp up from zero, a
/// ramp down to the fixed 0.3 sustain level, the held level, then a
/// repeating release ramp toward zero.
pub open spec fn env_full_at(adsr: Adsr, size: int, i: int) -> int {
    let ma = (adsr.ta * size) / (FP_ONE as int);
    let md = (adsr.td * size) / (FP_ONE as int);
    let ms = (adsr.ts * size) / (FP_ONE as int);
    let mr = (adsr.tr * size) / (FP_ONE as int);
    if i < ma {
        ((i * FP_ONE) * FP_ONE) / (adsr.ta * size)
    } else if i < ma + md {
        FP_ONE - (FULL_DECAY_SPAN * ((i - ma) * FP_ONE)) / (adsr.td * size)
    } else if i < ma + md + ms {
        FULL_SUSTAIN as int
    } else {
        let k = (i - (ma + md + ms)) % mr;
        FULL_SUSTAIN - (FULL_SUSTAIN * (k * FP_ONE)) / (adsr.tr * size)
    }
}

/// Floor division distributes over a sum no worse than term by term.
proof fn lemma_div_superadd(a: int, b: int, d: int)
    requires
        0 <= a,
        0 <= b,
        0 < d,
    ensures
        a / d + b / d <= (a + b) / d,
{
    lemma_fundamental_div_mod(a, d);
    lemma_fundamental_div_mod(b, d);
    let qa = a / d;
    let qb = b / d;
    let ra = a % d;
    let rb = b % d;
    lemma_hoist_over_denominator(ra + rb, qa + qb, d as nat);
    assert(ra + rb + (qa + qb) * d == a + b) by (nonlinear_arith)
        requires a == d * qa + ra && b == d * qb + rb;
    lemma_div_pos_is_pos(ra + rb, d);
}

/// A count below a scaled quota stays below the quota when scaled back.
proof fn lemma_below_quota(n: int, fmax: int)
    requires
        0 <= n,
        n < fmax / (FP_ONE as int),
    ensures
        (n + 1) * FP_ONE <= fmax,
        n * FP_ONE < fmax,
{
    let s = FP_ONE as int;
    lemma_fundamental_div_mod(fmax, s);
    lemma_mul_inequality(n + 1, fmax / s, s);
    assert((fmax / s) * s == s * (fmax / s)) by (nonlinear_arith);
    assert(n * s < (n + 1) * s) by (nonlinear_arith)
        requires s > 0;
}

/// A linear ramp share `span * (n * FP_ONE) / fmax` stays in
/// `0 ..= span` while `n` is below the quota.
proof fn lemma_ramp_share(span: int, n: int, fmax: int)
    requires
        0 <= span,
        0 <= n,
        n * FP_ONE <= fmax,
        0 < fmax,
    ensures
        0 <= (span * (n * FP_ONE)) / fmax <= span,
{
    let s = FP_ONE as int;
    assert(0 <= span * (n * s) <= span * fmax) by (nonlinear_arith)
        requires 0 <= span && 0 <= n * s <= fmax;
    lemma_div_pos_is_pos(span * (n * s), fmax);
    lemma_div_is_ordered(span * (n * s), span * fmax, fmax);
    lemma_div_by_multiple(span, fmax);
}

/// A unit-interval share of the envelope never exceeds the envelope.
proof fn lemma_region_le_size(frac: int, size: int)
    requires
        0 <= frac <= FP_ONE,
        0 <= size,
    ensures
        0 <= (frac * size) / (FP_ONE as int) <= size,
{
    let s = FP_ONE as int;
    assert(0 <= frac * size <= size * s) by (nonlinear_arith)
        requires 0 <= frac <= s && 0 <= size;
    lemma_div_pos_is_pos(frac * size, s);
    lemma_div_is_ordered(frac * size, size * s, s);
    lemma_div_by_multiple(size, s);
}

impl Adsr {
    /// The parameter ranges the envelope math is defined on: all four
    /// values are fixed-point fractions of the unit interval.
    pub open spec fn wf(self) -> bool {
        &&& 0 <= self.ta <= FP_ONE
        &&& 0 <= self.td <= FP_ONE
        &&& 0 <= self.ts <= FP_ONE
        &&& 0 <= self.tr <= FP_ONE
    }

    /// An envelope shape from its four fractions.
    pub fn new(ta: i64, td: i64, ts: i64, tr: i64) -> (r: Adsr)
        requires
            0 <= ta <= FP_ONE,
            0 <= td <= FP_ONE,
            0 <= ts <= FP_ONE,
            0 <= tr <= FP_ONE,
        ensures
            r == (Adsr { ta, td, ts, tr }),
            r.wf(),
    {
        Adsr { ta, td, ts, tr }
    }
}

/// The normalized attack and decay shares together never exceed one.
proof fn lemma_norm_sum(adsr: Adsr)
    requires
        adsr.wf(),
    ensures
        0 <= norm_attack(adsr),
        0 <= norm_decay(adsr),
        norm_attack(adsr) + norm_decay(adsr) <= FP_ONE,
{
    let s = FP_ONE as int;
    let ad_sum = adsr.ta + adsr.td;
    if ad_sum >= s {
        lemma_div_pos_is_pos(adsr.ta * s, ad_sum);
        lemma_div_pos_is_pos(adsr.td * s, ad_sum);
        lemma_div_superadd(adsr.ta * s, adsr.td * s, ad_sum);
        assert(adsr.ta * s + adsr.td * s == s * ad_sum) by (nonlinear_arith)
            requires ad_sum == adsr.ta + adsr.td;
        lemma_div_by_multiple(s, ad_sum);
        assert(s * ad_sum == ad_sum * s) by (nonlinear_arith);
    }
}

/// Attack and decay samples together fit strictly inside the envelope.
proof fn lemma_on_region_fits(adsr: Adsr, size: int)
    requires
        adsr.wf(),
        1 <= size,
    ensures
        0 <= attack_len(adsr, size),
        0 <= decay_len(adsr, size),
        attack_len(adsr, size) + decay_len(adsr, size) <= size - 1,
{
    let s = FP_ONE as int;
    let fa = fmax_attack(adsr, size);
    let fd = fmax_decay(adsr, size);
    lemma_norm_sum(adsr);
    assert(0 <= fa && 0 <= fd) by (nonlinear_arith)
        requires 0 <= norm_attack(adsr) && 0 <= norm_decay(adsr) && size >= 1
            && fa == norm_attack(adsr) * (size - 1) && fd == norm_decay(adsr) * (size - 1);
    lemma_div_pos_is_pos(fa, s);
    lemma_div_pos_is_pos(fd, s);
    lemma_div_superadd(fa, fd, s);
    assert(fa + fd == (norm_attack(adsr) + norm_decay(adsr)) * (size - 1)) by {
        lemma_mul_is_distributive_add_other_way(size - 1, norm_attack(adsr), norm_decay(adsr));
    }
    assert(fa + fd <= s * (size - 1)) by (nonlinear_arith)
        requires fa + fd == (norm_attack(adsr) + norm_decay(adsr)) * (size - 1)
            && norm_attack(adsr) + norm_decay(adsr) <= s && size >= 1;
    lemma_div_is_ordered(fa + fd, s * (size - 1), s);
    lemma_div_by_multiple(size - 1, s);
    assert(s * (size - 1) == (size - 1) * s) by (nonlinear_arith);
}

impl Adsr {
    /// The note-on gain curve: `size` samples ramping from `last_value`
    /// up to full scale, down to the sustain level, then holding it.
    pub fn generate_adsr_note_on_envelope(&self, size: usize, last_value: i64) -> (r: Vec<i64>)
        requires
            self.wf(),
            1 <= size <= MAX_ENV_LEN,
            0 <= last_value <= FP_ONE,
        ensures
            r@.len() == size,
            forall|i: int| 0 <= i < size ==>
                #[trigger] r@[i] == env_on_at(*self, size as int, last_value as int, i),
            forall|i: int| 0 <= i < size ==> 0 <= #[trigger] r@[i] <= FP_ONE,
            forall|i: int| attack_len(*self, size as int) + decay_len(*self, size as int) <= i < size
                ==> #[trigger] r@[i] == self.ts,
            attack_len(*self, size as int) > 0 ==> r@[0] == last_value,
    {
        let sz = size as i64;
        let ad_sum = self.ta + self.td;
        let norm_ta = if ad_sum < FP_ONE { self.ta } else { (self.ta * FP_ONE) / ad_sum };
        let norm_td = if ad_sum < FP_ONE { self.td } else { (self.td * FP_ONE) / ad_sum };
        proof {
            lemma_norm_sum(*self);
            lemma_on_region_fits(*self, size as int);
            assert(norm_ta * (sz - 1) == fmax_attack(*self, size as int));
            assert(norm_ta * (sz - 1) <= FP_ONE * (sz - 1)) by (nonlinear_arith)
                requires 0 <= norm_ta <= FP_ONE && sz >= 1;
            assert(norm_td * (sz - 1) <= FP_ONE * (sz - 1)) by (nonlinear_arith)
                requires 0 <= norm_td <= FP_ONE && sz >= 1;
        }
        let fa = norm_ta * (sz - 1);
        let fd = norm_td * (sz - 1);
        let qa = (fa / FP_ONE) as usize;
        let qd = (fd / FP_ONE) as usize;
        let max_attack = if qa < size { qa } else { size };
        let max_decay = if qd < size { qd } else { size };
        proof {
            assert(max_attack == attack_len(*self, size as int));
            assert(max_decay == decay_len(*self, size as int));
        }

        let ghost ssize = size as int;
        let ghost slast = last_value as int;
        let mut values: Vec<i64> = Vec::new();

        let mut n: usize = 0;
        while n < max_attack
            invariant
                self.wf(),
                0 <= last_value <= FP_ONE,
                1 <= size <= MAX_ENV_LEN,
                ssize == size as int,
                slast == last_value as int,
                fa == fmax_attack(*self, ssize),
                max_attack == attack_len(*self, ssize),
                n <= max_attack,
                values@.len() == n,
                forall|i: int| 0 <= i < n ==>
                    #[trigger] values@[i] == env_on_at(*self, ssize, slast, i),
                forall|i: int| 0 <= i < n ==> 0 <= #[trigger] values@[i] <= FP_ONE,
            decreases max_attack - n,
        {
            proof {
                lemma_below_quota(n as int, fa as int);
                lemma_ramp_share((FP_ONE - last_value) as int, n as int, fa as int);
                assert((n as int) * FP_ONE <= (MAX_ENV_LEN as int) * FP_ONE) by (nonlinear_arith)
                    requires 0 <= n <= MAX_ENV_LEN;
                assert(0 <= (FP_ONE - last_value) * ((n as int) * FP_ONE)
                    <= FP_ONE * ((MAX_ENV_LEN as int) * FP_ONE)) by (nonlinear_arith)
                    requires 0 <= FP_ONE - last_value <= FP_ONE
                        && 0 <= (n as int) * FP_ONE <= (MAX_ENV_LEN as int) * FP_ONE;
            }
            let share = ((FP_ONE - last_value) * ((n as i64) * FP_ONE)) / fa;
            values.push(last_value + share);
            n = n + 1;
        }

        let mut j: usize = 0;
        while j < max_decay
            invariant
                self.wf(),
                0 <= last_value <= FP_ONE,
                1 <= size <= MAX_ENV_LEN,
                ssize == size as int,
                slast == last_value as int,
                fd == fmax_decay(*self, ssize),
                max_attack == attack_len(*self, ssize),
                max_decay == decay_len(*self, ssize),
                j <= max_decay,
                values@.len() == max_attack + j,
                forall|i: int| 0 <= i < max_attack + j ==>
                    #[trigger] values@[i] == env_on_at(*self, ssize, slast, i),
                forall|i: int| 0 <= i < max_attack + j ==> 0 <= #[trigger] values@[i] <= FP_ONE,
            decreases max_decay - j,
        {
            proof {
                lemma_below_quota(j as int, fd as int);
                lemma_ramp_share((FP_ONE - self.ts) as int, j as int, fd as int);
                assert((j as int) * FP_ONE <= (MAX_ENV_LEN as int) * FP_ONE) by (nonlinear_arith)
                    requires 0 <= j <= MAX_ENV_LEN;
                assert(0 <= (FP_ONE - self.ts) * ((j as int) * FP_ONE)
                    <= FP_ONE * ((MAX_ENV_LEN as int) * FP_ONE)) by (nonlinear_arith)
                    requires 0 <= FP_ONE - self.ts <= FP_ONE
                        && 0 <= (j as int) * FP_ONE <= (MAX_ENV_LEN as int) * FP_ONE;
            }
            let share = ((FP_ONE - self.ts) * ((j as i64) * FP_ONE)) / fd;
            values.push(FP_ONE - share);
            j = j + 1;
        }

        proof {
            lemma_on_region_fits(*self, ssize);
        }
        let mut k: usize = max_attack + max_decay;
        while k < size
            invariant
                self.wf(),
                1 <= size <= MAX_ENV_LEN,
                ssize == size as int,
                slast == last_value as int,
                max_attack == attack_len(*self, ssize),
                max_decay == decay_len(*self, ssize),
                max_attack + max_decay <= k <= size,
                values@.len() == k,
                forall|i: int| 0 <= i < k ==>
                    #[trigger] values@[i] == env_on_at(*self, ssize, slast, i),
                forall|i: int| 0 <= i < k ==> 0 <= #[trigger] values@[i] <= FP_ONE,
            decreases size - k,
        {
            values.push(self.ts);
            k = k + 1;
        }
        proof {
            if attack_len(*self, ssize) > 0 {
                let fa0 = fmax_attack(*self, ssize);
                assert(fa0 / (FP_ONE as int) > 0);
                assert(fa0 > 0) by {
                    if fa0 <= 0 {
                        lemma_div_is_ordered(fa0, 0, FP_ONE as int);
                    }
                }
                assert((FP_ONE - slast) * (0 * FP_ONE) == 0) by (nonlinear_arith);
                assert(0int / fa0 == 0) by {
                    vstd::arithmetic::div_mod::lemma_div_of0(fa0);
                }
                assert(env_on_at(*self, ssize, slast, 0) == slast);
            }
        }
        values
    }

    /// The four-region gain curve: attack from zero, decay to the fixed
    /// 0.3 sustain level, the held level, then the release ramp repeated
    /// over whatever remains of the envelope.  When the four fractions
    /// exceed the whole, the curve runs longer than `size`.
    pub fn generate_adsr_envelope(&self, size: usize) -> (r: Vec<i64>)
        requires
            self.wf(),
            size <= MAX_ENV_LEN,
            ({
                let ma = (self.ta * size) / (FP_ONE as int);
                let md = (self.td * size) / (FP_ONE as int);
                let ms = (self.ts * size) / (FP_ONE as int);
                ma + md + ms < size ==> self.tr * size >= FP_ONE
            }),
        ensures
            ({
                let ma = (self.ta * size) / (FP_ONE as int);
                let md = (self.td * size) / (FP_ONE as int);
                let ms = (self.ts * size) / (FP_ONE as int);
                &&& r@.len() == vstd::math::max(size as int, ma + md + ms)
                &&& forall|i: int| 0 <= i < r@.len() ==>
                    #[trigger] r@[i] == env_full_at(*self, size as int, i)
                &&& forall|i: int| 0 <= i < r@.len() ==> 0 <= #[trigger] r@[i] <= FP_ONE
            }),
    {
        let sz = size as i64;
        proof {
            assert(0 <= self.ta * sz <= FP_ONE * (MAX_ENV_LEN as int)) by (nonlinear_arith)
                requires 0 <= self.ta <= FP_ONE && 0 <= sz <= MAX_ENV_LEN as int;
            assert(0 <= self.td * sz <= FP_ONE * (MAX_ENV_LEN as int)) by (nonlinear_arith)
                requires 0 <= self.td <= FP_ONE && 0 <= sz <= MAX_ENV_LEN as int;
            assert(0 <= self.ts * sz <= FP_ONE * (MAX_ENV_LEN as int)) by (nonlinear_arith)
                requires 0 <= self.ts <= FP_ONE && 0 <= sz <= MAX_ENV_LEN as int;
            assert(0 <= self.tr * sz <= FP_ONE * (MAX_ENV_LEN as int)) by (nonlinear_arith)
                requires 0 <= self.tr <= FP_ONE && 0 <= sz <= MAX_ENV_LEN as int;
        }
        let fa = self.ta * sz;
        let fd = self.td * sz;
        let fr = self.tr * sz;
        proof {
            lemma_region_le_size(self.ta as int, sz as int);
            lemma_region_le_size(self.td as int, sz as int);
            lemma_region_le_size(self.ts as int, sz as int);
            lemma_region_le_size(self.tr as int, sz as int);
        }
        let max_attack = (fa / FP_ONE) as usize;
        let max_decay = (fd / FP_ONE) as usize;
        let max_sustain = ((self.ts * sz) / FP_ONE) as usize;
        let max_release = (fr / FP_ONE) as usize;
        let ghost ssize = size as int;

        let mut values: Vec<i64> = Vec::new();
        let mut n: usize = 0;
        while n < max_attack
            invariant
                self.wf(),
                size <= MAX_ENV_LEN,
                ssize == size as int,
                fa == self.ta * ssize,
                max_attack == fa as int / (FP_ONE as int),
                max_attack <= size,
                n <= max_attack,
                values@.len() == n,
                forall|i: int| 0 <= i < n ==>
                    #[trigger] values@[i] == env_full_at(*self, ssize, i),
                forall|i: int| 0 <= i < n ==> 0 <= #[trigger] values@[i] <= FP_ONE,
            decreases max_attack - n,
        {
            proof {
                lemma_below_quota(n as int, fa as int);
                lemma_ramp_share(FP_ONE as int, n as int, fa as int);
                assert((n as int) * FP_ONE <= (MAX_ENV_LEN as int) * FP_ONE) by (nonlinear_arith)
                    requires 0 <= n <= MAX_ENV_LEN;
                assert(0 <= FP_ONE * ((n as int) * FP_ONE)
                    <= FP_ONE * ((MAX_ENV_LEN as int) * FP_ONE)) by (nonlinear_arith)
                    requires 0 <= (n as int) * FP_ONE <= (MAX_ENV_LEN as int) * FP_ONE;
                assert(FP_ONE * ((n as int) * FP_ONE) == ((n as int) * FP_ONE) * FP_ONE)
                    by (nonlinear_arith);
            }
            values.push((((n as i64) * FP_ONE) * FP_ONE) / fa);
            n = n + 1;
        }

        let mut j: usize = 0;
        while j < max_decay
            invariant
                self.wf(),
                size <= MAX_ENV_LEN,
                ssize == size as int,
                fd == self.td * ssize,
                max_attack == (self.ta * ssize) / (FP_ONE as int),
                max_decay == fd as int / (FP_ONE as int),
                max_decay <= size,
                j <= max_decay,
                values@.len() == max_attack + j,
                forall|i: int| 0 <= i < max_attack + j ==>
                    #[trigger] values@[i] == env_full_at(*self, ssize, i),
                forall|i: int| 0 <= i < max_attack + j ==> 0 <= #[trigger] values@[i] <= FP_ONE,
            decreases max_decay - j,
        {
            proof {
                lemma_below_quota(j as int, fd as int);
                lemma_ramp_share(FULL_DECAY_SPAN as int, j as int, fd as int);
                assert((j as int) * FP_ONE <= (MAX_ENV_LEN as int) * FP_ONE) by (nonlinear_arith)
                    requires 0 <= j <= MAX_ENV_LEN;
                assert(0 <= FULL_DECAY_SPAN * ((j as int) * FP_ONE)
                    <= FULL_DECAY_SPAN * ((MAX_ENV_LEN as int) * FP_ONE)) by (nonlinear_arith)
                    requires 0 <= (j as int) * FP_ONE <= (MAX_ENV_LEN as int) * FP_ONE;
            }
            values.push(FP_ONE - (FULL_DECAY_SPAN * ((j as i64) * FP_ONE)) / fd);
            j = j + 1;
        }

        let mut s: usize = 0;
        while s < max_sustain
            invariant
                self.wf(),
                ssize == size as int,
                max_attack == (self.ta * ssize) / (FP_ONE as int),
                max_decay == (self.td * ssize) / (FP_ONE as int),
                max_sustain == (self.ts * ssize) / (FP_ONE as int),
                s <= max_sustain,
                values@.len() == max_attack + max_decay + s,
                forall|i: int| 0 <= i < values@.len() ==>
                    #[trigger] values@[i] == env_full_at(*self, ssize, i),
                forall|i: int| 0 <= i < values@.len() ==> 0 <= #[trigger] values@[i] <= FP_ONE,
            decreases max_sustain - s,
        {
            values.push(FULL_SUSTAIN);
            s = s + 1;
        }

        let held = max_attack + max_decay + max_sustain;
        let mut k: usize = held;
        while k < size
            invariant
                self.wf(),
                size <= MAX_ENV_LEN,
                ssize == size as int,
                fr == self.tr * ssize,
                max_attack == (self.ta * ssize) / (FP_ONE as int),
                max_decay == (self.td * ssize) / (FP_ONE as int),
                max_sustain == (self.ts * ssize) / (FP_ONE as int),
                max_release == fr as int / (FP_ONE as int),
                max_release <= size,
                held == max_attack + max_decay + max_sustain,
                held < size ==> fr >= FP_ONE,
                held <= k,
                k <= vstd::math::max(ssize, held as int),
                values@.len() == k,
                forall|i: int| 0 <= i < values@.len() ==>
                    #[trigger] values@[i] == env_full_at(*self, ssize, i),
                forall|i: int| 0 <= i < values@.len() ==> 0 <= #[trigger] values@[i] <= FP_ONE,
            decreases size - k,
        {
            proof {
                assert(fr >= FP_ONE);
                lemma_div_is_ordered(FP_ONE as int, fr as int, FP_ONE as int);
                vstd::arithmetic::div_mod::lemma_div_by_self(FP_ONE as int);
                assert(max_release >= 1);
                vstd::arithmetic::div_mod::lemma_mod_bound(
                    (k - held) as int, max_release as int,
                );
            }
            let wrapped = (k - held) % max_release;
            proof {
                lemma_below_quota(wrapped as int, fr as int);
                lemma_ramp_share(FULL_SUSTAIN as int, wrapped as int, fr as int);
                assert((wrapped as int) * FP_ONE <= (MAX_ENV_LEN as int) * FP_ONE)
                    by (nonlinear_arith)
                    requires 0 <= wrapped <= MAX_ENV_LEN;
                assert(0 <= FULL_SUSTAIN * ((wrapped as int) * FP_ONE)
                    <= FULL_SUSTAIN * ((MAX_ENV_LEN as int) * FP_ONE)) by (nonlinear_arith)
                    requires 0 <= (wrapped as int) * FP_ONE <= (MAX_ENV_LEN as int) * FP_ONE;
            }
            values.push(FULL_SUSTAIN - (FULL_SUSTAIN * ((wrapped as i64) * FP_ONE)) / fr);
            k = k + 1;
        }
        values
    }

    /// The note-off gain curve: `size` samples ramping from the sustain
    /// level down to zero over the release window, then exact zero.
    pub fn generate_adsr_note_off_envelope(&self, size: usize) -> (r: Vec<i64>)
        requires
            self.wf(),
            size <= MAX_ENV_LEN,
        ensures
            r@.len() == size,
            forall|i: int| 0 <= i < size ==>
                #[trigger] r@[i] == env_off_at(*self, size as int, i),
            forall|i: int| 0 <= i < size ==> 0 <= #[trigger] r@[i] <= self.ts,
            forall|i: int| release_len(*self, size as int) <= i < size ==> #[trigger] r@[i] == 0,
            release_len(*self, size as int) > 0 ==> r@[0] == self.ts,
    {
        let sz = size as i64;
        proof {
            assert(0 <= self.tr * sz <= FP_ONE * (MAX_ENV_LEN as int)) by (nonlinear_arith)
                requires 0 <= self.tr <= FP_ONE && 0 <= sz <= MAX_ENV_LEN as int;
            assert(self.tr * sz <= sz * FP_ONE) by (nonlinear_arith)
                requires 0 <= self.tr <= FP_ONE && sz >= 0;
            lemma_div_is_ordered(self.tr * sz, sz * FP_ONE, FP_ONE as int);
            lemma_div_by_multiple(sz as int, FP_ONE as int);
        }
        let fr = self.tr * sz;
        let max_release = (fr / FP_ONE) as usize;
        let ghost ssize = size as int;
        proof {
            assert(max_release == release_len(*self, ssize));
        }

        let mut values: Vec<i64> = Vec::new();
        let mut n: usize = 0;
        while n < max_release
            invariant
                self.wf(),
                size <= MAX_ENV_LEN,
                ssize == size as int,
                fr == self.tr * (size as int),
                max_release == release_len(*self, ssize),
                max_release <= size,
                n <= max_release,
                values@.len() == n,
                forall|i: int| 0 <= i < n ==>
                    #[trigger] values@[i] == env_off_at(*self, ssize, i),
                forall|i: int| 0 <= i < n ==> 0 <= #[trigger] values@[i] <= self.ts,
            decreases max_release - n,
        {
            proof {
                lemma_below_quota(n as int, fr as int);
                lemma_ramp_share(self.ts as int, n as int, fr as int);
                assert((n as int) * FP_ONE <= (MAX_ENV_LEN as int) * FP_ONE) by (nonlinear_arith)
                    requires 0 <= n <= MAX_ENV_LEN;
                assert(0 <= self.ts * ((n as int) * FP_ONE)
                    <= FP_ONE * ((MAX_ENV_LEN as int) * FP_ONE)) by (nonlinear_arith)
                    requires 0 <= self.ts <= FP_ONE
                        && 0 <= (n as int) * FP_ONE <= (MAX_ENV_LEN as int) * FP_ONE;
            }
            let share = (self.ts * ((n as i64) * FP_ONE)) / fr;
            values.push(self.ts - share);
            n = n + 1;
        }

        let mut k: usize = max_release;
        while k < size
            invariant
                self.wf(),
                ssize == size as int,
                max_release == release_len(*self, ssize),
                max_release <= k <= size,
                values@.len() == k,
                forall|i: int| 0 <= i < k ==>
                    #[trigger] values@[i] == env_off_at(*self, ssize, i),
                forall|i: int| 0 <= i < k ==> 0 <= #[trigger] values@[i] <= self.ts,
            decreases size - k,
        {
            values.push(0);
            k = k + 1;
        }
        proof {
            if release_len(*self, ssize) > 0 {
                assert(fr > 0) by {
                    if fr <= 0 {
                        lemma_div_is_ordered(fr as int, 0, FP_ONE as int);
                    }
                }
                assert(self.ts * (0 * FP_ONE) == 0) by (nonlinear_arith);
                assert(0int / (fr as int) == 0) by {
                    vstd::arithmetic::div_mod::lemma_div_of0(fr as int);
                }
                assert(env_off_at(*self, ssize, 0) == self.ts);
            }
        }
        values
    }
}

/// The nominal span, in samples, of the ramping region a phase multiplies
/// against: attack plus decay for a note-on, the sustain share for a
/// note-off.
pub open spec fn mb_sample_length(adsr: Adsr, size: int, note_type: NoteType) -> int {
    match note_type {
        NoteType::NoteOn => (size * (adsr.ta + adsr.td)) / (FP_ONE as int),
        NoteType::NoteOff => (size * adsr.ts) / (FP_ONE as int),
    }
}

/// The gain a frame holds once it is past the ramping region: the
/// sustain level for a note-on, silence for a note-off.
pub open spec fn mb_factor(adsr: Adsr, note_type: NoteType) -> int {
    match note_type {
        NoteType::NoteOn => adsr.ts as int,
        NoteType::NoteOff => 0,
    }
}

/// How many of the frame's samples still fall inside the ramping
/// region: the smaller of the frame and what is left of the region.
pub open spec fn mb_nsamples(sample_length: int, startpose: int, frame_size: int) -> int {
    if startpose + frame_size < sample_length {
        frame_size
    } else if startpose < sample_length {
        sample_length - startpose
    } else {
        0
    }
}

/// The envelope gain applied to the frame's sample `n`.  Samples past
/// the ramping region take the held factor; reads past the envelope's
/// end are clamped to its last reachable entry; an empty envelope also
/// falls back to the held factor.
pub open spec fn mb_gain_at(
    adsr: Adsr,
    env: Seq<i64>,
    startpose: int,
    size: int,
    frame_size: int,
    note_type: NoteType,
    n: int,
) -> int {
    let ns = mb_nsamples(mb_sample_length(adsr, size, note_type), startpose, frame_size);
    if n >= ns {
        mb_factor(adsr, note_type)
    } else if env.len() == 0 {
        mb_factor(adsr, note_type)
    } else if env.len() > ns + startpose {
        env[n + startpose] as int
    } else if env.len() > startpose {
        let nmax = (env.len() - startpose) % frame_size;
        if n < nmax {
            env[n + startpose] as int
        } else if nmax + startpose == 0 {
            env[0] as int
        } else {
            env[nmax + startpose - 1] as int
        }
    } else {
        env[env.len() - 1] as int
    }
}

/// The envelope entry recorded as the last applied gain: the gain at the
/// final in-range sample, clamped to the envelope's last entry.
pub open spec fn mb_sustain_index(env_len: int, startpose: int, ns: int) -> int {
    let tone_index = if startpose + ns == 0 { 0 } else { startpose + ns - 1 };
    min(env_len - 1, tone_index)
}

/// The attack gain of the four-region curve at absolute sample `k`,
/// wrapped into the attack span.
pub open spec fn full_attack_gain(adsr: Adsr, size: int, k: int) -> int {
    let fa = adsr.ta * size;
    let ma = fa / (FP_ONE as int);
    (((k % ma) * FP_ONE) * FP_ONE) / fa
}

/// The decay gain of the four-region curve at decay sample `k`,
/// wrapped into the decay span.
pub open spec fn full_decay_gain(adsr: Adsr, size: int, k: int) -> int {
    let fd = adsr.td * size;
    let md = fd / (FP_ONE as int);
    FP_ONE - (FULL_DECAY_SPAN * ((k % md) * FP_ONE)) / fd
}

/// The value a sample takes when the four-region curve's note-on side
/// is multiplied over one aligned frame: attack and decay ramps while
/// the frame overlaps them, the fixed 0.3 sustain level beyond, and,
/// in the frame where decay ends, the sustain level layered once more
/// over the frame's start.
pub open spec fn note_on_mult_value(
    adsr: Adsr,
    size: int,
    startpose: int,
    frame_size: int,
    old_value: int,
    n: int,
) -> int {
    let ma = (adsr.ta * size) / (FP_ONE as int);
    let md = (adsr.td * size) / (FP_ONE as int);
    let fma = ma % frame_size;
    if startpose < ma {
        if md + fma < frame_size {
            if n < fma {
                fp_mul(old_value, full_attack_gain(adsr, size, startpose + n))
            } else if n < fma + md {
                fp_mul(old_value, full_decay_gain(adsr, size, startpose + n))
            } else {
                fp_mul(old_value, FULL_SUSTAIN as int)
            }
        } else {
            if n < fma {
                fp_mul(old_value, full_attack_gain(adsr, size, startpose + n))
            } else {
                fp_mul(old_value, full_decay_gain(adsr, size, startpose + n - ma))
            }
        }
    } else if startpose < ma + md {
        let first = fp_mul(old_value, full_decay_gain(adsr, size, startpose + n - ma));
        if ma + md - startpose < frame_size && n < ma + md - startpose {
            fp_mul(first, FULL_SUSTAIN as int)
        } else {
            first
        }
    } else {
        fp_mul(old_value, FULL_SUSTAIN as int)
    }
}

/// The value a sample takes when the four-region curve's release is
/// multiplied over a frame: samples inside the release window scale by
/// the wrapping release ramp from the fixed 0.3 level, samples past it
/// are silenced outright.
pub open spec fn note_off_mult_value(
    adsr: Adsr,
    size: int,
    startpose: int,
    frame_size: int,
    old_value: int,
    n: int,
) -> int {
    let fr = adsr.tr * size;
    let mr = fr / (FP_ONE as int);
    let fmr = mr % frame_size;
    let ramp = fp_mul(
        old_value,
        FULL_SUSTAIN - (FULL_SUSTAIN * (((startpose + n) % mr) * FP_ONE)) / fr,
    );
    if startpose + frame_size < mr {
        ramp
    } else if startpose < mr {
        if n < fmr {
            ramp
        } else {
            0
        }
    } else {
        0
    }
}

impl Adsr {
    /// Multiply the four-region curve's note-on side over one frame
    /// starting at the frame-relative position of `startpose`: the
    /// attack and decay ramps while the frame overlaps them, then the
    /// fixed 0.3 sustain level; in the frame where decay ends the
    /// sustain level is layered once more over the frame's start.
    pub fn adsr_note_on_multiplicate(
        &self,
        in_audio: &mut Vec<i64>,
        startpose: usize,
        size: usize,
        frame_size: usize,
    )
        requires
            self.wf(),
            1 <= frame_size <= MAX_FRAME,
            startpose % frame_size + frame_size <= old(in_audio)@.len(),
            size <= MAX_ENV_LEN,
            startpose <= MAX_START,
            ({
                let ma = (self.ta * size) / (FP_ONE as int);
                let md = (self.td * size) / (FP_ONE as int);
                let fma = ma % (frame_size as int);
                startpose < ma && md + fma >= frame_size ==> startpose + fma >= ma
            }),
            forall|i: int| 0 <= i < old(in_audio)@.len() ==>
                -AUDIO_LIMIT <= #[trigger] old(in_audio)@[i] <= AUDIO_LIMIT,
        ensures
            final(in_audio)@.len() == old(in_audio)@.len(),
            ({
                let base = (startpose % frame_size) as int;
                &&& forall|n: int| 0 <= n < frame_size ==> #[trigger] final(in_audio)@[base + n]
                    == note_on_mult_value(*self, size as int, startpose as int,
                        frame_size as int, old(in_audio)@[base + n] as int, n)
                &&& forall|m: int| 0 <= m < base ==>
                    #[trigger] final(in_audio)@[m] == old(in_audio)@[m]
                &&& forall|m: int| base + frame_size <= m < final(in_audio)@.len() ==>
                    #[trigger] final(in_audio)@[m] == old(in_audio)@[m]
            }),
            forall|i: int| 0 <= i < final(in_audio)@.len() ==>
                -AUDIO_LIMIT <= #[trigger] final(in_audio)@[i] <= AUDIO_LIMIT,
    {
        let ghost spec_old = in_audio@;
        let ghost ssp = startpose as int;
        let ghost ssize = size as int;
        let ghost sframe = frame_size as int;
        let sz = size as i64;
        proof {
            assert(0 <= self.ta * sz <= FP_ONE * (MAX_ENV_LEN as int)) by (nonlinear_arith)
                requires 0 <= self.ta <= FP_ONE && 0 <= sz <= MAX_ENV_LEN as int;
            assert(0 <= self.td * sz <= FP_ONE * (MAX_ENV_LEN as int)) by (nonlinear_arith)
                requires 0 <= self.td <= FP_ONE && 0 <= sz <= MAX_ENV_LEN as int;
            lemma_region_le_size(self.ta as int, sz as int);
            lemma_region_le_size(self.td as int, sz as int);
        }
        let fa = self.ta * sz;
        let fd = self.td * sz;
        let max_attack = (fa / FP_ONE) as usize;
        let max_decay = (fd / FP_ONE) as usize;
        let frame_startpose = startpose % frame_size;
        let frame_max_attack = max_attack % frame_size;
        let ghost base = frame_startpose as int;
        proof {
            vstd::arithmetic::div_mod::lemma_mod_bound(ssp, sframe);
            vstd::arithmetic::div_mod::lemma_mod_bound(max_attack as int, sframe);
        }

        if startpose < max_attack {
            // Attack: the frame's head up to the attack span's wrap.
            let mut n: usize = 0;
            while n < frame_max_attack
                invariant
                    self.wf(),
                    ssp == startpose as int,
                    ssize == size as int,
                    sframe == frame_size as int,
                    size <= MAX_ENV_LEN,
                    1 <= frame_size <= MAX_FRAME,
                    startpose <= MAX_START,
                    fa == self.ta * ssize,
                    max_attack == fa as int / (FP_ONE as int),
                    max_attack <= size,
                    startpose < max_attack,
                    base == ssp % sframe,
                    frame_startpose as int == base,
                    frame_max_attack == (max_attack as int) % sframe,
                    frame_max_attack < frame_size,
                    n <= frame_max_attack,
                    base + frame_size <= in_audio@.len(),
                    in_audio@.len() == spec_old.len(),
                    forall|m: int| 0 <= m < n ==> #[trigger] in_audio@[base + m]
                        == fp_mul(spec_old[base + m] as int,
                            full_attack_gain(*self, ssize, ssp + m)),
                    forall|m: int| 0 <= m < base ==> #[trigger] in_audio@[m] == spec_old[m],
                    forall|m: int| base + n <= m < in_audio@.len() ==>
                        #[trigger] in_audio@[m] == spec_old[m],
                    forall|i: int| 0 <= i < in_audio@.len() ==>
                        -AUDIO_LIMIT <= #[trigger] in_audio@[i] <= AUDIO_LIMIT,
                decreases frame_max_attack - n,
            {
                let k = startpose + n;
                proof {
                    assert(max_attack >= 1);
                    vstd::arithmetic::div_mod::lemma_mod_bound(k as int, max_attack as int);
                    lemma_below_quota((k as int) % (max_attack as int), fa as int);
                    lemma_ramp_share(FP_ONE as int, (k as int) % (max_attack as int), fa as int);
                    assert(((k % max_attack) as int) * FP_ONE
                        <= (MAX_ENV_LEN as int) * FP_ONE) by (nonlinear_arith)
                        requires 0 <= (k % max_attack) as int <= MAX_ENV_LEN as int;
                    assert(0 <= FP_ONE * (((k % max_attack) as int) * FP_ONE)
                        <= FP_ONE * ((MAX_ENV_LEN as int) * FP_ONE)) by (nonlinear_arith)
                        requires 0 <= ((k % max_attack) as int) * FP_ONE
                            <= (MAX_ENV_LEN as int) * FP_ONE;
                    assert(FP_ONE * (((k % max_attack) as int) * FP_ONE)
                        == (((k % max_attack) as int) * FP_ONE) * FP_ONE) by (nonlinear_arith);
                }
                let s = (((k % max_attack) as i64) * FP_ONE * FP_ONE) / fa;
                let x = in_audio[frame_startpose + n];
                let v = scale_signed(x, s);
                in_audio.set(frame_startpose + n, v);
                n = n + 1;
            }

            if max_decay + frame_max_attack < frame_size {
                // Decay fits inside the frame, then the held sustain.
                let mut n2: usize = frame_max_attack;
                while n2 < frame_max_attack + max_decay
                    invariant
                        self.wf(),
                        ssp == startpose as int,
                        ssize == size as int,
                        sframe == frame_size as int,
                        size <= MAX_ENV_LEN,
                        1 <= frame_size <= MAX_FRAME,
                        startpose <= MAX_START,
                        fa == self.ta * ssize,
                        fd == self.td * ssize,
                        max_attack == fa as int / (FP_ONE as int),
                        max_decay == fd as int / (FP_ONE as int),
                        max_decay <= size,
                        startpose < max_attack,
                        base == ssp % sframe,
                        frame_startpose as int == base,
                        frame_max_attack == (max_attack as int) % sframe,
                        max_decay + frame_max_attack < frame_size,
                        frame_max_attack <= n2 <= frame_max_attack + max_decay,
                        base + frame_size <= in_audio@.len(),
                        in_audio@.len() == spec_old.len(),
                        forall|m: int| 0 <= m < frame_max_attack ==>
                            #[trigger] in_audio@[base + m]
                                == fp_mul(spec_old[base + m] as int,
                                    full_attack_gain(*self, ssize, ssp + m)),
                        forall|m: int| frame_max_attack <= m < n2 ==>
                            #[trigger] in_audio@[base + m]
                                == fp_mul(spec_old[base + m] as int,
                                    full_decay_gain(*self, ssize, ssp + m)),
                        forall|m: int| 0 <= m < base ==> #[trigger] in_audio@[m] == spec_old[m],
                        forall|m: int| base + n2 <= m < in_audio@.len() ==>
                            #[trigger] in_audio@[m] == spec_old[m],
                        forall|i: int| 0 <= i < in_audio@.len() ==>
                            -AUDIO_LIMIT <= #[trigger] in_audio@[i] <= AUDIO_LIMIT,
                    decreases frame_max_attack + max_decay - n2,
                {
                    let k = startpose + n2;
                    proof {
                        assert(max_decay >= 1);
                        vstd::arithmetic::div_mod::lemma_mod_bound(k as int, max_decay as int);
                        lemma_below_quota((k as int) % (max_decay as int), fd as int);
                        lemma_ramp_share(FULL_DECAY_SPAN as int,
                            (k as int) % (max_decay as int), fd as int);
                        assert(((k % max_decay) as int) * FP_ONE
                            <= (MAX_ENV_LEN as int) * FP_ONE) by (nonlinear_arith)
                            requires 0 <= (k % max_decay) as int <= MAX_ENV_LEN as int;
                        assert(0 <= FULL_DECAY_SPAN * (((k % max_decay) as int) * FP_ONE)
                            <= FULL_DECAY_SPAN * ((MAX_ENV_LEN as int) * FP_ONE))
                            by (nonlinear_arith)
                            requires 0 <= ((k % max_decay) as int) * FP_ONE
                                <= (MAX_ENV_LEN as int) * FP_ONE;
                    }
                    let s = FP_ONE
                        - (FULL_DECAY_SPAN * (((k % max_decay) as i64) * FP_ONE)) / fd;
                    let x = in_audio[frame_startpose + n2];
                    let v = scale_signed(x, s);
                    in_audio.set(frame_startpose + n2, v);
                    n2 = n2 + 1;
                }
                let mut n3: usize = frame_max_attack + max_decay;
                while n3 < frame_size
                    invariant
                        self.wf(),
                        ssp == startpose as int,
                        ssize == size as int,
                        sframe == frame_size as int,
                        size <= MAX_ENV_LEN,
                        1 <= frame_size <= MAX_FRAME,
                        fa == self.ta * ssize,
                        fd == self.td * ssize,
                        max_attack == fa as int / (FP_ONE as int),
                        max_decay == fd as int / (FP_ONE as int),
                        startpose < max_attack,
                        base == ssp % sframe,
                        frame_startpose as int == base,
                        frame_max_attack == (max_attack as int) % sframe,
                        max_decay + frame_max_attack < frame_size,
                        frame_max_attack + max_decay <= n3 <= frame_size,
                        base + frame_size <= in_audio@.len(),
                        in_audio@.len() == spec_old.len(),
                        forall|m: int| 0 <= m < frame_max_attack ==>
                            #[trigger] in_audio@[base + m]
                                == fp_mul(spec_old[base + m] as int,
                                    full_attack_gain(*self, ssize, ssp + m)),
                        forall|m: int| frame_max_attack <= m < frame_max_attack + max_decay ==>
                            #[trigger] in_audio@[base + m]
                                == fp_mul(spec_old[base + m] as int,
                                    full_decay_gain(*self, ssize, ssp + m)),
                        forall|m: int| frame_max_attack + max_decay <= m < n3 ==>
                            #[trigger] in_audio@[base + m]
                                == fp_mul(spec_old[base + m] as int, FULL_SUSTAIN as int),
                        forall|m: int| 0 <= m < base ==> #[trigger] in_audio@[m] == spec_old[m],
                        forall|m: int| base + n3 <= m < in_audio@.len() ==>
                            #[trigger] in_audio@[m] == spec_old[m],
                        forall|i: int| 0 <= i < in_audio@.len() ==>
                            -AUDIO_LIMIT <= #[trigger] in_audio@[i] <= AUDIO_LIMIT,
                    decreases frame_size - n3,
                {
                    let x = in_audio[frame_startpose + n3];
                    let v = scale_signed(x, FULL_SUSTAIN);
                    in_audio.set(frame_startpose + n3, v);
                    n3 = n3 + 1;
                }
            } else {
                // Decay spills over: the rest of the frame is decay.
                let mut n4: usize = frame_max_attack;
                while n4 < frame_size
                    invariant
                        self.wf(),
                        ssp == startpose as int,
                        ssize == size as int,
                        sframe == frame_size as int,
                        size <= MAX_ENV_LEN,
                        1 <= frame_size <= MAX_FRAME,
                        startpose <= MAX_START,
                        fa == self.ta * ssize,
                        fd == self.td * ssize,
                        max_attack == fa as int / (FP_ONE as int),
                        max_decay == fd as int / (FP_ONE as int),
                        max_decay <= size,
                        startpose < max_attack,
                        startpose + frame_max_attack >= max_attack,
                        base == ssp % sframe,
                        frame_startpose as int == base,
                        frame_max_attack == (max_attack as int) % sframe,
                        max_decay + frame_max_attack >= frame_size,
                        frame_max_attack <= n4 <= frame_size,
                        base + frame_size <= in_audio@.len(),
                        in_audio@.len() == spec_old.len(),
                        forall|m: int| 0 <= m < frame_max_attack ==>
                            #[trigger] in_audio@[base + m]
                                == fp_mul(spec_old[base + m] as int,
                                    full_attack_gain(*self, ssize, ssp + m)),
                        forall|m: int| frame_max_attack <= m < n4 ==>
                            #[trigger] in_audio@[base + m]
                                == fp_mul(spec_old[base + m] as int,
                                    full_decay_gain(*self, ssize, ssp + m - max_attack)),
                        forall|m: int| 0 <= m < base ==> #[trigger] in_audio@[m] == spec_old[m],
                        forall|m: int| base + n4 <= m < in_audio@.len() ==>
                            #[trigger] in_audio@[m] == spec_old[m],
                        forall|i: int| 0 <= i < in_audio@.len() ==>
                            -AUDIO_LIMIT <= #[trigger] in_audio@[i] <= AUDIO_LIMIT,
                    decreases frame_size - n4,
                {
                    proof {
                        assert(max_decay >= 1);
                    }
                    let k = startpose + n4 - max_attack;
                    proof {
                        vstd::arithmetic::div_mod::lemma_mod_bound(k as int, max_decay as int);
                        lemma_below_quota((k as int) % (max_decay as int), fd as int);
                        lemma_ramp_share(FULL_DECAY_SPAN as int,
                            (k as int) % (max_decay as int), fd as int);
                        assert(((k % max_decay) as int) * FP_ONE
                            <= (MAX_ENV_LEN as int) * FP_ONE) by (nonlinear_arith)
                            requires 0 <= (k % max_decay) as int <= MAX_ENV_LEN as int;
                        assert(0 <= FULL_DECAY_SPAN * (((k % max_decay) as int) * FP_ONE)
                            <= FULL_DECAY_SPAN * ((MAX_ENV_LEN as int) * FP_ONE))
                            by (nonlinear_arith)
                            requires 0 <= ((k % max_decay) as int) * FP_ONE
                                <= (MAX_ENV_LEN as int) * FP_ONE;
                    }
                    let s = FP_ONE
                        - (FULL_DECAY_SPAN * (((k % max_decay) as i64) * FP_ONE)) / fd;
                    let x = in_audio[frame_startpose + n4];
                    let v = scale_signed(x, s);
                    in_audio.set(frame_startpose + n4, v);
                    n4 = n4 + 1;
                }
            }
        } else if startpose < max_attack + max_decay {
            // Inside the decay: the whole frame takes the decay ramp.
            let mut n5: usize = 0;
            while n5 < frame_size
                invariant
                    self.wf(),
                    ssp == startpose as int,
                    ssize == size as int,
                    sframe == frame_size as int,
                    size <= MAX_ENV_LEN,
                    1 <= frame_size <= MAX_FRAME,
                    startpose <= MAX_START,
                    fa == self.ta * ssize,
                    fd == self.td * ssize,
                    max_attack == fa as int / (FP_ONE as int),
                    max_decay == fd as int / (FP_ONE as int),
                    max_decay <= size,
                    max_attack <= startpose < max_attack + max_decay,
                    base == ssp % sframe,
                    frame_startpose as int == base,
                    n5 <= frame_size,
                    base + frame_size <= in_audio@.len(),
                    in_audio@.len() == spec_old.len(),
                    forall|m: int| 0 <= m < n5 ==> #[trigger] in_audio@[base + m]
                        == fp_mul(spec_old[base + m] as int,
                            full_decay_gain(*self, ssize, ssp + m - max_attack)),
                    forall|m: int| 0 <= m < base ==> #[trigger] in_audio@[m] == spec_old[m],
                    forall|m: int| base + n5 <= m < in_audio@.len() ==>
                        #[trigger] in_audio@[m] == spec_old[m],
                    forall|i: int| 0 <= i < in_audio@.len() ==>
                        -AUDIO_LIMIT <= #[trigger] in_audio@[i] <= AUDIO_LIMIT,
                decreases frame_size - n5,
            {
                proof {
                    assert(max_decay >= 1);
                }
                let k = startpose + n5 - max_attack;
                proof {
                    vstd::arithmetic::div_mod::lemma_mod_bound(k as int, max_decay as int);
                    lemma_below_quota((k as int) % (max_decay as int), fd as int);
                    lemma_ramp_share(FULL_DECAY_SPAN as int,
                        (k as int) % (max_decay as int), fd as int);
                    assert(((k % max_decay) as int) * FP_ONE
                        <= (MAX_ENV_LEN as int) * FP_ONE) by (nonlinear_arith)
                        requires 0 <= (k % max_decay) as int <= MAX_ENV_LEN as int;
                    assert(0 <= FULL_DECAY_SPAN * (((k % max_decay) as int) * FP_ONE)
                        <= FULL_DECAY_SPAN * ((MAX_ENV_LEN as int) * FP_ONE))
                        by (nonlinear_arith)
                        requires 0 <= ((k % max_decay) as int) * FP_ONE
                            <= (MAX_ENV_LEN as int) * FP_ONE;
                }
                let s = FP_ONE - (FULL_DECAY_SPAN * (((k % max_decay) as i64) * FP_ONE)) / fd;
                let x = in_audio[frame_startpose + n5];
                let v = scale_signed(x, s);
                in_audio.set(frame_startpose + n5, v);
                n5 = n5 + 1;
            }
            if max_attack + max_decay - startpose < frame_size {
                // Decay ends inside this frame: layer the sustain level
                // over the frame's start once more.
                let rest_sustain = max_attack + max_decay - startpose;
                let mut n6: usize = 0;
                while n6 < rest_sustain
                    invariant
                        self.wf(),
                        ssp == startpose as int,
                        ssize == size as int,
                        sframe == frame_size as int,
                        fa == self.ta * ssize,
                        fd == self.td * ssize,
                        max_attack == fa as int / (FP_ONE as int),
                        max_decay == fd as int / (FP_ONE as int),
                        max_attack <= startpose < max_attack + max_decay,
                        1 <= frame_size <= MAX_FRAME,
                        base == ssp % sframe,
                        frame_startpose as int == base,
                        rest_sustain == max_attack + max_decay - startpose,
                        rest_sustain < frame_size,
                        n6 <= rest_sustain,
                        base + frame_size <= in_audio@.len(),
                        in_audio@.len() == spec_old.len(),
                        forall|m: int| 0 <= m < n6 ==> #[trigger] in_audio@[base + m]
                            == fp_mul(
                                fp_mul(spec_old[base + m] as int,
                                    full_decay_gain(*self, ssize, ssp + m - max_attack)),
                                FULL_SUSTAIN as int,
                            ),
                        forall|m: int| n6 <= m < frame_size ==> #[trigger] in_audio@[base + m]
                            == fp_mul(spec_old[base + m] as int,
                                full_decay_gain(*self, ssize, ssp + m - max_attack)),
                        forall|m: int| 0 <= m < base ==> #[trigger] in_audio@[m] == spec_old[m],
                        forall|m: int| base + frame_size <= m < in_audio@.len() ==>
                            #[trigger] in_audio@[m] == spec_old[m],
                        forall|i: int| 0 <= i < in_audio@.len() ==>
                            -AUDIO_LIMIT <= #[trigger] in_audio@[i] <= AUDIO_LIMIT,
                    decreases rest_sustain - n6,
                {
                    let x = in_audio[frame_startpose + n6];
                    let v = scale_signed(x, FULL_SUSTAIN);
                    in_audio.set(frame_startpose + n6, v);
                    n6 = n6 + 1;
                }
            }
        } else {
            // Past attack and decay: the whole frame holds the sustain.
            let mut n7: usize = 0;
            while n7 < frame_size
                invariant
                    self.wf(),
                    ssp == startpose as int,
                    ssize == size as int,
                    sframe == frame_size as int,
                    fa == self.ta * ssize,
                    fd == self.td * ssize,
                    max_attack == fa as int / (FP_ONE as int),
                    max_decay == fd as int / (FP_ONE as int),
                    startpose >= max_attack + max_decay,
                    1 <= frame_size <= MAX_FRAME,
                    base == ssp % sframe,
                    frame_startpose as int == base,
                    n7 <= frame_size,
                    base + frame_size <= in_audio@.len(),
                    in_audio@.len() == spec_old.len(),
                    forall|m: int| 0 <= m < n7 ==> #[trigger] in_audio@[base + m]
                        == fp_mul(spec_old[base + m] as int, FULL_SUSTAIN as int),
                    forall|m: int| 0 <= m < base ==> #[trigger] in_audio@[m] == spec_old[m],
                    forall|m: int| base + n7 <= m < in_audio@.len() ==>
                        #[trigger] in_audio@[m] == spec_old[m],
                    forall|i: int| 0 <= i < in_audio@.len() ==>
                        -AUDIO_LIMIT <= #[trigger] in_audio@[i] <= AUDIO_LIMIT,
                decreases frame_size - n7,
            {
                let x = in_audio[frame_startpose + n7];
                let v = scale_signed(x, FULL_SUSTAIN);
                in_audio.set(frame_startpose + n7, v);
                n7 = n7 + 1;
            }
        }
    }

    /// Multiply the four-region curve's release over one frame: the
    /// wrapping ramp down from the fixed 0.3 level inside the release
    /// window, silence once the window has passed.
    pub fn adsr_note_off_multiplicate(
        &self,
        in_audio: &mut Vec<i64>,
        startpose: usize,
        size: usize,
        frame_size: usize,
    )
        requires
            self.wf(),
            1 <= frame_size <= MAX_FRAME,
            frame_size <= old(in_audio)@.len(),
            size <= MAX_ENV_LEN,
            startpose <= MAX_START,
            forall|i: int| 0 <= i < frame_size ==>
                -AUDIO_LIMIT <= #[trigger] old(in_audio)@[i] <= AUDIO_LIMIT,
        ensures
            final(in_audio)@.len() == old(in_audio)@.len(),
            forall|n: int| 0 <= n < frame_size ==> #[trigger] final(in_audio)@[n]
                == note_off_mult_value(*self, size as int, startpose as int, frame_size as int,
                    old(in_audio)@[n] as int, n),
            forall|n: int| frame_size <= n < final(in_audio)@.len() ==>
                #[trigger] final(in_audio)@[n] == old(in_audio)@[n],
            forall|n: int| 0 <= n < frame_size ==>
                -AUDIO_LIMIT <= #[trigger] final(in_audio)@[n] <= AUDIO_LIMIT,
    {
        let ghost spec_old = in_audio@;
        let ghost ssp = startpose as int;
        let ghost ssize = size as int;
        let ghost sframe = frame_size as int;
        let sz = size as i64;
        proof {
            assert(0 <= self.tr * sz <= FP_ONE * (MAX_ENV_LEN as int)) by (nonlinear_arith)
                requires 0 <= self.tr <= FP_ONE && 0 <= sz <= MAX_ENV_LEN as int;
            lemma_region_le_size(self.tr as int, sz as int);
        }
        let fr = self.tr * sz;
        let max_release = (fr / FP_ONE) as usize;
        let frame_max_release = max_release % frame_size;

        let spf = (startpose as i64) + (frame_size as i64);
        if spf < max_release as i64 {
            let mut n: usize = 0;
            while n < frame_size
                invariant
                    self.wf(),
                    ssp == startpose as int,
                    ssize == size as int,
                    sframe == frame_size as int,
                    fr == self.tr * ssize,
                    size <= MAX_ENV_LEN,
                    frame_size <= MAX_FRAME,
                    max_release == fr as int / (FP_ONE as int),
                    max_release <= size,
                    startpose + frame_size < max_release,
                    startpose <= MAX_START,
                    n <= frame_size <= in_audio@.len(),
                    in_audio@.len() == spec_old.len(),
                    forall|m: int| 0 <= m < n ==> #[trigger] in_audio@[m]
                        == note_off_mult_value(*self, ssize, ssp, sframe, spec_old[m] as int, m),
                    forall|m: int| n <= m < in_audio@.len() ==>
                        #[trigger] in_audio@[m] == spec_old[m],
                    forall|m: int| 0 <= m < n ==>
                        -AUDIO_LIMIT <= #[trigger] in_audio@[m] <= AUDIO_LIMIT,
                    forall|m: int| 0 <= m < frame_size ==>
                        -AUDIO_LIMIT <= #[trigger] spec_old[m] <= AUDIO_LIMIT,
                decreases frame_size - n,
            {
                let k = startpose + n;
                proof {
                    vstd::arithmetic::div_mod::lemma_mod_bound(k as int, max_release as int);
                    lemma_below_quota((k as int) % (max_release as int), fr as int);
                    lemma_ramp_share(FULL_SUSTAIN as int, (k as int) % (max_release as int),
                        fr as int);
                    assert(((k % max_release) as int) * FP_ONE
                        <= (MAX_ENV_LEN as int) * FP_ONE) by (nonlinear_arith)
                        requires 0 <= (k % max_release) as int <= MAX_ENV_LEN as int;
                    assert(0 <= FULL_SUSTAIN * (((k % max_release) as int) * FP_ONE)
                        <= FULL_SUSTAIN * ((MAX_ENV_LEN as int) * FP_ONE)) by (nonlinear_arith)
                        requires 0 <= ((k % max_release) as int) * FP_ONE
                            <= (MAX_ENV_LEN as int) * FP_ONE;
                }
                let s = FULL_SUSTAIN
                    - (FULL_SUSTAIN * (((k % max_release) as i64) * FP_ONE)) / fr;
                let x = in_audio[n];
                let v = scale_signed(x, s);
                in_audio.set(n, v);
                n = n + 1;
            }
        } else if (startpose as i64) < max_release as i64 {
            let mut n: usize = 0;
            while n < frame_max_release
                invariant
                    self.wf(),
                    ssp == startpose as int,
                    ssize == size as int,
                    sframe == frame_size as int,
                    fr == self.tr * ssize,
                    size <= MAX_ENV_LEN,
                    frame_size <= MAX_FRAME,
                    max_release == fr as int / (FP_ONE as int),
                    max_release <= size,
                    frame_max_release == (max_release as int) % sframe,
                    frame_max_release < frame_size,
                    startpose < max_release,
                    startpose + frame_size >= max_release,
                    startpose <= MAX_START,
                    1 <= frame_size,
                    n <= frame_max_release,
                    frame_size <= in_audio@.len(),
                    in_audio@.len() == spec_old.len(),
                    forall|m: int| 0 <= m < n ==> #[trigger] in_audio@[m]
                        == note_off_mult_value(*self, ssize, ssp, sframe, spec_old[m] as int, m),
                    forall|m: int| n <= m < in_audio@.len() ==>
                        #[trigger] in_audio@[m] == spec_old[m],
                    forall|m: int| 0 <= m < n ==>
                        -AUDIO_LIMIT <= #[trigger] in_audio@[m] <= AUDIO_LIMIT,
                    forall|m: int| 0 <= m < frame_size ==>
                        -AUDIO_LIMIT <= #[trigger] spec_old[m] <= AUDIO_LIMIT,
                decreases frame_max_release - n,
            {
                let k = startpose + n;
                proof {
                    vstd::arithmetic::div_mod::lemma_mod_bound(k as int, max_release as int);
                    lemma_below_quota((k as int) % (max_release as int), fr as int);
                    lemma_ramp_share(FULL_SUSTAIN as int, (k as int) % (max_release as int),
                        fr as int);
                    assert(((k % max_release) as int) * FP_ONE
                        <= (MAX_ENV_LEN as int) * FP_ONE) by (nonlinear_arith)
                        requires 0 <= (k % max_release) as int <= MAX_ENV_LEN as int;
                    assert(0 <= FULL_SUSTAIN * (((k % max_release) as int) * FP_ONE)
                        <= FULL_SUSTAIN * ((MAX_ENV_LEN as int) * FP_ONE)) by (nonlinear_arith)
                        requires 0 <= ((k % max_release) as int) * FP_ONE
                            <= (MAX_ENV_LEN as int) * FP_ONE;
                }
                let s = FULL_SUSTAIN
                    - (FULL_SUSTAIN * (((k % max_release) as i64) * FP_ONE)) / fr;
                let x = in_audio[n];
                let v = scale_signed(x, s);
                in_audio.set(n, v);
                n = n + 1;
            }
            let mut n2: usize = frame_max_release;
            while n2 < frame_size
                invariant
                    self.wf(),
                    ssp == startpose as int,
                    ssize == size as int,
                    sframe == frame_size as int,
                    fr == self.tr * ssize,
                    size <= MAX_ENV_LEN,
                    frame_size <= MAX_FRAME,
                    max_release == fr as int / (FP_ONE as int),
                    max_release <= size,
                    frame_max_release == (max_release as int) % sframe,
                    startpose < max_release,
                    startpose + frame_size >= max_release,
                    frame_max_release <= n2 <= frame_size <= in_audio@.len(),
                    in_audio@.len() == spec_old.len(),
                    forall|m: int| 0 <= m < n2 ==> #[trigger] in_audio@[m]
                        == note_off_mult_value(*self, ssize, ssp, sframe, spec_old[m] as int, m),
                    forall|m: int| n2 <= m < in_audio@.len() ==>
                        #[trigger] in_audio@[m] == spec_old[m],
                    forall|m: int| 0 <= m < n2 ==>
                        -AUDIO_LIMIT <= #[trigger] in_audio@[m] <= AUDIO_LIMIT,
                    forall|m: int| 0 <= m < frame_size ==>
                        -AUDIO_LIMIT <= #[trigger] spec_old[m] <= AUDIO_LIMIT,
                decreases frame_size - n2,
            {
                in_audio.set(n2, 0);
                n2 = n2 + 1;
            }
        } else {
            let mut n: usize = 0;
            while n < frame_size
                invariant
                    self.wf(),
                    ssp == startpose as int,
                    ssize == size as int,
                    sframe == frame_size as int,
                    fr == self.tr * ssize,
                    size <= MAX_ENV_LEN,
                    frame_size <= MAX_FRAME,
                    max_release == fr as int / (FP_ONE as int),
                    max_release <= size,
                    startpose >= max_release,
                    n <= frame_size <= in_audio@.len(),
                    in_audio@.len() == spec_old.len(),
                    forall|m: int| 0 <= m < n ==> #[trigger] in_audio@[m]
                        == note_off_mult_value(*self, ssize, ssp, sframe, spec_old[m] as int, m),
                    forall|m: int| n <= m < in_audio@.len() ==>
                        #[trigger] in_audio@[m] == spec_old[m],
                    forall|m: int| 0 <= m < n ==>
                        -AUDIO_LIMIT <= #[trigger] in_audio@[m] <= AUDIO_LIMIT,
                    forall|m: int| 0 <= m < frame_size ==>
                        -AUDIO_LIMIT <= #[trigger] spec_old[m] <= AUDIO_LIMIT,
                decreases frame_size - n,
            {
                in_audio.set(n, 0);
                n = n + 1;
            }
        }
    }
}

/// Every gain the multiplication applies is a unit-interval value:
/// an envelope entry, the sustain level, or zero.
pub proof fn lemma_mb_gain_in_range(
    adsr: Adsr,
    env: Seq<i64>,
    startpose: int,
    size: int,
    frame_size: int,
    note_type: NoteType,
    n: int,
)
    requires
        adsr.wf(),
        forall|i: int| 0 <= i < env.len() ==> 0 <= #[trigger] env[i] <= FP_ONE,
        0 <= startpose,
        0 <= n < frame_size,
    ensures
        0 <= mb_gain_at(adsr, env, startpose, size, frame_size, note_type, n) <= FP_ONE,
{
    let sl = mb_sample_length(adsr, size, note_type);
    let ns = mb_nsamples(sl, startpose, frame_size);
    if n < ns && env.len() > 0 {
        assert(ns <= frame_size);
        if env.len() > ns + startpose {
            assert(0 <= env[n + startpose] <= FP_ONE);
        } else if env.len() > startpose {
            let diff = env.len() - startpose;
            vstd::arithmetic::div_mod::lemma_mod_decreases(diff as nat, frame_size as nat);
            vstd::arithmetic::div_mod::lemma_mod_bound(diff, frame_size);
            let nmax = diff % frame_size;
            if n < nmax {
                assert(0 <= env[n + startpose] <= FP_ONE);
            } else if nmax + startpose == 0 {
                assert(0 <= env[0] <= FP_ONE);
            } else {
                assert(0 <= env[nmax + startpose - 1] <= FP_ONE);
            }
        } else {
            assert(0 <= env[env.len() - 1] <= FP_ONE);
        }
    }
}

/// The value sample `n` takes after the frame is multiplied through:
/// the old sample scaled by velocity times the envelope gain.
pub open spec fn mb_applied(
    adsr: Adsr,
    old_audio: Seq<i64>,
    env: Seq<i64>,
    startpose: int,
    size: int,
    frame_size: int,
    note_type: NoteType,
    velocity: int,
    n: int,
) -> int {
    fp_mul(
        old_audio[n] as int,
        fp_mul(velocity, mb_gain_at(adsr, env, startpose, size, frame_size, note_type, n)),
    )
}

/// Scale one buffer entry by velocity times an envelope gain.
fn apply_gain(buf: &mut Vec<i64>, n: usize, velocity: i64, g: i64)
    requires
        n < old(buf)@.len(),
        0 <= velocity <= FP_ONE,
        0 <= g <= FP_ONE,
        -AUDIO_LIMIT <= old(buf)@[n as int] <= AUDIO_LIMIT,
    ensures
        final(buf)@.len() == old(buf)@.len(),
        final(buf)@[n as int] == fp_mul(old(buf)@[n as int] as int, fp_mul(velocity as int, g as int)),
        -AUDIO_LIMIT <= final(buf)@[n as int] <= AUDIO_LIMIT,
        forall|m: int| 0 <= m < final(buf)@.len() && m != n ==> final(buf)@[m] == old(buf)@[m],
{
    let cg = gain_mul(velocity, g);
    let x = buf[n];
    let v = scale_signed(x, cg);
    buf.set(n, v);
}

impl Adsr {
    /// Multiply one frame of audio by this envelope, starting `startpose`
    /// samples into the current phase, and record the last gain applied.
    ///
    /// Samples still inside the ramping region take the envelope's
    /// entries; reads past the envelope's end are clamped to its last
    /// entry; samples past the region take the held factor.  Every
    /// sample is also scaled by the velocity.
    #[allow(clippy::too_many_arguments)]
    pub fn multiply_buf(
        &self,
        in_audio: &mut Vec<i64>,
        adsr_env: &Vec<i64>,
        startpose: usize,
        size: usize,
        frame_size: usize,
        note_type: NoteType,
        last_sustain_value: &mut i64,
        velocity: i64,
    )
        requires
            self.wf(),
            0 <= velocity <= FP_ONE,
            frame_size <= old(in_audio)@.len(),
            frame_size <= MAX_FRAME,
            size <= MAX_ENV_LEN,
            startpose <= MAX_START,
            adsr_env@.len() <= MAX_ENV_LEN,
            forall|i: int| 0 <= i < adsr_env@.len() ==> 0 <= #[trigger] adsr_env@[i] <= FP_ONE,
            forall|i: int| 0 <= i < frame_size ==>
                -AUDIO_LIMIT <= #[trigger] old(in_audio)@[i] <= AUDIO_LIMIT,
        ensures
            final(in_audio)@.len() == old(in_audio)@.len(),
            forall|n: int| 0 <= n < frame_size ==> #[trigger] final(in_audio)@[n] == mb_applied(
                *self, old(in_audio)@, adsr_env@, startpose as int, size as int,
                frame_size as int, note_type, velocity as int, n,
            ),
            forall|n: int| frame_size <= n < final(in_audio)@.len() ==>
                #[trigger] final(in_audio)@[n] == old(in_audio)@[n],
            forall|n: int| 0 <= n < frame_size ==>
                -AUDIO_LIMIT <= #[trigger] final(in_audio)@[n] <= AUDIO_LIMIT,
            adsr_env@.len() > 0 ==> *final(last_sustain_value) == adsr_env@[mb_sustain_index(
                adsr_env@.len() as int, startpose as int,
                mb_nsamples(mb_sample_length(*self, size as int, note_type), startpose as int,
                    frame_size as int),
            )] && 0 <= *final(last_sustain_value) <= FP_ONE,
            adsr_env@.len() == 0 ==> *final(last_sustain_value) == *old(last_sustain_value),
    {
        let ghost spec_old = in_audio@;
        let ghost senv = adsr_env@;
        let ghost ssp = startpose as int;
        let ghost ssize = size as int;
        let ghost sframe = frame_size as int;
        let ghost svel = velocity as int;

        let sz = size as i64;
        proof {
            assert(0 <= sz * (self.ta + self.td) <= (MAX_ENV_LEN as int) * (2 * FP_ONE))
                by (nonlinear_arith)
                requires 0 <= sz <= MAX_ENV_LEN as int && 0 <= self.ta + self.td <= 2 * FP_ONE;
            assert(0 <= sz * self.ts <= (MAX_ENV_LEN as int) * (2 * FP_ONE)) by (nonlinear_arith)
                requires 0 <= sz <= MAX_ENV_LEN as int && 0 <= self.ts <= 2 * FP_ONE;
        }
        let (sample_length, factor): (i64, i64) = match note_type {
            NoteType::NoteOn => ((sz * (self.ta + self.td)) / FP_ONE, self.ts),
            NoteType::NoteOff => ((sz * self.ts) / FP_ONE, 0),
        };
        proof {
            assert(sample_length == mb_sample_length(*self, ssize, note_type));
            assert(factor == mb_factor(*self, note_type));
            lemma_div_pos_is_pos(sz * (self.ta + self.td), FP_ONE as int);
            lemma_div_pos_is_pos(sz * self.ts, FP_ONE as int);
        }

        let spf = (startpose as i64) + (frame_size as i64);
        let mut nsamples: usize = 0;
        if spf < sample_length {
            nsamples = frame_size;
        } else if (startpose as i64) < sample_length {
            nsamples = (sample_length - startpose as i64) as usize;
        }
        let ghost ns = mb_nsamples(sample_length as int, ssp, sframe);
        proof {
            assert(nsamples == ns);
            assert(nsamples <= frame_size);
        }

        let adsr_length = adsr_env.len();
        if adsr_length == 0 {
            let mut n: usize = 0;
            while n < frame_size
                invariant
                    0 <= velocity <= FP_ONE,
                    svel == velocity as int,
                    self.wf(),
                    0 <= factor <= FP_ONE,
                    factor == mb_factor(*self, note_type),
                    senv.len() == 0,
                    n <= frame_size <= in_audio@.len(),
                    in_audio@.len() == spec_old.len(),
                    forall|m: int| 0 <= m < n ==> #[trigger] in_audio@[m] == mb_applied(
                        *self, spec_old, senv, ssp, ssize, sframe, note_type, svel, m),
                    forall|m: int| n <= m < in_audio@.len() ==>
                        #[trigger] in_audio@[m] == spec_old[m],
                    forall|m: int| 0 <= m < n ==>
                        -AUDIO_LIMIT <= #[trigger] in_audio@[m] <= AUDIO_LIMIT,
                    forall|m: int| 0 <= m < frame_size ==>
                        -AUDIO_LIMIT <= #[trigger] spec_old[m] <= AUDIO_LIMIT,
                decreases frame_size - n,
            {
                proof {
                    assert(mb_gain_at(*self, senv, ssp, ssize, sframe, note_type, n as int)
                        == factor);
                }
                apply_gain(in_audio, n, velocity, factor);
                n = n + 1;
            }
        } else {
            if adsr_length > nsamples + startpose {
                let mut n: usize = 0;
                while n < nsamples
                    invariant
                        0 <= velocity <= FP_ONE,
                        svel == velocity as int,
                        self.wf(),
                        senv == adsr_env@,
                        senv.len() == adsr_length,
                        forall|i: int| 0 <= i < senv.len() ==> 0 <= #[trigger] senv[i] <= FP_ONE,
                        adsr_length > nsamples + startpose,
                        ns == nsamples,
                        ns == mb_nsamples(mb_sample_length(*self, ssize, note_type), ssp, sframe),
                        ssp == startpose as int,
                        n <= nsamples <= frame_size <= in_audio@.len(),
                        in_audio@.len() == spec_old.len(),
                        forall|m: int| 0 <= m < n ==> #[trigger] in_audio@[m] == mb_applied(
                            *self, spec_old, senv, ssp, ssize, sframe, note_type, svel, m),
                        forall|m: int| n <= m < in_audio@.len() ==>
                            #[trigger] in_audio@[m] == spec_old[m],
                        forall|m: int| 0 <= m < n ==>
                            -AUDIO_LIMIT <= #[trigger] in_audio@[m] <= AUDIO_LIMIT,
                        forall|m: int| 0 <= m < frame_size ==>
                            -AUDIO_LIMIT <= #[trigger] spec_old[m] <= AUDIO_LIMIT,
                    decreases nsamples - n,
                {
                    proof {
                        assert(mb_gain_at(*self, senv, ssp, ssize, sframe, note_type, n as int)
                            == senv[n + startpose]);
                    }
                    apply_gain(in_audio, n, velocity, adsr_env[n + startpose]);
                    n = n + 1;
                }
            } else if adsr_length > startpose {
                proof {
                    assert(adsr_length - startpose <= ns);
                    assert(ns >= 1);
                    assert(sframe >= 1);
                }
                let nsamples_max = (adsr_length - startpose) % frame_size;
                proof {
                    let diff = (adsr_length - startpose) as int;
                    if diff < sframe {
                        vstd::arithmetic::div_mod::lemma_small_mod(diff as nat, sframe as nat);
                    } else {
                        assert(diff == sframe);
                        vstd::arithmetic::div_mod::lemma_mod_self_0(sframe);
                    }
                    assert(nsamples_max <= adsr_length - startpose);
                }
                let mut n: usize = 0;
                while n < nsamples_max
                    invariant
                        0 <= velocity <= FP_ONE,
                        svel == velocity as int,
                        self.wf(),
                        senv == adsr_env@,
                        senv.len() == adsr_length,
                        forall|i: int| 0 <= i < senv.len() ==> 0 <= #[trigger] senv[i] <= FP_ONE,
                        startpose < adsr_length,
                        adsr_length <= nsamples + startpose,
                        nsamples_max == ((adsr_length - startpose) as int) % sframe,
                        nsamples_max + startpose <= adsr_length,
                        nsamples_max <= nsamples,
                        ns == nsamples,
                        ns == mb_nsamples(mb_sample_length(*self, ssize, note_type), ssp, sframe),
                        ssp == startpose as int,
                        sframe == frame_size as int,
                        n <= nsamples_max,
                        nsamples <= frame_size <= in_audio@.len(),
                        in_audio@.len() == spec_old.len(),
                        forall|m: int| 0 <= m < n ==> #[trigger] in_audio@[m] == mb_applied(
                            *self, spec_old, senv, ssp, ssize, sframe, note_type, svel, m),
                        forall|m: int| n <= m < in_audio@.len() ==>
                            #[trigger] in_audio@[m] == spec_old[m],
                        forall|m: int| 0 <= m < n ==>
                            -AUDIO_LIMIT <= #[trigger] in_audio@[m] <= AUDIO_LIMIT,
                        forall|m: int| 0 <= m < frame_size ==>
                            -AUDIO_LIMIT <= #[trigger] spec_old[m] <= AUDIO_LIMIT,
                    decreases nsamples_max - n,
                {
                    proof {
                        assert(mb_gain_at(*self, senv, ssp, ssize, sframe, note_type, n as int)
                            == senv[n + startpose]);
                    }
                    apply_gain(in_audio, n, velocity, adsr_env[n + startpose]);
                    n = n + 1;
                }
                let hold_idx = if nsamples_max + startpose == 0 {
                    0
                } else {
                    nsamples_max + startpose - 1
                };
                let hold_gain = adsr_env[hold_idx];
                let mut n2: usize = nsamples_max;
                while n2 < nsamples
                    invariant
                        0 <= velocity <= FP_ONE,
                        svel == velocity as int,
                        self.wf(),
                        senv == adsr_env@,
                        senv.len() == adsr_length,
                        forall|i: int| 0 <= i < senv.len() ==> 0 <= #[trigger] senv[i] <= FP_ONE,
                        startpose < adsr_length,
                        adsr_length <= nsamples + startpose,
                        nsamples_max == ((adsr_length - startpose) as int) % sframe,
                        nsamples_max + startpose <= adsr_length,
                        nsamples_max <= nsamples,
                        hold_idx == (if nsamples_max + startpose == 0 {
                            0int
                        } else {
                            nsamples_max + startpose - 1
                        }),
                        hold_idx < adsr_length,
                        hold_gain == senv[hold_idx as int],
                        ns == nsamples,
                        ns == mb_nsamples(mb_sample_length(*self, ssize, note_type), ssp, sframe),
                        ssp == startpose as int,
                        sframe == frame_size as int,
                        nsamples_max <= n2 <= nsamples,
                        nsamples <= frame_size <= in_audio@.len(),
                        in_audio@.len() == spec_old.len(),
                        forall|m: int| 0 <= m < n2 ==> #[trigger] in_audio@[m] == mb_applied(
                            *self, spec_old, senv, ssp, ssize, sframe, note_type, svel, m),
                        forall|m: int| n2 <= m < in_audio@.len() ==>
                            #[trigger] in_audio@[m] == spec_old[m],
                        forall|m: int| 0 <= m < n2 ==>
                            -AUDIO_LIMIT <= #[trigger] in_audio@[m] <= AUDIO_LIMIT,
                        forall|m: int| 0 <= m < frame_size ==>
                            -AUDIO_LIMIT <= #[trigger] spec_old[m] <= AUDIO_LIMIT,
                    decreases nsamples - n2,
                {
                    proof {
                        assert(mb_gain_at(*self, senv, ssp, ssize, sframe, note_type, n2 as int)
                            == hold_gain);
                    }
                    apply_gain(in_audio, n2, velocity, hold_gain);
                    n2 = n2 + 1;
                }
            } else {
                let edge_gain = adsr_env[adsr_length - 1];
                let mut n: usize = 0;
                while n < nsamples
                    invariant
                        0 <= velocity <= FP_ONE,
                        svel == velocity as int,
                        self.wf(),
                        senv == adsr_env@,
                        senv.len() == adsr_length,
                        forall|i: int| 0 <= i < senv.len() ==> 0 <= #[trigger] senv[i] <= FP_ONE,
                        1 <= adsr_length <= startpose,
                        edge_gain == senv[adsr_length - 1],
                        ns == nsamples,
                        ns == mb_nsamples(mb_sample_length(*self, ssize, note_type), ssp, sframe),
                        ssp == startpose as int,
                        sframe == frame_size as int,
                        n <= nsamples <= frame_size <= in_audio@.len(),
                        in_audio@.len() == spec_old.len(),
                        forall|m: int| 0 <= m < n ==> #[trigger] in_audio@[m] == mb_applied(
                            *self, spec_old, senv, ssp, ssize, sframe, note_type, svel, m),
                        forall|m: int| n <= m < in_audio@.len() ==>
                            #[trigger] in_audio@[m] == spec_old[m],
                        forall|m: int| 0 <= m < n ==>
                            -AUDIO_LIMIT <= #[trigger] in_audio@[m] <= AUDIO_LIMIT,
                        forall|m: int| 0 <= m < frame_size ==>
                            -AUDIO_LIMIT <= #[trigger] spec_old[m] <= AUDIO_LIMIT,
                    decreases nsamples - n,
                {
                    proof {
                        assert(mb_gain_at(*self, senv, ssp, ssize, sframe, note_type, n as int)
                            == edge_gain);
                    }
                    apply_gain(in_audio, n, velocity, edge_gain);
                    n = n + 1;
                }
            }

            let mut n3: usize = nsamples;
            while n3 < frame_size
                invariant
                    0 <= velocity <= FP_ONE,
                    svel == velocity as int,
                    self.wf(),
                    senv == adsr_env@,
                    0 <= factor <= FP_ONE,
                    factor == mb_factor(*self, note_type),
                    ns == nsamples,
                    ns == mb_nsamples(mb_sample_length(*self, ssize, note_type), ssp, sframe),
                    ssp == startpose as int,
                    sframe == frame_size as int,
                    nsamples <= n3 <= frame_size <= in_audio@.len(),
                    in_audio@.len() == spec_old.len(),
                    forall|m: int| 0 <= m < n3 ==> #[trigger] in_audio@[m] == mb_applied(
                        *self, spec_old, senv, ssp, ssize, sframe, note_type, svel, m),
                    forall|m: int| n3 <= m < in_audio@.len() ==>
                        #[trigger] in_audio@[m] == spec_old[m],
                    forall|m: int| 0 <= m < n3 ==>
                        -AUDIO_LIMIT <= #[trigger] in_audio@[m] <= AUDIO_LIMIT,
                    forall|m: int| 0 <= m < frame_size ==>
                        -AUDIO_LIMIT <= #[trigger] spec_old[m] <= AUDIO_LIMIT,
                decreases frame_size - n3,
            {
                proof {
                    assert(mb_gain_at(*self, senv, ssp, ssize, sframe, note_type, n3 as int)
                        == factor);
                }
                apply_gain(in_audio, n3, velocity, factor);
                n3 = n3 + 1;
            }
        }

        if adsr_length > 0 {
            let tone_index = if startpose + nsamples == 0 {
                0
            } else {
                startpose + nsamples - 1
            };
            let max_adsr_env_index = if adsr_length - 1 < tone_index {
                adsr_length - 1
            } else {
                tone_index
            };
            proof {
                assert(max_adsr_env_index == mb_sustain_index(senv.len() as int, ssp, ns));
            }
            *last_sustain_value = adsr_env[max_adsr_env_index];
        }
    }
}

/// The note-off curve never rises: each sample is at most every sample
/// before it, from the sustain level down to zero.
pub proof fn lemma_note_off_env_monotone(adsr: Adsr, size: int, i: int, j: int)
    requires
        adsr.wf(),
        0 <= i <= j,
        1 <= size,
    ensures
        env_off_at(adsr, size, i) >= env_off_at(adsr, size, j),
{
    let s = FP_ONE as int;
    let fr = adsr.tr * size;
    let mr = release_len(adsr, size);
    assert(fr >= 0) by (nonlinear_arith)
        requires adsr.tr >= 0 && size >= 1 && fr == adsr.tr * size;
    if j < mr {
        lemma_below_quota(j as int, fr);
        assert(i * s <= j * s) by (nonlinear_arith)
            requires i <= j && s > 0;
        assert(adsr.ts * (i * s) <= adsr.ts * (j * s)) by (nonlinear_arith)
            requires adsr.ts >= 0 && i * s <= j * s;
        lemma_div_is_ordered(adsr.ts * (i * s), adsr.ts * (j * s), fr);
    } else if i < mr {
        lemma_below_quota(i as int, fr);
        lemma_ramp_share(adsr.ts as int, i, fr);
    }
}

} // verus!
