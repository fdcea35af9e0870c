//! An overdrive effect: a piecewise soft clipper with adjustable gain,
//! in a symmetrical and an unsymmetrical flavour; the unsymmetrical
//! path also removes the clipped signal's mean.

use vstd::prelude::*;
use vstd::arithmetic::div_mod::{
    lemma_div_is_ordered, lemma_div_pos_is_pos, lemma_multiply_divide_le,
};
use crate::fixed::{fp_mul, AUDIO_LIMIT, FP_ONE, MAX_FRAME};

verus! {

/// The largest drive gain the effect accepts, 10.0 in fixed point.
pub const GAIN_LIMIT: i64 = 10 * 32768;

/// The soft clipper on a nonnegative driven sample: linear doubling up
/// to one third, a parabolic knee up to two thirds, then hard at one.
pub open spec fn clip_mag_spec(ax: int) -> int {
    if 0 <= ax && 3 * ax < FP_ONE {
        2 * ax
    } else if FP_ONE < 3 * ax && 3 * ax < 2 * FP_ONE {
        (3 * FP_ONE * FP_ONE - (2 * FP_ONE - 3 * ax) * (2 * FP_ONE - 3 * ax)) / (3 * FP_ONE)
    } else {
        FP_ONE as int
    }
}

/// The symmetrical soft clip of a sample driven by `gain`: the clipped
/// magnitude with the driven sample's sign restored.
pub open spec fn softclip_sym_spec(x: int, gain: int) -> int {
    let xg = fp_mul(x, gain);
    if xg >= 0 {
        clip_mag_spec(xg)
    } else {
        -clip_mag_spec(-xg)
    }
}

/// The unsymmetrical soft clip: the clipped magnitude without a sign.
pub open spec fn softclip_unsym_spec(x: int, gain: int) -> int {
    let xg = fp_mul(x, gain);
    if xg >= 0 {
        clip_mag_spec(xg)
    } else {
        clip_mag_spec(-xg)
    }
}

/// The clipped magnitude lies in `0 ..= FP_ONE`.
pub proof fn lemma_clip_mag_bounds(ax: int)
    requires
        ax >= 0,
    ensures
        0 <= clip_mag_spec(ax) <= FP_ONE,
{
    let s = FP_ONE as int;
    if 3 * ax < s {
    } else if s < 3 * ax && 3 * ax < 2 * s {
        let t = 2 * s - 3 * ax;
        let num = 3 * s * s - t * t;
        assert(0 < t < s);
        assert(0 <= num <= 3 * s * s) by (nonlinear_arith)
            requires 0 < t < s && num == 3 * s * s - t * t;
        lemma_div_pos_is_pos(num, 3 * s);
        assert(num <= (3 * s) * s) by (nonlinear_arith)
            requires num <= 3 * s * s;
        lemma_multiply_divide_le(num, 3 * s, s);
    }
}

/// The clipped magnitude of a nonnegative driven sample.
fn clip_mag(ax: i64) -> (r: i64)
    requires
        0 <= ax <= 16 * AUDIO_LIMIT,
    ensures
        r == clip_mag_spec(ax as int),
        0 <= r <= FP_ONE,
{
    proof {
        lemma_clip_mag_bounds(ax as int);
    }
    if 3 * ax < FP_ONE {
        2 * ax
    } else if FP_ONE < 3 * ax && 3 * ax < 2 * FP_ONE {
        let t = 2 * FP_ONE - 3 * ax;
        (3 * FP_ONE * FP_ONE - t * t) / (3 * FP_ONE)
    } else {
        FP_ONE
    }
}

/// Drive a sample by the gain: the product scaled back, magnitude
/// rounded toward zero.
fn drive(x: i64, gain: i64) -> (r: i64)
    requires
        -AUDIO_LIMIT <= x <= AUDIO_LIMIT,
        0 <= gain <= GAIN_LIMIT,
    ensures
        r == fp_mul(x as int, gain as int),
        -16 * AUDIO_LIMIT <= r <= 16 * AUDIO_LIMIT,
{
    proof {
        assert(0 <= (if x >= 0 { x as int } else { -(x as int) }) * gain
            <= AUDIO_LIMIT * GAIN_LIMIT) by (nonlinear_arith)
            requires -AUDIO_LIMIT <= x <= AUDIO_LIMIT && 0 <= gain <= GAIN_LIMIT;
        lemma_div_pos_is_pos((if x >= 0 { x as int } else { -(x as int) }) * gain, FP_ONE as int);
        lemma_div_is_ordered(
            (if x >= 0 { x as int } else { -(x as int) }) * gain,
            AUDIO_LIMIT * GAIN_LIMIT,
            FP_ONE as int,
        );
    }
    if x >= 0 {
        (x * gain) / FP_ONE
    } else {
        -(((-x) * gain) / FP_ONE)
    }
}

/// The symmetrical soft clip of one driven sample.
pub fn softclip_symetrical(x: i64, gain: i64) -> (r: i64)
    requires
        -AUDIO_LIMIT <= x <= AUDIO_LIMIT,
        0 <= gain <= GAIN_LIMIT,
    ensures
        r == softclip_sym_spec(x as int, gain as int),
        -FP_ONE <= r <= FP_ONE,
{
    let xg = drive(x, gain);
    if xg >= 0 {
        clip_mag(xg)
    } else {
        -clip_mag(-xg)
    }
}

/// The unsymmetrical soft clip of one driven sample.
pub fn softclip_unsymetrical(x: i64, gain: i64) -> (r: i64)
    requires
        -AUDIO_LIMIT <= x <= AUDIO_LIMIT,
        0 <= gain <= GAIN_LIMIT,
    ensures
        r == softclip_unsym_spec(x as int, gain as int),
        0 <= r <= FP_ONE,
{
    let xg = drive(x, gain);
    if xg >= 0 {
        clip_mag(xg)
    } else {
        clip_mag(-xg)
    }
}

/// The sum of the first `k` unsymmetrically clipped samples.
pub open spec fn clip_unsym_sum(s: Seq<i64>, gain: int, k: int) -> int
    decreases k,
{
    if k <= 0 {
        0
    } else {
        clip_unsym_sum(s, gain, k - 1) + softclip_unsym_spec(s[k - 1] as int, gain)
    }
}

/// The mean the unsymmetrical path removes: the clipped sum divided by
/// the frame length, rounded toward zero.
pub open spec fn clip_unsym_mean(s: Seq<i64>, gain: int) -> int {
    clip_unsym_sum(s, gain, s.len() as int) / (s.len() as int)
}

/// The overdrive effect: a drive gain, the clipper flavour, and a
/// bypass switch.
pub struct Overdrive {
    pub bypassing: bool,
    pub symetrical: bool,
    pub gain: i64,
}

impl Overdrive {
    /// The gain stays within the accepted drive range.
    pub open spec fn wf(self) -> bool {
        0 <= self.gain <= GAIN_LIMIT
    }

    /// A fresh effect: engaged, symmetrical, with no drive.
    pub fn new() -> (r: Overdrive)
        ensures
            r.bypassing == false,
            r.symetrical == true,
            r.gain == 0,
            r.wf(),
    {
        Overdrive { bypassing: false, symetrical: true, gain: 0 }
    }

    /// The effect's name.
    pub fn name(&self) -> (r: &'static str) {
        "overdrive"
    }

    /// Select the symmetrical clipper.
    pub fn set_symetrical(&mut self)
        ensures
            *final(self) == (Overdrive { symetrical: true, ..*old(self) }),
    {
        self.symetrical = true;
    }

    /// Select the unsymmetrical clipper.
    pub fn unset_symetrical(&mut self)
        ensures
            *final(self) == (Overdrive { symetrical: false, ..*old(self) }),
    {
        self.symetrical = false;
    }

    /// Set the drive gain, clamped into the accepted range.
    pub fn set_gain(&mut self, new_gain: i64)
        ensures
            final(self).gain == (if new_gain < 0 {
                0int
            } else if new_gain > GAIN_LIMIT {
                GAIN_LIMIT as int
            } else {
                new_gain as int
            }),
            final(self).bypassing == old(self).bypassing,
            final(self).symetrical == old(self).symetrical,
            final(self).wf(),
    {
        if new_gain < 0 {
            self.gain = 0;
        } else if new_gain > GAIN_LIMIT {
            self.gain = GAIN_LIMIT;
        } else {
            self.gain = new_gain;
        }
    }

    /// Toggle the bypass switch.
    pub fn bypass(&mut self)
        ensures
            *final(self) == (Overdrive { bypassing: !old(self).bypassing, ..*old(self) }),
    {
        self.bypassing = !self.bypassing;
    }

    /// Run the clipper over both channels.
    pub fn process_samples(
        &self,
        input_l: &Vec<i64>,
        input_r: &Vec<i64>,
        output_l: &mut Vec<i64>,
        output_r: &mut Vec<i64>,
    )
        requires
            self.wf(),
            input_l@.len() <= old(output_l)@.len(),
            input_r@.len() <= old(output_r)@.len(),
            input_l@.len() <= MAX_FRAME,
            input_r@.len() <= MAX_FRAME,
            forall|i: int| 0 <= i < input_l@.len() ==>
                -AUDIO_LIMIT <= #[trigger] input_l@[i] <= AUDIO_LIMIT,
            forall|i: int| 0 <= i < input_r@.len() ==>
                -AUDIO_LIMIT <= #[trigger] input_r@[i] <= AUDIO_LIMIT,
        ensures
            final(output_l)@.len() == old(output_l)@.len(),
            final(output_r)@.len() == old(output_r)@.len(),
            self.bypassing ==> forall|i: int| 0 <= i < input_l@.len() ==>
                #[trigger] final(output_l)@[i] == input_l@[i],
            self.bypassing ==> forall|i: int| 0 <= i < input_r@.len() ==>
                #[trigger] final(output_r)@[i] == input_r@[i],
            !self.bypassing && self.symetrical ==> forall|i: int| 0 <= i < input_l@.len() ==>
                #[trigger] final(output_l)@[i]
                    == softclip_sym_spec(input_l@[i] as int, self.gain as int),
            !self.bypassing && self.symetrical ==> forall|i: int| 0 <= i < input_r@.len() ==>
                #[trigger] final(output_r)@[i]
                    == softclip_sym_spec(input_r@[i] as int, self.gain as int),
            !self.bypassing && !self.symetrical && input_l@.len() > 0 ==>
                forall|i: int| 0 <= i < input_l@.len() ==> #[trigger] final(output_l)@[i]
                    == softclip_unsym_spec(input_l@[i] as int, self.gain as int)
                        - clip_unsym_mean(input_l@, self.gain as int),
            !self.bypassing && !self.symetrical && input_r@.len() > 0 ==>
                forall|i: int| 0 <= i < input_r@.len() ==> #[trigger] final(output_r)@[i]
                    == softclip_unsym_spec(input_r@[i] as int, self.gain as int)
                        - clip_unsym_mean(input_r@, self.gain as int),
    {
        self.process_channel(input_l, output_l);
        self.process_channel(input_r, output_r);
    }

    /// Run the clipper over one channel: bypassing copies the input;
    /// the symmetrical path clips each sample; the unsymmetrical path
    /// clips magnitudes and then removes the clipped frame's mean.
    pub fn process_channel(&self, input: &Vec<i64>, output: &mut Vec<i64>)
        requires
            self.wf(),
            input@.len() <= old(output)@.len(),
            input@.len() <= MAX_FRAME,
            forall|i: int| 0 <= i < input@.len() ==>
                -AUDIO_LIMIT <= #[trigger] input@[i] <= AUDIO_LIMIT,
        ensures
            final(output)@.len() == old(output)@.len(),
            self.bypassing ==> forall|i: int| 0 <= i < input@.len() ==>
                #[trigger] final(output)@[i] == input@[i],
            !self.bypassing && self.symetrical ==> forall|i: int| 0 <= i < input@.len() ==>
                #[trigger] final(output)@[i] == softclip_sym_spec(input@[i] as int, self.gain as int),
            !self.bypassing && !self.symetrical && input@.len() > 0 ==>
                forall|i: int| 0 <= i < input@.len() ==> #[trigger] final(output)@[i]
                    == softclip_unsym_spec(input@[i] as int, self.gain as int)
                        - clip_unsym_mean(input@, self.gain as int),
            forall|i: int| input@.len() <= i < final(output)@.len() ==>
                #[trigger] final(output)@[i] == old(output)@[i],
    {
        let ghost out0 = output@;
        let n = input.len();
        if self.bypassing {
            let mut i: usize = 0;
            while i < n
                invariant
                    i <= n,
                    n == input@.len() <= output@.len(),
                    output@.len() == out0.len(),
                    forall|k: int| 0 <= k < i ==> #[trigger] output@[k] == input@[k],
                    forall|k: int| i <= k < out0.len() ==> #[trigger] output@[k] == out0[k],
                decreases n - i,
            {
                let v = input[i];
                output.set(i, v);
                i = i + 1;
            }
            return ;
        }
        if self.symetrical {
            let mut i: usize = 0;
            while i < n
                invariant
                    self.wf(),
                    i <= n,
                    n == input@.len() <= output@.len(),
                    output@.len() == out0.len(),
                    forall|k: int| 0 <= k < input@.len() ==>
                        -AUDIO_LIMIT <= #[trigger] input@[k] <= AUDIO_LIMIT,
                    forall|k: int| 0 <= k < i ==> #[trigger] output@[k]
                        == softclip_sym_spec(input@[k] as int, self.gain as int),
                    forall|k: int| i <= k < out0.len() ==> #[trigger] output@[k] == out0[k],
                decreases n - i,
            {
                let v = softclip_symetrical(input[i], self.gain);
                output.set(i, v);
                i = i + 1;
            }
        } else {
            let mut i: usize = 0;
            let mut sum: i64 = 0;
            while i < n
                invariant
                    self.wf(),
                    i <= n,
                    n == input@.len() <= output@.len(),
                    n <= MAX_FRAME,
                    output@.len() == out0.len(),
                    forall|k: int| 0 <= k < input@.len() ==>
                        -AUDIO_LIMIT <= #[trigger] input@[k] <= AUDIO_LIMIT,
                    forall|k: int| 0 <= k < i ==> #[trigger] output@[k]
                        == softclip_unsym_spec(input@[k] as int, self.gain as int),
                    forall|k: int| i <= k < out0.len() ==> #[trigger] output@[k] == out0[k],
                    sum == clip_unsym_sum(input@, self.gain as int, i as int),
                    0 <= sum <= i * FP_ONE,
                decreases n - i,
            {
                proof {
                    assert((i as int) * FP_ONE + FP_ONE == (i + 1) * FP_ONE) by (nonlinear_arith);
                    assert((i + 1) * FP_ONE <= (MAX_FRAME as int) * FP_ONE) by (nonlinear_arith)
                        requires i + 1 <= MAX_FRAME as int;
                }
                let v = softclip_unsymetrical(input[i], self.gain);
                output.set(i, v);
                sum = sum + v;
                i = i + 1;
            }
            if n > 0 {
                proof {
                    lemma_div_pos_is_pos(sum as int, n as int);
                    lemma_multiply_divide_le(sum as int, n as int, FP_ONE as int);
                    assert(sum <= (n as int) * FP_ONE);
                }
                let average = sum / (n as i64);
                let mut j: usize = 0;
                while j < n
                    invariant
                        j <= n,
                        n == input@.len() <= output@.len(),
                        output@.len() == out0.len(),
                        0 <= average <= FP_ONE,
                        average == clip_unsym_mean(input@, self.gain as int),
                        forall|k: int| 0 <= k < j ==> #[trigger] output@[k]
                            == softclip_unsym_spec(input@[k] as int, self.gain as int) - average,
                        forall|k: int| j <= k < input@.len() ==> #[trigger] output@[k]
                            == softclip_unsym_spec(input@[k] as int, self.gain as int),
                        forall|k: int| input@.len() <= k < out0.len() ==>
                            #[trigger] output@[k] == out0[k],
                    decreases n - j,
                {
                    proof {
                        lemma_clip_mag_bounds(
                            if fp_mul(input@[j as int] as int, self.gain as int) >= 0 {
                                fp_mul(input@[j as int] as int, self.gain as int)
                            } else {
                                -fp_mul(input@[j as int] as int, self.gain as int)
                            },
                        );
                    }
                    let v = output[j] - average;
                    output.set(j, v);
                    j = j + 1;
                }
            }
        }
    }
}

} // verus!
