//! The sine oscillator: one frame of samples with amplitude and
//! frequency modulation, driven by a running sample clock.
//!
//! Every sample is a pure function of the parameter set and the absolute
//! sample time `t`, stated by [`sample_at`].  Because of that, generating
//! `0..n` and then `n..2n` yields exactly the same samples as generating
//! `0..2n` in one call ([`lemma_phase_continuity`]), which is what keeps
//! frame boundaries free of clicks.

use vstd::prelude::*;
use vstd::arithmetic::div_mod::{
    lemma_div_is_ordered_by_denominator, lemma_div_multiples_vanish, lemma_div_nonincreasing,
    lemma_div_pos_is_pos, lemma_mod_bound, lemma_multiply_divide_le,
};
use vstd::arithmetic::mul::lemma_mul_is_distributive_add;
use crate::fixed::{fp_mul, scale_signed, FP_ONE};
use crate::trig::{cos_fixed, cos_spec, sin_fixed, sin_spec, TURN, UNITS_PER_RADIAN};

verus! {

/// Largest frequency (fixed-point Hz) the oscillator accepts.
pub const FREQ_LIMIT: i64 = 0x4000_0000;

/// Largest sample rate (fixed-point Hz) the oscillator accepts.
pub const FS_LIMIT: i64 = 0x100_0000_0000;

/// Largest absolute sample time the oscillator is asked about.
pub const MAX_TIME: usize = 0x4000_0000;

/// One parameter set for a frame of sine samples.  All gains and
/// frequencies are fixed-point; phases are angle units in `0 .. TURN`.
pub struct SineWave {
    pub freq_base: i64,
    pub amplitude: i64,
    pub intensity_am: i64,
    pub freq_am: i64,
    pub phase_am: i64,
    pub intensity_fm: i64,
    pub freq_fm: i64,
    pub phase_fm: i64,
    pub num_samples: usize,
    pub offset: usize,
    pub fs: i64,
}

impl SineWave {
    /// The parameter ranges under which generation is defined.
    pub open spec fn wf(self) -> bool {
        &&& 0 <= self.freq_base <= FREQ_LIMIT
        &&& 0 <= self.amplitude <= FP_ONE
        &&& 0 <= self.intensity_am <= FP_ONE
        &&& 0 <= self.freq_am <= FREQ_LIMIT
        &&& 0 <= self.phase_am < TURN
        &&& 0 <= self.intensity_fm <= FREQ_LIMIT
        &&& 0 <= self.freq_fm <= FREQ_LIMIT
        &&& 0 <= self.phase_fm < TURN
        &&& FP_ONE <= self.fs <= FS_LIMIT
        &&& self.offset + self.num_samples <= MAX_TIME
    }

    /// Two parameter sets that differ at most in their sample window.
    pub open spec fn same_params(self, other: SineWave) -> bool {
        &&& self.freq_base == other.freq_base
        &&& self.amplitude == other.amplitude
        &&& self.intensity_am == other.intensity_am
        &&& self.freq_am == other.freq_am
        &&& self.phase_am == other.phase_am
        &&& self.intensity_fm == other.intensity_fm
        &&& self.freq_fm == other.freq_fm
        &&& self.phase_fm == other.phase_fm
        &&& self.fs == other.fs
    }
}

/// Angle advance per sample for a frequency, in `TURN` units.
pub open spec fn step_units_spec(freq: int, fs: int) -> int {
    (freq * TURN) / fs
}

/// The wrapped angle of a phase accumulator at sample time `t`.
pub open spec fn angle_at(step: int, phase: int, t: int) -> int {
    (step * t + phase) % (TURN as int)
}

/// The phase deviation added by frequency modulation, in angle units.
pub open spec fn fm_index_spec(w: SineWave) -> int {
    if w.freq_fm == 0 {
        0
    } else {
        (w.intensity_fm * UNITS_PER_RADIAN) / (w.freq_fm as int)
    }
}

/// The amplitude-modulation gain at sample time `t`, in `0 ..= FP_ONE`.
pub open spec fn am_gain_at(w: SineWave, t: int) -> int {
    let ac = cos_spec(angle_at(step_units_spec(w.freq_am as int, w.fs as int), w.phase_am as int, t));
    (w.intensity_am * (FP_ONE + ac)) / (2 * FP_ONE) + (FP_ONE - w.intensity_am)
}

/// The carrier angle at sample time `t`, after frequency modulation.
pub open spec fn carrier_angle_at(w: SineWave, t: int) -> int {
    let c = cos_spec(angle_at(step_units_spec(w.freq_fm as int, w.fs as int), w.phase_fm as int, t));
    let mag = ((fm_index_spec(w) * (if c >= 0 { c } else { -c })) / (FP_ONE as int)) % (TURN as int);
    let raw = (step_units_spec(w.freq_base as int, w.fs as int) * t) % (TURN as int);
    if c >= 0 {
        (raw + mag) % (TURN as int)
    } else {
        (raw + TURN - mag) % (TURN as int)
    }
}

/// The oscillator's output at absolute sample time `t`: the modulated
/// sine, scaled by the amplitude-modulation gain and by the amplitude.
pub open spec fn sample_at(w: SineWave, t: int) -> int {
    fp_mul(fp_mul(sin_spec(carrier_angle_at(w, t)), am_gain_at(w, t)), w.amplitude as int)
}

/// The sample window a parameter set describes, as one sequence.
pub open spec fn wave_samples(w: SineWave) -> Seq<int> {
    Seq::new(w.num_samples as nat, |i: int| sample_at(w, w.offset + i))
}

/// The per-sample angle advance of a frequency is at most twice the
/// frequency and never negative.
proof fn lemma_step_units_bounds(freq: int, fs: int)
    requires
        0 <= freq <= FREQ_LIMIT,
        FP_ONE <= fs,
    ensures
        0 <= step_units_spec(freq, fs) <= 2 * FREQ_LIMIT,
{
    lemma_div_pos_is_pos(freq * TURN, fs);
    lemma_div_is_ordered_by_denominator(freq * TURN, FP_ONE as int, fs);
    assert(freq * TURN == (2 * freq) * FP_ONE) by (nonlinear_arith)
        requires TURN == 2 * FP_ONE;
    lemma_div_multiples_vanish(2 * freq, FP_ONE as int);
}

/// Angle advance per sample, computed in the fixed-point domain.
fn step_units(freq: i64, fs: i64) -> (r: i64)
    requires
        0 <= freq <= FREQ_LIMIT,
        FP_ONE <= fs,
    ensures
        r == step_units_spec(freq as int, fs as int),
        0 <= r <= 2 * FREQ_LIMIT,
{
    proof {
        lemma_step_units_bounds(freq as int, fs as int);
    }
    (freq * TURN) / fs
}

/// The amplitude-modulation gain lies in `0 ..= FP_ONE`.
proof fn lemma_am_gain_bounds(w: SineWave, t: int)
    requires
        w.wf(),
    ensures
        FP_ONE - w.intensity_am <= am_gain_at(w, t) <= FP_ONE,
{
    let step = step_units_spec(w.freq_am as int, w.fs as int);
    let a = angle_at(step, w.phase_am as int, t);
    lemma_mod_bound((step * t + w.phase_am) as int, TURN as int);
    let ac = cos_spec(a);
    assert(-FP_ONE <= ac <= FP_ONE) by {
        crate::trig::lemma_sin_bounds((a + crate::trig::QUARTER_TURN) % (TURN as int));
        lemma_mod_bound(a + crate::trig::QUARTER_TURN, TURN as int);
    }
    let num = w.intensity_am * (FP_ONE + ac);
    assert(0 <= num <= w.intensity_am * (2 * FP_ONE)) by (nonlinear_arith)
        requires 0 <= w.intensity_am && 0 <= FP_ONE + ac <= 2 * FP_ONE
            && num == w.intensity_am * (FP_ONE + ac);
    lemma_div_pos_is_pos(num, 2 * FP_ONE);
    assert(num <= (2 * FP_ONE) * w.intensity_am) by (nonlinear_arith)
        requires num <= w.intensity_am * (2 * FP_ONE);
    lemma_multiply_divide_le(num, 2 * FP_ONE, w.intensity_am as int);
}

/// One output sample at absolute time `t`.
fn compute_sample(w: &SineWave, t: usize) -> (r: i64)
    requires
        w.wf(),
        t <= MAX_TIME,
    ensures
        r == sample_at(*w, t as int),
        -w.amplitude <= r <= w.amplitude,
{
    let step_base = step_units(w.freq_base, w.fs);
    let step_am = step_units(w.freq_am, w.fs);
    let step_fm = step_units(w.freq_fm, w.fs);

    // Frequency modulation: a phase deviation around the carrier angle.
    let fm_index: i64 = if w.freq_fm == 0 {
        0
    } else {
        proof {
            lemma_div_pos_is_pos(w.intensity_fm * UNITS_PER_RADIAN, w.freq_fm as int);
            lemma_div_nonincreasing(w.intensity_fm * UNITS_PER_RADIAN, w.freq_fm as int);
            assert(0 <= w.intensity_fm * UNITS_PER_RADIAN <= FREQ_LIMIT * UNITS_PER_RADIAN)
                by (nonlinear_arith)
                requires 0 <= w.intensity_fm <= FREQ_LIMIT;
        }
        (w.intensity_fm * UNITS_PER_RADIAN) / w.freq_fm
    };
    proof {
        assert(fm_index == fm_index_spec(*w));
        assert(0 <= (step_fm * t) as int <= 2 * FREQ_LIMIT * MAX_TIME) by (nonlinear_arith)
            requires 0 <= step_fm <= 2 * FREQ_LIMIT && 0 <= t <= MAX_TIME;
        lemma_mod_bound((step_fm * t + w.phase_fm) as int, TURN as int);
    }
    let fm_angle = (step_fm * (t as i64) + w.phase_fm) % TURN;
    let c = cos_fixed(fm_angle);
    let c_mag = if c >= 0 { c } else { -c };
    proof {
        assert(0 <= fm_index * c_mag <= FREQ_LIMIT * UNITS_PER_RADIAN * FP_ONE)
            by (nonlinear_arith)
            requires 0 <= fm_index <= FREQ_LIMIT * UNITS_PER_RADIAN && 0 <= c_mag <= FP_ONE;
        lemma_div_pos_is_pos(fm_index * c_mag, FP_ONE as int);
        lemma_mod_bound((fm_index * c_mag) as int / (FP_ONE as int), TURN as int);
    }
    let deviation = ((fm_index * c_mag) / FP_ONE) % TURN;

    proof {
        assert(0 <= (step_base * t) as int <= 2 * FREQ_LIMIT * MAX_TIME) by (nonlinear_arith)
            requires 0 <= step_base <= 2 * FREQ_LIMIT && 0 <= t <= MAX_TIME;
        lemma_mod_bound((step_base * t) as int, TURN as int);
    }
    let raw = (step_base * (t as i64)) % TURN;
    let carrier_angle = if c >= 0 {
        proof {
            lemma_mod_bound((raw + deviation) as int, TURN as int);
        }
        (raw + deviation) % TURN
    } else {
        proof {
            lemma_mod_bound((raw + TURN - deviation) as int, TURN as int);
        }
        (raw + TURN - deviation) % TURN
    };
    let sv = sin_fixed(carrier_angle);

    // Amplitude modulation: a gain in 0 ..= FP_ONE around the carrier.
    proof {
        assert(0 <= (step_am * t) as int <= 2 * FREQ_LIMIT * MAX_TIME) by (nonlinear_arith)
            requires 0 <= step_am <= 2 * FREQ_LIMIT && 0 <= t <= MAX_TIME;
        lemma_mod_bound((step_am * t + w.phase_am) as int, TURN as int);
    }
    let am_angle = (step_am * (t as i64) + w.phase_am) % TURN;
    let ac = cos_fixed(am_angle);
    proof {
        assert(0 <= w.intensity_am * (FP_ONE + ac) <= w.intensity_am * (2 * FP_ONE))
            by (nonlinear_arith)
            requires 0 <= w.intensity_am && 0 <= FP_ONE + ac <= 2 * FP_ONE;
        lemma_am_gain_bounds(*w, t as int);
    }
    let am = (w.intensity_am * (FP_ONE + ac)) / (2 * FP_ONE) + (FP_ONE - w.intensity_am);

    let modulated = scale_signed(sv, am);
    let r = scale_signed(modulated, w.amplitude);
    proof {
        if modulated >= 0 {
            crate::fixed::lemma_fp_mul_le_gain(modulated as int, w.amplitude as int);
        } else {
            crate::fixed::lemma_fp_mul_le_gain(-(modulated as int), w.amplitude as int);
        }
    }
    r
}

impl SineWave {
    /// A parameter set for `num_samples` samples starting at sample time
    /// `offset`.
    #[allow(clippy::too_many_arguments)]
    pub fn new(
        freq_base: i64,
        amplitude: i64,
        intensity_am: i64,
        freq_am: i64,
        phase_am: i64,
        intensity_fm: i64,
        freq_fm: i64,
        phase_fm: i64,
        fs: i64,
        num_samples: usize,
        offset: usize,
    ) -> (r: SineWave)
        requires
            0 <= freq_base <= FREQ_LIMIT,
            0 <= amplitude <= FP_ONE,
            0 <= intensity_am <= FP_ONE,
            0 <= freq_am <= FREQ_LIMIT,
            0 <= phase_am < TURN,
            0 <= intensity_fm <= FREQ_LIMIT,
            0 <= freq_fm <= FREQ_LIMIT,
            0 <= phase_fm < TURN,
            FP_ONE <= fs <= FS_LIMIT,
            offset + num_samples <= MAX_TIME,
        ensures
            r == (SineWave {
                freq_base,
                amplitude,
                intensity_am,
                freq_am,
                phase_am,
                intensity_fm,
                freq_fm,
                phase_fm,
                num_samples,
                offset,
                fs,
            }),
            r.wf(),
    {
        SineWave {
            freq_base,
            amplitude,
            intensity_am,
            freq_am,
            phase_am,
            intensity_fm,
            freq_fm,
            phase_fm,
            num_samples,
            offset,
            fs,
        }
    }

    /// Generate the sample window: the count and one value per sample
    /// time `offset + i`.
    pub fn gen_values(&self) -> (r: (usize, Vec<i64>))
        requires
            self.wf(),
        ensures
            r.0 == self.num_samples,
            r.1@.len() == self.num_samples,
            forall|i: int| 0 <= i < self.num_samples ==>
                #[trigger] r.1@[i] == sample_at(*self, self.offset + i),
            forall|i: int| 0 <= i < self.num_samples ==>
                -self.amplitude <= #[trigger] r.1@[i] <= self.amplitude,
    {
        let mut values: Vec<i64> = Vec::new();
        let mut n: usize = 0;
        while n < self.num_samples
            invariant
                self.wf(),
                n <= self.num_samples,
                values@.len() == n,
                forall|i: int| 0 <= i < n ==>
                    #[trigger] values@[i] == sample_at(*self, self.offset + i),
                forall|i: int| 0 <= i < n ==>
                    -self.amplitude <= #[trigger] values@[i] <= self.amplitude,
            decreases self.num_samples - n,
        {
            let v = compute_sample(self, self.offset + n);
            values.push(v);
            n = n + 1;
        }
        (self.num_samples, values)
    }
}

/// A sample depends on the parameters and the absolute time alone, not
/// on the window a parameter set happens to describe.
pub proof fn lemma_sample_params_only(a: SineWave, b: SineWave, t: int)
    requires
        a.same_params(b),
    ensures
        sample_at(a, t) == sample_at(b, t),
{
}

/// Generating a window and then the window right after it gives the same
/// samples as one generation over both: the wave is phase-continuous at
/// frame boundaries.
pub proof fn lemma_phase_continuity(first: SineWave, second: SineWave, whole: SineWave)
    requires
        first.same_params(second),
        first.same_params(whole),
        second.offset == first.offset + first.num_samples,
        whole.offset == first.offset,
        whole.num_samples == first.num_samples + second.num_samples,
    ensures
        wave_samples(first) + wave_samples(second) == wave_samples(whole),
{
    assert forall|i: int| 0 <= i < whole.num_samples implies
        (wave_samples(first) + wave_samples(second))[i] == wave_samples(whole)[i] by {
        if i < first.num_samples {
            lemma_sample_params_only(first, whole, first.offset + i);
        } else {
            lemma_sample_params_only(second, whole, second.offset + (i - first.num_samples));
        }
    }
    assert(wave_samples(first) + wave_samples(second) =~= wave_samples(whole));
}

/// The whole wave repeats after `TURN` samples: every phase accumulator
/// advances by a whole number of circles in that span.
pub proof fn lemma_sample_periodic(w: SineWave, t: int)
    requires
        t >= 0,
    ensures
        sample_at(w, t + TURN) == sample_at(w, t),
{
    let tt = TURN as int;
    lemma_angle_periodic(step_units_spec(w.freq_base as int, w.fs as int), 0, t);
    lemma_angle_periodic(step_units_spec(w.freq_am as int, w.fs as int), w.phase_am as int, t);
    lemma_angle_periodic(step_units_spec(w.freq_fm as int, w.fs as int), w.phase_fm as int, t);
}

/// A phase accumulator wraps to the same angle one `TURN` later.
proof fn lemma_angle_periodic(step: int, phase: int, t: int)
    ensures
        angle_at(step, phase, t + TURN) == angle_at(step, phase, t),
{
    let tt = TURN as int;
    lemma_mul_is_distributive_add(step, t, tt);
    vstd::arithmetic::mul::lemma_mul_is_commutative(step, tt);
    assert(step * (t + TURN) + phase == tt * step + (step * t + phase));
    lemma_mod_mul_vanish(step * t + phase, step, tt);
}

/// Adding any multiple of the modulus leaves a remainder unchanged.
proof fn lemma_mod_mul_vanish(x: int, k: int, m: int)
    requires
        m > 0,
    ensures
        (m * k + x) % m == x % m,
{
    vstd::arithmetic::div_mod::lemma_mod_multiples_vanish(k, x, m);
}

} // verus!
