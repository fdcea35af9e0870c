//! The per-voice sine generator: owns the voice's running sample clock
//! and renders one frame per callback into both channels.
//!
//! The clock advances by exactly one frame per call and wraps at `TURN`
//! samples; the wave repeats with that period
//! ([`crate::wave_gen::lemma_sample_periodic`]), so the wrapped clock
//! renders the same phase-continuous signal an unbounded clock would.

use vstd::prelude::*;
use crate::ctrl_msg::CtrlMsg;
use crate::fixed::{fp_mul, scale_signed, FP_ONE, MAX_FRAME};
use crate::trig::TURN;
use crate::wave_gen::{sample_at, SineWave, FREQ_LIMIT, FS_LIMIT};

verus! {

/// One voice's oscillator state: the current parameter set plus the
/// running sample clock.
#[derive(Clone, Copy, Debug)]
pub struct SineWaveGenerator {
    pub freq: i64,
    pub amplitude: i64,
    pub intensity_am: i64,
    pub freq_am: i64,
    pub phase_am: i64,
    pub intensity_fm: i64,
    pub freq_fm: i64,
    pub phase_fm: i64,
    pub offset: usize,
    pub frame_size: usize,
    pub fs: i64,
}

/// The oscillator parameter set a generator currently renders.
pub open spec fn wave_of(g: SineWaveGenerator) -> SineWave {
    SineWave {
        freq_base: g.freq,
        amplitude: g.amplitude,
        intensity_am: g.intensity_am,
        freq_am: g.freq_am,
        phase_am: g.phase_am,
        intensity_fm: g.intensity_fm,
        freq_fm: g.freq_fm,
        phase_fm: g.phase_fm,
        num_samples: g.frame_size,
        offset: g.offset,
        fs: g.fs,
    }
}

impl SineWaveGenerator {
    /// The ranges under which the generator renders frames.
    pub open spec fn wf(self) -> bool {
        &&& 0 <= self.freq <= FREQ_LIMIT
        &&& 0 <= self.amplitude <= FP_ONE
        &&& 0 <= self.intensity_am <= FP_ONE
        &&& 0 <= self.freq_am <= FREQ_LIMIT
        &&& 0 <= self.phase_am < TURN
        &&& 0 <= self.intensity_fm <= FREQ_LIMIT
        &&& 0 <= self.freq_fm <= FREQ_LIMIT
        &&& 0 <= self.phase_fm < TURN
        &&& 0 <= self.offset < TURN
        &&& self.frame_size <= MAX_FRAME
        &&& FP_ONE <= self.fs <= FS_LIMIT
    }

    /// A silent generator at full amplitude, with its clock at zero.
    pub fn new(frame_size: usize, sample_rate: i64) -> (r: SineWaveGenerator)
        requires
            frame_size <= MAX_FRAME,
            FP_ONE <= sample_rate <= FS_LIMIT,
        ensures
            r == (SineWaveGenerator {
                freq: 0,
                amplitude: FP_ONE,
                intensity_am: 0,
                freq_am: 0,
                phase_am: 0,
                intensity_fm: 0,
                freq_fm: 0,
                phase_fm: 0,
                offset: 0,
                frame_size,
                fs: sample_rate,
            }),
            r.wf(),
    {
        SineWaveGenerator {
            freq: 0,
            amplitude: FP_ONE,
            intensity_am: 0,
            freq_am: 0,
            phase_am: 0,
            intensity_fm: 0,
            freq_fm: 0,
            phase_fm: 0,
            offset: 0,
            frame_size,
            fs: sample_rate,
        }
    }

    /// Render one frame into both channels, scaled once more by the
    /// amplitude, and advance the clock by the frame size.
    pub fn process_samples(&mut self, output_l: &mut Vec<i64>, output_r: &mut Vec<i64>)
        requires
            old(self).wf(),
            old(self).frame_size <= old(output_l)@.len(),
            old(self).frame_size <= old(output_r)@.len(),
        ensures
            final(self).wf(),
            final(output_l)@.len() == old(output_l)@.len(),
            final(output_r)@.len() == old(output_r)@.len(),
            forall|i: int| 0 <= i < old(self).frame_size ==>
                #[trigger] final(output_l)@[i] == fp_mul(
                    sample_at(wave_of(*old(self)), old(self).offset + i),
                    old(self).amplitude as int,
                ),
            forall|i: int| 0 <= i < old(self).frame_size ==>
                #[trigger] final(output_r)@[i] == final(output_l)@[i],
            forall|i: int| old(self).frame_size <= i < final(output_l)@.len() ==>
                #[trigger] final(output_l)@[i] == old(output_l)@[i],
            forall|i: int| old(self).frame_size <= i < final(output_r)@.len() ==>
                #[trigger] final(output_r)@[i] == old(output_r)@[i],
            forall|i: int| 0 <= i < old(self).frame_size ==>
                -FP_ONE <= #[trigger] final(output_l)@[i] <= FP_ONE,
            final(self).offset == (old(self).offset + old(self).frame_size) % (TURN as int),
            *final(self) == (SineWaveGenerator { offset: final(self).offset, ..*old(self) }),
    {
        let my_sine = SineWave::new(
            self.freq,
            self.amplitude,
            self.intensity_am,
            self.freq_am,
            self.phase_am,
            self.intensity_fm,
            self.freq_fm,
            self.phase_fm,
            self.fs,
            self.frame_size,
            self.offset,
        );
        let (_count, values_data) = my_sine.gen_values();
        let ghost w = wave_of(*self);
        let ghost n_frame = self.frame_size as int;
        let ghost start = self.offset as int;
        let ghost amp = self.amplitude as int;
        let ghost old_l = output_l@;
        let ghost old_r = output_r@;

        let mut i: usize = 0;
        while i < self.frame_size
            invariant
                self.wf(),
                w == wave_of(*self),
                n_frame == self.frame_size as int,
                start == self.offset as int,
                amp == self.amplitude as int,
                values_data@.len() == self.frame_size,
                forall|k: int| 0 <= k < n_frame ==>
                    #[trigger] values_data@[k] == sample_at(w, start + k),
                forall|k: int| 0 <= k < n_frame ==>
                    -self.amplitude <= #[trigger] values_data@[k] <= self.amplitude,
                i <= self.frame_size,
                output_l@.len() == old_l.len(),
                output_r@.len() == old_r.len(),
                self.frame_size <= old_l.len(),
                self.frame_size <= old_r.len(),
                forall|k: int| 0 <= k < i ==>
                    #[trigger] output_l@[k] == fp_mul(sample_at(w, start + k), amp),
                forall|k: int| 0 <= k < i ==> #[trigger] output_r@[k] == output_l@[k],
                forall|k: int| i <= k < old_l.len() ==> #[trigger] output_l@[k] == old_l[k],
                forall|k: int| i <= k < old_r.len() ==> #[trigger] output_r@[k] == old_r[k],
                forall|k: int| 0 <= k < i ==> -FP_ONE <= #[trigger] output_l@[k] <= FP_ONE,
            decreases self.frame_size - i,
        {
            let v = values_data[i];
            let s = scale_signed(v, self.amplitude);
            proof {
                if v >= 0 {
                    crate::fixed::lemma_fp_mul_le_gain(v as int, amp);
                } else {
                    crate::fixed::lemma_fp_mul_le_gain(-(v as int), amp);
                }
            }
            output_l.set(i, s);
            output_r.set(i, s);
            i = i + 1;
        }
        self.offset = (self.offset + self.frame_size) % (TURN as usize);
    }

    /// Take over the latest control settings and the voice's frequency.
    pub fn ctrl(&mut self, msg: &CtrlMsg, freq: i64)
        requires
            old(self).wf(),
            msg.wf(),
            0 <= freq <= FREQ_LIMIT,
        ensures
            final(self).wf(),
            *final(self) == (SineWaveGenerator {
                freq,
                amplitude: msg.volume,
                intensity_am: msg.intensity_am,
                freq_am: msg.freq_am,
                phase_am: msg.phase_am,
                intensity_fm: msg.intensity_fm,
                freq_fm: msg.freq_fm,
                phase_fm: msg.phase_fm,
                ..*old(self)
            }),
    {
        self.freq = freq;
        self.amplitude = msg.volume;
        self.intensity_am = msg.intensity_am;
        self.freq_am = msg.freq_am;
        self.phase_am = msg.phase_am;
        self.intensity_fm = msg.intensity_fm;
        self.freq_fm = msg.freq_fm;
        self.phase_fm = msg.phase_fm;
    }
}

} // verus!
