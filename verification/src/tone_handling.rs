//! The voice manager and mixer: creates voices from trigger events,
//! advances every live voice once per callback, sums their output, and
//! keeps the multiplicative normalization buffers.

use vstd::prelude::*;
use crate::adsr::{
    env_off_at, env_on_at, mb_gain_at, mb_nsamples, mb_sample_length, mb_sustain_index, Adsr,
};
use crate::ctrl_msg::CtrlMsg;
use crate::fixed::{
    fp_mul, fp_mul_signed, mul_signed, AUDIO_LIMIT, FP_ONE, MAX_FRAME, MAX_VOICES,
};
use crate::jackaudio::{wave_of, SineWaveGenerator};
use crate::tone::Tone;
use crate::tone_map::{freq_key, spec_get, spec_has_key, unique_keys, ToneMap};
use crate::trig::TURN;
use crate::trigger_note_msg::{NoteType, TriggerNoteMsg};
use crate::wave_gen::sample_at;

verus! {

/// The sample rate, in fixed-point hertz, that fresh voices run at.
pub const DEFAULT_SAMPLE_RATE: i64 = 48000 * FP_ONE;

/// The sustain values a new voice inherits from the voice already
/// sounding at the key, or silence when the key is free.
pub open spec fn prior_sustain(s: Seq<(u32, Tone)>, key: u32) -> (int, int) {
    match spec_get(s, key) {
        Some(t) => (t.last_sustain_value_a as int, t.last_sustain_value_b as int),
        None => (0int, 0int),
    }
}

/// The oscillator a new voice starts from: the sounding voice's, so
/// that retriggering a pitch keeps its phase, or a fresh one.
pub open spec fn prior_generator(s: Seq<(u32, Tone)>, key: u32, frame_size: int) -> SineWaveGenerator {
    match spec_get(s, key) {
        Some(t) => t.sine_wave_generator,
        None => SineWaveGenerator {
            freq: 0,
            amplitude: FP_ONE,
            intensity_am: 0,
            freq_am: 0,
            phase_am: 0,
            intensity_fm: 0,
            freq_fm: 0,
            phase_fm: 0,
            offset: 0,
            frame_size: frame_size as usize,
            fs: DEFAULT_SAMPLE_RATE,
        },
    }
}

/// A generator after taking over the latest control settings.
pub open spec fn ctrl_applied(g: SineWaveGenerator, c: CtrlMsg, freq: i64) -> SineWaveGenerator {
    SineWaveGenerator {
        freq,
        amplitude: c.volume,
        intensity_am: c.intensity_am,
        freq_am: c.freq_am,
        phase_am: c.phase_am,
        intensity_fm: c.intensity_fm,
        freq_fm: c.freq_fm,
        phase_fm: c.phase_fm,
        ..g
    }
}

/// The sample one voice adds to each channel at frame index `i`: its
/// oscillator under the latest control settings, scaled by the
/// amplitude and by velocity times its envelope gain.
pub open spec fn tone_contribution(t: Tone, c: CtrlMsg, frame_size: int, i: int) -> int {
    let g = ctrl_applied(t.sine_wave_generator, c, t.freq);
    let pre = fp_mul(sample_at(wave_of(g), g.offset + i), g.amplitude as int);
    match t.envelope {
        Some(env) => fp_mul(
            pre,
            fp_mul(
                t.velocity as int,
                mb_gain_at(t.adsr_envelope, env@, t.start_pose as int, t.length as int,
                    frame_size, t.note_type, i),
            ),
        ),
        None => pre,
    }
}

/// A voice after one mixing pass: control settings taken over, the
/// clock advanced one frame, the last applied gain recorded, and a
/// released voice past its window marked finished instead of advancing.
pub open spec fn advanced_tone(t: Tone, c: CtrlMsg, frame_size: int) -> Tone {
    let g1 = ctrl_applied(t.sine_wave_generator, c, t.freq);
    let g2 = SineWaveGenerator {
        offset: ((g1.offset + g1.frame_size) % (TURN as int)) as usize,
        ..g1
    };
    let ls = match t.envelope {
        Some(env) => if env@.len() > 0 {
            env@[mb_sustain_index(
                env@.len() as int,
                t.start_pose as int,
                mb_nsamples(
                    mb_sample_length(t.adsr_envelope, t.length as int, t.note_type),
                    t.start_pose as int,
                    frame_size,
                ),
            )] as int
        } else {
            t.last_sustain_value_a as int
        },
        None => t.last_sustain_value_a as int,
    };
    let lsb = match t.envelope {
        Some(env) => if env@.len() > 0 { ls } else { t.last_sustain_value_b as int },
        None => t.last_sustain_value_b as int,
    };
    let finished = t.start_pose * FP_ONE > t.adsr_envelope.tr * t.length
        && t.note_type == NoteType::NoteOff;
    Tone {
        playing: if finished { false } else { t.playing },
        start_pose: if finished {
            t.start_pose
        } else if t.start_pose + frame_size <= crate::fixed::MAX_START {
            (t.start_pose + frame_size) as usize
        } else {
            t.start_pose
        },
        last_sustain_value_a: ls as i64,
        last_sustain_value_b: lsb as i64,
        sine_wave_generator: g2,
        ..t
    }
}

/// The entries still sounding when a mixing pass begins; voices marked
/// finished by the previous pass are dropped first.
pub open spec fn filter_playing(s: Seq<(u32, Tone)>) -> Seq<(u32, Tone)>
    decreases s.len(),
{
    if s.len() == 0 {
        Seq::empty()
    } else if s.last().1.playing {
        filter_playing(s.drop_last()).push(s.last())
    } else {
        filter_playing(s.drop_last())
    }
}

/// The additive mix at frame index `i` over a sequence of voices.
pub open spec fn mix_sum(s: Seq<(u32, Tone)>, c: CtrlMsg, frame_size: int, i: int) -> int
    decreases s.len(),
{
    if s.len() == 0 {
        0
    } else {
        mix_sum(s.drop_last(), c, frame_size, i) + tone_contribution(s.last().1, c, frame_size, i)
    }
}

/// The multiplicative accumulation at frame index `i`: the start value
/// scaled in turn by every voice's contribution.
pub open spec fn mix_mul(s: Seq<(u32, Tone)>, c: CtrlMsg, frame_size: int, i: int, init: int) -> int
    decreases s.len(),
{
    if s.len() == 0 {
        init
    } else {
        fp_mul_signed(
            mix_mul(s.drop_last(), c, frame_size, i, init),
            tone_contribution(s.last().1, c, frame_size, i),
        )
    }
}

/// A scratch frame of silence.
fn zero_frame(n: usize) -> (r: Vec<i64>)
    ensures
        r@.len() == n,
        forall|i: int| 0 <= i < n ==> #[trigger] r@[i] == 0,
{
    let mut v: Vec<i64> = Vec::new();
    let mut k: usize = 0;
    while k < n
        invariant
            k <= n,
            v@.len() == k,
            forall|i: int| 0 <= i < k ==> #[trigger] v@[i] == 0,
        decreases n - k,
    {
        v.push(0);
        k = k + 1;
    }
    v
}

/// The release lifecycle, first step: as long as a released voice has
/// not yet passed its window, every mixing pass advances its cursor by
/// a whole frame — the cursor cap lies beyond every admissible window,
/// so it cannot freeze a release.
pub proof fn lemma_release_cursor_advances(t: Tone, c: CtrlMsg, frame_size: int)
    requires
        t.wf(),
        t.note_type == NoteType::NoteOff,
        0 <= frame_size <= MAX_FRAME,
        t.start_pose * FP_ONE <= t.adsr_envelope.tr * t.length,
    ensures
        advanced_tone(t, c, frame_size).start_pose == t.start_pose + frame_size,
        advanced_tone(t, c, frame_size).playing == t.playing,
{
    assert(t.adsr_envelope.tr * t.length <= FP_ONE * (crate::fixed::MAX_ENV_LEN as int))
        by (nonlinear_arith)
        requires 0 <= t.adsr_envelope.tr <= FP_ONE
            && 0 <= t.length as int <= crate::fixed::MAX_ENV_LEN as int;
    assert(t.start_pose as int <= crate::fixed::MAX_ENV_LEN as int) by (nonlinear_arith)
        requires t.start_pose * FP_ONE <= FP_ONE * (crate::fixed::MAX_ENV_LEN as int)
            && FP_ONE > 0;
    assert(t.start_pose + frame_size <= crate::fixed::MAX_START);
}

/// The release lifecycle, second step: the first mixing pass that finds
/// a released voice past its window marks it finished.
pub proof fn lemma_release_expires(t: Tone, c: CtrlMsg, frame_size: int)
    requires
        t.note_type == NoteType::NoteOff,
        t.start_pose * FP_ONE > t.adsr_envelope.tr * t.length,
    ensures
        !advanced_tone(t, c, frame_size).playing,
{
}

/// The release lifecycle, last step: a pass keeps only voices that are
/// still playing, so a voice marked finished is gone from the table the
/// pass after.
pub proof fn lemma_filter_keeps_only_playing(s: Seq<(u32, Tone)>)
    ensures
        forall|j: int| 0 <= j < filter_playing(s).len() ==>
            (#[trigger] filter_playing(s)[j]).1.playing,
    decreases s.len(),
{
    if s.len() > 0 {
        lemma_filter_keeps_only_playing(s.drop_last());
    }
}

/// Dropping the finished voices keeps a subsequence: it never grows,
/// every kept entry comes from the table it was filtered from, and keys
/// stay distinct.
proof fn lemma_filter_playing_props(s: Seq<(u32, Tone)>)
    ensures
        filter_playing(s).len() <= s.len(),
        forall|j: int| 0 <= j < filter_playing(s).len() ==> exists|i: int|
            0 <= i < s.len() && #[trigger] filter_playing(s)[j] == s[i],
        unique_keys(s) ==> unique_keys(filter_playing(s)),
    decreases s.len(),
{
    if s.len() == 0 {
    } else {
        let dl = s.drop_last();
        lemma_filter_playing_props(dl);
        assert(forall|i: int| 0 <= i < dl.len() ==> #[trigger] dl[i] == s[i]);
        if s.last().1.playing {
            let fp = filter_playing(s);
            let fdl = filter_playing(dl);
            assert(fp == fdl.push(s.last()));
            assert forall|j: int| 0 <= j < fp.len() implies exists|i: int|
                0 <= i < s.len() && #[trigger] fp[j] == s[i] by {
                if j < fdl.len() {
                    assert(fp[j] == fdl[j]);
                    let i = choose|i: int| 0 <= i < dl.len() && fdl[j] == dl[i];
                    assert(fp[j] == s[i]);
                } else {
                    assert(fp[j] == s[s.len() - 1]);
                }
            }
            if unique_keys(s) {
                assert(unique_keys(dl));
                assert forall|a: int, b: int| 0 <= a < b < fp.len()
                    implies (#[trigger] fp[a]).0 != (#[trigger] fp[b]).0 by {
                    if b < fdl.len() {
                        assert(fp[a] == fdl[a] && fp[b] == fdl[b]);
                    } else {
                        assert(fp[b] == s[s.len() - 1]);
                        assert(fp[a] == fdl[a]);
                        let i = choose|i: int| 0 <= i < dl.len() && fdl[a] == dl[i];
                        assert(fp[a] == s[i]);
                        assert(s[i].0 != s[s.len() - 1].0);
                    }
                }
            }
        } else {
            assert(filter_playing(s) == filter_playing(dl));
            assert forall|j: int| 0 <= j < filter_playing(s).len() implies exists|i: int|
                0 <= i < s.len() && #[trigger] filter_playing(s)[j] == s[i] by {
                let i = choose|i: int| 0 <= i < dl.len()
                    && filter_playing(dl)[j] == dl[i];
                assert(filter_playing(s)[j] == s[i]);
            }
            if unique_keys(s) {
                assert(unique_keys(dl));
            }
        }
    }
}

/// One more voice extends the additive mix by its contribution and the
/// multiplicative accumulation by one more scaling.
proof fn lemma_mix_take_step(s: Seq<(u32, Tone)>, c: CtrlMsg, frame_size: int, j: int)
    requires
        0 <= j < s.len(),
    ensures
        forall|i: int| #[trigger] mix_sum(s.take(j + 1), c, frame_size, i)
            == mix_sum(s.take(j), c, frame_size, i) + tone_contribution(s[j].1, c, frame_size, i),
        forall|i: int, init: int| #[trigger] mix_mul(s.take(j + 1), c, frame_size, i, init)
            == fp_mul_signed(
                mix_mul(s.take(j), c, frame_size, i, init),
                tone_contribution(s[j].1, c, frame_size, i),
            ),
{
    assert(s.take(j + 1).drop_last() =~= s.take(j));
    assert(s.take(j + 1).last() == s[j]);
}

/// One voice's contribution never leaves the unit interval: the
/// oscillator sample is, and every gain scaling shrinks it.
proof fn lemma_contribution_bounded(t: Tone, c: CtrlMsg, frame_size: int, i: int, pre: int)
    requires
        t.wf(),
        c.wf(),
        0 <= i < frame_size,
        pre == ({
            let g = ctrl_applied(t.sine_wave_generator, c, t.freq);
            fp_mul(sample_at(wave_of(g), g.offset + i), g.amplitude as int)
        }),
        -FP_ONE <= pre <= FP_ONE,
    ensures
        -FP_ONE <= tone_contribution(t, c, frame_size, i) <= FP_ONE,
{
    match t.envelope {
        Some(env) => {
            crate::adsr::lemma_mb_gain_in_range(
                t.adsr_envelope, env@, t.start_pose as int, t.length as int,
                frame_size, t.note_type, i,
            );
            let gain = mb_gain_at(t.adsr_envelope, env@, t.start_pose as int,
                t.length as int, frame_size, t.note_type, i);
            let combined = fp_mul(t.velocity as int, gain);
            crate::fixed::lemma_fp_mul_bounded(t.velocity as int, gain);
            crate::fixed::lemma_fp_mul_bounded(pre, combined);
        },
        None => {},
    }
}

/// The voice manager: the voice table it drives, and two reusable
/// scratch frames, grown once to the callback size and never
/// reallocated inside the mix call after that.
pub struct ToneHandling {
    pub tone_map: ToneMap,
    pub scratch_l: Vec<i64>,
    pub scratch_r: Vec<i64>,
}

impl ToneHandling {
    /// A manager with no sounding voices.
    pub fn new() -> (r: ToneHandling)
        ensures
            r.tone_map.tones@.len() == 0,
            r.wf(),
    {
        ToneHandling { tone_map: ToneMap::new(), scratch_l: Vec::new(), scratch_r: Vec::new() }
    }

    /// The voice table invariant: unique keys, well-formed voices.
    pub open spec fn wf(self) -> bool {
        self.tone_map.wf()
    }

    /// The sustain values last applied to the voice at the frequency's
    /// key, or zero when no voice sounds there.
    pub fn get_last_sustain_values_of_entry(&self, freq_index: i64) -> (r: (i64, i64))
        requires
            self.wf(),
        ensures
            (r.0 as int, r.1 as int)
                == prior_sustain(self.tone_map.tones@, freq_key(freq_index as int) as u32),
            0 <= r.0 <= FP_ONE,
            0 <= r.1 <= FP_ONE,
    {
        match self.tone_map.get(freq_index) {
            Some(tone) => {
                proof {
                    let s = self.tone_map.tones@;
                    let k = freq_key(freq_index as int) as u32;
                    let w = crate::tone_map::spec_index_of(s, k);
                    assert(s[w].1.wf());
                }
                (tone.last_sustain_value_a, tone.last_sustain_value_b)
            },
            None => (0, 0),
        }
    }

    /// The oscillator of the voice at the frequency's key, if any.
    pub fn get_sine_wave_generator_of_entry(&self, freq_index: i64) -> (r: Option<
        SineWaveGenerator,
    >)
        requires
            self.wf(),
        ensures
            match r {
                Some(g) => spec_get(self.tone_map.tones@, freq_key(freq_index as int) as u32)
                    matches Some(t) && t.sine_wave_generator == g,
                None => !spec_has_key(self.tone_map.tones@, freq_key(freq_index as int) as u32),
            },
    {
        match self.tone_map.get(freq_index) {
            Some(tone) => Some(tone.sine_wave_generator),
            None => None,
        }
    }

    /// Create a voice from a trigger event and store it under the
    /// frequency's key, replacing the voice sounding there.
    ///
    /// A note-on seeds its envelope with the sustain value inherited
    /// from the replaced voice, so retriggering does not jump; a
    /// note-off removes the voice, overwrites the sustain parameter
    /// with that inherited value, and reinserts the voice releasing
    /// from exactly the gain it had.  Either way the replaced voice's
    /// oscillator phase carries over.
    pub fn add_note_msg(&mut self, trigger_msg: TriggerNoteMsg, adsr_envelope: Adsr, frame_size: usize)
        requires
            old(self).wf(),
            trigger_msg.wf(),
            adsr_envelope.wf(),
            frame_size <= MAX_FRAME,
        ensures
            final(self).wf(),
            ({
                let s0 = old(self).tone_map.tones@;
                let s1 = final(self).tone_map.tones@;
                let key = freq_key(trigger_msg.freq as int) as u32;
                let la = prior_sustain(s0, key).0;
                let lb = prior_sustain(s0, key).1;
                &&& spec_get(s1, key) matches Some(t)
                    && t.playing == true
                    && t.length == trigger_msg.length
                    && t.note_type == trigger_msg.note_type
                    && t.freq == trigger_msg.freq
                    && t.velocity == trigger_msg.velocity
                    && t.start_pose == 0
                    && t.last_sustain_value_a == la
                    && t.last_sustain_value_b == lb
                    && t.sine_wave_generator == prior_generator(s0, key, frame_size as int)
                    && (trigger_msg.note_type == NoteType::NoteOn ==>
                        t.adsr_envelope == adsr_envelope
                        && (t.envelope matches Some(env)
                            && env@.len() == trigger_msg.length
                            && forall|i: int| 0 <= i < env@.len() ==> #[trigger] env@[i]
                                == env_on_at(adsr_envelope, trigger_msg.length as int, la, i)))
                    && (trigger_msg.note_type == NoteType::NoteOff ==>
                        t.adsr_envelope == (Adsr { ts: la as i64, ..adsr_envelope })
                        && (t.envelope matches Some(env)
                            && env@.len() == trigger_msg.length
                            && forall|i: int| 0 <= i < env@.len() ==> #[trigger] env@[i]
                                == env_off_at(Adsr { ts: la as i64, ..adsr_envelope },
                                    trigger_msg.length as int, i)))
                &&& forall|k: u32| k != key ==>
                    #[trigger] spec_get(s1, k) == spec_get(s0, k)
                &&& s1.len() == s0.len() + (if spec_has_key(s0, key) { 0int } else { 1int })
            }),
    {
        let (la, lb) = self.get_last_sustain_values_of_entry(trigger_msg.freq);
        let generator = match self.get_sine_wave_generator_of_entry(trigger_msg.freq) {
            Some(g) => g,
            None => SineWaveGenerator::new(frame_size, DEFAULT_SAMPLE_RATE),
        };
        proof {
            if spec_has_key(self.tone_map.tones@, freq_key(trigger_msg.freq as int) as u32) {
                let s = self.tone_map.tones@;
                let k = freq_key(trigger_msg.freq as int) as u32;
                let w = crate::tone_map::spec_index_of(s, k);
                assert(s[w].1.wf());
            }
        }
        let mut tone = Tone {
            playing: true,
            length: trigger_msg.length,
            note_type: trigger_msg.note_type,
            freq: trigger_msg.freq,
            velocity: trigger_msg.velocity,
            start_pose: 0,
            adsr_envelope: adsr_envelope,
            envelope: None,
            last_sustain_value_a: la,
            last_sustain_value_b: lb,
            sine_wave_generator: generator,
        };
        match trigger_msg.note_type {
            NoteType::NoteOn => {
                tone.envelope = Some(
                    tone.adsr_envelope.generate_adsr_note_on_envelope(
                        tone.length,
                        tone.last_sustain_value_a,
                    ),
                );
            },
            NoteType::NoteOff => {
                self.tone_map.remove(tone.freq);
                tone.adsr_envelope.ts = tone.last_sustain_value_a;
                tone.envelope = Some(
                    tone.adsr_envelope.generate_adsr_note_off_envelope(tone.length),
                );
            },
        }
        self.tone_map.insert(tone.freq, tone);
    }

    /// Advance every sounding voice by one frame and mix.
    ///
    /// Voices left finished by the previous pass are dropped first.
    /// Each remaining voice renders one oscillator frame under the
    /// latest control settings, has its envelope multiplied in, is
    /// added into both outputs and multiplied into both normalization
    /// buffers, and then either advances its cursor or, when a released
    /// voice is past its window, is marked finished for the next pass.
    pub fn process_tones(
        &mut self,
        ctrl_msg: &CtrlMsg,
        output_l: &mut Vec<i64>,
        output_r: &mut Vec<i64>,
        multiply_output_l: &mut Vec<i64>,
        multiply_output_r: &mut Vec<i64>,
        frame_size: usize,
    )
        requires
            old(self).wf(),
            ctrl_msg.wf(),
            frame_size <= MAX_FRAME,
            old(self).tone_map.tones@.len() <= MAX_VOICES,
            forall|j: int| 0 <= j < old(self).tone_map.tones@.len() ==>
                (#[trigger] old(self).tone_map.tones@[j]).1.sine_wave_generator.frame_size
                    == frame_size,
            frame_size <= old(output_l)@.len(),
            frame_size <= old(output_r)@.len(),
            frame_size <= old(multiply_output_l)@.len(),
            frame_size <= old(multiply_output_r)@.len(),
            forall|i: int| 0 <= i < frame_size ==>
                -FP_ONE <= #[trigger] old(multiply_output_l)@[i] <= FP_ONE,
            forall|i: int| 0 <= i < frame_size ==>
                -FP_ONE <= #[trigger] old(multiply_output_r)@[i] <= FP_ONE,
        ensures
            final(self).wf(),
            final(output_l)@.len() == old(output_l)@.len(),
            final(output_r)@.len() == old(output_r)@.len(),
            final(multiply_output_l)@.len() == old(multiply_output_l)@.len(),
            final(multiply_output_r)@.len() == old(multiply_output_r)@.len(),
            ({
                let fs0 = filter_playing(old(self).tone_map.tones@);
                let c = *ctrl_msg;
                let f = frame_size as int;
                &&& final(self).tone_map.tones@.len() == fs0.len()
                &&& forall|j: int| 0 <= j < fs0.len() ==> #[trigger] final(self).tone_map.tones@[j]
                    == (fs0[j].0, advanced_tone(fs0[j].1, c, f))
                &&& forall|i: int| 0 <= i < frame_size ==>
                    #[trigger] final(output_l)@[i] == mix_sum(fs0, c, f, i)
                &&& forall|i: int| 0 <= i < frame_size ==>
                    #[trigger] final(output_r)@[i] == mix_sum(fs0, c, f, i)
                &&& forall|i: int| 0 <= i < frame_size ==> #[trigger] final(multiply_output_l)@[i]
                    == mix_mul(fs0, c, f, i, old(multiply_output_l)@[i] as int)
                &&& forall|i: int| 0 <= i < frame_size ==> #[trigger] final(multiply_output_r)@[i]
                    == mix_mul(fs0, c, f, i, old(multiply_output_r)@[i] as int)
                &&& forall|i: int| 0 <= i < frame_size ==>
                    -(fs0.len() * FP_ONE) <= #[trigger] final(output_l)@[i] <= fs0.len() * FP_ONE
                &&& forall|i: int| 0 <= i < frame_size ==>
                    -(fs0.len() * FP_ONE) <= #[trigger] final(output_r)@[i] <= fs0.len() * FP_ONE
                &&& forall|i: int| 0 <= i < frame_size ==>
                    -FP_ONE <= #[trigger] final(multiply_output_l)@[i] <= FP_ONE
                &&& forall|i: int| 0 <= i < frame_size ==>
                    -FP_ONE <= #[trigger] final(multiply_output_r)@[i] <= FP_ONE
            }),
            forall|i: int| frame_size <= i < final(output_l)@.len() ==>
                #[trigger] final(output_l)@[i] == old(output_l)@[i],
            forall|i: int| frame_size <= i < final(output_r)@.len() ==>
                #[trigger] final(output_r)@[i] == old(output_r)@[i],
            forall|i: int| frame_size <= i < final(multiply_output_l)@.len() ==>
                #[trigger] final(multiply_output_l)@[i] == old(multiply_output_l)@[i],
            forall|i: int| frame_size <= i < final(multiply_output_r)@.len() ==>
                #[trigger] final(multiply_output_r)@[i] == old(multiply_output_r)@[i],
    {
        let ghost s0 = self.tone_map.tones@;
        let ghost c = *ctrl_msg;
        let ghost f = frame_size as int;
        proof {
            lemma_filter_playing_props(s0);
        }

        // Zero both output buffers.
        let ghost out_l0 = output_l@;
        let ghost out_r0 = output_r@;
        let mut z: usize = 0;
        while z < frame_size
            invariant
                z <= frame_size,
                frame_size <= output_l@.len(),
                frame_size <= output_r@.len(),
                output_l@.len() == out_l0.len(),
                output_r@.len() == out_r0.len(),
                forall|i: int| 0 <= i < z ==> #[trigger] output_l@[i] == 0,
                forall|i: int| 0 <= i < z ==> #[trigger] output_r@[i] == 0,
                forall|i: int| z <= i < out_l0.len() ==> #[trigger] output_l@[i] == out_l0[i],
                forall|i: int| z <= i < out_r0.len() ==> #[trigger] output_r@[i] == out_r0[i],
            decreases frame_size - z,
        {
            output_l.set(z, 0);
            output_r.set(z, 0);
            z = z + 1;
        }

        // Drop the voices the previous pass marked finished.
        let mut idx: usize = 0;
        let ghost mut p: int = 0;
        while idx < self.tone_map.tones.len()
            invariant
                0 <= p <= s0.len(),
                s0.len() <= MAX_VOICES,
                self.tone_map.tones@ == filter_playing(s0.take(p)) + s0.skip(p),
                idx == filter_playing(s0.take(p)).len(),
            decreases s0.len() - p,
        {
            proof {
                lemma_filter_playing_props(s0.take(p));
                assert(self.tone_map.tones@.len()
                    == filter_playing(s0.take(p)).len() + s0.len() - p);
                assert(p < s0.len());
                assert(s0.take(p + 1).drop_last() =~= s0.take(p));
                assert(s0.take(p + 1).last() == s0[p]);
                assert(self.tone_map.tones@[idx as int] == s0.skip(p)[0]);
                assert(s0.skip(p)[0] == s0[p]);
            }
            if !self.tone_map.tones[idx].1.playing {
                self.tone_map.tones.remove(idx);
                proof {
                    assert(filter_playing(s0.take(p + 1)) =~= filter_playing(s0.take(p)));
                    assert(self.tone_map.tones@
                        =~= filter_playing(s0.take(p + 1)) + s0.skip(p + 1));
                    p = p + 1;
                }
            } else {
                proof {
                    assert(filter_playing(s0.take(p + 1))
                        =~= filter_playing(s0.take(p)).push(s0[p]));
                    assert(self.tone_map.tones@
                        =~= filter_playing(s0.take(p + 1)) + s0.skip(p + 1));
                    p = p + 1;
                }
                idx = idx + 1;
            }
        }
        proof {
            assert(s0.take(s0.len() as int) =~= s0);
            assert(s0.skip(s0.len() as int) =~= Seq::<(u32, Tone)>::empty());
            assert(self.tone_map.tones@ =~= filter_playing(s0));
        }
        let ghost fs0 = filter_playing(s0);
        proof {
            assert forall|j: int| 0 <= j < fs0.len() implies (#[trigger] fs0[j]).1.wf()
                && fs0[j].1.sine_wave_generator.frame_size == frame_size by {
                let i = choose|i: int| 0 <= i < s0.len() && fs0[j] == s0[i];
                assert(s0[i].1.wf());
                assert(s0[i].1.sine_wave_generator.frame_size == frame_size);
            }
        }

        // One pass over the surviving voices, rendered through the
        // manager's own scratch frames.
        let mut frame_l: Vec<i64> = Vec::new();
        let mut frame_r: Vec<i64> = Vec::new();
        core::mem::swap(&mut frame_l, &mut self.scratch_l);
        core::mem::swap(&mut frame_r, &mut self.scratch_r);
        if frame_l.len() < frame_size {
            frame_l = zero_frame(frame_size);
        }
        if frame_r.len() < frame_size {
            frame_r = zero_frame(frame_size);
        }
        let ghost scratch_len_l = frame_l@.len() as int;
        let ghost scratch_len_r = frame_r@.len() as int;
        let ghost ml0 = multiply_output_l@;
        let ghost mr0 = multiply_output_r@;
        let ghost out_len_l = output_l@.len() as int;
        let ghost out_len_r = output_r@.len() as int;

        let mut idx2: usize = 0;
        while idx2 < self.tone_map.tones.len()
            invariant
                self.wf(),
                ctrl_msg.wf(),
                c == *ctrl_msg,
                f == frame_size as int,
                frame_size <= MAX_FRAME,
                fs0.len() <= MAX_VOICES,
                idx2 <= fs0.len(),
                self.tone_map.tones@.len() == fs0.len(),
                forall|j: int| 0 <= j < fs0.len() ==>
                    (#[trigger] fs0[j]).1.wf()
                        && fs0[j].1.sine_wave_generator.frame_size == frame_size,
                forall|j: int| 0 <= j < idx2 ==> #[trigger] self.tone_map.tones@[j]
                    == (fs0[j].0, advanced_tone(fs0[j].1, c, f)),
                forall|j: int| idx2 <= j < fs0.len() ==>
                    #[trigger] self.tone_map.tones@[j] == fs0[j],
                frame_l@.len() == scratch_len_l,
                frame_r@.len() == scratch_len_r,
                frame_size <= scratch_len_l,
                frame_size <= scratch_len_r,
                output_l@.len() == out_len_l,
                output_r@.len() == out_len_r,
                multiply_output_l@.len() == ml0.len(),
                multiply_output_r@.len() == mr0.len(),
                frame_size <= out_len_l,
                frame_size <= out_len_r,
                frame_size <= ml0.len(),
                frame_size <= mr0.len(),
                forall|i: int| 0 <= i < frame_size ==>
                    #[trigger] output_l@[i] == mix_sum(fs0.take(idx2 as int), c, f, i),
                forall|i: int| 0 <= i < frame_size ==>
                    #[trigger] output_r@[i] == mix_sum(fs0.take(idx2 as int), c, f, i),
                forall|i: int| 0 <= i < frame_size ==> #[trigger] multiply_output_l@[i]
                    == mix_mul(fs0.take(idx2 as int), c, f, i, ml0[i] as int),
                forall|i: int| 0 <= i < frame_size ==> #[trigger] multiply_output_r@[i]
                    == mix_mul(fs0.take(idx2 as int), c, f, i, mr0[i] as int),
                forall|i: int| 0 <= i < frame_size ==>
                    -(idx2 * FP_ONE) <= #[trigger] output_l@[i] <= idx2 * FP_ONE,
                forall|i: int| 0 <= i < frame_size ==>
                    -(idx2 * FP_ONE) <= #[trigger] output_r@[i] <= idx2 * FP_ONE,
                forall|i: int| 0 <= i < frame_size ==>
                    -FP_ONE <= #[trigger] multiply_output_l@[i] <= FP_ONE,
                forall|i: int| 0 <= i < frame_size ==>
                    -FP_ONE <= #[trigger] multiply_output_r@[i] <= FP_ONE,
                forall|i: int| 0 <= i < frame_size ==>
                    -FP_ONE <= #[trigger] ml0[i] <= FP_ONE,
                forall|i: int| 0 <= i < frame_size ==>
                    -FP_ONE <= #[trigger] mr0[i] <= FP_ONE,
                forall|i: int| frame_size <= i < out_len_l ==>
                    #[trigger] output_l@[i] == out_l0[i],
                forall|i: int| frame_size <= i < out_len_r ==>
                    #[trigger] output_r@[i] == out_r0[i],
                forall|i: int| frame_size <= i < ml0.len() ==>
                    #[trigger] multiply_output_l@[i] == ml0[i],
                forall|i: int| frame_size <= i < mr0.len() ==>
                    #[trigger] multiply_output_r@[i] == mr0[i],
                out_l0.len() == out_len_l,
                out_r0.len() == out_len_r,
            decreases fs0.len() - idx2,
        {
            let ghost tones_before = self.tone_map.tones@;
            let pair = self.tone_map.tones.remove(idx2);
            let key = pair.0;
            let mut tone = pair.1;
            let ghost t0 = tone;
            proof {
                assert((key, t0) == fs0[idx2 as int]);
                assert(t0.wf());
            }

            tone.sine_wave_generator.ctrl(ctrl_msg, tone.freq);
            proof {
                assert(tone.sine_wave_generator
                    == ctrl_applied(t0.sine_wave_generator, c, t0.freq));
            }
            tone.sine_wave_generator.process_samples(&mut frame_l, &mut frame_r);
            let ghost g1 = ctrl_applied(t0.sine_wave_generator, c, t0.freq);
            proof {
                assert(forall|i: int| 0 <= i < frame_size ==> #[trigger] frame_l@[i] as int
                    == fp_mul(sample_at(wave_of(g1), g1.offset + i), g1.amplitude as int));
            }

            let ghost frame_pre = frame_l@;
            match &tone.envelope {
                Some(env) => {
                    tone.adsr_envelope.multiply_buf(
                        &mut frame_l,
                        env,
                        tone.start_pose,
                        tone.length,
                        frame_size,
                        tone.note_type,
                        &mut tone.last_sustain_value_a,
                        tone.velocity,
                    );
                    tone.adsr_envelope.multiply_buf(
                        &mut frame_r,
                        env,
                        tone.start_pose,
                        tone.length,
                        frame_size,
                        tone.note_type,
                        &mut tone.last_sustain_value_b,
                        tone.velocity,
                    );
                },
                None => {},
            }
            proof {
                assert(forall|i: int| 0 <= i < frame_size ==>
                    #[trigger] frame_l@[i] as int == tone_contribution(t0, c, f, i));
                assert(forall|i: int| 0 <= i < frame_size ==>
                    #[trigger] frame_r@[i] as int == tone_contribution(t0, c, f, i));
                assert forall|i: int| 0 <= i < frame_size implies
                    -FP_ONE <= #[trigger] frame_l@[i] <= FP_ONE by {
                    lemma_contribution_bounded(t0, c, f, i, frame_pre[i] as int);
                }
                assert forall|i: int| 0 <= i < frame_size implies
                    -FP_ONE <= #[trigger] frame_r@[i] <= FP_ONE by {
                    lemma_contribution_bounded(t0, c, f, i, frame_pre[i] as int);
                }
            }

            // Accumulate into the outputs and the normalization buffers.
            let ghost out_l_before = output_l@;
            let ghost out_r_before = output_r@;
            let ghost ml_before = multiply_output_l@;
            let ghost mr_before = multiply_output_r@;
            let mut i: usize = 0;
            while i < frame_size
                invariant
                    i <= frame_size,
                    frame_size <= MAX_FRAME,
                    idx2 < fs0.len() <= MAX_VOICES,
                    frame_l@.len() == scratch_len_l,
                    frame_r@.len() == scratch_len_r,
                    frame_size <= scratch_len_l,
                    frame_size <= scratch_len_r,
                    output_l@.len() == out_l_before.len(),
                    output_r@.len() == out_r_before.len(),
                    multiply_output_l@.len() == ml_before.len(),
                    multiply_output_r@.len() == mr_before.len(),
                    frame_size <= out_l_before.len(),
                    frame_size <= out_r_before.len(),
                    frame_size <= ml_before.len(),
                    frame_size <= mr_before.len(),
                    forall|k: int| 0 <= k < frame_size ==>
                        -FP_ONE <= #[trigger] frame_l@[k] <= FP_ONE,
                    forall|k: int| 0 <= k < frame_size ==>
                        -FP_ONE <= #[trigger] frame_r@[k] <= FP_ONE,
                    forall|k: int| 0 <= k < frame_size ==>
                        -(idx2 * FP_ONE) <= #[trigger] out_l_before[k] <= idx2 * FP_ONE,
                    forall|k: int| 0 <= k < frame_size ==>
                        -(idx2 * FP_ONE) <= #[trigger] out_r_before[k] <= idx2 * FP_ONE,
                    forall|k: int| 0 <= k < frame_size ==>
                        -FP_ONE <= #[trigger] ml_before[k] <= FP_ONE,
                    forall|k: int| 0 <= k < frame_size ==>
                        -FP_ONE <= #[trigger] mr_before[k] <= FP_ONE,
                    forall|k: int| 0 <= k < i ==> #[trigger] output_l@[k]
                        == out_l_before[k] + frame_l@[k],
                    forall|k: int| 0 <= k < i ==> #[trigger] output_r@[k]
                        == out_r_before[k] + frame_r@[k],
                    forall|k: int| 0 <= k < i ==> #[trigger] multiply_output_l@[k] as int
                        == fp_mul_signed(ml_before[k] as int, frame_l@[k] as int),
                    forall|k: int| 0 <= k < i ==> #[trigger] multiply_output_r@[k] as int
                        == fp_mul_signed(mr_before[k] as int, frame_r@[k] as int),
                    forall|k: int| 0 <= k < i ==>
                        -FP_ONE <= #[trigger] multiply_output_l@[k] <= FP_ONE,
                    forall|k: int| 0 <= k < i ==>
                        -FP_ONE <= #[trigger] multiply_output_r@[k] <= FP_ONE,
                    forall|k: int| i <= k < out_l_before.len() ==>
                        #[trigger] output_l@[k] == out_l_before[k],
                    forall|k: int| i <= k < out_r_before.len() ==>
                        #[trigger] output_r@[k] == out_r_before[k],
                    forall|k: int| i <= k < ml_before.len() ==>
                        #[trigger] multiply_output_l@[k] == ml_before[k],
                    forall|k: int| i <= k < mr_before.len() ==>
                        #[trigger] multiply_output_r@[k] == mr_before[k],
                decreases frame_size - i,
            {
                proof {
                    assert((idx2 as int) * FP_ONE + FP_ONE == (idx2 + 1) * FP_ONE)
                        by (nonlinear_arith);
                    assert((idx2 + 1) * FP_ONE <= (MAX_VOICES as int) * FP_ONE)
                        by (nonlinear_arith)
                        requires idx2 + 1 <= MAX_VOICES as int;
                }
                let vl = output_l[i] + frame_l[i];
                let vr = output_r[i] + frame_r[i];
                output_l.set(i, vl);
                output_r.set(i, vr);
                let pl = mul_signed(multiply_output_l[i], frame_l[i]);
                let pr = mul_signed(multiply_output_r[i], frame_r[i]);
                multiply_output_l.set(i, pl);
                multiply_output_r.set(i, pr);
                i = i + 1;
            }

            proof {
                assert forall|k: int| 0 <= k < frame_size implies
                    -((idx2 + 1) * FP_ONE) <= #[trigger] output_l@[k] <= (idx2 + 1) * FP_ONE
                        && -((idx2 + 1) * FP_ONE) <= output_r@[k] <= (idx2 + 1) * FP_ONE by {
                    assert((idx2 as int) * FP_ONE + FP_ONE == (idx2 + 1) * FP_ONE)
                        by (nonlinear_arith);
                }
            }

            // Lifecycle: release past its window finishes; otherwise
            // the playback cursor advances one frame.
            proof {
                assert(0 <= tone.adsr_envelope.tr * (tone.length as int)
                    <= FP_ONE * (crate::fixed::MAX_ENV_LEN as int)) by (nonlinear_arith)
                    requires 0 <= tone.adsr_envelope.tr <= FP_ONE
                        && 0 <= tone.length as int <= crate::fixed::MAX_ENV_LEN as int;
                assert(0 <= (tone.start_pose as int) * FP_ONE
                    <= (crate::fixed::MAX_START as int) * FP_ONE) by (nonlinear_arith)
                    requires 0 <= tone.start_pose as int <= crate::fixed::MAX_START as int;
            }
            let limit = tone.adsr_envelope.tr * (tone.length as i64);
            if (tone.start_pose as i64) * FP_ONE > limit && tone.note_type == NoteType::NoteOff {
                tone.playing = false;
            } else {
                if tone.start_pose + frame_size <= crate::fixed::MAX_START {
                    tone.start_pose = tone.start_pose + frame_size;
                }
            }
            proof {
                assert(tone == advanced_tone(t0, c, f));
            }
            self.tone_map.tones.insert(idx2, (key, tone));
            proof {
                assert(self.tone_map.tones@
                    =~= tones_before.update(idx2 as int, (fs0[idx2 as int].0, tone)));
                lemma_mix_take_step(fs0, c, f, idx2 as int);
                assert(unique_keys(self.tone_map.tones@)) by {
                    assert forall|a: int, b: int| 0 <= a < b < self.tone_map.tones@.len()
                        implies (#[trigger] self.tone_map.tones@[a]).0
                            != (#[trigger] self.tone_map.tones@[b]).0 by {
                        assert(self.tone_map.tones@[a].0 == tones_before[a].0);
                        assert(self.tone_map.tones@[b].0 == tones_before[b].0);
                    }
                }
            }
            idx2 = idx2 + 1;
        }
        core::mem::swap(&mut frame_l, &mut self.scratch_l);
        core::mem::swap(&mut frame_r, &mut self.scratch_r);
        proof {
            assert(fs0.take(fs0.len() as int) =~= fs0);
        }
    }

    /// Subtract the multiplicative cross-talk: with `n` sounding
    /// voices, each output sample loses `n - 1` times the multiply
    /// buffer's sample.  With a single voice the correction subtracts
    /// exactly zero.
    pub fn normalize_out(
        &self,
        output_l: &mut Vec<i64>,
        output_r: &mut Vec<i64>,
        multiply_output_l: &mut Vec<i64>,
        multiply_output_r: &mut Vec<i64>,
        frame_size: usize,
    )
        requires
            self.tone_map.tones@.len() <= MAX_VOICES,
            frame_size <= old(output_l)@.len(),
            frame_size <= old(output_r)@.len(),
            frame_size <= old(multiply_output_l)@.len(),
            frame_size <= old(multiply_output_r)@.len(),
            forall|i: int| 0 <= i < frame_size ==>
                -AUDIO_LIMIT <= #[trigger] old(output_l)@[i] <= AUDIO_LIMIT,
            forall|i: int| 0 <= i < frame_size ==>
                -AUDIO_LIMIT <= #[trigger] old(output_r)@[i] <= AUDIO_LIMIT,
            forall|i: int| 0 <= i < frame_size ==>
                -FP_ONE <= #[trigger] old(multiply_output_l)@[i] <= FP_ONE,
            forall|i: int| 0 <= i < frame_size ==>
                -FP_ONE <= #[trigger] old(multiply_output_r)@[i] <= FP_ONE,
        ensures
            ({
                let count = if self.tone_map.tones@.len() == 0 {
                    0int
                } else {
                    self.tone_map.tones@.len() - 1
                };
                &&& final(output_l)@.len() == old(output_l)@.len()
                &&& final(output_r)@.len() == old(output_r)@.len()
                &&& forall|i: int| 0 <= i < frame_size ==> #[trigger] final(output_l)@[i]
                    == old(output_l)@[i] - old(multiply_output_l)@[i] * count
                &&& forall|i: int| 0 <= i < frame_size ==> #[trigger] final(output_r)@[i]
                    == old(output_r)@[i] - old(multiply_output_r)@[i] * count
                &&& forall|i: int| frame_size <= i < final(output_l)@.len() ==>
                    #[trigger] final(output_l)@[i] == old(output_l)@[i]
                &&& forall|i: int| frame_size <= i < final(output_r)@.len() ==>
                    #[trigger] final(output_r)@[i] == old(output_r)@[i]
                &&& self.tone_map.tones@.len() == 1 ==> forall|i: int| 0 <= i < frame_size ==>
                    #[trigger] final(output_l)@[i] == old(output_l)@[i]
                        && final(output_r)@[i] == old(output_r)@[i]
            }),
            final(multiply_output_l)@ == old(multiply_output_l)@,
            final(multiply_output_r)@ == old(multiply_output_r)@,
    {
        let len = self.tone_map.len();
        let count_tones: i64 = if len == 0 { 0 } else { (len - 1) as i64 };
        let ghost old_l = output_l@;
        let ghost old_r = output_r@;
        let ghost ml = multiply_output_l@;
        let ghost mr = multiply_output_r@;
        let mut index: usize = 0;
        while index < frame_size
            invariant
                0 <= count_tones <= MAX_VOICES,
                count_tones == (if self.tone_map.tones@.len() == 0 {
                    0int
                } else {
                    self.tone_map.tones@.len() - 1
                }),
                index <= frame_size,
                frame_size <= old_l.len(),
                frame_size <= old_r.len(),
                frame_size <= ml.len(),
                frame_size <= mr.len(),
                output_l@.len() == old_l.len(),
                output_r@.len() == old_r.len(),
                multiply_output_l@ == ml,
                multiply_output_r@ == mr,
                forall|i: int| 0 <= i < index ==>
                    #[trigger] output_l@[i] == old_l[i] - ml[i] * count_tones,
                forall|i: int| 0 <= i < index ==>
                    #[trigger] output_r@[i] == old_r[i] - mr[i] * count_tones,
                forall|i: int| index <= i < old_l.len() ==> #[trigger] output_l@[i] == old_l[i],
                forall|i: int| index <= i < old_r.len() ==> #[trigger] output_r@[i] == old_r[i],
                forall|i: int| 0 <= i < frame_size ==>
                    -AUDIO_LIMIT <= #[trigger] old_l[i] <= AUDIO_LIMIT,
                forall|i: int| 0 <= i < frame_size ==>
                    -AUDIO_LIMIT <= #[trigger] old_r[i] <= AUDIO_LIMIT,
                forall|i: int| 0 <= i < frame_size ==> -FP_ONE <= #[trigger] ml[i] <= FP_ONE,
                forall|i: int| 0 <= i < frame_size ==> -FP_ONE <= #[trigger] mr[i] <= FP_ONE,
            decreases frame_size - index,
        {
            proof {
                assert(-FP_ONE * (MAX_VOICES as int) <= ml[index as int] * count_tones
                    <= FP_ONE * (MAX_VOICES as int)) by (nonlinear_arith)
                    requires -FP_ONE <= ml[index as int] <= FP_ONE
                        && 0 <= count_tones <= MAX_VOICES as int;
                assert(-FP_ONE * (MAX_VOICES as int) <= mr[index as int] * count_tones
                    <= FP_ONE * (MAX_VOICES as int)) by (nonlinear_arith)
                    requires -FP_ONE <= mr[index as int] <= FP_ONE
                        && 0 <= count_tones <= MAX_VOICES as int;
            }
            let vl = output_l[index] - multiply_output_l[index] * count_tones;
            let vr = output_r[index] - multiply_output_r[index] * count_tones;
            output_l.set(index, vl);
            output_r.set(index, vr);
            index = index + 1;
        }
    }
}

} // verus!
