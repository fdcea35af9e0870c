//! One voice: a sounding (or releasing) note with its oscillator, its
//! envelope, its playback cursor and its lifecycle flag.

use vstd::prelude::*;
use crate::adsr::Adsr;
use crate::fixed::{FP_ONE, MAX_ENV_LEN, MAX_START};
use crate::jackaudio::SineWaveGenerator;
use crate::trigger_note_msg::NoteType;
use crate::wave_gen::FREQ_LIMIT;

verus! {

/// One sounding note.  `length` is the sample span its envelope was
/// generated for, `start_pose` counts the samples already rendered in
/// the current phase, and the two sustain values carry the gain last
/// applied to each channel across the note-on/note-off handoff.
pub struct Tone {
    pub playing: bool,
    pub length: usize,
    pub note_type: NoteType,
    pub freq: i64,
    pub velocity: i64,
    pub start_pose: usize,
    pub adsr_envelope: Adsr,
    pub envelope: Option<Vec<i64>>,
    pub last_sustain_value_a: i64,
    pub last_sustain_value_b: i64,
    pub sine_wave_generator: SineWaveGenerator,
}

impl Tone {
    /// The ranges under which a voice can be mixed: fixed-point values
    /// in their unit intervals, a cursor the mixer may still advance,
    /// and an envelope whose entries are unit-interval gains.
    pub open spec fn wf(self) -> bool {
        &&& 0 <= self.freq <= FREQ_LIMIT
        &&& 0 <= self.velocity <= FP_ONE
        &&& 1 <= self.length <= MAX_ENV_LEN
        &&& self.start_pose <= MAX_START
        &&& self.adsr_envelope.wf()
        &&& self.sine_wave_generator.wf()
        &&& 0 <= self.last_sustain_value_a <= FP_ONE
        &&& 0 <= self.last_sustain_value_b <= FP_ONE
        &&& match self.envelope {
            Some(env) => env@.len() <= MAX_ENV_LEN
                && forall|i: int| 0 <= i < env@.len() ==> 0 <= #[trigger] env@[i] <= FP_ONE,
            None => true,
        }
    }
}

} // verus!
