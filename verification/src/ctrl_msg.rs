//! The control message: the modulation and volume parameters applied to
//! every voice on each callback.

use vstd::prelude::*;
use crate::fixed::FP_ONE;
use crate::trig::TURN;
use crate::wave_gen::FREQ_LIMIT;

verus! {

/// Named string parameters for effects, kept in insertion order.
pub type ParameterMap = Vec<(String, Vec<String>)>;

/// The latest modulation and volume settings.  Gains and frequencies
/// are fixed-point; phases are angle units in `0 .. TURN`.
pub struct CtrlMsg {
    pub size: usize,
    pub intensity_am: i64,
    pub freq_am: i64,
    pub phase_am: i64,
    pub intensity_fm: i64,
    pub freq_fm: i64,
    pub phase_fm: i64,
    pub num_samples: usize,
    pub volume: i64,
    pub effect_params: Option<ParameterMap>,
}

impl CtrlMsg {
    /// The ranges under which the message can drive the oscillator.
    pub open spec fn wf(self) -> bool {
        &&& 0 <= self.intensity_am <= FP_ONE
        &&& 0 <= self.freq_am <= FREQ_LIMIT
        &&& 0 <= self.phase_am < TURN
        &&& 0 <= self.intensity_fm <= FREQ_LIMIT
        &&& 0 <= self.freq_fm <= FREQ_LIMIT
        &&& 0 <= self.phase_fm < TURN
        &&& 0 <= self.volume <= FP_ONE
    }
}

} // verus!
