//! Note trigger events: the requests to start or stop one voice.

use vstd::prelude::*;
use crate::fixed::{FP_ONE, MAX_ENV_LEN};
use crate::wave_gen::FREQ_LIMIT;

verus! {

/// Which transition a trigger asks for.
#[derive(Eq, PartialEq, Structural, Clone, Copy, Debug)]
pub enum NoteType {
    NoteOn,
    NoteOff,
}

/// One note transition: frequency and velocity are fixed-point, the
/// length is the sample count the note's envelope is meant to span.
#[derive(Clone, Copy, Debug)]
pub struct TriggerNoteMsg {
    pub note_type: NoteType,
    pub freq: i64,
    pub velocity: i64,
    pub length: usize,
}

impl TriggerNoteMsg {
    /// The ranges under which a trigger is meaningful: a frequency the
    /// oscillator accepts, a unit-interval velocity, and an envelope
    /// length the generators accept.
    pub open spec fn wf(self) -> bool {
        &&& 0 <= self.freq <= FREQ_LIMIT
        &&& 0 <= self.velocity <= FP_ONE
        &&& 1 <= self.length <= MAX_ENV_LEN
    }
}

} // verus!
