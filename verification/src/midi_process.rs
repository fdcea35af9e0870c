//! Turning combined MIDI events into the synthesizer's inputs: a note
//! event becomes a trigger message, any other event becomes a control
//! value looked up in the reverse function mapping.

use vstd::prelude::*;
use crate::fixed::FP_ONE;
use crate::jackmidi::MidiMsgAdvanced;
use crate::midi_functions::{rev_has_key, rev_unique_keys};
use crate::trigger_note_msg::{NoteType, TriggerNoteMsg};
use crate::util::{note_freq_fp, to_freq_fixed};

verus! {

/// The envelope span, in samples, that triggered notes are given.
pub const TRIGGER_NOTE_LENGTH: usize = 96000;

/// The trigger message a combined note event asks for: the note's
/// pitch, its intensity as a unit-interval velocity, and the standard
/// note length.  Events that are not note transitions trigger nothing.
pub fn trigger_of_midi_msg(msg: &MidiMsgAdvanced) -> (r: Option<TriggerNoteMsg>)
    requires
        msg.wf(),
    ensures
        match *msg {
            MidiMsgAdvanced::MidiNoteOnOff(_, _, on, note, intensity) => r matches Some(t)
                && t.note_type == (if on { NoteType::NoteOn } else { NoteType::NoteOff })
                && t.freq == note_freq_fp(note as int)
                && t.velocity == (intensity * FP_ONE) / 127int
                && t.length == TRIGGER_NOTE_LENGTH
                && t.wf(),
            _ => r is None,
        },
{
    match msg {
        MidiMsgAdvanced::MidiNoteOnOff(_id0, _id1, on, note, intensity) => {
            proof {
                let iv = *intensity as int;
                vstd::arithmetic::div_mod::lemma_div_is_ordered(
                    iv * FP_ONE, 127 * FP_ONE, 127,
                );
                vstd::arithmetic::div_mod::lemma_div_by_multiple(FP_ONE as int, 127);
                assert(iv * FP_ONE <= 127 * FP_ONE) by (nonlinear_arith)
                    requires iv <= 127;
                assert(127 * FP_ONE == FP_ONE * 127) by (nonlinear_arith);
                vstd::arithmetic::div_mod::lemma_div_pos_is_pos(iv * FP_ONE, 127);
            }
            let velocity = ((*intensity as i64) * FP_ONE) / 127;
            let note_type = if *on { NoteType::NoteOn } else { NoteType::NoteOff };
            Some(TriggerNoteMsg {
                note_type,
                freq: to_freq_fixed(*note),
                velocity,
                length: TRIGGER_NOTE_LENGTH,
            })
        },
        _ => None,
    }
}

/// The control form of a non-note event: the event with its value
/// cleared, which is how the mapping is keyed, together with the value
/// as a unit-interval gain.
pub fn control_of_midi_msg(msg: &MidiMsgAdvanced) -> (r: (MidiMsgAdvanced, i64))
    ensures
        r.0 == ({
            match *msg {
                MidiMsgAdvanced::MidiEmpty => MidiMsgAdvanced::MidiEmpty,
                MidiMsgAdvanced::MidiNoteOnOff(id0, id1, b, n, _) =>
                    MidiMsgAdvanced::MidiNoteOnOff(id0, id1, b, n, 0u8),
                MidiMsgAdvanced::MidiControlIdValue(id, _) =>
                    MidiMsgAdvanced::MidiControlIdValue(id, 0u16),
                MidiMsgAdvanced::MidiControl2IdsValue(id0, id1, _) =>
                    MidiMsgAdvanced::MidiControl2IdsValue(id0, id1, 0u16),
            }
        }),
        r.1 == ({
            match *msg {
                MidiMsgAdvanced::MidiEmpty => 0int,
                MidiMsgAdvanced::MidiNoteOnOff(_, _, _, _, v) => (v * FP_ONE) / 127int,
                MidiMsgAdvanced::MidiControlIdValue(_, v) => (v * FP_ONE) / 127int,
                MidiMsgAdvanced::MidiControl2IdsValue(_, _, v) => (v * FP_ONE) / 16383int,
            }
        }),
{
    let mut keyed = *msg;
    let value = keyed.get_norm_value();
    keyed.reset_value();
    (keyed, value)
}

/// The function names a control event drives: the entry of the reverse
/// mapping keyed by the event, if one exists.
pub fn lookup_midi_functions<'a>(
    map: &'a Vec<(MidiMsgAdvanced, Vec<String>)>,
    key: &MidiMsgAdvanced,
) -> (r: Option<&'a Vec<String>>)
    ensures
        match r {
            Some(names) => exists|i: int| 0 <= i < map@.len()
                && (#[trigger] map@[i]).0 == *key && map@[i].1 == *names,
            None => !rev_has_key(map@, *key),
        },
{
    let mut i: usize = 0;
    while i < map.len()
        invariant
            i <= map@.len(),
            forall|j: int| 0 <= j < i ==> (#[trigger] map@[j]).0 != *key,
        decreases map@.len() - i,
    {
        if map[i].0 == *key {
            return Some(&map[i].1);
        }
        i = i + 1;
    }
    None
}

} // verus!
