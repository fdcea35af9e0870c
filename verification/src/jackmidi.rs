//! MIDI messages: the typed forms of the three-byte wire messages and
//! the combined events built from one message and its predecessor.

use vstd::prelude::*;
use crate::fixed::FP_ONE;
use crate::util::{from_status_byte, mask7, msb_lsb_to_u14};

verus! {

/// Bytes in one wire message.
pub const MAX_MIDI: usize = 3;

pub type MidiId = u16;

pub type Note = u8;

pub type Intensity = u8;

/// A combined event: a note transition carrying both its note-on and
/// note-off identifiers, or a control value from one or two messages.
#[derive(Eq, PartialEq, Structural, Clone, Copy, Debug)]
pub enum MidiMsgAdvanced {
    MidiEmpty,
    MidiNoteOnOff(MidiId, MidiId, bool, Note, Intensity),
    MidiControlIdValue(MidiId, u16),
    MidiControl2IdsValue(MidiId, MidiId, u16),
}

/// The event's identifier in spec form.
pub open spec fn spec_adv_id(m: MidiMsgAdvanced) -> int {
    match m {
        MidiMsgAdvanced::MidiEmpty => 0,
        MidiMsgAdvanced::MidiNoteOnOff(id0, _, _, _, _) => id0 as int,
        MidiMsgAdvanced::MidiControlIdValue(id, _) => id as int,
        MidiMsgAdvanced::MidiControl2IdsValue(id0, _, _) => id0 as int,
    }
}

/// The event's value in spec form.
pub open spec fn spec_adv_value(m: MidiMsgAdvanced) -> int {
    match m {
        MidiMsgAdvanced::MidiEmpty => 0,
        MidiMsgAdvanced::MidiNoteOnOff(_, _, _, _, value) => value as int,
        MidiMsgAdvanced::MidiControlIdValue(_, value) => value as int,
        MidiMsgAdvanced::MidiControl2IdsValue(_, _, value) => value as int,
    }
}

impl MidiMsgAdvanced {
    /// Note and intensity payloads stay within their seven-bit ranges.
    pub open spec fn wf(self) -> bool {
        match self {
            MidiMsgAdvanced::MidiNoteOnOff(_, _, _, note, intensity) =>
                note < 128 && intensity < 128,
            _ => true,
        }
    }

    /// The identifier the event is keyed by.
    pub fn get_id(&self) -> (r: u16)
        ensures
            r == spec_adv_id(*self),
    {
        match self {
            Self::MidiEmpty => 0,
            Self::MidiNoteOnOff(id0, _, _, _, _) => *id0,
            Self::MidiControlIdValue(id, _) => *id,
            Self::MidiControl2IdsValue(id0, _, _) => *id0,
        }
    }

    /// The event's raw value.
    pub fn get_value(&self) -> (r: u16)
        ensures
            r == spec_adv_value(*self),
    {
        match self {
            Self::MidiEmpty => 0,
            Self::MidiNoteOnOff(_, _, _, _, value) => *value as u16,
            Self::MidiControlIdValue(_, value) => *value,
            Self::MidiControl2IdsValue(_, _, value) => *value,
        }
    }

    /// The event's value as a fixed-point gain: seven-bit values are
    /// scaled against 127, fourteen-bit values against 16383.
    pub fn get_norm_value(&self) -> (r: i64)
        ensures
            r == match *self {
                MidiMsgAdvanced::MidiEmpty => 0int,
                MidiMsgAdvanced::MidiNoteOnOff(_, _, _, _, v) => (v * FP_ONE) / 127int,
                MidiMsgAdvanced::MidiControlIdValue(_, v) => (v * FP_ONE) / 127int,
                MidiMsgAdvanced::MidiControl2IdsValue(_, _, v) => (v * FP_ONE) / 16383int,
            },
    {
        match self {
            Self::MidiEmpty => 0,
            Self::MidiNoteOnOff(_, _, _, _, value) => ((*value as i64) * FP_ONE) / 127,
            Self::MidiControlIdValue(_, value) => ((*value as i64) * FP_ONE) / 127,
            Self::MidiControl2IdsValue(_, _, value) => ((*value as i64) * FP_ONE) / 16383,
        }
    }

    /// Clear the event's value, leaving only its identity: the form
    /// control events are looked up under.
    pub fn reset_value(&mut self)
        ensures
            *final(self) == match *old(self) {
                MidiMsgAdvanced::MidiEmpty => MidiMsgAdvanced::MidiEmpty,
                MidiMsgAdvanced::MidiNoteOnOff(id0, id1, b, n, _) =>
                    MidiMsgAdvanced::MidiNoteOnOff(id0, id1, b, n, 0u8),
                MidiMsgAdvanced::MidiControlIdValue(id, _) =>
                    MidiMsgAdvanced::MidiControlIdValue(id, 0u16),
                MidiMsgAdvanced::MidiControl2IdsValue(id0, id1, _) =>
                    MidiMsgAdvanced::MidiControl2IdsValue(id0, id1, 0u16),
            },
    {
        match self {
            Self::MidiEmpty => {},
            Self::MidiNoteOnOff(_, _, _, _, value) => {
                *value = 0;
            },
            Self::MidiControlIdValue(_, value) => {
                *value = 0;
            },
            Self::MidiControl2IdsValue(_, _, value) => {
                *value = 0;
            },
        }
    }
}

/// A control-change message: channel, controller number, value.
pub struct MidiMsgControlChange {
    pub channel: u8,
    pub control: u8,
    pub value: u8,
    pub time: u64,
}

impl MidiMsgControlChange {
    /// Channel and data bytes within their MIDI ranges.
    pub open spec fn wf(self) -> bool {
        self.channel < 16 && self.control < 128 && self.value < 128
    }

    /// The wire bytes of the message.
    pub fn get_data(&self) -> (r: Vec<u8>)
        requires
            self.wf(),
        ensures
            r@ == seq![(0xB0 + self.channel) as u8, self.control, self.value],
    {
        let mut v: Vec<u8> = Vec::new();
        v.push(0xB0 + self.channel);
        v.push(self.control);
        v.push(self.value);
        proof {
            assert(v@ =~= seq![(0xB0 + self.channel) as u8, self.control, self.value]);
        }
        v
    }

    /// The controller identifier: status nibble, channel and number.
    pub fn get_id(&self) -> (r: u16)
        requires
            self.wf(),
        ensures
            r == 0xB000 + (self.channel as int) * 256 + self.control,
    {
        proof {
            let ch = self.channel;
            assert((ch as u16) << 8 == ch * 256) by (bit_vector)
                requires ch < 16;
        }
        0xB000 + ((self.channel as u16) << 8) + self.control as u16
    }

    /// The controller value.
    pub fn get_value(&self) -> (r: u16)
        ensures
            r == self.value,
    {
        self.value as u16
    }

    /// The receive time.
    pub fn get_time(&self) -> (r: u64)
        ensures
            r == self.time,
    {
        self.time
    }
}

/// A note-on message: channel, key, velocity.
pub struct MidiMsgNoteOn {
    pub channel: u8,
    pub key: u8,
    pub velocity: u8,
    pub time: u64,
}

impl MidiMsgNoteOn {
    /// Channel and data bytes within their MIDI ranges.
    pub open spec fn wf(self) -> bool {
        self.channel < 16 && self.key < 128 && self.velocity < 128
    }

    /// The wire bytes of the message.
    pub fn get_data(&self) -> (r: Vec<u8>)
        requires
            self.wf(),
        ensures
            r@ == seq![(0x90 + self.channel) as u8, self.key, self.velocity],
    {
        let mut v: Vec<u8> = Vec::new();
        v.push(0x90 + self.channel);
        v.push(self.key);
        v.push(self.velocity);
        proof {
            assert(v@ =~= seq![(0x90 + self.channel) as u8, self.key, self.velocity]);
        }
        v
    }

    /// The note identifier: status nibble, channel and key.
    pub fn get_id(&self) -> (r: u16)
        requires
            self.wf(),
        ensures
            r == 0x9000 + (self.channel as int) * 256 + self.key,
    {
        proof {
            let ch = self.channel;
            assert((ch as u16) << 8 == ch * 256) by (bit_vector)
                requires ch < 16;
        }
        0x9000 + ((self.channel as u16) << 8) + self.key as u16
    }

    /// The key velocity.
    pub fn get_value(&self) -> (r: u16)
        ensures
            r == self.velocity,
    {
        self.velocity as u16
    }

    /// The receive time.
    pub fn get_time(&self) -> (r: u64)
        ensures
            r == self.time,
    {
        self.time
    }
}

/// A note-off message: channel, key, velocity.
pub struct MidiMsgNoteOff {
    pub channel: u8,
    pub key: u8,
    pub velocity: u8,
    pub time: u64,
}

impl MidiMsgNoteOff {
    /// Channel and data bytes within their MIDI ranges.
    pub open spec fn wf(self) -> bool {
        self.channel < 16 && self.key < 128 && self.velocity < 128
    }

    /// The wire bytes of the message.
    pub fn get_data(&self) -> (r: Vec<u8>)
        requires
            self.wf(),
        ensures
            r@ == seq![(0x80 + self.channel) as u8, self.key, self.velocity],
    {
        let mut v: Vec<u8> = Vec::new();
        v.push(0x80 + self.channel);
        v.push(self.key);
        v.push(self.velocity);
        proof {
            assert(v@ =~= seq![(0x80 + self.channel) as u8, self.key, self.velocity]);
        }
        v
    }

    /// The note identifier: status nibble, channel and key.
    pub fn get_id(&self) -> (r: u16)
        requires
            self.wf(),
        ensures
            r == 0x8000 + (self.channel as int) * 256 + self.key,
    {
        proof {
            let ch = self.channel;
            assert((ch as u16) << 8 == ch * 256) by (bit_vector)
                requires ch < 16;
        }
        0x8000 + ((self.channel as u16) << 8) + self.key as u16
    }

    /// The key velocity.
    pub fn get_value(&self) -> (r: u16)
        ensures
            r == self.velocity,
    {
        self.velocity as u16
    }

    /// The receive time.
    pub fn get_time(&self) -> (r: u64)
        ensures
            r == self.time,
    {
        self.time
    }
}

/// A pitch-bend message: channel and a fourteen-bit value.
pub struct MidiMsgPitchBend {
    pub channel: u8,
    pub value: u16,
    pub time: u64,
}

impl MidiMsgPitchBend {
    /// Channel and value within their MIDI ranges.
    pub open spec fn wf(self) -> bool {
        self.channel < 16 && self.value < 16384
    }

    /// The wire bytes of the message: status, then LSB, then MSB.
    pub fn get_data(&self) -> (r: Vec<u8>)
        requires
            self.wf(),
        ensures
            r@.len() == 3,
            r@[0] == 0xE0 + self.channel,
            r@[1] == self.value as int % 128,
            r@[2] == (self.value as int / 128) % 128,
    {
        let (msb_value, lsb_value) = crate::util::u14_to_msb_lsb(self.value);
        let mut v: Vec<u8> = Vec::new();
        v.push(0xE0 + self.channel);
        v.push(lsb_value);
        v.push(msb_value);
        v
    }

    /// The bend identifier: status nibble and channel.
    pub fn get_id(&self) -> (r: u16)
        requires
            self.wf(),
        ensures
            r == 0xE000 + (self.channel as int) * 256,
    {
        proof {
            let ch = self.channel;
            assert((ch as u16) << 8 == ch * 256) by (bit_vector)
                requires ch < 16;
        }
        0xE000 + ((self.channel as u16) << 8)
    }

    /// The bend value.
    pub fn get_value(&self) -> (r: u16)
        ensures
            r == self.value,
    {
        self.value
    }

    /// The receive time.
    pub fn get_time(&self) -> (r: u64)
        ensures
            r == self.time,
    {
        self.time
    }
}

/// A raw message that was not classified: the fixed-size copy of the
/// wire bytes, safe to move out of the real-time thread.
#[derive(Clone, Copy)]
pub struct MidiMsgGeneric {
    pub len: usize,
    pub data: [u8; MAX_MIDI],
    pub time: u64,
}

impl MidiMsgGeneric {
    /// The wire bytes of the message.
    pub fn get_data(&self) -> (r: Vec<u8>)
        ensures
            r@ == seq![self.data[0], self.data[1], self.data[2]],
    {
        let mut v: Vec<u8> = Vec::new();
        v.push(self.data[0]);
        v.push(self.data[1]);
        v.push(self.data[2]);
        proof {
            assert(v@ =~= seq![self.data@[0], self.data@[1], self.data@[2]]);
        }
        v
    }

    /// An unclassified message has no identifier of its own.
    pub fn get_id(&self) -> (r: u16)
        ensures
            r == u16::MAX,
    {
        u16::MAX
    }

    /// An unclassified message carries no value.
    pub fn get_value(&self) -> (r: u16)
        ensures
            r == 0,
    {
        0
    }

    /// The receive time.
    pub fn get_time(&self) -> (r: u64)
        ensures
            r == self.time,
    {
        self.time
    }
}

/// One classified message of any kind.
pub enum MidiMsg {
    Generic(MidiMsgGeneric),
    ControlChange(MidiMsgControlChange),
    NoteOn(MidiMsgNoteOn),
    NoteOff(MidiMsgNoteOff),
    PitchBend(MidiMsgPitchBend),
}

/// The identifier a classified message is keyed by.
pub open spec fn spec_msg_id(m: MidiMsg) -> int {
    match m {
        MidiMsg::Generic(_) => u16::MAX as int,
        MidiMsg::ControlChange(c) => 0xB000 + (c.channel as int) * 256 + c.control,
        MidiMsg::NoteOn(n) => 0x9000 + (n.channel as int) * 256 + n.key,
        MidiMsg::NoteOff(n) => 0x8000 + (n.channel as int) * 256 + n.key,
        MidiMsg::PitchBend(p) => 0xE000 + (p.channel as int) * 256,
    }
}

/// The value a classified message carries.
pub open spec fn spec_msg_value(m: MidiMsg) -> int {
    match m {
        MidiMsg::Generic(_) => 0,
        MidiMsg::ControlChange(c) => c.value as int,
        MidiMsg::NoteOn(n) => n.velocity as int,
        MidiMsg::NoteOff(n) => n.velocity as int,
        MidiMsg::PitchBend(p) => p.value as int,
    }
}

/// The receive time of a classified message.
pub open spec fn spec_msg_time(m: MidiMsg) -> int {
    match m {
        MidiMsg::Generic(g) => g.time as int,
        MidiMsg::ControlChange(c) => c.time as int,
        MidiMsg::NoteOn(n) => n.time as int,
        MidiMsg::NoteOff(n) => n.time as int,
        MidiMsg::PitchBend(p) => p.time as int,
    }
}

impl MidiMsg {
    /// Every payload is within its MIDI ranges.
    pub open spec fn wf(self) -> bool {
        match self {
            MidiMsg::Generic(_) => true,
            MidiMsg::ControlChange(c) => c.wf(),
            MidiMsg::NoteOn(n) => n.wf(),
            MidiMsg::NoteOff(n) => n.wf(),
            MidiMsg::PitchBend(p) => p.wf(),
        }
    }

    /// The identifier the message is keyed by.
    pub fn get_id(&self) -> (r: u16)
        requires
            self.wf(),
        ensures
            r == spec_msg_id(*self),
    {
        match self {
            MidiMsg::Generic(g) => g.get_id(),
            MidiMsg::ControlChange(c) => c.get_id(),
            MidiMsg::NoteOn(n) => n.get_id(),
            MidiMsg::NoteOff(n) => n.get_id(),
            MidiMsg::PitchBend(p) => p.get_id(),
        }
    }

    /// The value the message carries.
    pub fn get_value(&self) -> (r: u16)
        ensures
            r == spec_msg_value(*self),
    {
        match self {
            MidiMsg::Generic(g) => g.get_value(),
            MidiMsg::ControlChange(c) => c.get_value(),
            MidiMsg::NoteOn(n) => n.get_value(),
            MidiMsg::NoteOff(n) => n.get_value(),
            MidiMsg::PitchBend(p) => p.get_value(),
        }
    }

    /// The receive time.
    pub fn get_time(&self) -> (r: u64)
        ensures
            r == spec_msg_time(*self),
    {
        match self {
            MidiMsg::Generic(g) => g.get_time(),
            MidiMsg::ControlChange(c) => c.get_time(),
            MidiMsg::NoteOn(n) => n.get_time(),
            MidiMsg::NoteOff(n) => n.get_time(),
            MidiMsg::PitchBend(p) => p.get_time(),
        }
    }
}

/// The classification of three wire bytes by their status nibble:
/// note-off, note-on, control change and pitch bend get their typed
/// forms, everything else stays generic.
pub open spec fn classify_spec(g: MidiMsgGeneric) -> MidiMsg {
    let status = g.data[0] as int / 16;
    let channel = (g.data[0] as int % 16) as u8;
    if status == 0x08 {
        MidiMsg::NoteOff(MidiMsgNoteOff {
            channel,
            key: (g.data[1] as int % 128) as u8,
            velocity: (g.data[2] as int % 128) as u8,
            time: g.time,
        })
    } else if status == 0x09 {
        MidiMsg::NoteOn(MidiMsgNoteOn {
            channel,
            key: (g.data[1] as int % 128) as u8,
            velocity: (g.data[2] as int % 128) as u8,
            time: g.time,
        })
    } else if status == 0x0b {
        MidiMsg::ControlChange(MidiMsgControlChange {
            channel,
            control: (g.data[1] as int % 128) as u8,
            value: (g.data[2] as int % 128) as u8,
            time: g.time,
        })
    } else if status == 0x0e {
        MidiMsg::PitchBend(MidiMsgPitchBend {
            channel,
            value: ((g.data[2] as int % 128) * 128 + g.data[1] as int % 128) as u16,
            time: g.time,
        })
    } else {
        MidiMsg::Generic(g)
    }
}

impl MidiMsg {
    /// Classify a raw message by its status byte.
    pub fn from_generic(midi: MidiMsgGeneric) -> (r: MidiMsg)
        ensures
            r == classify_spec(midi),
            r.wf(),
    {
        let (status, channel) = from_status_byte(midi.data[0]);
        if status == 0x08 {
            MidiMsg::NoteOff(MidiMsgNoteOff {
                channel,
                key: mask7(midi.data[1]),
                velocity: mask7(midi.data[2]),
                time: midi.time,
            })
        } else if status == 0x09 {
            MidiMsg::NoteOn(MidiMsgNoteOn {
                channel,
                key: mask7(midi.data[1]),
                velocity: mask7(midi.data[2]),
                time: midi.time,
            })
        } else if status == 0x0b {
            MidiMsg::ControlChange(MidiMsgControlChange {
                channel,
                control: mask7(midi.data[1]),
                value: mask7(midi.data[2]),
                time: midi.time,
            })
        } else if status == 0x0e {
            MidiMsg::PitchBend(MidiMsgPitchBend {
                channel,
                value: msb_lsb_to_u14(midi.data[2], midi.data[1]),
                time: midi.time,
            })
        } else {
            MidiMsg::Generic(midi)
        }
    }
}

/// How one classified message and its predecessor combine: two control
/// changes close in time with ascending identifiers pair into one
/// fourteen-bit control event.
pub open spec fn advanced_of_spec(current: MidiMsg, last: Option<MidiMsg>) -> Option<
    MidiMsgAdvanced,
> {
    let id = spec_msg_id(current);
    let value = spec_msg_value(current);
    let time = spec_msg_time(current);
    let paired = match last {
        Some(l) => {
            let diff = if time >= spec_msg_time(l) {
                time - spec_msg_time(l)
            } else {
                spec_msg_time(l) - time
            };
            if diff < 10 && id > spec_msg_id(l) {
                Some((spec_msg_id(l), spec_msg_value(l)))
            } else {
                None
            }
        },
        None => None,
    };
    match current {
        MidiMsg::ControlChange(_) => match paired {
            Some((last_id, last_value)) => Some(MidiMsgAdvanced::MidiControl2IdsValue(
                last_id as u16,
                id as u16,
                (value + last_value * 128) as u16,
            )),
            None => Some(MidiMsgAdvanced::MidiControlIdValue(id as u16, value as u16)),
        },
        MidiMsg::NoteOn(n) => Some(MidiMsgAdvanced::MidiNoteOnOff(
            id as u16,
            (id - 0x1000) as u16,
            true,
            n.key,
            n.velocity,
        )),
        MidiMsg::NoteOff(n) => Some(MidiMsgAdvanced::MidiNoteOnOff(
            (id + 0x1000) as u16,
            id as u16,
            false,
            n.key,
            n.velocity,
        )),
        MidiMsg::PitchBend(_) => Some(MidiMsgAdvanced::MidiControl2IdsValue(
            id as u16,
            id as u16,
            value as u16,
        )),
        MidiMsg::Generic(_) => None,
    }
}

impl MidiMsgAdvanced {
    /// Combine the newest classified message with the remembered one:
    /// the remembered slot is replaced by the newest message, and two
    /// control changes arriving almost together with ascending
    /// identifiers merge into one fourteen-bit control event.
    pub fn from_current_and_last_opt_midi_msgs(
        current_midi_msg: MidiMsg,
        last_opt_midi_msg: &mut Option<MidiMsg>,
    ) -> (r: Option<MidiMsgAdvanced>)
        requires
            current_midi_msg.wf(),
            match *old(last_opt_midi_msg) {
                Some(l) => l.wf(),
                None => true,
            },
        ensures
            r == advanced_of_spec(current_midi_msg, *old(last_opt_midi_msg)),
            r matches Some(a) ==> a.wf(),
            *final(last_opt_midi_msg) == Some(current_midi_msg),
    {
        let id = current_midi_msg.get_id();
        let midi_msg_value = current_midi_msg.get_value();
        let midi_msg_timestamp = current_midi_msg.get_time();
        let last_last_midi_msg = last_opt_midi_msg.take();
        let mut id_value_to_last_msg: Option<(u16, u16)> = None;
        match &last_last_midi_msg {
            Some(last) => {
                let last_time = last.get_time();
                let time_diff = if midi_msg_timestamp >= last_time {
                    midi_msg_timestamp - last_time
                } else {
                    last_time - midi_msg_timestamp
                };
                let last_id = last.get_id();
                let last_value = last.get_value();
                if time_diff < 10 && id > last_id {
                    id_value_to_last_msg = Some((last_id, last_value));
                }
            },
            None => {},
        }
        let r = match &current_midi_msg {
            MidiMsg::ControlChange(_) => match id_value_to_last_msg {
                Some((last_id, last_value)) => {
                    proof {
                        match *old(last_opt_midi_msg) {
                            Some(l) => {
                                assert(spec_msg_value(l) < 16384);
                            },
                            None => {},
                        }
                    }
                    Some(MidiMsgAdvanced::MidiControl2IdsValue(
                        last_id,
                        id,
                        midi_msg_value + last_value * 128,
                    ))
                },
                None => Some(MidiMsgAdvanced::MidiControlIdValue(id, midi_msg_value)),
            },
            MidiMsg::NoteOn(n) => Some(MidiMsgAdvanced::MidiNoteOnOff(
                id,
                id - 0x1000,
                true,
                n.key,
                n.velocity,
            )),
            MidiMsg::NoteOff(n) => Some(MidiMsgAdvanced::MidiNoteOnOff(
                id + 0x1000,
                id,
                false,
                n.key,
                n.velocity,
            )),
            MidiMsg::PitchBend(_) => Some(MidiMsgAdvanced::MidiControl2IdsValue(id, id, midi_msg_value)),
            MidiMsg::Generic(_) => None,
        };
        *last_opt_midi_msg = Some(current_midi_msg);
        r
    }

    /// The combined control event of one control change.
    pub fn from_midi_msg_cc(midi_msg: MidiMsgControlChange) -> (r: Self)
        requires
            midi_msg.wf(),
        ensures
            r == MidiMsgAdvanced::MidiControlIdValue(
                (0xB000 + (midi_msg.channel as int) * 256 + midi_msg.control) as u16,
                (128 * midi_msg.value) as u16,
            ),
    {
        let midi_id = midi_msg.get_id();
        let midi_value = 128 * midi_msg.get_value();
        MidiMsgAdvanced::MidiControlIdValue(midi_id, midi_value)
    }

    /// The combined control event of two paired control changes.
    pub fn from_midi_msg_cc2ids(
        midi_msg0: MidiMsgControlChange,
        midi_msg1: MidiMsgControlChange,
    ) -> (r: Self)
        requires
            midi_msg0.wf(),
            midi_msg1.wf(),
        ensures
            r == MidiMsgAdvanced::MidiControl2IdsValue(
                (0xB000 + (midi_msg0.channel as int) * 256 + midi_msg0.control) as u16,
                (0xB000 + (midi_msg1.channel as int) * 256 + midi_msg1.control) as u16,
                (128 * midi_msg0.value + midi_msg1.value) as u16,
            ),
    {
        let midi_id0 = midi_msg0.get_id();
        let midi_id1 = midi_msg1.get_id();
        let midi_value = 128 * midi_msg0.get_value() + midi_msg1.get_value();
        MidiMsgAdvanced::MidiControl2IdsValue(midi_id0, midi_id1, midi_value)
    }

    /// The combined note event of a note-on message.
    pub fn from_midi_msgs_note_on(midi_msg: MidiMsgNoteOn) -> (r: Self)
        requires
            midi_msg.wf(),
        ensures
            r == ({
                let id_on = 0x9000 + (midi_msg.channel as int) * 256 + midi_msg.key;
                MidiMsgAdvanced::MidiNoteOnOff(
                    id_on as u16,
                    (id_on - 0x1000) as u16,
                    true,
                    midi_msg.key,
                    midi_msg.velocity,
                )
            }),
    {
        let midi_id_on = midi_msg.get_id();
        let midi_value = true;
        let midi_id_off = midi_id_on - 0x1000;
        let data = midi_msg.get_data();
        let midi_note = data[1];
        let midi_intensity = data[2];
        MidiMsgAdvanced::MidiNoteOnOff(
            midi_id_on,
            midi_id_off,
            midi_value,
            midi_note,
            midi_intensity,
        )
    }

    /// The combined note event of a note-off message.
    pub fn from_midi_msgs_note_off(midi_msg: MidiMsgNoteOff) -> (r: Self)
        requires
            midi_msg.wf(),
        ensures
            r == ({
                let id_off = 0x8000 + (midi_msg.channel as int) * 256 + midi_msg.key;
                MidiMsgAdvanced::MidiNoteOnOff(
                    (id_off + 0x1000) as u16,
                    id_off as u16,
                    false,
                    midi_msg.key,
                    midi_msg.velocity,
                )
            }),
    {
        let midi_id_on = midi_msg.get_id() + 0x1000;
        let midi_value = false;
        let midi_id_off = midi_msg.get_id();
        let data = midi_msg.get_data();
        let midi_note = data[1];
        let midi_intensity = data[2];
        MidiMsgAdvanced::MidiNoteOnOff(
            midi_id_on,
            midi_id_off,
            midi_value,
            midi_note,
            midi_intensity,
        )
    }
}

} // verus!
