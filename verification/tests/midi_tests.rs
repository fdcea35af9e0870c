//! MIDI byte helpers, message classification, combined events and the
//! mapping from events to triggers and control functions.

use oscillator_lib::fixed::FP_ONE;
use oscillator_lib::jackmidi::{
    MidiMsg, MidiMsgAdvanced, MidiMsgControlChange, MidiMsgGeneric, MidiMsgNoteOff,
    MidiMsgNoteOn, MidiMsgPitchBend,
};
use oscillator_lib::midi_functions::reverse_map_midi_functions2midi_advanced_msgs;
use oscillator_lib::midi_process::{
    control_of_midi_msg, lookup_midi_functions, trigger_of_midi_msg, TRIGGER_NOTE_LENGTH,
};
use oscillator_lib::trigger_note_msg::NoteType;
use oscillator_lib::util::{
    from_status_byte, mask14, mask7, msb_lsb_to_u14, status_byte, to_freq_fixed, u14_to_msb_lsb,
};

#[test]
fn byte_masks_and_status_bytes() {
    assert_eq!(mask7(0xFF), 0x7F);
    assert_eq!(mask7(0x45), 0x45);
    assert_eq!(mask14(0xFFFF), 0x3FFF);
    assert_eq!(u14_to_msb_lsb(0x2345), (0x46, 0x45));
    assert_eq!(msb_lsb_to_u14(0x46, 0x45), 0x2345);
    assert_eq!(status_byte(0x09, 3), 0x93);
    assert_eq!(from_status_byte(0x93), (0x09, 0x03));
}

#[test]
fn note_number_to_frequency() {
    // A = 440 Hz in fixed point, and halving per octave down.
    assert_eq!(to_freq_fixed(69), 440 * FP_ONE);
    assert_eq!(to_freq_fixed(57), 220 * FP_ONE);
    assert_eq!(to_freq_fixed(81), 880 * FP_ONE);
    assert!(to_freq_fixed(0) > 0);
    assert!(to_freq_fixed(127) < 0x4000_0000);
}

#[test]
fn classify_note_on_bytes() {
    let generic = MidiMsgGeneric { len: 3, data: [0x93, 69, 100], time: 5 };
    match MidiMsg::from_generic(generic) {
        MidiMsg::NoteOn(n) => {
            assert_eq!(n.channel, 3);
            assert_eq!(n.key, 69);
            assert_eq!(n.velocity, 100);
            assert_eq!(n.time, 5);
            assert_eq!(n.get_id(), 0x9345);
        },
        _ => panic!("expected a note-on"),
    }
}

#[test]
fn classify_control_change_and_pitch_bend_bytes() {
    let cc = MidiMsgGeneric { len: 3, data: [0xB0, 7, 99], time: 1 };
    match MidiMsg::from_generic(cc) {
        MidiMsg::ControlChange(c) => {
            assert_eq!((c.channel, c.control, c.value), (0, 7, 99));
            assert_eq!(c.get_id(), 0xB007);
        },
        _ => panic!("expected a control change"),
    }
    let pb = MidiMsgGeneric { len: 3, data: [0xE2, 0x45, 0x46], time: 2 };
    match MidiMsg::from_generic(pb) {
        MidiMsg::PitchBend(p) => {
            assert_eq!(p.channel, 2);
            assert_eq!(p.value, 0x2345);
            assert_eq!(p.get_id(), 0xE200);
        },
        _ => panic!("expected a pitch bend"),
    }
    let other = MidiMsgGeneric { len: 3, data: [0xF8, 0, 0], time: 3 };
    match MidiMsg::from_generic(other) {
        MidiMsg::Generic(g) => assert_eq!(g.get_id(), u16::MAX),
        _ => panic!("expected a generic message"),
    }
}

#[test]
fn combined_event_from_single_messages() {
    let cc = MidiMsgControlChange { channel: 0, control: 7, value: 100, time: 0 };
    assert_eq!(
        MidiMsgAdvanced::from_midi_msg_cc(cc),
        MidiMsgAdvanced::MidiControlIdValue(0xB007, 12800),
    );
    let cc0 = MidiMsgControlChange { channel: 0, control: 7, value: 100, time: 0 };
    let cc1 = MidiMsgControlChange { channel: 0, control: 39, value: 5, time: 0 };
    assert_eq!(
        MidiMsgAdvanced::from_midi_msg_cc2ids(cc0, cc1),
        MidiMsgAdvanced::MidiControl2IdsValue(0xB007, 0xB027, 12805),
    );
    let on = MidiMsgNoteOn { channel: 0, key: 69, velocity: 100, time: 0 };
    assert_eq!(
        MidiMsgAdvanced::from_midi_msgs_note_on(on),
        MidiMsgAdvanced::MidiNoteOnOff(0x9045, 0x8045, true, 69, 100),
    );
    let off = MidiMsgNoteOff { channel: 0, key: 69, velocity: 10, time: 0 };
    assert_eq!(
        MidiMsgAdvanced::from_midi_msgs_note_off(off),
        MidiMsgAdvanced::MidiNoteOnOff(0x9045, 0x8045, false, 69, 10),
    );
}

#[test]
fn close_control_changes_pair_into_one_event() {
    let coarse = MidiMsg::ControlChange(MidiMsgControlChange {
        channel: 0,
        control: 7,
        value: 100,
        time: 1000,
    });
    let fine = MidiMsg::ControlChange(MidiMsgControlChange {
        channel: 0,
        control: 39,
        value: 5,
        time: 1004,
    });
    let mut last = None;
    let first = MidiMsgAdvanced::from_current_and_last_opt_midi_msgs(coarse, &mut last);
    assert_eq!(first, Some(MidiMsgAdvanced::MidiControlIdValue(0xB007, 100)));
    let second = MidiMsgAdvanced::from_current_and_last_opt_midi_msgs(fine, &mut last);
    // Within ten ticks and with an ascending identifier: one
    // fourteen-bit event out of the coarse and fine controller pair.
    assert_eq!(
        second,
        Some(MidiMsgAdvanced::MidiControl2IdsValue(0xB007, 0xB027, 5 + 100 * 128)),
    );
}

#[test]
fn distant_control_changes_stay_separate() {
    let coarse = MidiMsg::ControlChange(MidiMsgControlChange {
        channel: 0,
        control: 7,
        value: 100,
        time: 1000,
    });
    let fine = MidiMsg::ControlChange(MidiMsgControlChange {
        channel: 0,
        control: 39,
        value: 5,
        time: 2000,
    });
    let mut last = None;
    let _ = MidiMsgAdvanced::from_current_and_last_opt_midi_msgs(coarse, &mut last);
    let second = MidiMsgAdvanced::from_current_and_last_opt_midi_msgs(fine, &mut last);
    assert_eq!(second, Some(MidiMsgAdvanced::MidiControlIdValue(0xB027, 5)));
}

#[test]
fn note_events_trigger_notes() {
    let on = MidiMsgAdvanced::MidiNoteOnOff(0x9045, 0x8045, true, 69, 127);
    let trigger = trigger_of_midi_msg(&on).expect("a note event triggers");
    assert_eq!(trigger.note_type, NoteType::NoteOn);
    assert_eq!(trigger.freq, 440 * FP_ONE);
    assert_eq!(trigger.velocity, FP_ONE);
    assert_eq!(trigger.length, TRIGGER_NOTE_LENGTH);

    let off = MidiMsgAdvanced::MidiNoteOnOff(0x9045, 0x8045, false, 69, 64);
    let trigger = trigger_of_midi_msg(&off).unwrap();
    assert_eq!(trigger.note_type, NoteType::NoteOff);
    assert_eq!(trigger.velocity, 64 * FP_ONE / 127);

    let ctrl = MidiMsgAdvanced::MidiControlIdValue(0xB007, 100);
    assert!(trigger_of_midi_msg(&ctrl).is_none());
}

#[test]
fn control_events_normalize_and_reset() {
    let ctrl = MidiMsgAdvanced::MidiControlIdValue(0xB007, 127);
    let (keyed, value) = control_of_midi_msg(&ctrl);
    assert_eq!(keyed, MidiMsgAdvanced::MidiControlIdValue(0xB007, 0));
    assert_eq!(value, FP_ONE);
    let wide = MidiMsgAdvanced::MidiControl2IdsValue(0xB007, 0xB027, 16383);
    let (keyed, value) = control_of_midi_msg(&wide);
    assert_eq!(keyed, MidiMsgAdvanced::MidiControl2IdsValue(0xB007, 0xB027, 0));
    assert_eq!(value, FP_ONE);
}

#[test]
fn reverse_mapping_collects_function_names_per_event() {
    let volume_key = MidiMsgAdvanced::MidiControlIdValue(0xB007, 0);
    let filter_key = MidiMsgAdvanced::MidiControlIdValue(0xB00E, 0);
    let input: Vec<(String, Vec<MidiMsgAdvanced>)> = vec![
        (String::from("volume"), vec![volume_key]),
        (String::from("filter"), vec![filter_key, volume_key]),
    ];
    let map = reverse_map_midi_functions2midi_advanced_msgs(input);
    assert_eq!(map.len(), 2);

    let names = lookup_midi_functions(&map, &volume_key).expect("volume key is mapped");
    assert_eq!(names.len(), 2);
    assert_eq!(names[0], "volume");
    assert_eq!(names[1], "filter");

    let names = lookup_midi_functions(&map, &filter_key).unwrap();
    assert_eq!(names.len(), 1);
    assert_eq!(names[0], "filter");

    let unmapped = MidiMsgAdvanced::MidiControlIdValue(0xB001, 0);
    assert!(lookup_midi_functions(&map, &unmapped).is_none());
}
