//! Voice management end to end: trigger, mix, hand off, release, reap,
//! and the multiplicative normalization.

use oscillator_lib::adsr::Adsr;
use oscillator_lib::ctrl_msg::CtrlMsg;
use oscillator_lib::fixed::FP_ONE;
use oscillator_lib::tone_handling::ToneHandling;
use oscillator_lib::trigger_note_msg::{NoteType, TriggerNoteMsg};

const FRAME: usize = 1024;
const FREQ_A4: i64 = 440 * FP_ONE;

fn test_ctrl() -> CtrlMsg {
    CtrlMsg {
        size: 0,
        intensity_am: 0,
        freq_am: 0,
        phase_am: 0,
        intensity_fm: 0,
        freq_fm: 0,
        phase_fm: 0,
        num_samples: FRAME,
        volume: FP_ONE,
        effect_params: None,
    }
}

fn demo_adsr() -> Adsr {
    Adsr::new(3277, 6554, 9830, 6554)
}

fn note_on(freq: i64) -> TriggerNoteMsg {
    TriggerNoteMsg { note_type: NoteType::NoteOn, freq, velocity: FP_ONE, length: 96000 }
}

fn note_off(freq: i64) -> TriggerNoteMsg {
    TriggerNoteMsg { note_type: NoteType::NoteOff, freq, velocity: FP_ONE, length: 96000 }
}

fn mix(th: &mut ToneHandling, ctrl: &CtrlMsg) -> (Vec<i64>, Vec<i64>, Vec<i64>, Vec<i64>) {
    let mut out_l = vec![0i64; FRAME];
    let mut out_r = vec![0i64; FRAME];
    let mut mul_l = vec![FP_ONE; FRAME];
    let mut mul_r = vec![FP_ONE; FRAME];
    th.process_tones(ctrl, &mut out_l, &mut out_r, &mut mul_l, &mut mul_r, FRAME);
    (out_l, out_r, mul_l, mul_r)
}

#[test]
fn voice_table_keeps_one_voice_per_frequency() {
    let mut th = ToneHandling::new();
    for _ in 0..5 {
        th.add_note_msg(note_on(FREQ_A4), demo_adsr(), FRAME);
        th.add_note_msg(note_off(FREQ_A4), demo_adsr(), FRAME);
    }
    assert_eq!(th.tone_map.len(), 1);
    // Two frequencies that truncate to the same whole hertz collide.
    th.add_note_msg(note_on(FREQ_A4 + 100), demo_adsr(), FRAME);
    th.add_note_msg(note_on(FREQ_A4 + 30000), demo_adsr(), FRAME);
    assert_eq!(th.tone_map.len(), 1);
    // A different whole hertz gets its own voice.
    th.add_note_msg(note_on(441 * FP_ONE), demo_adsr(), FRAME);
    assert_eq!(th.tone_map.len(), 2);
}

#[test]
fn first_mix_call_is_audible_bounded_and_advances_the_cursor() {
    let mut th = ToneHandling::new();
    th.add_note_msg(note_on(FREQ_A4), demo_adsr(), FRAME);
    let ctrl = test_ctrl();
    let (out_l, out_r, _, _) = mix(&mut th, &ctrl);

    let mut nonzero = false;
    for i in 0..FRAME {
        assert!(out_l[i].abs() <= FP_ONE);
        assert_eq!(out_l[i], out_r[i]);
        if out_l[i] != 0 {
            nonzero = true;
        }
    }
    assert!(nonzero);

    let tone = th.tone_map.get(FREQ_A4).expect("voice should still sound");
    assert_eq!(tone.start_pose, FRAME);
}

#[test]
fn note_off_releases_from_the_recorded_sustain_value() {
    let mut th = ToneHandling::new();
    th.add_note_msg(note_on(FREQ_A4), demo_adsr(), FRAME);
    let ctrl = test_ctrl();
    let _ = mix(&mut th, &ctrl);

    let recorded = th.tone_map.get(FREQ_A4).unwrap().last_sustain_value_a;
    assert!(recorded > 0);
    assert_ne!(recorded, 9830);

    th.add_note_msg(note_off(FREQ_A4), demo_adsr(), FRAME);
    let tone = th.tone_map.get(FREQ_A4).unwrap();
    assert_eq!(tone.note_type, NoteType::NoteOff);
    // The release starts from the gain actually reached, not from the
    // nominal sustain level.
    assert_eq!(tone.adsr_envelope.ts, recorded);
}

#[test]
fn released_voice_is_reaped_after_its_window() {
    let mut th = ToneHandling::new();
    th.add_note_msg(note_on(FREQ_A4), demo_adsr(), FRAME);
    let ctrl = test_ctrl();
    let _ = mix(&mut th, &ctrl);
    th.add_note_msg(note_off(FREQ_A4), demo_adsr(), FRAME);

    // Release window: 0.2 * 96000 samples, about 19 frames of 1024.
    let mut gone_after = None;
    for pass in 0..30 {
        if th.tone_map.get(FREQ_A4).is_none() {
            gone_after = Some(pass);
            break;
        }
        let _ = mix(&mut th, &ctrl);
    }
    let gone_after = gone_after.expect("voice should be reaped");
    assert!(gone_after >= 19, "reaped too early: {gone_after}");
    assert!(gone_after <= 22, "reaped too late: {gone_after}");
    assert!(th.tone_map.is_empty());
}

#[test]
fn normalization_subtracts_zero_for_a_single_voice() {
    let mut th = ToneHandling::new();
    th.add_note_msg(note_on(FREQ_A4), demo_adsr(), FRAME);
    let ctrl = test_ctrl();
    let (mut out_l, mut out_r, mut mul_l, mut mul_r) = mix(&mut th, &ctrl);
    let before_l = out_l.clone();
    let before_r = out_r.clone();
    th.normalize_out(&mut out_l, &mut out_r, &mut mul_l, &mut mul_r, FRAME);
    assert_eq!(out_l, before_l);
    assert_eq!(out_r, before_r);
}

#[test]
fn normalization_subtracts_the_cross_talk_for_two_voices() {
    let mut th = ToneHandling::new();
    th.add_note_msg(note_on(FREQ_A4), demo_adsr(), FRAME);
    th.add_note_msg(note_on(660 * FP_ONE), demo_adsr(), FRAME);
    let ctrl = test_ctrl();
    let (mut out_l, mut out_r, mut mul_l, mut mul_r) = mix(&mut th, &ctrl);
    let raw_l = out_l.clone();
    let raw_r = out_r.clone();
    let m_l = mul_l.clone();
    let m_r = mul_r.clone();
    th.normalize_out(&mut out_l, &mut out_r, &mut mul_l, &mut mul_r, FRAME);
    // With two voices the correction removes exactly one excess factor.
    for i in 0..FRAME {
        assert_eq!(out_l[i], raw_l[i] - m_l[i]);
        assert_eq!(out_r[i], raw_r[i] - m_r[i]);
    }
}

#[test]
fn modulated_mix_stays_bounded() {
    let mut th = ToneHandling::new();
    th.add_note_msg(note_on(FREQ_A4), demo_adsr(), FRAME);
    th.add_note_msg(note_on(660 * FP_ONE), demo_adsr(), FRAME);
    let ctrl = CtrlMsg {
        size: 0,
        intensity_am: FP_ONE / 2,
        freq_am: 5 * FP_ONE,
        phase_am: 1000,
        intensity_fm: 3 * FP_ONE,
        freq_fm: 7 * FP_ONE,
        phase_fm: 2000,
        num_samples: FRAME,
        volume: FP_ONE,
        effect_params: None,
    };
    for _ in 0..4 {
        let (out_l, _, mul_l, mul_r) = mix(&mut th, &ctrl);
        for i in 0..FRAME {
            assert!(out_l[i].abs() <= 2 * FP_ONE);
            assert!(mul_l[i].abs() <= FP_ONE);
            assert!(mul_r[i].abs() <= FP_ONE);
        }
    }
}

#[test]
fn single_sample_frames_mix_too() {
    let mut th = ToneHandling::new();
    th.add_note_msg(note_on(FREQ_A4), demo_adsr(), 1);
    let ctrl = CtrlMsg { num_samples: 1, ..test_ctrl() };
    let mut out_l = vec![0i64; 1];
    let mut out_r = vec![0i64; 1];
    let mut mul_l = vec![FP_ONE; 1];
    let mut mul_r = vec![FP_ONE; 1];
    for _ in 0..3 {
        th.process_tones(&ctrl, &mut out_l, &mut out_r, &mut mul_l, &mut mul_r, 1);
    }
    let tone = th.tone_map.get(FREQ_A4).unwrap();
    assert_eq!(tone.start_pose, 3);
}

#[test]
fn retrigger_carries_the_oscillator_phase_forward() {
    let mut th = ToneHandling::new();
    th.add_note_msg(note_on(FREQ_A4), demo_adsr(), FRAME);
    let ctrl = test_ctrl();
    let _ = mix(&mut th, &ctrl);
    let offset_before = th.tone_map.get(FREQ_A4).unwrap().sine_wave_generator.offset;
    assert_eq!(offset_before, FRAME);
    th.add_note_msg(note_on(FREQ_A4), demo_adsr(), FRAME);
    let offset_after = th.tone_map.get(FREQ_A4).unwrap().sine_wave_generator.offset;
    assert_eq!(offset_after, offset_before);
}
