//! Envelope generation and the frame multiplication routine.

use oscillator_lib::adsr::Adsr;
use oscillator_lib::fixed::FP_ONE;
use oscillator_lib::trigger_note_msg::NoteType;

fn test_adsr() -> Adsr {
    // Fractions 0.1, 0.2, gain 0.3, fraction 0.2 in fixed point.
    Adsr::new(3277, 6554, 9830, 6554)
}

#[test]
fn note_on_envelope_has_requested_length() {
    let adsr = test_adsr();
    let env = adsr.generate_adsr_note_on_envelope(100, 0);
    assert_eq!(env.len(), 100);
}

#[test]
fn note_on_envelope_starts_at_last_value() {
    let adsr = test_adsr();
    let env = adsr.generate_adsr_note_on_envelope(100, 0);
    assert_eq!(env[0], 0);
    let seeded = adsr.generate_adsr_note_on_envelope(100, 5000);
    assert_eq!(seeded[0], 5000);
}

#[test]
fn note_on_envelope_holds_sustain_after_attack_and_decay() {
    let adsr = test_adsr();
    let env = adsr.generate_adsr_note_on_envelope(100, 0);
    // Attack spans 9 samples, decay 19 more; the rest holds 0.3.
    for i in 28..100 {
        assert_eq!(env[i], 9830);
    }
}

#[test]
fn note_on_envelope_exact_ramp_values() {
    let adsr = test_adsr();
    let env = adsr.generate_adsr_note_on_envelope(100, 0);
    assert_eq!(env[1], 3309);
    assert_eq!(env[8], 26477);
    // The decay starts at full scale and ramps toward the sustain.
    assert_eq!(env[9], 32768);
    assert_eq!(env[27], 11917);
}

#[test]
fn note_on_envelope_normalizes_long_attack_decay() {
    // Attack and decay fractions sum above one: they are rescaled to
    // fill the envelope exactly, leaving no held region.
    let adsr = Adsr::new(FP_ONE, FP_ONE, 9830, 6554);
    let env = adsr.generate_adsr_note_on_envelope(10, 0);
    assert_eq!(env.len(), 10);
    assert_eq!(env[0], 0);
    // Sample 9 is the single held sample left by the rounding.
    assert_eq!(env[9], 9830);
}

#[test]
fn full_envelope_walks_all_four_regions() {
    let adsr = test_adsr();
    let env = adsr.generate_adsr_envelope(100);
    assert_eq!(env.len(), 100);
    // Attack: 10 samples ramping up from zero.
    assert_eq!(env[0], 0);
    assert_eq!(env[1], 3276);
    // Decay: 20 samples from full scale down toward 0.3.
    assert_eq!(env[10], 32768);
    assert_eq!(env[29], 10979);
    // Sustain: 29 samples held at 0.3.
    for i in 30..59 {
        assert_eq!(env[i], 9830);
    }
    // Release: a ramp from 0.3 toward zero that wraps every 20 samples.
    assert_eq!(env[59], 9830);
    assert_eq!(env[60], 9339);
    assert_eq!(env[79], 9830);
}

#[test]
fn note_off_envelope_ramps_to_zero() {
    let adsr = test_adsr();
    let env = adsr.generate_adsr_note_off_envelope(100);
    assert_eq!(env.len(), 100);
    assert_eq!(env[0], 9830);
    assert_eq!(env[1], 9339);
    assert_eq!(env[19], 493);
    for i in 20..100 {
        assert_eq!(env[i], 0);
    }
}

#[test]
fn note_off_envelope_is_monotonically_non_increasing() {
    let adsr = test_adsr();
    let env = adsr.generate_adsr_note_off_envelope(977);
    for i in 1..env.len() {
        assert!(env[i - 1] >= env[i]);
    }
    assert_eq!(env[0], 9830);
    assert_eq!(*env.last().unwrap(), 0);
}

#[test]
fn note_on_multiplication_walks_attack_into_decay() {
    let adsr = test_adsr();
    // Attack spans 10 samples, so the frame starting at 8 holds the
    // last two attack samples and then the decay ramp.
    let mut audio = vec![FP_ONE; 8];
    adsr.adsr_note_on_multiplicate(&mut audio, 8, 100, 8);
    assert_eq!(audio, vec![26212, 29489, 32768, 31622, 30475, 29328, 28181, 27034]);
}

#[test]
fn note_on_multiplication_layers_sustain_where_decay_ends() {
    let adsr = test_adsr();
    // Decay ends at sample 30: the first six samples of the frame at 24
    // take the decay ramp and the sustain level on top, the rest wrap
    // around the decay span.
    let mut audio = vec![FP_ONE; 8];
    adsr.adsr_note_on_multiplicate(&mut audio, 24, 100, 8);
    assert_eq!(audio, vec![5013, 4669, 4325, 3981, 3637, 3293, 32768, 31622]);
}

#[test]
fn note_on_multiplication_holds_sustain_past_decay() {
    let adsr = test_adsr();
    let mut audio = vec![FP_ONE; 8];
    adsr.adsr_note_on_multiplicate(&mut audio, 32, 100, 8);
    assert_eq!(audio, vec![9830; 8]);
}

#[test]
fn release_multiplication_ramps_then_silences() {
    let adsr = test_adsr();
    // Release window of 20 samples on a 100-sample note.
    let mut inside = vec![FP_ONE; 8];
    adsr.adsr_note_off_multiplicate(&mut inside, 0, 100, 8);
    assert_eq!(inside[0], 9830);
    assert_eq!(inside[1], 9339);

    let mut boundary = vec![FP_ONE; 8];
    adsr.adsr_note_off_multiplicate(&mut boundary, 16, 100, 8);
    assert_eq!(boundary[3], 493);
    for n in 4..8 {
        assert_eq!(boundary[n], 0);
    }

    let mut past = vec![FP_ONE; 8];
    adsr.adsr_note_off_multiplicate(&mut past, 24, 100, 8);
    assert_eq!(past, vec![0; 8]);
}

#[test]
fn multiply_buf_applies_ramp_then_factor() {
    let adsr = test_adsr();
    let env = adsr.generate_adsr_note_on_envelope(100, 0);
    let mut audio = vec![FP_ONE; 8];
    let mut last: i64 = 0;
    adsr.multiply_buf(&mut audio, &env, 0, 100, 8, NoteType::NoteOn, &mut last, FP_ONE);
    // Full velocity: each sample is multiplied by its envelope entry.
    for n in 0..8 {
        assert_eq!(audio[n], env[n]);
    }
    assert_eq!(last, env[7]);
    assert_eq!(last, 23167);
}

#[test]
fn multiply_buf_boundary_frame_splits_at_the_window_end() {
    let adsr = test_adsr();
    let env = adsr.generate_adsr_note_on_envelope(100, 0);
    // The ramping region spans 30 samples; the frame starting at 24
    // holds its last six samples, then the held sustain factor.
    let mut audio = vec![FP_ONE; 8];
    let mut last: i64 = 0;
    adsr.multiply_buf(&mut audio, &env, 24, 100, 8, NoteType::NoteOn, &mut last, FP_ONE);
    assert_eq!(&audio[0..6], &env[24..30]);
    assert_eq!(&audio[0..4], &[15392, 14234, 13075, 11917]);
    assert_eq!(audio[6], 9830);
    assert_eq!(audio[7], 9830);
    assert_eq!(last, env[29]);
}

#[test]
fn multiply_buf_holds_sustain_factor_past_the_window() {
    let adsr = test_adsr();
    let env = adsr.generate_adsr_note_on_envelope(100, 0);
    let mut audio = vec![FP_ONE; 8];
    let mut last: i64 = 0;
    // Far past attack and decay: every sample takes the sustain level.
    adsr.multiply_buf(&mut audio, &env, 64, 100, 8, NoteType::NoteOn, &mut last, FP_ONE);
    for n in 0..8 {
        assert_eq!(audio[n], 9830);
    }
}

#[test]
fn multiply_buf_clamps_reads_to_the_envelope_end() {
    let adsr = test_adsr();
    // A short (malformed) envelope: reads past its end must clamp.
    let env: Vec<i64> = vec![100, 200, 300];
    let mut audio = vec![FP_ONE; 16];
    let mut last: i64 = 7;
    adsr.multiply_buf(&mut audio, &env, 0, 1000, 16, NoteType::NoteOn, &mut last, FP_ONE);
    assert_eq!(last, 300);
}

#[test]
fn multiply_buf_never_reads_out_of_bounds() {
    // Wild combinations of cursor, nominal length and frame size all
    // complete without panicking and without reading past the envelope.
    let adsr = test_adsr();
    let env = adsr.generate_adsr_note_off_envelope(17);
    let cases: [(usize, usize, usize); 6] = [
        (0, 17, 16),
        (16, 17, 16),
        (536870912, 17, 16),
        (3, 1073741824, 16),
        (15, 40, 7),
        (17, 17, 16),
    ];
    for (startpose, size, frame_size) in cases {
        let mut audio = vec![FP_ONE; 16];
        let mut last: i64 = 0;
        adsr.multiply_buf(
            &mut audio,
            &env,
            startpose,
            size,
            frame_size,
            NoteType::NoteOff,
            &mut last,
            FP_ONE,
        );
        for n in 0..frame_size {
            assert!(audio[n].abs() <= FP_ONE);
        }
    }
}

#[test]
fn multiply_buf_with_empty_envelope_leaves_sustain_value_alone() {
    let adsr = test_adsr();
    let env: Vec<i64> = Vec::new();
    let mut audio = vec![FP_ONE; 4];
    let mut last: i64 = 4242;
    adsr.multiply_buf(&mut audio, &env, 0, 100, 4, NoteType::NoteOff, &mut last, FP_ONE);
    assert_eq!(last, 4242);
    // A note-off past its window silences the frame.
    for n in 0..4 {
        assert_eq!(audio[n], 0);
    }
}

#[test]
fn multiply_buf_scales_by_velocity() {
    let adsr = test_adsr();
    let env = adsr.generate_adsr_note_on_envelope(100, 0);
    let mut audio = vec![FP_ONE; 4];
    let mut last: i64 = 0;
    // Half velocity on held sustain samples: 0.5 * 0.3 of full scale.
    adsr.multiply_buf(&mut audio, &env, 64, 100, 4, NoteType::NoteOn, &mut last, FP_ONE / 2);
    for n in 0..4 {
        assert_eq!(audio[n], (FP_ONE / 2) * 9830 / FP_ONE);
    }
}
