//! The fixed-point oscillator: exact sine values, phase continuity and
//! periodicity.

use oscillator_lib::fixed::FP_ONE;
use oscillator_lib::trig::{cos_fixed, sin_fixed, HALF_TURN, QUARTER_TURN, TURN};
use oscillator_lib::wave_gen::SineWave;

fn test_wave(offset: usize, num_samples: usize) -> SineWave {
    SineWave::new(
        440 * FP_ONE,
        FP_ONE,
        FP_ONE / 2,
        3 * FP_ONE,
        1000,
        5 * FP_ONE,
        7 * FP_ONE,
        2000,
        48000 * FP_ONE,
        num_samples,
        offset,
    )
}

#[test]
fn sine_hits_its_extremes() {
    assert_eq!(sin_fixed(0), 0);
    assert_eq!(sin_fixed(QUARTER_TURN), FP_ONE);
    assert_eq!(sin_fixed(HALF_TURN), 0);
    assert_eq!(sin_fixed(HALF_TURN + QUARTER_TURN), -FP_ONE);
    assert_eq!(cos_fixed(0), FP_ONE);
    assert_eq!(cos_fixed(HALF_TURN), -FP_ONE);
}

#[test]
fn sine_known_value() {
    // One eighth of a circle under the rational approximation.
    assert_eq!(sin_fixed(8192), 23130);
    assert_eq!(sin_fixed(HALF_TURN + 8192), -23130);
}

#[test]
fn sine_stays_in_unit_range() {
    let mut a: i64 = 0;
    while a < TURN {
        let s = sin_fixed(a);
        assert!(-FP_ONE <= s && s <= FP_ONE);
        a += 97;
    }
}

#[test]
fn generator_output_is_phase_continuous() {
    // Two consecutive windows equal one window twice as long.
    let n = 256;
    let first = test_wave(0, n).gen_values().1;
    let second = test_wave(n, n).gen_values().1;
    let whole = test_wave(0, 2 * n).gen_values().1;
    assert_eq!(whole.len(), 2 * n);
    for i in 0..n {
        assert_eq!(first[i], whole[i]);
        assert_eq!(second[i], whole[n + i]);
    }
}

#[test]
fn generator_repeats_after_a_full_turn() {
    let turn = TURN as usize;
    let early = test_wave(5, 64).gen_values().1;
    let late = test_wave(5 + turn, 64).gen_values().1;
    assert_eq!(early, late);
}

#[test]
fn generator_output_is_bounded_by_the_amplitude() {
    let w = test_wave(0, 512);
    let (count, values) = w.gen_values();
    assert_eq!(count, 512);
    assert_eq!(values.len(), 512);
    let mut nonzero = false;
    for v in &values {
        assert!(v.abs() <= FP_ONE);
        if *v != 0 {
            nonzero = true;
        }
    }
    assert!(nonzero);
}
