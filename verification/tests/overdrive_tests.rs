//! The overdrive soft clipper.

use oscillator_lib::fixed::FP_ONE;
use oscillator_lib::overdrive::{softclip_symetrical, softclip_unsymetrical, Overdrive, GAIN_LIMIT};

#[test]
fn gain_is_clamped_into_range() {
    let mut od = Overdrive::new();
    od.set_gain(-5);
    assert_eq!(od.gain, 0);
    od.set_gain(GAIN_LIMIT + 1);
    assert_eq!(od.gain, GAIN_LIMIT);
    od.set_gain(FP_ONE);
    assert_eq!(od.gain, FP_ONE);
}

#[test]
fn softclip_regions_at_unit_gain() {
    // Below one third: doubled.  0.1 -> 0.2.
    assert_eq!(softclip_symetrical(3276, FP_ONE), 6552);
    // In the knee: 0.5 maps just below 1.
    assert_eq!(softclip_symetrical(FP_ONE / 2, FP_ONE), 30037);
    // Above two thirds: hard at one.
    assert_eq!(softclip_symetrical(FP_ONE, FP_ONE), FP_ONE);
    // The symmetrical flavour restores the sign.
    assert_eq!(softclip_symetrical(-3276, FP_ONE), -6552);
    assert_eq!(softclip_symetrical(-FP_ONE, FP_ONE), -FP_ONE);
    // The unsymmetrical flavour keeps magnitudes positive.
    assert_eq!(softclip_unsymetrical(-3276, FP_ONE), 6552);
}

#[test]
fn bypass_copies_the_input() {
    let mut od = Overdrive::new();
    od.set_gain(2 * FP_ONE);
    od.bypass();
    assert!(od.bypassing);
    let input = vec![1, -2, 300, -40000];
    let mut output = vec![0i64; 4];
    od.process_channel(&input, &mut output);
    assert_eq!(output, input);
}

#[test]
fn symmetrical_channel_clips_pointwise() {
    let mut od = Overdrive::new();
    od.set_gain(FP_ONE);
    let input = vec![3276, FP_ONE / 2, FP_ONE, -3276];
    let mut output = vec![0i64; 4];
    od.process_channel(&input, &mut output);
    assert_eq!(output, vec![6552, 30037, FP_ONE, -6552]);
}

#[test]
fn unsymmetrical_channel_removes_the_mean() {
    let mut od = Overdrive::new();
    od.set_gain(FP_ONE);
    od.unset_symetrical();
    let input = vec![3276, -3276];
    let mut output = vec![0i64; 2];
    od.process_channel(&input, &mut output);
    // Both samples clip to 6552; the mean 6552 is removed from each.
    assert_eq!(output, vec![0, 0]);
}
