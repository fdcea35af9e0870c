//! The voice table: keyed insertion, truncated-frequency collisions,
//! removal and lookup.

use oscillator_lib::adsr::Adsr;
use oscillator_lib::fixed::FP_ONE;
use oscillator_lib::jackaudio::SineWaveGenerator;
use oscillator_lib::tone::Tone;
use oscillator_lib::tone_map::ToneMap;
use oscillator_lib::trigger_note_msg::NoteType;

fn test_tone(freq: i64) -> Tone {
    Tone {
        playing: true,
        length: 96000,
        note_type: NoteType::NoteOn,
        freq,
        velocity: 29491,
        start_pose: 0,
        adsr_envelope: Adsr::new(3277, 6554, 9830, 6554),
        envelope: None,
        last_sustain_value_a: 9830,
        last_sustain_value_b: 9830,
        sine_wave_generator: SineWaveGenerator::new(1024, 48000 * FP_ONE),
    }
}

#[test]
fn insert_and_get_by_truncated_frequency() {
    let mut map = ToneMap::new();
    assert!(map.is_empty());
    map.insert(440 * FP_ONE, test_tone(440 * FP_ONE));
    assert_eq!(map.len(), 1);
    // Any frequency that truncates to 440 whole hertz finds the voice.
    assert!(map.get(440 * FP_ONE + 17).is_some());
    assert!(map.get(441 * FP_ONE).is_none());
}

#[test]
fn colliding_frequencies_share_one_slot() {
    let mut map = ToneMap::new();
    map.insert(440 * FP_ONE + 100, test_tone(440 * FP_ONE + 100));
    map.insert(440 * FP_ONE + 30000, test_tone(440 * FP_ONE + 30000));
    assert_eq!(map.len(), 1);
    // The later insertion replaced the earlier voice outright.
    let stored = map.get(440 * FP_ONE).unwrap();
    assert_eq!(stored.freq, 440 * FP_ONE + 30000);
}

#[test]
fn remove_only_drops_the_matching_key() {
    let mut map = ToneMap::new();
    map.insert(440 * FP_ONE, test_tone(440 * FP_ONE));
    map.insert(523 * FP_ONE, test_tone(523 * FP_ONE));
    assert_eq!(map.len(), 2);
    map.remove(440 * FP_ONE);
    assert_eq!(map.len(), 1);
    assert!(map.get(440 * FP_ONE).is_none());
    assert!(map.get(523 * FP_ONE).is_some());
    // Removing an absent key changes nothing.
    map.remove(440 * FP_ONE);
    assert_eq!(map.len(), 1);
}

#[test]
fn negative_frequencies_collapse_to_key_zero() {
    let mut map = ToneMap::new();
    map.insert(-5 * FP_ONE, test_tone(100));
    assert!(map.get(-1).is_some());
    assert!(map.get(0).is_some());
    assert_eq!(map.len(), 1);
}
