//! A small polyphonic software synthesizer core.
//!
//! Audio is represented in fixed-point: a gain or sample value of
//! `fixed::FP_ONE` stands for 1.0.  The crate covers the voice table and
//! its envelope/mixing pass, the sine oscillator with amplitude and
//! frequency modulation, ADSR envelope generation, MIDI message
//! classification, and the mapping from MIDI events to note triggers.

pub mod adsr;
pub mod ctrl_msg;
pub mod fixed;
pub mod jackaudio;
pub mod jackmidi;
pub mod midi_functions;
pub mod midi_process;
pub mod overdrive;
pub mod tone;
pub mod tone_handling;
pub mod tone_map;
pub mod trig;
pub mod trigger_note_msg;
pub mod util;
pub mod wave_gen;
