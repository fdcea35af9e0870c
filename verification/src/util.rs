//! Small helpers for packing and unpacking MIDI bytes, and the pitch
//! of a MIDI note number.

use vstd::prelude::*;
use crate::fixed::FP_ONE;

verus! {

/// The fixed-point frequency of each note of the middle octave
/// (MIDI notes 60 through 71), in equal temperament around A = 440 Hz.
pub open spec fn semitone_freq_fp(semi: int) -> int {
    if semi == 0 {
        8572947
    } else if semi == 1 {
        9082720
    } else if semi == 2 {
        9622807
    } else if semi == 3 {
        10195009
    } else if semi == 4 {
        10801236
    } else if semi == 5 {
        11443511
    } else if semi == 6 {
        12123977
    } else if semi == 7 {
        12844906
    } else if semi == 8 {
        13608704
    } else if semi == 9 {
        14417920
    } else if semi == 10 {
        15275254
    } else {
        16183568
    }
}

/// The fixed-point frequency of a MIDI note: its middle-octave pitch
/// halved or doubled once per octave of distance.
pub open spec fn note_freq_fp(note: int) -> int {
    let octave = note / 12;
    let base = semitone_freq_fp(note % 12);
    if octave == 0 {
        base / 32
    } else if octave == 1 {
        base / 16
    } else if octave == 2 {
        base / 8
    } else if octave == 3 {
        base / 4
    } else if octave == 4 {
        base / 2
    } else if octave == 5 {
        base
    } else if octave == 6 {
        base * 2
    } else if octave == 7 {
        base * 4
    } else if octave == 8 {
        base * 8
    } else if octave == 9 {
        base * 16
    } else {
        base * 32
    }
}

/// The fixed-point frequency a MIDI note number sounds at.
pub fn to_freq_fixed(note: u8) -> (r: i64)
    ensures
        r == note_freq_fp(note as int),
        0 < r <= 0x4000_0000,
        r <= 16183568 * 32,
{
    let semi = note % 12;
    let octave = note / 12;
    let base: i64 = if semi == 0 {
        8572947
    } else if semi == 1 {
        9082720
    } else if semi == 2 {
        9622807
    } else if semi == 3 {
        10195009
    } else if semi == 4 {
        10801236
    } else if semi == 5 {
        11443511
    } else if semi == 6 {
        12123977
    } else if semi == 7 {
        12844906
    } else if semi == 8 {
        13608704
    } else if semi == 9 {
        14417920
    } else if semi == 10 {
        15275254
    } else {
        16183568
    };
    if octave == 0 {
        base / 32
    } else if octave == 1 {
        base / 16
    } else if octave == 2 {
        base / 8
    } else if octave == 3 {
        base / 4
    } else if octave == 4 {
        base / 2
    } else if octave == 5 {
        base
    } else if octave == 6 {
        base * 2
    } else if octave == 7 {
        base * 4
    } else if octave == 8 {
        base * 8
    } else if octave == 9 {
        base * 16
    } else {
        base * 32
    }
}

/// Keep the low 7 bits of a byte, the payload range of a MIDI data byte.
#[inline(always)]
pub fn mask7(input: u8) -> (r: u8)
    ensures
        r == input % 128,
{
    proof {
        assert(input & 0b0111_1111 == input % 128) by (bit_vector);
    }
    input & 0b0111_1111
}

/// Keep the low 14 bits of a word, the payload range of a two-byte value.
#[inline(always)]
pub fn mask14(input: u16) -> (r: u16)
    ensures
        r == input % 16384,
{
    proof {
        assert(input & 0b0011_1111_1111_1111 == input % 16384) by (bit_vector);
    }
    input & 0b0011_1111_1111_1111
}

/// Split a 14-bit value into its most and least significant 7-bit halves.
#[inline]
pub fn u14_to_msb_lsb(input: u16) -> (r: (u8, u8))
    ensures
        r.0 == (input / 128) % 128,
        r.1 == input % 128,
{
    proof {
        assert((input >> 7) as u8 % 128 == (input / 128) % 128) by (bit_vector);
        assert(input as u8 % 128 == input % 128) by (bit_vector);
    }
    let msb = mask7((input >> 7) as u8);
    let lsb = mask7(input as u8);
    (msb, lsb)
}

/// Combine an MSB and an LSB, each masked to 7 bits, into a 14-bit value.
#[inline]
pub fn msb_lsb_to_u14(msb: u8, lsb: u8) -> (r: u16)
    ensures
        r == (msb % 128) * 128 + lsb % 128,
{
    proof {
        let m = msb % 128;
        assert(((msb % 128) as u16) << 7 == (msb % 128) * 128) by (bit_vector);
    }
    ((mask7(msb) as u16) << 7) + mask7(lsb) as u16
}

/// Build the MIDI status byte from a status nibble and a channel number.
#[inline(always)]
pub fn status_byte(status: u8, channel: u8) -> (r: u8)
    requires
        channel < 16,
    ensures
        r == (status % 16) * 16 + channel,
{
    proof {
        assert(status & 0b0000_1111 == status % 16) by (bit_vector);
    }
    (status & 0b0000_1111) * 16 + channel
}

/// Split a MIDI status byte into its status nibble and channel number.
#[inline]
pub fn from_status_byte(sb: u8) -> (r: (u8, u8))
    ensures
        r.0 == sb / 16,
        r.1 == sb % 16,
        r.0 < 16 && r.1 < 16,
{
    proof {
        assert((sb & 0b1111_0000) >> 4 == sb / 16) by (bit_vector);
        assert(sb & 0b0000_1111 == sb % 16) by (bit_vector);
    }
    let status = (sb & 0b1111_0000) >> 4;
    let channel = sb & 0b0000_1111;
    (status, channel)
}

} // verus!
