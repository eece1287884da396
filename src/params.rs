use vstd::prelude::*;

use crate::arp::MAX_ARP_OCTAVES;

verus! {

/// Most detuned copies of an oscillator.
pub const MAX_UNISON: usize = 8;

/// Oscillator and LFO waveform.
#[derive(Clone, Copy, Debug, PartialEq, Eq, Structural)]
pub enum Waveform {
    Sine,
    Saw,
    Square,
    Triangle,
}

/// Waveform selector: 0 sine, 1 sawtooth, 2 square, anything else triangle.
pub open spec fn waveform_of(i: i32) -> Waveform {
    if i == 0 {
        Waveform::Sine
    } else if i == 1 {
        Waveform::Saw
    } else if i == 2 {
        Waveform::Square
    } else {
        Waveform::Triangle
    }
}

impl Waveform {
    pub fn from_index(i: i32) -> (r: Waveform)
        ensures
            r == waveform_of(i),
    {
        match i {
            0 => Waveform::Sine,
            1 => Waveform::Saw,
            2 => Waveform::Square,
            _ => Waveform::Triangle,
        }
    }
}

/// Curve of the drive stage.
#[derive(Clone, Copy, Debug, PartialEq, Eq, Structural)]
pub enum DriveShape {
    Soft,
    Hard,
    Tube,
    Fuzz,
}

/// Drive selector: 0 soft, 1 hard clip, 2 tube, anything else fuzz.
pub open spec fn drive_shape_of(i: i32) -> DriveShape {
    if i == 0 {
        DriveShape::Soft
    } else if i == 1 {
        DriveShape::Hard
    } else if i == 2 {
        DriveShape::Tube
    } else {
        DriveShape::Fuzz
    }
}

impl DriveShape {
    pub fn from_index(i: i32) -> (r: DriveShape)
        ensures
            r == drive_shape_of(i),
    {
        match i {
            0 => DriveShape::Soft,
            1 => DriveShape::Hard,
            2 => DriveShape::Tube,
            _ => DriveShape::Fuzz,
        }
    }
}

/// Output tap of the state-variable filter.
#[derive(Clone, Copy, Debug, PartialEq, Eq, Structural)]
pub enum FilterTap {
    LowPass,
    HighPass,
    BandPass,
}

/// Filter type selector: 0 low-pass, 1 high-pass, anything else band-pass.
pub open spec fn filter_tap_of(i: i32) -> FilterTap {
    if i == 0 {
        FilterTap::LowPass
    } else if i == 1 {
        FilterTap::HighPass
    } else {
        FilterTap::BandPass
    }
}

impl FilterTap {
    pub fn from_index(i: i32) -> (r: FilterTap)
        ensures
            r == filter_tap_of(i),
    {
        match i {
            0 => FilterTap::LowPass,
            1 => FilterTap::HighPass,
            _ => FilterTap::BandPass,
        }
    }
}

/// What the LFO modulates; `Off` leaves everything unmodulated.
#[derive(Clone, Copy, Debug, PartialEq, Eq, Structural)]
pub enum LfoTarget {
    Pitch,
    Cutoff,
    Amplitude,
    Off,
}

/// LFO target selector: 0 pitch, 1 filter cutoff, 2 amplitude, anything
/// else none.
pub open spec fn lfo_target_of(i: i32) -> LfoTarget {
    if i == 0 {
        LfoTarget::Pitch
    } else if i == 1 {
        LfoTarget::Cutoff
    } else if i == 2 {
        LfoTarget::Amplitude
    } else {
        LfoTarget::Off
    }
}

impl LfoTarget {
    pub fn from_index(i: i32) -> (r: LfoTarget)
        ensures
            r == lfo_target_of(i),
    {
        match i {
            0 => LfoTarget::Pitch,
            1 => LfoTarget::Cutoff,
            2 => LfoTarget::Amplitude,
            _ => LfoTarget::Off,
        }
    }
}

/// Whether the filter slope selector picks the cascaded 24 dB mode.
pub fn is_steep_slope(i: i32) -> (r: bool)
    ensures
        r == (i == 1),
{
    i == 1
}

/// Whether the arpeggiator switch is on.
pub fn is_switch_on(i: i32) -> (r: bool)
    ensures
        r == (i == 1),
{
    i == 1
}

/// Arpeggio steps per beat for the rate selector: quarter notes (1),
/// eighths (2), sixteenths (4), and anything else thirty-seconds (8). A step
/// lasts `60 / (bpm * steps)` seconds.
pub fn steps_per_beat(rate: i32) -> (r: u32)
    ensures
        r == if rate == 0 {
            1u32
        } else if rate == 1 {
            2u32
        } else if rate == 2 {
            4u32
        } else {
            8u32
        },
{
    match rate {
        0 => 1,
        1 => 2,
        2 => 4,
        _ => 8,
    }
}

/// Octaves an arpeggio spans for the octave selector (0 to 3 extra octaves),
/// out-of-range selectors clamped.
pub fn arp_octave_span(extra: i32) -> (r: i32)
    ensures
        1 <= r <= MAX_ARP_OCTAVES,
        r as int == if extra < 0 {
            1
        } else if extra >= MAX_ARP_OCTAVES {
            MAX_ARP_OCTAVES as int
        } else {
            extra + 1
        },
{
    if extra < 0 {
        1
    } else if extra >= MAX_ARP_OCTAVES as i32 {
        MAX_ARP_OCTAVES as i32
    } else {
        extra + 1
    }
}

/// Number of unison copies for the unison selector, clamped to 1 to 8.
pub fn unison_voices(n: i32) -> (r: usize)
    ensures
        1 <= r <= MAX_UNISON,
        r == if n < 1 {
            1
        } else if n > MAX_UNISON {
            MAX_UNISON as int
        } else {
            n as int
        },
{
    if n < 1 {
        1
    } else if n > MAX_UNISON as i32 {
        MAX_UNISON
    } else {
        n as usize
    }
}

} // verus!
