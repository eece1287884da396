use artcode_bass::params::{
    arp_octave_span, is_steep_slope, is_switch_on, steps_per_beat, unison_voices, DriveShape,
    FilterTap, LfoTarget, Waveform,
};

#[test]
fn waveform_selector() {
    assert_eq!(Waveform::from_index(0), Waveform::Sine);
    assert_eq!(Waveform::from_index(1), Waveform::Saw);
    assert_eq!(Waveform::from_index(2), Waveform::Square);
    assert_eq!(Waveform::from_index(3), Waveform::Triangle);
    assert_eq!(Waveform::from_index(9), Waveform::Triangle);
}

#[test]
fn drive_selector() {
    assert_eq!(DriveShape::from_index(0), DriveShape::Soft);
    assert_eq!(DriveShape::from_index(1), DriveShape::Hard);
    assert_eq!(DriveShape::from_index(2), DriveShape::Tube);
    assert_eq!(DriveShape::from_index(3), DriveShape::Fuzz);
}

#[test]
fn filter_selectors() {
    assert_eq!(FilterTap::from_index(0), FilterTap::LowPass);
    assert_eq!(FilterTap::from_index(1), FilterTap::HighPass);
    assert_eq!(FilterTap::from_index(2), FilterTap::BandPass);
    assert!(is_steep_slope(1));
    assert!(!is_steep_slope(0));
}

#[test]
fn lfo_target_selector() {
    assert_eq!(LfoTarget::from_index(0), LfoTarget::Pitch);
    assert_eq!(LfoTarget::from_index(1), LfoTarget::Cutoff);
    assert_eq!(LfoTarget::from_index(2), LfoTarget::Amplitude);
    assert_eq!(LfoTarget::from_index(3), LfoTarget::Off);
}

#[test]
fn arp_rate_selector() {
    assert_eq!(steps_per_beat(0), 1);
    assert_eq!(steps_per_beat(1), 2);
    assert_eq!(steps_per_beat(2), 4);
    assert_eq!(steps_per_beat(3), 8);
    // an eighth-note step at 120 BPM lasts a quarter of a second
    assert_eq!(60.0f32 / 120.0 / steps_per_beat(1) as f32, 0.25);
}

#[test]
fn arp_switch_and_octaves() {
    assert!(is_switch_on(1));
    assert!(!is_switch_on(0));
    assert_eq!(arp_octave_span(0), 1);
    assert_eq!(arp_octave_span(3), 4);
    assert_eq!(arp_octave_span(7), 4);
    assert_eq!(arp_octave_span(-2), 1);
}

#[test]
fn unison_count_is_clamped() {
    assert_eq!(unison_voices(4), 4);
    assert_eq!(unison_voices(0), 1);
    assert_eq!(unison_voices(8), 8);
    assert_eq!(unison_voices(12), 8);
}
