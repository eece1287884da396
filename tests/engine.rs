use artcode_bass::engine::{delay_length, ArtcodeBass, MAX_DELAY_SAMPLES, RNG_SEED};
use artcode_bass::envelope::EnvStage;
use artcode_bass::rng::xorshift32;
use artcode_bass::voices::MAX_VOICES;

fn vel(v: f32) -> u32 {
    v.to_bits()
}

#[test]
fn xorshift_known_values() {
    let mut s: u32 = 1;
    assert_eq!(xorshift32(&mut s), 270369);
    assert_eq!(s, 270369);
    let mut s: u32 = 12345;
    assert_eq!(xorshift32(&mut s), 3336926330);
    assert_eq!(xorshift32(&mut s), 1697253807);
}

#[test]
fn simple_random_runs_from_the_seed() {
    let mut e = ArtcodeBass::new();
    assert_eq!(e.rng_state(), RNG_SEED);
    assert_eq!(e.simple_random(), 3336926330);
    assert_eq!(e.simple_random(), 1697253807);
    assert_eq!(e.rng_state(), 1697253807);
}

#[test]
fn default_engine_is_fresh() {
    let e = ArtcodeBass::default();
    assert_eq!(e.rng_state(), RNG_SEED);
    assert_eq!(e.active_voices(), 0);
    assert_eq!(e.arp_note_count(), 0);
    assert_eq!(e.arp_playing_note(), None);
}

#[test]
fn direct_note_on_and_off() {
    let mut e = ArtcodeBass::new();
    assert_eq!(e.handle_note_on(60, vel(1.0), false), Some(0));
    assert_eq!(e.voice(0).note, 60);
    assert_eq!(e.handle_note_off(60, false), 1);
    assert_eq!(e.voice(0).stage, EnvStage::Release);
    assert_eq!(e.arp_note_count(), 0);
}

#[test]
fn seventeen_note_ons_keep_sixteen_voices() {
    let mut e = ArtcodeBass::new();
    for k in 0..16u8 {
        assert_eq!(e.note_on_voice(30 + k, vel(1.0)), k as usize);
    }
    assert_eq!(e.note_on_voice(99, vel(1.0)), 0);
    assert_eq!(e.active_voices(), MAX_VOICES);
    assert_eq!(e.voice(0).note, 99);
    assert_eq!(e.voice(1).note, 31);
}

#[test]
fn arp_note_on_sounds_only_the_first() {
    let mut e = ArtcodeBass::new();
    assert_eq!(e.handle_note_on(60, vel(1.0), true), Some(0));
    assert_eq!(e.arp_playing_note(), Some(60));
    assert_eq!(e.handle_note_on(64, vel(1.0), true), None);
    assert_eq!(e.handle_note_on(67, vel(1.0), true), None);
    assert_eq!(e.arp_note_count(), 3);
    assert_eq!(e.active_voices(), 1);
}

#[test]
fn arp_steps_release_and_start() {
    let mut e = ArtcodeBass::new();
    e.handle_note_on(60, vel(1.0), true);
    e.handle_note_on(64, vel(1.0), true);
    e.handle_note_on(67, vel(1.0), true);
    let mut played = Vec::new();
    for _ in 0..4 {
        let step = e.arp_step(0, 1);
        let slot = step.started.unwrap();
        played.push(e.voice(slot).note);
        assert_eq!(e.arp_playing_note(), Some(e.voice(slot).note));
    }
    assert_eq!(played, vec![60, 64, 67, 60]);
}

#[test]
fn arp_step_reports_released_slot() {
    let mut e = ArtcodeBass::new();
    e.handle_note_on(60, vel(1.0), true);
    e.handle_note_on(64, vel(1.0), true);
    let step = e.arp_step(0, 1);
    assert_eq!(step.released, 1);
    assert_eq!(step.started, Some(1));
    assert_eq!(e.voice(0).stage, EnvStage::Release);
    assert_eq!(e.voice(1).note, 60);
    let step = e.arp_step(0, 1);
    assert_eq!(step.released, 0b10);
    assert_eq!(step.started, Some(2));
    assert_eq!(e.voice(2).note, 64);
}

#[test]
fn arp_up_down_through_the_engine() {
    let mut e = ArtcodeBass::new();
    e.arp_add_note(60, vel(1.0));
    e.arp_add_note(64, vel(1.0));
    e.arp_add_note(67, vel(1.0));
    let notes: Vec<u8> = (0..6).map(|_| e.arp_next_note(2, 1).unwrap().0).collect();
    assert_eq!(notes, vec![60, 64, 67, 64, 60, 64]);
}

#[test]
fn arp_random_draws_from_the_generator() {
    let mut e = ArtcodeBass::new();
    e.arp_add_note(60, vel(1.0));
    e.arp_add_note(64, vel(1.0));
    e.arp_add_note(67, vel(1.0));
    let notes: Vec<u8> = (0..5).map(|_| e.arp_next_note(3, 1).unwrap().0).collect();
    assert_eq!(notes, vec![67, 60, 64, 67, 67]);
    let mut f = ArtcodeBass::new();
    f.arp_add_note(60, vel(1.0));
    f.arp_add_note(64, vel(1.0));
    f.arp_add_note(67, vel(1.0));
    let notes: Vec<u8> = (0..5).map(|_| f.arp_next_note(3, 2).unwrap().0).collect();
    assert_eq!(notes, vec![67, 72, 76, 67, 79]);
}

#[test]
fn arp_other_modes_leave_the_generator_alone() {
    let mut e = ArtcodeBass::new();
    e.arp_add_note(60, vel(1.0));
    e.arp_next_note(0, 1);
    e.arp_next_note(1, 1);
    e.arp_next_note(2, 1);
    assert_eq!(e.rng_state(), RNG_SEED);
    let mut empty = ArtcodeBass::new();
    assert_eq!(empty.arp_next_note(3, 1), None);
    assert_eq!(empty.rng_state(), RNG_SEED);
}

#[test]
fn releasing_last_arp_note_silences_it() {
    let mut e = ArtcodeBass::new();
    e.handle_note_on(60, vel(1.0), true);
    e.handle_note_on(64, vel(1.0), true);
    assert_eq!(e.handle_note_off(60, true), 0);
    assert_eq!(e.arp_playing_note(), Some(60));
    assert_eq!(e.handle_note_off(64, true), 1);
    assert_eq!(e.arp_playing_note(), None);
    assert_eq!(e.voice(0).stage, EnvStage::Release);
}

#[test]
fn arp_remove_resets_cursor() {
    let mut e = ArtcodeBass::new();
    e.arp_add_note(60, vel(1.0));
    e.arp_add_note(64, vel(1.0));
    e.arp_next_note(0, 1);
    assert_eq!(e.arp_index(), 1);
    e.arp_remove_note(60);
    assert_eq!(e.arp_index(), 0);
}

#[test]
fn delay_cursor_wraps() {
    let mut e = ArtcodeBass::new();
    assert_eq!(e.advance_delay(10), (MAX_DELAY_SAMPLES - 10, 0));
    assert_eq!(e.advance_delay(0), (1, 1));
    assert_eq!(e.advance_delay(2), (0, 2));
    for _ in 3..MAX_DELAY_SAMPLES {
        e.advance_delay(1);
    }
    assert_eq!(e.advance_delay(1), (MAX_DELAY_SAMPLES - 1, 0));
}

#[test]
fn delay_length_is_capped() {
    assert_eq!(delay_length(13230), 13230);
    assert_eq!(delay_length(MAX_DELAY_SAMPLES), MAX_DELAY_SAMPLES - 1);
    assert_eq!(delay_length(1_000_000), MAX_DELAY_SAMPLES - 1);
}

fn snapshot(e: &ArtcodeBass) -> (Vec<(bool, u8, EnvStage, i32)>, usize, usize, Option<u8>, u32) {
    let voices = (0..MAX_VOICES)
        .map(|i| {
            let s = e.voice(i);
            (s.active, s.note, s.stage, s.start_pitch)
        })
        .collect();
    (voices, e.arp_note_count(), e.arp_index(), e.arp_playing_note(), e.rng_state())
}

#[test]
fn reset_twice_equals_reset_once() {
    let mut e = ArtcodeBass::new();
    e.handle_note_on(60, vel(1.0), true);
    e.handle_note_on(64, vel(1.0), true);
    e.arp_next_note(3, 2);
    e.note_on_voice(40, vel(1.0));
    e.advance_delay(5);
    e.reset();
    let once = snapshot(&e);
    e.reset();
    let twice = snapshot(&e);
    assert_eq!(once, twice);
    assert_eq!(e.active_voices(), 0);
    assert_eq!(e.arp_note_count(), 0);
    assert_eq!(e.arp_playing_note(), None);
    assert_eq!(e.advance_delay(0), (0, 0));
    // the next note glides from A4 again
    let slot = e.note_on_voice(50, vel(1.0));
    assert_eq!(e.voice(slot).start_pitch, 69);
}

#[test]
fn clear_voices_keeps_the_arpeggiator() {
    let mut e = ArtcodeBass::new();
    e.handle_note_on(60, vel(1.0), true);
    e.handle_note_on(64, vel(1.0), true);
    e.clear_voices();
    assert_eq!(e.active_voices(), 0);
    assert_eq!(e.arp_note_count(), 2);
    // the glide origin is still the last note's pitch
    let slot = e.note_on_voice(50, vel(1.0));
    assert_eq!(e.voice(slot).start_pitch, 48);
}
