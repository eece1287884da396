use artcode_bass::arp::{ArpMode, Arpeggiator, MAX_ARP_NOTES};

fn vel(v: f32) -> u32 {
    v.to_bits()
}

fn held(a: &Arpeggiator) -> Vec<u8> {
    (0..a.held_count()).map(|i| a.held_note(i)).collect()
}

fn chord() -> Arpeggiator {
    let mut a = Arpeggiator::new();
    a.add_note(64, vel(0.6));
    a.add_note(60, vel(0.5));
    a.add_note(67, vel(0.7));
    a
}

fn run(a: &mut Arpeggiator, mode: ArpMode, octaves: usize, steps: usize) -> Vec<u8> {
    (0..steps).map(|_| a.next_note(mode, octaves, 0).unwrap().0).collect()
}

#[test]
fn notes_are_kept_ascending() {
    let a = chord();
    assert_eq!(held(&a), vec![60, 64, 67]);
}

#[test]
fn first_note_sounds_at_once() {
    let mut a = Arpeggiator::new();
    assert!(a.add_note(60, vel(1.0)));
    assert!(!a.add_note(64, vel(1.0)));
    assert_eq!(a.cursor_value(), 0);
}

#[test]
fn held_note_is_not_added_twice() {
    let mut a = chord();
    assert!(!a.add_note(64, vel(0.1)));
    assert_eq!(held(&a), vec![60, 64, 67]);
    assert!(a.holds(64));
    assert!(!a.holds(65));
}

#[test]
fn full_stack_rejects_more_notes() {
    let mut a = Arpeggiator::new();
    for k in 0..MAX_ARP_NOTES as u8 {
        a.add_note(100 - k, vel(1.0));
    }
    assert_eq!(a.held_count(), MAX_ARP_NOTES);
    assert!(!a.add_note(10, vel(1.0)));
    assert_eq!(a.held_count(), MAX_ARP_NOTES);
    let h = held(&a);
    assert_eq!(h[0], 85);
    assert_eq!(h[15], 100);
}

#[test]
fn up_mode_cycles_through_the_chord() {
    let mut a = chord();
    assert_eq!(run(&mut a, ArpMode::Up, 1, 7), vec![60, 64, 67, 60, 64, 67, 60]);
}

#[test]
fn up_mode_velocities_follow_their_notes() {
    let mut a = chord();
    let v: Vec<f32> = (0..3).map(|_| f32::from_bits(a.next_note(ArpMode::Up, 1, 0).unwrap().1)).collect();
    assert_eq!(v, vec![0.5, 0.6, 0.7]);
}

#[test]
fn up_mode_two_octaves() {
    let mut a = chord();
    assert_eq!(run(&mut a, ArpMode::Up, 2, 7), vec![60, 64, 67, 72, 76, 79, 60]);
}

#[test]
fn down_mode_cycles_from_the_top() {
    let mut a = chord();
    assert_eq!(run(&mut a, ArpMode::Down, 1, 7), vec![67, 64, 60, 67, 64, 60, 67]);
}

#[test]
fn up_down_mode_does_not_repeat_the_ends() {
    let mut a = chord();
    assert_eq!(run(&mut a, ArpMode::UpDown, 1, 9), vec![60, 64, 67, 64, 60, 64, 67, 64, 60]);
}

#[test]
fn up_down_with_one_note_repeats_it() {
    let mut a = Arpeggiator::new();
    a.add_note(48, vel(1.0));
    assert_eq!(run(&mut a, ArpMode::UpDown, 1, 3), vec![48, 48, 48]);
}

#[test]
fn random_mode_uses_the_given_number() {
    let mut a = chord();
    assert_eq!(a.next_note(ArpMode::Random, 1, 4).unwrap().0, 64);
    assert_eq!(a.next_note(ArpMode::Random, 2, 5).unwrap().0, 79);
    assert_eq!(a.cursor_value(), 0);
}

#[test]
fn transposition_saturates() {
    let mut a = Arpeggiator::new();
    a.add_note(250, vel(1.0));
    assert_eq!(run(&mut a, ArpMode::Up, 2, 2), vec![250, 255]);
}

#[test]
fn empty_stack_plays_nothing() {
    let mut a = Arpeggiator::new();
    assert_eq!(a.next_note(ArpMode::Up, 1, 0), None);
}

#[test]
fn removing_notes_keeps_order_and_resets_cursor() {
    let mut a = chord();
    run(&mut a, ArpMode::Up, 1, 2);
    assert_eq!(a.cursor_value(), 2);
    a.remove_note(64);
    assert_eq!(held(&a), vec![60, 67]);
    assert_eq!(a.cursor_value(), 0);
    a.remove_note(61);
    assert_eq!(held(&a), vec![60, 67]);
    a.remove_note(60);
    a.remove_note(67);
    assert_eq!(a.held_count(), 0);
}

#[test]
fn removing_keeps_velocities_with_notes() {
    let mut a = chord();
    a.remove_note(60);
    let first = a.next_note(ArpMode::Up, 1, 0).unwrap();
    assert_eq!(first.0, 64);
    assert_eq!(f32::from_bits(first.1), 0.6);
}

#[test]
fn mode_selector() {
    assert_eq!(ArpMode::from_index(0), ArpMode::Up);
    assert_eq!(ArpMode::from_index(1), ArpMode::Down);
    assert_eq!(ArpMode::from_index(2), ArpMode::UpDown);
    assert_eq!(ArpMode::from_index(3), ArpMode::Random);
    assert_eq!(ArpMode::from_index(-1), ArpMode::Random);
}
