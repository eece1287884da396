use vstd::prelude::*;

use crate::envelope::{next_stage, EnvStage};
use crate::arp::{
    arp_mode_of, insertion_point, next_cursor, position_from, step_note, step_position, ArpMode,
    Arpeggiator, MAX_ARP_NOTES, MAX_ARP_OCTAVES,
};
use crate::rng::{xorshift32, xorshift32_step};
use crate::voices::{
    advanced_slot, allocation_slot, count_active, idle_slot, lemma_mask_empty, mask_has, note_on_slots, released_slot, VoicePool, VoiceSlot, MAX_VOICES,
    REST_PITCH, TRANSPOSE,
};

verus! {

/// Length of the delay line in samples (two seconds at 48 kHz).
pub const MAX_DELAY_SAMPLES: usize = 96000;

/// Seed of the random arpeggio generator.
pub const RNG_SEED: u32 = 12345;

/// The control state of the engine, as contracts see it.
pub ghost struct CoreState {
    pub slots: Seq<VoiceSlot>,
    pub last_pitch: i32,
    pub last_note: u8,
    pub held: Seq<u8>,
    pub held_velocities: Seq<u32>,
    pub cursor: int,
    pub playing: Option<u8>,
    pub rng: u32,
    pub delay_cursor: int,
}

/// The state that a reset leaves: silent voices gliding from A4, an empty
/// arpeggiator, the delay cursor at 0. The random generator runs on.
pub open spec fn reset_state(s: CoreState) -> CoreState {
    CoreState {
        slots: Seq::new(MAX_VOICES as nat, |i: int| idle_slot()),
        last_pitch: REST_PITCH,
        last_note: 0,
        held: Seq::empty(),
        held_velocities: Seq::empty(),
        cursor: 0,
        playing: None,
        rng: s.rng,
        delay_cursor: 0,
    }
}

/// `s` after `note` is started on a voice (see `VoicePool::note_on`).
pub open spec fn started_voice(s: CoreState, note: u8, velocity: u32) -> CoreState {
    CoreState {
        slots: note_on_slots(s.slots, s.last_pitch, note, velocity),
        last_pitch: (note as i32 - TRANSPOSE) as i32,
        last_note: note,
        ..s
    }
}

/// `s` after a note-off for `note` reaches the voices.
pub open spec fn released_voices(s: CoreState, note: u8) -> CoreState {
    CoreState {
        slots: Seq::new(MAX_VOICES as nat, |i: int| released_slot(s.slots[i], note)),
        ..s
    }
}

/// `s` after the arpeggiator stops holding `note`: the note leaves the
/// stack, and the cursor goes back to 0 when it no longer points inside the
/// smaller, non-empty stack.
pub open spec fn removed_from_arp(s: CoreState, note: u8) -> CoreState {
    if s.held.contains(note) {
        let p = position_from(s.held, note, 0);
        let n = s.held.len() - 1;
        CoreState {
            held: s.held.remove(p),
            held_velocities: s.held_velocities.remove(p),
            cursor: if s.cursor >= n && n > 0 {
                0
            } else {
                s.cursor
            },
            ..s
        }
    } else {
        s
    }
}

/// Note and velocity that the next arpeggio step plays from a non-empty `s`.
pub open spec fn arp_step_note(s: CoreState, mode: i32, octaves: int) -> (u8, u32) {
    let m = arp_mode_of(mode);
    let p = step_position(m, s.cursor, s.held.len() as int, octaves, xorshift32_step(s.rng));
    step_note(s.held, s.held_velocities, p)
}

/// `s` after an arpeggio step: the cursor moves on and, in Random mode, the
/// generator advances.
pub open spec fn arp_stepped(s: CoreState, mode: i32, octaves: int) -> CoreState {
    let m = arp_mode_of(mode);
    CoreState {
        cursor: next_cursor(m, s.cursor, s.held.len() as int, octaves),
        rng: if m == ArpMode::Random {
            xorshift32_step(s.rng)
        } else {
            s.rng
        },
        ..s
    }
}

/// Whether the arpeggiator takes `note`: it is not held yet and the stack
/// has room.
pub open spec fn arp_accepts(s: CoreState, note: u8) -> bool {
    !s.held.contains(note) && s.held.len() < MAX_ARP_NOTES
}

/// `s` after the arpeggiator receives `note`: if it accepts it (see
/// `arp_accepts`), the note goes to its place in ascending order, and the
/// cursor restarts when the stack was empty.
pub open spec fn added_to_arp(s: CoreState, note: u8, velocity: u32) -> CoreState {
    if arp_accepts(s, note) {
        let p = insertion_point(s.held, note);
        CoreState {
            held: s.held.insert(p, note),
            held_velocities: s.held_velocities.insert(p, velocity),
            cursor: if s.held.len() == 0 {
                0
            } else {
                s.cursor
            },
            ..s
        }
    } else {
        s
    }
}

/// What one arpeggiator step did to the voices.
#[derive(Clone, Copy, Debug, PartialEq, Eq, Structural)]
pub struct ArpStep {
    /// Mask of the slots that were moved to Release (bit `i` for slot `i`).
    pub released: u32,
    /// The slot that the next note was started on, if one was.
    pub started: Option<usize>,
}

/// Control core of the synthesizer: the voice pool, the arpeggiator, the
/// random generator of random arpeggios, and the write cursor of the delay
/// line.
pub struct ArtcodeBass {
    voices: VoicePool,
    arp: Arpeggiator,
    rng_state: u32,
    delay_index: usize,
}

impl View for ArtcodeBass {
    type V = CoreState;

    closed spec fn view(&self) -> CoreState {
        CoreState {
            slots: self.voices.slots(),
            last_pitch: self.voices.last_pitch(),
            last_note: self.voices.last_note(),
            held: self.arp.held(),
            held_velocities: self.arp.held_velocities(),
            cursor: self.arp.cursor(),
            playing: self.arp.playing(),
            rng: self.rng_state,
            delay_cursor: self.delay_index as int,
        }
    }
}

impl ArtcodeBass {
    pub closed spec fn wf(&self) -> bool {
        &&& self.voices.wf()
        &&& self.arp.wf()
        &&& self.delay_index < MAX_DELAY_SAMPLES
    }

    /// A fresh engine: the reset state, with the generator at its seed.
    pub fn new() -> (r: ArtcodeBass)
        ensures
            r.wf(),
            r@ == reset_state(r@),
            r@.rng == RNG_SEED,
    {
        let r = ArtcodeBass {
            voices: VoicePool::new(),
            arp: Arpeggiator::new(),
            rng_state: RNG_SEED,
            delay_index: 0,
        };
        assert(r@ =~= reset_state(r@));
        r
    }

    /// Control state of voice `i`.
    pub fn voice(&self, i: usize) -> (r: VoiceSlot)
        requires
            self.wf(),
            i < MAX_VOICES,
        ensures
            r == self@.slots[i as int],
    {
        self.voices.slot(i)
    }

    /// Number of notes the arpeggiator holds.
    pub fn arp_note_count(&self) -> (r: usize)
        requires
            self.wf(),
        ensures
            r == self@.held.len(),
    {
        self.arp.held_count()
    }

    /// The note the arpeggiator is sounding, if any.
    pub fn arp_playing_note(&self) -> (r: Option<u8>)
        ensures
            r == self@.playing,
    {
        self.arp.playing_note()
    }

    /// The arpeggiator's cursor.
    pub fn arp_index(&self) -> (r: usize)
        requires
            self.wf(),
        ensures
            r == self@.cursor,
    {
        self.arp.cursor_value()
    }

    /// The state of the random generator.
    pub fn rng_state(&self) -> (r: u32)
        ensures
            r == self@.rng,
    {
        self.rng_state
    }

    /// Number of sounding voices.
    pub fn active_voices(&self) -> (r: usize)
        requires
            self.wf(),
        ensures
            r == count_active(self@.slots),
    {
        self.voices.active_count()
    }

    /// Draws the next number of the xorshift32 generator.
    pub fn simple_random(&mut self) -> (r: u32)
        requires
            old(self).wf(),
        ensures
            final(self).wf(),
            r == xorshift32_step(old(self)@.rng),
            final(self)@ == (CoreState { rng: r, ..old(self)@ }),
    {
        let r = xorshift32(&mut self.rng_state);
        assert(self@ =~= (CoreState { rng: r, ..old(self)@ }));
        r
    }

    /// Starts `note` on a voice (see `VoicePool::note_on`) and returns its slot.
    pub fn note_on_voice(&mut self, note: u8, velocity: u32) -> (r: usize)
        requires
            old(self).wf(),
        ensures
            final(self).wf(),
            r as int == allocation_slot(old(self)@.slots),
            final(self)@ == started_voice(old(self)@, note, velocity),
    {
        let r = self.voices.note_on(note, velocity);
        assert(self@ =~= started_voice(old(self)@, note, velocity));
        r
    }

    /// Releases every voice sounding `note` (see `VoicePool::note_off`) and
    /// returns the mask of the slots it moved to Release.
    pub fn note_off_voice(&mut self, note: u8) -> (r: u32)
        requires
            old(self).wf(),
        ensures
            final(self).wf(),
            final(self)@ == released_voices(old(self)@, note),
            forall|i: int|
                0 <= i < MAX_VOICES ==> (mask_has(r, i) <==> final(self)@.slots[i]
                    != old(self)@.slots[i]),
            forall|i: int| MAX_VOICES <= i < 32 ==> !mask_has(r, i),
    {
        let r = self.voices.note_off(note);
        assert(self@ =~= released_voices(old(self)@, note));
        r
    }

    /// Advances the envelope stage of voice `i` by one sample (see
    /// `VoicePool::advance_envelope`) and returns the new stage.
    pub fn advance_envelope(&mut self, i: usize, elapsed: bool) -> (r: EnvStage)
        requires
            old(self).wf(),
            i < MAX_VOICES,
        ensures
            final(self).wf(),
            r == next_stage(old(self)@.slots[i as int].stage, elapsed),
            final(self)@ == (CoreState {
                slots: old(self)@.slots.update(i as int, advanced_slot(old(self)@.slots[i as int], elapsed)),
                ..old(self)@
            }),
    {
        let r = self.voices.advance_envelope(i, elapsed);
        assert(self@ =~= (CoreState {
            slots: old(self)@.slots.update(i as int, advanced_slot(old(self)@.slots[i as int], elapsed)),
            ..old(self)@
        }));
        r
    }

    /// Holds `note` in the arpeggiator (see `Arpeggiator::add_note`). When
    /// the stack was empty the note sounds at once: it is started on a voice,
    /// becomes the playing note, and its slot is returned.
    pub fn arp_add_note(&mut self, note: u8, velocity: u32) -> (r: Option<usize>)
        requires
            old(self).wf(),
        ensures
            final(self).wf(),
            (r.is_some() <==> arp_accepts(old(self)@, note) && old(self)@.held.len() == 0),
            r.is_none() ==> final(self)@ == added_to_arp(old(self)@, note, velocity),
            r.is_some() ==> {
                let a = added_to_arp(old(self)@, note, velocity);
                &&& r.unwrap() as int == allocation_slot(a.slots)
                &&& final(self)@ == (CoreState {
                    playing: Some(note),
                    ..started_voice(a, note, velocity)
                })
            },
    {
        proof {
            self.arp.lemma_wf();
        }
        let first = self.arp.add_note(note, velocity);
        if first {
            let slot = self.voices.note_on(note, velocity);
            self.arp.set_playing(Some(note));
            assert(self@ =~= (CoreState {
                playing: Some(note),
                ..started_voice(added_to_arp(old(self)@, note, velocity), note, velocity)
            }));
            Some(slot)
        } else {
            assert(self@ =~= added_to_arp(old(self)@, note, velocity));
            None
        }
    }

    /// Stops holding `note` in the arpeggiator (see `removed_from_arp`).
    pub fn arp_remove_note(&mut self, note: u8)
        requires
            old(self).wf(),
        ensures
            final(self).wf(),
            final(self)@ == removed_from_arp(old(self)@, note),
    {
        self.arp.remove_note(note);
        assert(self@ =~= removed_from_arp(old(self)@, note));
    }

    /// The next arpeggio step (see `Arpeggiator::next_note`) in the mode
    /// that `mode` selects (see `arp_mode_of`). Random mode draws one number
    /// from the generator, and only when some note is held.
    pub fn arp_next_note(&mut self, mode: i32, octaves: i32) -> (r: Option<(u8, u32)>)
        requires
            old(self).wf(),
            1 <= octaves <= MAX_ARP_OCTAVES,
        ensures
            final(self).wf(),
            old(self)@.held.len() == 0 ==> r.is_none() && final(self)@ == old(self)@,
            old(self)@.held.len() > 0 ==> {
                &&& r == Some(arp_step_note(old(self)@, mode, octaves as int))
                &&& final(self)@ == arp_stepped(old(self)@, mode, octaves as int)
            },
    {
        proof {
            self.arp.lemma_wf();
        }
        if self.arp.held_count() == 0 {
            return None;
        }
        let m = ArpMode::from_index(mode);
        let rand = if m == ArpMode::Random {
            self.simple_random()
        } else {
            0
        };
        let r = self.arp.next_note(m, octaves as usize, rand);
        assert(self@ =~= arp_stepped(old(self)@, mode, octaves as int));
        r
    }

    /// A note-on from the host: it goes to the arpeggiator when `arp_on`,
    /// else straight to a voice. Returns the slot of the voice started, if
    /// one was.
    pub fn handle_note_on(&mut self, note: u8, velocity: u32, arp_on: bool) -> (r: Option<usize>)
        requires
            old(self).wf(),
        ensures
            final(self).wf(),
            !arp_on ==> {
                &&& r == Some(allocation_slot(old(self)@.slots) as usize)
                &&& final(self)@ == started_voice(old(self)@, note, velocity)
            },
            arp_on ==> (r.is_some() <==> arp_accepts(old(self)@, note) && old(self)@.held.len()
                == 0),
            arp_on && r.is_none() ==> final(self)@ == added_to_arp(old(self)@, note, velocity),
            arp_on && r.is_some() ==> {
                let a = added_to_arp(old(self)@, note, velocity);
                &&& r.unwrap() as int == allocation_slot(a.slots)
                &&& final(self)@ == (CoreState {
                    playing: Some(note),
                    ..started_voice(a, note, velocity)
                })
            },
    {
        if arp_on {
            self.arp_add_note(note, velocity)
        } else {
            Some(self.note_on_voice(note, velocity))
        }
    }

    /// A note-off from the host. Without the arpeggiator it releases the
    /// voices of `note`. With it, the note leaves the stack, and when the
    /// stack is then empty the playing note is released and nothing plays.
    /// Returns the mask of the slots moved to Release.
    pub fn handle_note_off(&mut self, note: u8, arp_on: bool) -> (r: u32)
        requires
            old(self).wf(),
        ensures
            final(self).wf(),
            !arp_on ==> final(self)@ == released_voices(old(self)@, note),
            arp_on ==> {
                let a = removed_from_arp(old(self)@, note);
                if a.held.len() == 0 && a.playing.is_some() {
                    final(self)@ == (CoreState {
                        playing: None,
                        ..released_voices(a, a.playing.unwrap())
                    })
                } else {
                    final(self)@ == a
                }
            },
            forall|i: int|
                0 <= i < MAX_VOICES ==> (mask_has(r, i) <==> final(self)@.slots[i]
                    != old(self)@.slots[i]),
            forall|i: int| MAX_VOICES <= i < 32 ==> !mask_has(r, i),
    {
        if arp_on {
            self.arp_remove_note(note);
            if self.arp.held_count() == 0 {
                if let Some(p) = self.arp.playing_note() {
                    let r = self.note_off_voice(p);
                    self.arp.set_playing(None);
                    assert(self@ =~= (CoreState {
                        playing: None,
                        ..released_voices(removed_from_arp(old(self)@, note), p)
                    }));
                    return r;
                }
            }
            proof {
                lemma_mask_empty();
            }
            0
        } else {
            self.note_off_voice(note)
        }
    }

    /// What the arpeggiator does when its timer runs out: the playing note is
    /// released, the next step is taken, and its note is started on a voice
    /// and becomes the playing note.
    pub fn arp_step(&mut self, mode: i32, octaves: i32) -> (r: ArpStep)
        requires
            old(self).wf(),
            1 <= octaves <= MAX_ARP_OCTAVES,
        ensures
            final(self).wf(),
            ({
                let s1 = match old(self)@.playing {
                    Some(p) => released_voices(old(self)@, p),
                    None => old(self)@,
                };
                &&& forall|i: int|
                    0 <= i < MAX_VOICES ==> (mask_has(r.released, i) <==> s1.slots[i]
                        != old(self)@.slots[i])
                &&& forall|i: int| MAX_VOICES <= i < 32 ==> !mask_has(r.released, i)
                &&& s1.held.len() == 0 ==> r.started.is_none() && final(self)@ == s1
                &&& s1.held.len() > 0 ==> {
                    let (n, v) = arp_step_note(s1, mode, octaves as int);
                    let s2 = arp_stepped(s1, mode, octaves as int);
                    &&& r.started == Some(allocation_slot(s2.slots) as usize)
                    &&& final(self)@ == (CoreState { playing: Some(n), ..started_voice(s2, n, v) })
                }
            }),
    {
        let released = match self.arp.playing_note() {
            Some(p) => self.note_off_voice(p),
            None => {
                proof {
                    lemma_mask_empty();
                }
                0
            },
        };
        let started = match self.arp_next_note(mode, octaves) {
            Some((n, v)) => {
                let slot = self.note_on_voice(n, v);
                let ghost s3 = self@;
                self.arp.set_playing(Some(n));
                assert(self@ =~= (CoreState { playing: Some(n), ..s3 }));
                Some(slot)
            },
            None => None,
        };
        ArpStep { released, started }
    }

    /// Reads and advances the delay line's cursor for one sample delayed by
    /// `delay` samples. Returns the index to read the delayed sample from and
    /// the index to write the new one to; the cursor then moves on by one,
    /// wrapping at the end of the line.
    pub fn advance_delay(&mut self, delay: usize) -> (r: (usize, usize))
        requires
            old(self).wf(),
            delay < MAX_DELAY_SAMPLES,
        ensures
            final(self).wf(),
            r.0 as int == (old(self)@.delay_cursor + MAX_DELAY_SAMPLES - delay) % MAX_DELAY_SAMPLES as int,
            r.1 as int == old(self)@.delay_cursor,
            r.0 < MAX_DELAY_SAMPLES,
            r.1 < MAX_DELAY_SAMPLES,
            final(self)@ == (CoreState {
                delay_cursor: (old(self)@.delay_cursor + 1) % MAX_DELAY_SAMPLES as int,
                ..old(self)@
            }),
    {
        let w = self.delay_index;
        let read = (w + MAX_DELAY_SAMPLES - delay) % MAX_DELAY_SAMPLES;
        self.delay_index = (w + 1) % MAX_DELAY_SAMPLES;
        assert(self@ =~= (CoreState {
            delay_cursor: (old(self)@.delay_cursor + 1) % MAX_DELAY_SAMPLES as int,
            ..old(self)@
        }));
        (read, w)
    }

    /// Silences every voice at once, as a change of sample rate does; the
    /// arpeggiator, the glide origin and the delay cursor are kept.
    pub fn clear_voices(&mut self)
        requires
            old(self).wf(),
        ensures
            final(self).wf(),
            final(self)@ == (CoreState {
                slots: Seq::new(MAX_VOICES as nat, |i: int| idle_slot()),
                ..old(self)@
            }),
    {
        self.voices.silence();
        assert(self@ =~= (CoreState {
            slots: Seq::new(MAX_VOICES as nat, |i: int| idle_slot()),
            ..old(self)@
        }));
    }

    /// Silences every voice, empties the arpeggiator and puts the delay
    /// cursor back at 0 (see `reset_state`).
    pub fn reset(&mut self)
        requires
            old(self).wf(),
        ensures
            final(self).wf(),
            final(self)@ == reset_state(old(self)@),
    {
        self.voices.clear();
        self.arp = Arpeggiator::new();
        self.delay_index = 0;
        assert(self@ =~= reset_state(old(self)@));
    }
}

impl Default for ArtcodeBass {
    fn default() -> (r: ArtcodeBass)
        ensures
            r.wf(),
            r@ == reset_state(r@),
            r@.rng == RNG_SEED,
    {
        ArtcodeBass::new()
    }
}

/// Delay in samples for a requested length, capped to what the line holds.
pub fn delay_length(requested: usize) -> (r: usize)
    ensures
        r == if requested < MAX_DELAY_SAMPLES {
            requested
        } else {
            (MAX_DELAY_SAMPLES - 1) as usize
        },
{
    if requested < MAX_DELAY_SAMPLES {
        requested
    } else {
        MAX_DELAY_SAMPLES - 1
    }
}

/// Resetting twice leaves the same state as resetting once.
pub proof fn lemma_reset_idempotent(s: CoreState)
    ensures
        reset_state(reset_state(s)) == reset_state(s),
{
}

} // verus!
