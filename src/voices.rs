use vstd::prelude::*;

use crate::envelope::{next_stage, EnvStage};

verus! {

/// Number of voices in the pool.
pub const MAX_VOICES: usize = 16;

/// Pitch, in semitones, that an untouched pool glides from (A4).
pub const REST_PITCH: i32 = 69;

/// The engine sounds every note one octave below the incoming note number.
pub const TRANSPOSE: i32 = 12;

/// Control state of one voice. The oscillator, envelope level and filter
/// state that belong to the voice are kept by the audio path, indexed like
/// the pool.
#[derive(Clone, Copy, Debug, PartialEq, Eq, Structural)]
pub struct VoiceSlot {
    pub active: bool,
    pub note: u8,
    /// Bit pattern of the note's velocity (an IEEE-754 single), carried unchanged.
    pub velocity: u32,
    pub stage: EnvStage,
    /// Pitch the voice glides to, in semitones.
    pub target_pitch: i32,
    /// Pitch the voice starts from: the target of the previously started voice.
    pub start_pitch: i32,
}

pub open spec fn slot_wf(s: VoiceSlot) -> bool {
    s.active <==> s.stage != EnvStage::Idle
}

pub open spec fn idle_slot() -> VoiceSlot {
    VoiceSlot {
        active: false,
        note: 0,
        velocity: 0,
        stage: EnvStage::Idle,
        target_pitch: REST_PITCH,
        start_pitch: REST_PITCH,
    }
}

/// The slot of a freshly started note.
pub open spec fn started_slot(note: u8, velocity: u32, start_pitch: i32) -> VoiceSlot {
    VoiceSlot {
        active: true,
        note,
        velocity,
        stage: EnvStage::Attack,
        target_pitch: (note as i32 - TRANSPOSE) as i32,
        start_pitch,
    }
}

/// The index at or after `i` of the first inactive slot; 0 when every slot
/// from `i` on is active.
pub open spec fn first_inactive_from(slots: Seq<VoiceSlot>, i: int) -> int
    decreases slots.len() - i,
{
    if i < 0 || i >= slots.len() {
        0
    } else if !slots[i].active {
        i
    } else {
        first_inactive_from(slots, i + 1)
    }
}

/// The slot that a note-on takes: the first inactive one, or slot 0 when all
/// are sounding (that voice is stolen).
pub open spec fn allocation_slot(slots: Seq<VoiceSlot>) -> int {
    first_inactive_from(slots, 0)
}

/// The slots after a note-on: the allocated slot holds the new note, gliding
/// from `last_pitch`; every other slot is unchanged.
pub open spec fn note_on_slots(slots: Seq<VoiceSlot>, last_pitch: i32, note: u8, velocity: u32) -> Seq<
    VoiceSlot,
> {
    slots.update(allocation_slot(slots), started_slot(note, velocity, last_pitch))
}

/// A slot after a note-off for `note`.
pub open spec fn released_slot(s: VoiceSlot, note: u8) -> VoiceSlot {
    if s.active && s.note == note && s.stage != EnvStage::Release {
        VoiceSlot { stage: EnvStage::Release, ..s }
    } else {
        s
    }
}

/// A slot after one sample of its envelope; it falls inactive when it reaches Idle.
pub open spec fn advanced_slot(s: VoiceSlot, elapsed: bool) -> VoiceSlot {
    let st = next_stage(s.stage, elapsed);
    VoiceSlot { stage: st, active: st != EnvStage::Idle, ..s }
}

pub open spec fn count_active(slots: Seq<VoiceSlot>) -> nat
    decreases slots.len(),
{
    if slots.len() == 0 {
        0
    } else {
        count_active(slots.drop_last()) + if slots.last().active { 1nat } else { 0nat }
    }
}

/// Whether bit `i` of `mask` is set.
pub open spec fn mask_has(mask: u32, i: int) -> bool {
    0 <= i < 32 && mask & (1u32 << (i as u32)) != 0
}

/// A fixed set of voices with first-free allocation and stealing of slot 0.
pub struct VoicePool {
    slots: Vec<VoiceSlot>,
    last_pitch: i32,
    last_note: u8,
}

impl VoicePool {
    pub closed spec fn slots(&self) -> Seq<VoiceSlot> {
        self.slots@
    }

    /// Target pitch of the most recently started voice.
    pub closed spec fn last_pitch(&self) -> i32 {
        self.last_pitch
    }

    /// Note number of the most recently started voice.
    pub closed spec fn last_note(&self) -> u8 {
        self.last_note
    }

    pub open spec fn wf(&self) -> bool {
        &&& self.slots().len() == MAX_VOICES
        &&& forall|i: int| 0 <= i < self.slots().len() ==> #[trigger] slot_wf(self.slots()[i])
    }

    /// A pool of silent voices that glides from A4.
    pub fn new() -> (r: VoicePool)
        ensures
            r.wf(),
            r.slots() == Seq::new(MAX_VOICES as nat, |i: int| idle_slot()),
            r.last_pitch() == REST_PITCH,
            r.last_note() == 0,
    {
        let mut slots: Vec<VoiceSlot> = Vec::new();
        let mut i: usize = 0;
        while i < MAX_VOICES
            invariant
                i <= MAX_VOICES,
                slots@ == Seq::new(i as nat, |k: int| idle_slot()),
            decreases MAX_VOICES - i,
        {
            slots.push(VoiceSlot {
                active: false,
                note: 0,
                velocity: 0,
                stage: EnvStage::Idle,
                target_pitch: REST_PITCH,
                start_pitch: REST_PITCH,
            });
            i = i + 1;
            assert(slots@ =~= Seq::new(i as nat, |k: int| idle_slot()));
        }
        VoicePool { slots, last_pitch: REST_PITCH, last_note: 0 }
    }

    /// The control state of slot `i`.
    pub fn slot(&self, i: usize) -> (r: VoiceSlot)
        requires
            self.wf(),
            i < MAX_VOICES,
        ensures
            r == self.slots()[i as int],
    {
        self.slots[i]
    }

    pub fn last_pitch_value(&self) -> (r: i32)
        ensures
            r == self.last_pitch(),
    {
        self.last_pitch
    }

    pub fn last_note_value(&self) -> (r: u8)
        ensures
            r == self.last_note(),
    {
        self.last_note
    }

    /// The slot that the next note-on takes (see `allocation_slot`).
    pub fn find_slot(&self) -> (r: usize)
        requires
            self.wf(),
        ensures
            r as int == allocation_slot(self.slots()),
            r < MAX_VOICES,
    {
        let mut i: usize = 0;
        while i < self.slots.len()
            invariant
                self.wf(),
                i <= self.slots@.len(),
                first_inactive_from(self.slots@, 0) == first_inactive_from(self.slots@, i as int),
            decreases self.slots@.len() - i,
        {
            if !self.slots[i].active {
                return i;
            }
            i = i + 1;
        }
        0
    }

    /// Starts `note` on the slot that `allocation_slot` picks, discarding
    /// whatever that slot held, and returns the slot. The new voice glides
    /// from the target pitch of the voice started before it.
    pub fn note_on(&mut self, note: u8, velocity: u32) -> (r: usize)
        requires
            old(self).wf(),
        ensures
            final(self).wf(),
            r as int == allocation_slot(old(self).slots()),
            r < MAX_VOICES,
            final(self).slots() == note_on_slots(
                old(self).slots(),
                old(self).last_pitch(),
                note,
                velocity,
            ),
            final(self).last_pitch() == note as i32 - TRANSPOSE,
            final(self).last_note() == note,
    {
        let r = self.find_slot();
        let target = note as i32 - TRANSPOSE;
        let fresh = VoiceSlot {
            active: true,
            note,
            velocity,
            stage: EnvStage::Attack,
            target_pitch: target,
            start_pitch: self.last_pitch,
        };
        self.slots.set(r, fresh);
        self.last_pitch = target;
        self.last_note = note;
        r
    }

    /// Moves every sounding voice of `note` that is not yet releasing to
    /// Release. Returns a mask whose bit `i` is set exactly when slot `i` was
    /// moved; a note-off that matches no voice changes nothing.
    pub fn note_off(&mut self, note: u8) -> (r: u32)
        requires
            old(self).wf(),
        ensures
            final(self).wf(),
            final(self).slots() == Seq::new(
                MAX_VOICES as nat,
                |i: int| released_slot(old(self).slots()[i], note),
            ),
            forall|i: int|
                0 <= i < MAX_VOICES ==> (mask_has(r, i) <==> final(self).slots()[i]
                    != old(self).slots()[i]),
            forall|i: int| MAX_VOICES <= i < 32 ==> !mask_has(r, i),
            final(self).last_pitch() == old(self).last_pitch(),
            final(self).last_note() == old(self).last_note(),
    {
        let ghost old_slots = self.slots@;
        let mut mask: u32 = 0;
        let mut i: usize = 0;
        proof {
            lemma_mask_empty();
        }
        while i < MAX_VOICES
            invariant
                i <= MAX_VOICES,
                old_slots.len() == MAX_VOICES,
                self.slots@.len() == MAX_VOICES,
                forall|k: int| 0 <= k < MAX_VOICES ==> slot_wf(#[trigger] old_slots[k]),
                forall|k: int|
                    0 <= k < i ==> #[trigger] self.slots@[k] == released_slot(old_slots[k], note),
                forall|k: int| i <= k < MAX_VOICES ==> #[trigger] self.slots@[k] == old_slots[k],
                forall|k: int|
                    0 <= k < i ==> (mask_has(mask, k) <==> #[trigger] self.slots@[k]
                        != old_slots[k]),
                forall|k: int| i <= k < 32 ==> !#[trigger] mask_has(mask, k),
                self.last_pitch == old(self).last_pitch,
                self.last_note == old(self).last_note,
            decreases MAX_VOICES - i,
        {
            let s = self.slots[i];
            if s.active && s.note == note && s.stage.releases_on_note_off() {
                self.slots.set(i, VoiceSlot { stage: EnvStage::Release, ..s });
                let m = mask;
                let b = i as u32;
                mask = m | (1u32 << b);
                proof {
                    lemma_mask_set(m, b);
                }
            }
            i = i + 1;
        }
        assert(self.slots@ =~= Seq::new(
            MAX_VOICES as nat,
            |k: int| released_slot(old_slots[k], note),
        ));
        mask
    }

    /// Advances the envelope stage of slot `i` by one sample and returns the
    /// new stage. `elapsed` says that the time spent in the current stage has
    /// reached its duration. The voice falls inactive exactly when its
    /// release completes.
    pub fn advance_envelope(&mut self, i: usize, elapsed: bool) -> (r: EnvStage)
        requires
            old(self).wf(),
            i < MAX_VOICES,
        ensures
            final(self).wf(),
            final(self).slots() == old(self).slots().update(
                i as int,
                advanced_slot(old(self).slots()[i as int], elapsed),
            ),
            r == next_stage(old(self).slots()[i as int].stage, elapsed),
            final(self).last_pitch() == old(self).last_pitch(),
            final(self).last_note() == old(self).last_note(),
    {
        let s = self.slots[i];
        let st = s.stage.advance(elapsed);
        self.slots.set(i, VoiceSlot { stage: st, active: st != EnvStage::Idle, ..s });
        st
    }

    /// Returns every slot to silence; the glide origin is kept.
    pub fn silence(&mut self)
        requires
            old(self).wf(),
        ensures
            final(self).wf(),
            final(self).slots() == Seq::new(MAX_VOICES as nat, |i: int| idle_slot()),
            final(self).last_pitch() == old(self).last_pitch(),
            final(self).last_note() == old(self).last_note(),
    {
        let fresh = VoicePool::new();
        self.slots = fresh.slots;
    }

    /// Returns every slot to silence and the glide origin to A4.
    pub fn clear(&mut self)
        ensures
            final(self).wf(),
            final(self).slots() == Seq::new(MAX_VOICES as nat, |i: int| idle_slot()),
            final(self).last_pitch() == REST_PITCH,
            final(self).last_note() == 0,
    {
        *self = VoicePool::new();
    }

    /// Number of sounding voices.
    pub fn active_count(&self) -> (r: usize)
        requires
            self.wf(),
        ensures
            r == count_active(self.slots()),
    {
        let mut n: usize = 0;
        let mut i: usize = 0;
        while i < self.slots.len()
            invariant
                self.wf(),
                i <= self.slots@.len(),
                n == count_active(self.slots@.subrange(0, i as int)),
                n <= i,
            decreases self.slots@.len() - i,
        {
            proof {
                let s = self.slots@.subrange(0, i as int + 1);
                assert(s.drop_last() =~= self.slots@.subrange(0, i as int));
            }
            if self.slots[i].active {
                n = n + 1;
            }
            i = i + 1;
        }
        assert(self.slots@.subrange(0, i as int) =~= self.slots@);
        n
    }
}

/// Pool contents and glide origin after starting each `(note, velocity)` of
/// `events` in order.
pub open spec fn after_note_ons(slots: Seq<VoiceSlot>, last_pitch: i32, events: Seq<(u8, u32)>) -> (
    Seq<VoiceSlot>,
    i32,
)
    decreases events.len(),
{
    if events.len() == 0 {
        (slots, last_pitch)
    } else {
        let (s, p) = after_note_ons(slots, last_pitch, events.drop_last());
        let (note, velocity) = events.last();
        (note_on_slots(s, p, note, velocity), (note as i32 - TRANSPOSE) as i32)
    }
}

/// One sample of envelope keeps a slot well formed; a sounding voice falls
/// silent exactly when it is releasing and its release time is up, and a
/// silent voice is left as it is.
pub proof fn lemma_advance_deactivates(s: VoiceSlot, elapsed: bool)
    requires
        slot_wf(s),
    ensures
        slot_wf(advanced_slot(s, elapsed)),
        s.active ==> (!advanced_slot(s, elapsed).active <==> (s.stage == EnvStage::Release
            && elapsed)),
        !s.active ==> advanced_slot(s, elapsed) == s,
{
}

/// A note-on takes the lowest-numbered silent slot; when every slot is
/// sounding it takes slot 0.
pub proof fn lemma_allocation_slot(slots: Seq<VoiceSlot>)
    requires
        slots.len() > 0,
    ensures
        0 <= allocation_slot(slots) < slots.len(),
        (exists|i: int| 0 <= i < slots.len() && !slots[i].active) ==> {
            &&& !slots[allocation_slot(slots)].active
            &&& forall|j: int| 0 <= j < allocation_slot(slots) ==> slots[j].active
        },
        (forall|i: int| 0 <= i < slots.len() ==> slots[i].active) ==> allocation_slot(slots) == 0,
{
    lemma_first_inactive_from(slots, 0);
}

proof fn lemma_first_inactive_from(slots: Seq<VoiceSlot>, i: int)
    requires
        0 <= i <= slots.len(),
    ensures
        0 <= first_inactive_from(slots, i) < slots.len() || slots.len() == 0,
        (exists|k: int| i <= k < slots.len() && !slots[k].active) ==> {
            &&& i <= first_inactive_from(slots, i)
            &&& !slots[first_inactive_from(slots, i)].active
            &&& forall|j: int| i <= j < first_inactive_from(slots, i) ==> slots[j].active
        },
        (forall|k: int| i <= k < slots.len() ==> slots[k].active) ==> first_inactive_from(slots, i)
            == 0,
    decreases slots.len() - i,
{
    if i < slots.len() && slots[i].active {
        lemma_first_inactive_from(slots, i + 1);
        if exists|k: int| i <= k < slots.len() && !slots[k].active {
            let k = choose|k: int| i <= k < slots.len() && !slots[k].active;
            assert(i + 1 <= k);
        }
    }
}

proof fn lemma_count_bounds(slots: Seq<VoiceSlot>)
    ensures
        count_active(slots) <= slots.len(),
        count_active(slots) == slots.len() <==> forall|i: int|
            0 <= i < slots.len() ==> #[trigger] slots[i].active,
    decreases slots.len(),
{
    if slots.len() > 0 {
        let d = slots.drop_last();
        lemma_count_bounds(d);
        if forall|i: int| 0 <= i < slots.len() ==> #[trigger] slots[i].active {
            assert forall|i: int| 0 <= i < d.len() implies #[trigger] d[i].active by {
                assert(d[i] == slots[i]);
            }
        }
        if count_active(slots) == slots.len() {
            assert forall|i: int| 0 <= i < slots.len() implies #[trigger] slots[i].active by {
                if i < d.len() {
                    assert(d[i] == slots[i]);
                }
            }
        }
    }
}

proof fn lemma_count_update(slots: Seq<VoiceSlot>, r: int, x: VoiceSlot)
    requires
        0 <= r < slots.len(),
    ensures
        count_active(slots.update(r, x)) + (if slots[r].active { 1int } else { 0int })
            == count_active(slots) + (if x.active { 1int } else { 0int }),
    decreases slots.len(),
{
    let u = slots.update(r, x);
    if r == slots.len() - 1 {
        assert(u.drop_last() =~= slots.drop_last());
    } else {
        assert(u.drop_last() =~= slots.drop_last().update(r, x));
        lemma_count_update(slots.drop_last(), r, x);
    }
}

/// Every note-on leaves one more voice sounding, until all of them sound;
/// on a full pool it steals slot 0 and the count stays at the pool size.
pub proof fn lemma_note_on_count(slots: Seq<VoiceSlot>, last_pitch: i32, note: u8, velocity: u32)
    requires
        slots.len() == MAX_VOICES,
    ensures
        count_active(note_on_slots(slots, last_pitch, note, velocity)) == if count_active(slots)
            < MAX_VOICES {
            count_active(slots) + 1
        } else {
            MAX_VOICES as nat
        },
        count_active(slots) == MAX_VOICES ==> allocation_slot(slots) == 0,
        note_on_slots(slots, last_pitch, note, velocity).len() == MAX_VOICES,
{
    lemma_allocation_slot(slots);
    lemma_count_bounds(slots);
    lemma_count_update(slots, allocation_slot(slots), started_slot(note, velocity, last_pitch));
    if count_active(slots) < MAX_VOICES {
        assert(exists|i: int| 0 <= i < slots.len() && !slots[i].active);
    }
}

/// However many note-ons arrive, at most `MAX_VOICES` voices sound: starting
/// from `c` sounding voices, `k` note-ons leave `min(c + k, MAX_VOICES)`.
pub proof fn lemma_note_ons_fill_pool(slots: Seq<VoiceSlot>, last_pitch: i32, events: Seq<(u8, u32)>)
    requires
        slots.len() == MAX_VOICES,
    ensures
        after_note_ons(slots, last_pitch, events).0.len() == MAX_VOICES,
        count_active(after_note_ons(slots, last_pitch, events).0) == if count_active(slots)
            + events.len() < MAX_VOICES {
            count_active(slots) + events.len()
        } else {
            MAX_VOICES as nat
        },
    decreases events.len(),
{
    lemma_count_bounds(slots);
    if events.len() > 0 {
        lemma_note_ons_fill_pool(slots, last_pitch, events.drop_last());
        let (s, p) = after_note_ons(slots, last_pitch, events.drop_last());
        let (note, velocity) = events.last();
        lemma_note_on_count(s, p, note, velocity);
        assert(after_note_ons(slots, last_pitch, events).0 == note_on_slots(s, p, note, velocity));
    }
}

proof fn lemma_mask_set(m: u32, b: u32)
    requires
        b < 32,
    ensures
        forall|k: int| 0 <= k < 32 ==> (#[trigger] mask_has(m | (1u32 << b), k) <==> (mask_has(m, k) || k == b)),
{
    assert forall|k: int| 0 <= k < 32 implies (#[trigger] mask_has(m | (1u32 << b), k) <==> (mask_has(m, k) || k == b)) by {
        let j = k as u32;
        assert(((m | (1u32 << b)) & (1u32 << j) != 0) <==> (m & (1u32 << j) != 0 || j == b))
            by (bit_vector)
            requires
                b < 32,
                j < 32,
        ;
    }
}

/// The empty mask has no bit set.
pub proof fn lemma_mask_empty()
    ensures
        forall|k: int| !#[trigger] mask_has(0u32, k),
{
    assert forall|k: int| !#[trigger] mask_has(0u32, k) by {
        let j = k as u32;
        assert(0u32 & (1u32 << j) == 0) by (bit_vector);
    }
}

} // verus!
