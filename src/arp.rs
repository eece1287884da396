use vstd::prelude::*;

use vstd::arithmetic::div_mod::{lemma_add_mod_noop, lemma_mod_bound, lemma_mod_self_0, lemma_small_mod};

verus! {

/// Capacity of the held-note stack.
pub const MAX_ARP_NOTES: usize = 16;

/// Largest number of octaves an arpeggio spans.
pub const MAX_ARP_OCTAVES: usize = 4;

/// Order in which the arpeggiator walks the held notes.
#[derive(Clone, Copy, Debug, PartialEq, Eq, Structural)]
pub enum ArpMode {
    Up,
    Down,
    UpDown,
    Random,
}

/// Mode selector: 0 Up, 1 Down, 2 Up/Down, anything else Random.
pub open spec fn arp_mode_of(i: i32) -> ArpMode {
    if i == 0 {
        ArpMode::Up
    } else if i == 1 {
        ArpMode::Down
    } else if i == 2 {
        ArpMode::UpDown
    } else {
        ArpMode::Random
    }
}

impl ArpMode {
    pub fn from_index(i: i32) -> (r: ArpMode)
        ensures
            r == arp_mode_of(i),
    {
        match i {
            0 => ArpMode::Up,
            1 => ArpMode::Down,
            2 => ArpMode::UpDown,
            _ => ArpMode::Random,
        }
    }
}

pub open spec fn strictly_ascending(s: Seq<u8>) -> bool {
    forall|i: int, j: int| 0 <= i < j < s.len() ==> s[i] < s[j]
}

/// Index at or after `i` of the first held note above `note`; the length of
/// `held` when there is none.
pub open spec fn insertion_point_from(held: Seq<u8>, note: u8, i: int) -> int
    decreases held.len() - i,
{
    if i < 0 || i >= held.len() {
        held.len() as int
    } else if note < held[i] {
        i
    } else {
        insertion_point_from(held, note, i + 1)
    }
}

/// Where `note` goes in the ascending stack `held`.
pub open spec fn insertion_point(held: Seq<u8>, note: u8) -> int {
    insertion_point_from(held, note, 0)
}

/// Index at or after `i` of the first occurrence of `note`; the length of
/// `held` when there is none.
pub open spec fn position_from(held: Seq<u8>, note: u8, i: int) -> int
    decreases held.len() - i,
{
    if i < 0 || i >= held.len() {
        held.len() as int
    } else if held[i] == note {
        i
    } else {
        position_from(held, note, i + 1)
    }
}

/// Length of one Up/Down cycle over `total` steps: the two ends are not
/// repeated, and a single step is its own cycle.
pub open spec fn up_down_cycle(total: int) -> int {
    if total > 1 {
        2 * total - 2
    } else {
        1
    }
}

/// The step that the arpeggiator plays from cursor `index`, over `n` held
/// notes spanning `octaves` octaves: step `p` is held note `p % n` raised by
/// `p / n` octaves. `rand` is used only in Random mode.
pub open spec fn step_position(mode: ArpMode, index: int, n: int, octaves: int, rand: u32) -> int {
    let total = n * octaves;
    match mode {
        ArpMode::Up => index,
        ArpMode::Down => total - 1 - index % total,
        ArpMode::UpDown => {
            let pos = index % up_down_cycle(total);
            if pos < total {
                pos
            } else {
                2 * total - 2 - pos
            }
        },
        ArpMode::Random => rand as int % total,
    }
}

/// The cursor after a step; Random mode leaves it where it is.
pub open spec fn next_cursor(mode: ArpMode, index: int, n: int, octaves: int) -> int {
    let total = n * octaves;
    match mode {
        ArpMode::Up | ArpMode::Down => (index + 1) % total,
        ArpMode::UpDown => (index + 1) % up_down_cycle(total),
        ArpMode::Random => index,
    }
}

/// `note` raised by `octave` octaves, saturating at 255.
pub open spec fn transposed(note: u8, octave: int) -> u8 {
    if note + 12 * octave > 255 {
        255
    } else {
        (note + 12 * octave) as u8
    }
}

/// Note and velocity of step `p` over the ascending stack `held`: held note
/// `p % n` raised by `p / n` octaves.
pub open spec fn step_note(held: Seq<u8>, velocities: Seq<u32>, p: int) -> (u8, u32) {
    let n = held.len() as int;
    (transposed(held[p % n], p / n), velocities[p % n])
}

/// In Up/Down mode two consecutive steps never play the same step when the
/// arpeggio spans more than one step: the top and the bottom are played once
/// per turn, not twice in a row.
pub proof fn lemma_up_down_never_repeats(cursor: int, n: int, octaves: int, rand: u32)
    requires
        cursor >= 0,
        n >= 1,
        octaves >= 1,
        n * octaves > 1,
    ensures
        step_position(ArpMode::UpDown, next_cursor(ArpMode::UpDown, cursor, n, octaves), n, octaves, rand)
            != step_position(ArpMode::UpDown, cursor, n, octaves, rand),
{
    let t = n * octaves;
    let c = 2 * t - 2;
    assert(c >= 2);
    let r = cursor % c;
    lemma_mod_bound(cursor, c);
    lemma_add_mod_noop(cursor, 1, c);
    lemma_small_mod(1, c as nat);
    let next = (cursor + 1) % c;
    assert(next == (r + 1) % c);
    if r + 1 < c {
        lemma_small_mod((r + 1) as nat, c as nat);
        assert(next == r + 1);
    } else {
        lemma_mod_self_0(c);
        assert(next == 0);
    }
    lemma_small_mod(next as nat, c as nat);
    assert(next % c == next);
}

/// In Up mode the cursor walks every step of the arpeggio in turn: from a
/// cursor inside the cycle it moves to the following step, and from the last
/// step back to the first.
pub proof fn lemma_up_walks_in_order(cursor: int, n: int, octaves: int)
    requires
        0 <= cursor < n * octaves,
        n >= 1,
        octaves >= 1,
    ensures
        next_cursor(ArpMode::Up, cursor, n, octaves) == if cursor + 1 < n * octaves {
            cursor + 1
        } else {
            0
        },
{
    let t = n * octaves;
    if cursor + 1 < t {
        lemma_small_mod((cursor + 1) as nat, t as nat);
    } else {
        lemma_mod_self_0(t);
    }
}

/// Held notes of the arpeggiator, in ascending order, with their velocities,
/// and the sequencer's cursor.
pub struct Arpeggiator {
    notes: Vec<u8>,
    velocities: Vec<u32>,
    count: usize,
    index: usize,
    playing: Option<u8>,
}

impl Arpeggiator {
    /// The held notes, ascending.
    pub closed spec fn held(&self) -> Seq<u8> {
        self.notes@.subrange(0, self.count as int)
    }

    /// Velocity bit patterns, position by position with `held`.
    pub closed spec fn held_velocities(&self) -> Seq<u32> {
        self.velocities@.subrange(0, self.count as int)
    }

    /// The sequencer's cursor.
    pub closed spec fn cursor(&self) -> int {
        self.index as int
    }

    /// The note the arpeggiator last started and has not yet released.
    pub closed spec fn playing(&self) -> Option<u8> {
        self.playing
    }

    pub closed spec fn wf(&self) -> bool {
        &&& self.notes@.len() == MAX_ARP_NOTES
        &&& self.velocities@.len() == MAX_ARP_NOTES
        &&& self.count <= MAX_ARP_NOTES
        &&& (self.count == 0 || self.index < 2 * MAX_ARP_OCTAVES * self.count)
        &&& strictly_ascending(self.held())
    }

    /// What every well-formed arpeggiator satisfies.
    pub proof fn lemma_wf(&self)
        requires
            self.wf(),
        ensures
            self.held().len() <= MAX_ARP_NOTES,
            self.held_velocities().len() == self.held().len(),
            strictly_ascending(self.held()),
            self.held().len() == 0 || 0 <= self.cursor() < 2 * MAX_ARP_OCTAVES * self.held().len(),
    {
    }

    /// An empty stack with the cursor at 0 and nothing playing.
    pub fn new() -> (r: Arpeggiator)
        ensures
            r.wf(),
            r.held() == Seq::<u8>::empty(),
            r.held_velocities() == Seq::<u32>::empty(),
            r.cursor() == 0,
            r.playing() == None::<u8>,
    {
        let mut notes: Vec<u8> = Vec::new();
        let mut velocities: Vec<u32> = Vec::new();
        let mut i: usize = 0;
        while i < MAX_ARP_NOTES
            invariant
                i <= MAX_ARP_NOTES,
                notes@.len() == i,
                velocities@.len() == i,
            decreases MAX_ARP_NOTES - i,
        {
            notes.push(0);
            velocities.push(0);
            i = i + 1;
        }
        let r = Arpeggiator { notes, velocities, count: 0, index: 0, playing: None };
        assert(r.held() =~= Seq::<u8>::empty());
        assert(r.held_velocities() =~= Seq::<u32>::empty());
        r
    }

    pub fn held_count(&self) -> (r: usize)
        requires
            self.wf(),
        ensures
            r == self.held().len(),
    {
        self.count
    }

    /// Held note `i`, counting from the lowest.
    pub fn held_note(&self, i: usize) -> (r: u8)
        requires
            self.wf(),
            i < self.held().len(),
        ensures
            r == self.held()[i as int],
    {
        self.notes[i]
    }

    pub fn cursor_value(&self) -> (r: usize)
        requires
            self.wf(),
        ensures
            r == self.cursor(),
    {
        self.index
    }

    pub fn playing_note(&self) -> (r: Option<u8>)
        ensures
            r == self.playing(),
    {
        self.playing
    }

    pub fn set_playing(&mut self, note: Option<u8>)
        requires
            old(self).wf(),
        ensures
            final(self).wf(),
            final(self).playing() == note,
            final(self).held() == old(self).held(),
            final(self).held_velocities() == old(self).held_velocities(),
            final(self).cursor() == old(self).cursor(),
    {
        self.playing = note;
    }

    /// Whether `note` is held.
    pub fn holds(&self, note: u8) -> (r: bool)
        requires
            self.wf(),
        ensures
            r == self.held().contains(note),
    {
        let mut i: usize = 0;
        while i < self.count
            invariant
                self.wf(),
                i <= self.count,
                forall|k: int| 0 <= k < i ==> self.held()[k] != note,
            decreases self.count - i,
        {
            if self.notes[i] == note {
                assert(self.held()[i as int] == note);
                return true;
            }
            i = i + 1;
        }
        false
    }

    /// Holds `note` with `velocity` at its place in ascending order. A note
    /// that is already held, or a full stack, changes nothing. Returns true
    /// when the stack was empty before: the note is then to sound at once,
    /// and the cursor is back at 0.
    pub fn add_note(&mut self, note: u8, velocity: u32) -> (r: bool)
        requires
            old(self).wf(),
        ensures
            final(self).wf(),
            final(self).playing() == old(self).playing(),
            old(self).held().contains(note) || old(self).held().len() == MAX_ARP_NOTES ==> {
                &&& !r
                &&& final(self).held() == old(self).held()
                &&& final(self).held_velocities() == old(self).held_velocities()
                &&& final(self).cursor() == old(self).cursor()
            },
            !old(self).held().contains(note) && old(self).held().len() < MAX_ARP_NOTES ==> {
                let p = insertion_point(old(self).held(), note);
                &&& final(self).held() == old(self).held().insert(p, note)
                &&& final(self).held_velocities() == old(self).held_velocities().insert(p, velocity)
                &&& r == (old(self).held().len() == 0)
                &&& final(self).cursor() == if r { 0 } else { old(self).cursor() }
            },
    {
        if self.count >= MAX_ARP_NOTES || self.holds(note) {
            return false;
        }
        let ghost old_notes = self.notes@;
        let ghost old_vels = self.velocities@;
        let ghost held = self.held();
        let count = self.count;
        let was_empty = count == 0;
        // insertion point: the first held note above `note`
        assert(forall|k: int| 0 <= k < held.len() ==> held[k] != note);
        let mut i: usize = 0;
        while i < count && !(note < self.notes[i])
            invariant
                self.wf(),
                count == self.count,
                held == self.held(),
                i <= count,
                insertion_point_from(held, note, 0) == insertion_point_from(held, note, i as int),
                forall|k: int| 0 <= k < i ==> held[k] < note,
                forall|k: int| 0 <= k < held.len() ==> held[k] != note,
            decreases count - i,
        {
            assert(held[i as int] != note);
            i = i + 1;
        }
        let ip = i;
        assert(ip as int == insertion_point(held, note));
        assert(ip < count ==> note < held[ip as int]);
        // shift the notes from the insertion point one place up
        let mut j: usize = count;
        while j > ip
            invariant
                ip <= j <= count < MAX_ARP_NOTES,
                old_notes.len() == MAX_ARP_NOTES,
                old_vels.len() == MAX_ARP_NOTES,
                self.count == count,
                self.index == old(self).index,
                self.playing == old(self).playing,
                self.notes@.len() == MAX_ARP_NOTES,
                self.velocities@.len() == MAX_ARP_NOTES,
                forall|k: int| 0 <= k <= j ==> self.notes@[k] == old_notes[k],
                forall|k: int| j < k <= count ==> self.notes@[k] == old_notes[k - 1],
                forall|k: int| 0 <= k <= j ==> self.velocities@[k] == old_vels[k],
                forall|k: int| j < k <= count ==> self.velocities@[k] == old_vels[k - 1],
            decreases j,
        {
            let n = self.notes[j - 1];
            self.notes.set(j, n);
            let v = self.velocities[j - 1];
            self.velocities.set(j, v);
            j = j - 1;
        }
        self.notes.set(ip, note);
        self.velocities.set(ip, velocity);
        self.count = count + 1;
        if was_empty {
            self.index = 0;
        }
        proof {
            let p = ip as int;
            assert(self.held() =~= held.insert(p, note));
            assert(self.held_velocities() =~= old_vels.subrange(0, count as int).insert(p, velocity));
            assert forall|a: int, b: int| 0 <= a < b < self.held().len() implies self.held()[a]
                < self.held()[b] by {
                if b < p {
                } else if b == p {
                    assert(held[a] < note);
                } else if a < p {
                    assert(held[b - 1] >= note);
                    assert(held[a] < note);
                } else if a == p {
                    if p < count {
                        assert(note < held[p]);
                        assert(held[p] <= held[b - 1]);
                    }
                } else {
                }
            }
        }
        was_empty
    }


    /// Stops holding `note`. The cursor goes back to 0 when it no longer
    /// points inside the smaller, non-empty stack. A note that is not held
    /// changes nothing.
    pub fn remove_note(&mut self, note: u8)
        requires
            old(self).wf(),
        ensures
            final(self).wf(),
            final(self).playing() == old(self).playing(),
            !old(self).held().contains(note) ==> {
                &&& final(self).held() == old(self).held()
                &&& final(self).held_velocities() == old(self).held_velocities()
                &&& final(self).cursor() == old(self).cursor()
            },
            old(self).held().contains(note) ==> {
                let p = position_from(old(self).held(), note, 0);
                let n = old(self).held().len() - 1;
                &&& final(self).held() == old(self).held().remove(p)
                &&& final(self).held_velocities() == old(self).held_velocities().remove(p)
                &&& final(self).cursor() == if old(self).cursor() >= n && n > 0 {
                    0
                } else {
                    old(self).cursor()
                }
            },
    {
        let ghost old_notes = self.notes@;
        let ghost old_vels = self.velocities@;
        let ghost held = self.held();
        let count = self.count;
        let mut i: usize = 0;
        while i < count && self.notes[i] != note
            invariant
                self.wf(),
                count == self.count,
                held == self.held(),
                i <= count,
                position_from(held, note, 0) == position_from(held, note, i as int),
                forall|k: int| 0 <= k < i ==> held[k] != note,
            decreases count - i,
        {
            i = i + 1;
        }
        if i == count {
            assert(!held.contains(note));
            return;
        }
        let p = i;
        assert(p as int == position_from(held, note, 0));
        let mut j: usize = p;
        while j + 1 < count
            invariant
                p <= j < count <= MAX_ARP_NOTES,
                old_notes.len() == MAX_ARP_NOTES,
                old_vels.len() == MAX_ARP_NOTES,
                self.count == count,
                self.index == old(self).index,
                self.playing == old(self).playing,
                self.notes@.len() == MAX_ARP_NOTES,
                self.velocities@.len() == MAX_ARP_NOTES,
                forall|k: int| 0 <= k < p ==> self.notes@[k] == old_notes[k],
                forall|k: int| p <= k < j ==> self.notes@[k] == old_notes[k + 1],
                forall|k: int| j <= k < MAX_ARP_NOTES ==> self.notes@[k] == old_notes[k],
                forall|k: int| 0 <= k < p ==> self.velocities@[k] == old_vels[k],
                forall|k: int| p <= k < j ==> self.velocities@[k] == old_vels[k + 1],
                forall|k: int| j <= k < MAX_ARP_NOTES ==> self.velocities@[k] == old_vels[k],
            decreases count - j,
        {
            let n = self.notes[j + 1];
            self.notes.set(j, n);
            let v = self.velocities[j + 1];
            self.velocities.set(j, v);
            j = j + 1;
        }
        self.count = count - 1;
        if self.index >= self.count && self.count > 0 {
            self.index = 0;
        }
        proof {
            assert(self.held() =~= held.remove(p as int));
            assert(self.held_velocities() =~= old_vels.subrange(0, count as int).remove(p as int));
            assert forall|a: int, b: int| 0 <= a < b < self.held().len() implies self.held()[a]
                < self.held()[b] by {
                if b < p {
                } else if a < p {
                    assert(held[a] < held[b + 1]);
                } else {
                    assert(held[a + 1] < held[b + 1]);
                }
            }
        }
    }


    /// Plays one step: returns the note and velocity at `step_position` and
    /// moves the cursor to `next_cursor`. `rand` picks the step in Random
    /// mode and is ignored otherwise. An empty stack yields nothing.
    pub fn next_note(&mut self, mode: ArpMode, octaves: usize, rand: u32) -> (r: Option<(u8, u32)>)
        requires
            old(self).wf(),
            1 <= octaves <= MAX_ARP_OCTAVES,
        ensures
            final(self).wf(),
            final(self).held() == old(self).held(),
            final(self).held_velocities() == old(self).held_velocities(),
            final(self).playing() == old(self).playing(),
            old(self).held().len() == 0 ==> r.is_none() && final(self).cursor() == old(self).cursor(),
            old(self).held().len() > 0 ==> {
                let n = old(self).held().len() as int;
                let p = step_position(mode, old(self).cursor(), n, octaves as int, rand);
                &&& r == Some(step_note(old(self).held(), old(self).held_velocities(), p))
                &&& final(self).cursor() == next_cursor(mode, old(self).cursor(), n, octaves as int)
            },
    {
        if self.count == 0 {
            return None;
        }
        let n = self.count;
        proof {
            assert(n <= n * octaves <= MAX_ARP_OCTAVES * n) by (nonlinear_arith)
                requires
                    1 <= octaves <= MAX_ARP_OCTAVES,
                    0 < n <= MAX_ARP_NOTES,
            ;
        }
        let total = n * octaves;
        let cycle = if total > 1 {
            total * 2 - 2
        } else {
            1
        };
        let p: usize = match mode {
            ArpMode::Up => self.index,
            ArpMode::Down => total - 1 - self.index % total,
            ArpMode::UpDown => {
                let pos = self.index % cycle;
                if pos < total {
                    pos
                } else {
                    total * 2 - 2 - pos
                }
            },
            ArpMode::Random => (rand as usize) % total,
        };
        assert(p < 2 * MAX_ARP_OCTAVES * n);
        let ni = p % n;
        let o = p / n;
        proof {
            assert(p / n < 2 * MAX_ARP_OCTAVES) by (nonlinear_arith)
                requires
                    p < 2 * MAX_ARP_OCTAVES * n,
                    n > 0,
            ;
        }
        let t = self.notes[ni].saturating_add((o * 12) as u8);
        let v = self.velocities[ni];
        self.index = match mode {
            ArpMode::Up | ArpMode::Down => (self.index + 1) % total,
            ArpMode::UpDown => (self.index + 1) % cycle,
            ArpMode::Random => self.index,
        };
        Some((t, v))
    }

}

} // verus!
