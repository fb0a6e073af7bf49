//! The note registry: which notes are sounding or releasing, and for how long.
//!
//! Times are counted in sample ticks.  A note keeps its identity across
//! blocks; the registry owns the mapping from MIDI pitch to note and keeps at
//! most one note per pitch.

use vstd::prelude::*;

verus! {

/// One active note, keyed by its MIDI pitch (`number`).
///
/// `time` is the number of sample ticks since the note started; it is the
/// authoritative clock for all per-sample offsets.  When the key is released
/// (`on == false`), `off_time` holds the value `time` had at that moment.
#[derive(Clone, Copy, PartialEq, Eq, Structural, Debug)]
pub struct Note {
    pub number: u8,
    pub velocity: u8,
    pub time: u64,
    pub off_time: u64,
    pub on: bool,
}

/// The note a registry stores right after `note_on(number, velocity)`.
pub open spec fn fresh_note(number: u8, velocity: u8) -> Note {
    Note { number, velocity, time: 0, off_time: 0, on: true }
}

/// `note` after its key is released, with the release timestamp recorded.
pub open spec fn released_note(note: Note) -> Note {
    Note { on: false, off_time: note.time, ..note }
}

/// `note` with its clock advanced by `delta` ticks.
pub open spec fn advanced_note(note: Note, delta: u64) -> Note {
    Note { time: (note.time + delta) as u64, ..note }
}

/// A purge with this threshold keeps exactly the notes that are still
/// sounding or whose time since release is below the threshold.
pub open spec fn outlives_purge(note: Note, threshold: u64) -> bool {
    note.on || note.time - note.off_time < threshold
}

/// Every note of `s` with its clock advanced by `delta` ticks.
pub open spec fn advanced_notes(s: Seq<Note>, delta: u64) -> Seq<Note> {
    Seq::new(s.len(), |i: int| advanced_note(s[i], delta))
}

impl Note {
    /// The pitch and velocity are seven-bit MIDI values, and a note that
    /// has been released was released no later than now.
    pub open spec fn wf(self) -> bool {
        &&& self.number <= 127
        &&& self.velocity <= 127
        &&& !self.on ==> self.off_time <= self.time
    }

    /// Starts a note at pitch `number` with the given velocity: the clock is
    /// at zero and the key held.
    pub fn new(number: u8, velocity: u8) -> (note: Note)
        requires
            number <= 127,
            velocity <= 127,
        ensures
            note == fresh_note(number, velocity),
            note.wf(),
    {
        Note { number, velocity, time: 0, off_time: 0, on: true }
    }

    /// Advances this note's clock by `delta` ticks.
    pub fn update_time(&mut self, delta: u64)
        requires
            old(self).time + delta <= u64::MAX,
        ensures
            *final(self) == advanced_note(*old(self), delta),
    {
        self.time = self.time + delta;
    }

    /// Marks the key released and records the current clock as the release time.
    pub fn turn_off(&mut self)
        ensures
            *final(self) == released_note(*old(self)),
    {
        self.on = false;
        self.off_time = self.time;
    }
}

/// True if some note in `s` has pitch `number`.
pub open spec fn has_pitch(s: Seq<Note>, number: u8) -> bool {
    exists|i: int| 0 <= i < s.len() && s[i].number == number
}

/// Index of the note with pitch `number` (meaningful when pitches are unique
/// and `has_pitch` holds).
pub open spec fn pitch_index(s: Seq<Note>, number: u8) -> int {
    choose|i: int| 0 <= i < s.len() && s[i].number == number
}

/// Keeps track of the notes the synthesizer is supposed to be playing.
pub struct Notebook {
    notes: Vec<Note>,
}

impl View for Notebook {
    type V = Seq<Note>;

    closed spec fn view(&self) -> Seq<Note> {
        self.notes@
    }
}

impl Notebook {
    /// Registry invariant: at most one note per pitch, and every note's
    /// release timestamp is consistent with its clock.
    pub open spec fn wf(self) -> bool {
        &&& forall|i: int, j: int|
            0 <= i < j < self@.len() ==> self@[i].number != self@[j].number
        &&& forall|i: int| 0 <= i < self@.len() ==> (#[trigger] self@[i]).wf()
    }

    /// An empty registry.
    pub fn new() -> (book: Notebook)
        ensures
            book@ == Seq::<Note>::empty(),
            book.wf(),
    {
        Notebook { notes: Vec::new() }
    }

    /// Inserts a fresh note for this pitch, overwriting (and thereby
    /// restarting) any note already stored under it.
    pub fn note_on(&mut self, number: u8, velocity: u8)
        requires
            old(self).wf(),
            number <= 127,
            velocity <= 127,
        ensures
            final(self).wf(),
            has_pitch(old(self)@, number) ==> final(self)@ == old(self)@.update(
                pitch_index(old(self)@, number),
                fresh_note(number, velocity),
            ),
            !has_pitch(old(self)@, number) ==> final(self)@ == old(self)@.push(
                fresh_note(number, velocity),
            ),
    {
        let fresh = Note::new(number, velocity);
        let n = self.notes.len();
        let mut i: usize = 0;
        while i < n
            invariant
                n == self.notes.len(),
                i <= n,
                self.wf(),
                self@ == old(self)@,
                fresh == fresh_note(number, velocity),
                fresh.wf(),
                forall|k: int| 0 <= k < i ==> self@[k].number != number,
            decreases n - i,
        {
            if self.notes[i].number == number {
                proof {
                    assert(has_pitch(old(self)@, number));
                    let c = pitch_index(old(self)@, number);
                    assert(0 <= c < old(self)@.len() && old(self)@[c].number == number);
                    assert(c == i as int);
                }
                self.notes[i] = fresh;
                proof {
                    let updated = old(self)@.update(i as int, fresh_note(number, velocity));
                    assert(self@ =~= updated);
                    assert forall|p: int, q: int|
                        0 <= p < q < self@.len() implies self@[p].number
                        != self@[q].number by {
                        assert(old(self)@[p].number != old(self)@[q].number);
                    }
                    assert forall|p: int| 0 <= p < self@.len() implies (
                    #[trigger] self@[p]).wf() by {
                        assert(old(self)@[p].wf());
                    }
                }
                return ;
            }
            i = i + 1;
        }
        proof {
            assert(!has_pitch(self@, number));
        }
        self.notes.push(fresh);
    }

    /// Releases the note at this pitch, if one is stored; a stray
    /// release for an absent pitch changes nothing.
    pub fn note_off(&mut self, number: u8)
        requires
            old(self).wf(),
        ensures
            final(self).wf(),
            final(self)@.len() == old(self)@.len(),
            forall|i: int|
                0 <= i < old(self)@.len() ==> final(self)@[i] == (if old(self)@[i].number
                    == number {
                    released_note(old(self)@[i])
                } else {
                    old(self)@[i]
                }),
    {
        let n = self.notes.len();
        let mut i: usize = 0;
        while i < n
            invariant
                n == self.notes.len(),
                i <= n,
                self.wf(),
                self@ == old(self)@,
                forall|k: int| 0 <= k < i ==> self@[k].number != number,
            decreases n - i,
        {
            if self.notes[i].number == number {
                let mut note = self.notes[i];
                note.turn_off();
                self.notes[i] = note;
                proof {
                    assert forall|k: int| 0 <= k < old(self)@.len() implies self@[k] == (
                    if old(self)@[k].number == number {
                        released_note(old(self)@[k])
                    } else {
                        old(self)@[k]
                    }) by {
                        if k != i as int {
                            assert(self@[k] == old(self)@[k]);
                        }
                    }
                }
                return ;
            }
            i = i + 1;
        }
    }

    /// A point-in-time copy of all stored notes, for one block's synthesis.
    pub fn get_notes(&self) -> (notes: Vec<Note>)
        ensures
            notes@ == self@,
    {
        let mut out: Vec<Note> = Vec::new();
        let n = self.notes.len();
        let mut i: usize = 0;
        while i < n
            invariant
                n == self.notes.len(),
                i <= n,
                out@ == self@.subrange(0, i as int),
            decreases n - i,
        {
            out.push(self.notes[i]);
            i = i + 1;
        }
        proof {
            assert(out@ =~= self@);
        }
        out
    }

    /// Advances every note's clock by `delta` ticks (one block's duration).
    pub fn update_note_times(&mut self, delta: u64)
        requires
            old(self).wf(),
            forall|i: int|
                0 <= i < old(self)@.len() ==> (#[trigger] old(self)@[i]).time + delta
                    <= u64::MAX,
        ensures
            final(self).wf(),
            final(self)@.len() == old(self)@.len(),
            forall|i: int|
                0 <= i < old(self)@.len() ==> final(self)@[i] == advanced_note(
                    old(self)@[i],
                    delta,
                ),
    {
        let n = self.notes.len();
        let mut i: usize = 0;
        while i < n
            invariant
                n == self.notes.len(),
                i <= n,
                old(self).wf(),
                self@.len() == old(self)@.len(),
                forall|k: int|
                    0 <= k < old(self)@.len() ==> (#[trigger] old(self)@[k]).time + delta
                        <= u64::MAX,
                forall|k: int| 0 <= k < i ==> self@[k] == advanced_note(old(self)@[k], delta),
                forall|k: int| i <= k < n ==> self@[k] == old(self)@[k],
            decreases n - i,
        {
            let mut note = self.notes[i];
            note.update_time(delta);
            self.notes[i] = note;
            i = i + 1;
        }
    }

    /// Removes every note whose key is released and whose time since release
    /// has reached the threshold, so the population stays bounded even if the
    /// host never reuses pitches.
    pub fn purge_old_notes(&mut self, threshold: u64)
        requires
            old(self).wf(),
        ensures
            final(self).wf(),
            final(self)@ == old(self)@.filter(|note: Note| outlives_purge(note, threshold)),
    {
        let mut kept: Vec<Note> = Vec::new();
        let n = self.notes.len();
        let mut i: usize = 0;
        while i < n
            invariant
                n == self.notes.len(),
                i <= n,
                self.wf(),
                self@ == old(self)@,
                kept@ == self@.subrange(0, i as int).filter(
                    |note: Note| outlives_purge(note, threshold),
                ),
            decreases n - i,
        {
            let note = self.notes[i];
            proof {
                reveal(Seq::filter);
                assert(self@.subrange(0, i as int + 1).drop_last() =~= self@.subrange(
                    0,
                    i as int,
                ));
                assert(self@.subrange(0, i as int + 1).last() == self@[i as int]);
            }
            if note.on || note.time - note.off_time < threshold {
                kept.push(note);
            }
            i = i + 1;
        }
        proof {
            assert(self@.subrange(0, n as int) =~= self@);
        }
        self.notes = kept;
        proof {
            lemma_filter_keeps_wf(old(self)@, threshold);
        }
    }
}

/// Filtering a well-formed note sequence keeps it well-formed: every kept
/// note occurs in the original sequence, pitches stay unique, and each note
/// stays consistent.
proof fn lemma_filter_keeps_wf(s: Seq<Note>, threshold: u64)
    requires
        forall|i: int, j: int| 0 <= i < j < s.len() ==> s[i].number != s[j].number,
        forall|i: int| 0 <= i < s.len() ==> (#[trigger] s[i]).wf(),
    ensures
        ({
            let f = s.filter(|note: Note| outlives_purge(note, threshold));
            &&& forall|i: int| 0 <= i < f.len() ==> s.contains(#[trigger] f[i])
            &&& forall|i: int, j: int| 0 <= i < j < f.len() ==> f[i].number != f[j].number
            &&& forall|i: int| 0 <= i < f.len() ==> (#[trigger] f[i]).wf()
        }),
    decreases s.len(),
{
    reveal(Seq::filter);
    let pred = |note: Note| outlives_purge(note, threshold);
    let f = s.filter(pred);
    if s.len() > 0 {
        let head = s.drop_last();
        assert(forall|i: int, j: int|
            0 <= i < j < head.len() ==> head[i].number != head[j].number);
        assert(forall|i: int| 0 <= i < head.len() ==> (#[trigger] head[i]).wf());
        lemma_filter_keeps_wf(head, threshold);
        let fh = head.filter(pred);
        assert forall|i: int| 0 <= i < f.len() implies s.contains(#[trigger] f[i]) by {
            if i < fh.len() {
                assert(head.contains(fh[i]));
                let k = choose|k: int| 0 <= k < head.len() && head[k] == fh[i];
                assert(s[k] == f[i]);
            } else {
                assert(f[i] == s[s.len() - 1]);
            }
        }
        assert forall|i: int, j: int|
            0 <= i < j < f.len() implies f[i].number != f[j].number by {
            if j < fh.len() {
                assert(fh[i].number != fh[j].number);
            } else {
                assert(f[j] == s.last());
                assert(head.contains(fh[i]));
                let k = choose|k: int| 0 <= k < head.len() && head[k] == fh[i];
                assert(s[k].number != s[s.len() - 1].number);
            }
        }
    }
}

/// Distinct seven-bit pitches bound the registry's population: a
/// well-formed note sequence holds at most one note per possible pitch.
pub proof fn lemma_unique_pitches_bound(s: Seq<Note>)
    requires
        forall|i: int, j: int| 0 <= i < j < s.len() ==> s[i].number != s[j].number,
        forall|i: int| 0 <= i < s.len() ==> (#[trigger] s[i]).number <= 127,
    ensures
        s.len() <= 128,
{
    let nums = Seq::new(s.len(), |i: int| s[i].number as int);
    assert(nums.no_duplicates());
    nums.unique_seq_to_set();
    vstd::set_lib::lemma_int_range(0, 128);
    assert(nums.to_set().subset_of(vstd::set_lib::set_int_range(0, 128))) by {
        assert forall|x: int| nums.to_set().contains(x) implies vstd::set_lib::set_int_range(
            0,
            128,
        ).contains(x) by {
            assert(nums.contains(x));
            let i = choose|i: int| 0 <= i < nums.len() && nums[i] == x;
            assert(0 <= s[i].number <= 127);
        }
    }
    vstd::set_lib::lemma_len_subset(nums.to_set(), vstd::set_lib::set_int_range(0, 128));
}

/// A purge keeps a stored note exactly when it is still sounding or its
/// time since release is below the threshold; in particular a released
/// note is removed as soon as its accumulated off-time reaches the
/// threshold, and not before.
pub proof fn lemma_purge_keeps_exactly(s: Seq<Note>, threshold: u64, i: int)
    requires
        0 <= i < s.len(),
    ensures
        outlives_purge(s[i], threshold) ==> s.filter(
            |note: Note| outlives_purge(note, threshold),
        ).contains(s[i]),
        !outlives_purge(s[i], threshold) ==> !s.filter(
            |note: Note| outlives_purge(note, threshold),
        ).contains(s[i]),
{
    broadcast use vstd::seq_lib::group_filter_ensures;

    let pred = |note: Note| outlives_purge(note, threshold);
    let f = s.filter(pred);
    if !pred(s[i]) && f.contains(s[i]) {
        let j = choose|j: int| 0 <= j < f.len() && f[j] == s[i];
        assert(pred(f[j]));
    }
}

} // verus!
