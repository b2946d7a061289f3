//! Notes of a song, and the time windows in which they sound.

use std::collections::HashSet;
use vstd::prelude::*;

verus! {

/// Runway before the first note and after the last, in microseconds.
pub const LEAD_US: u64 = 3_000_000;

/// How long past its nominal end a note still counts as being in its window,
/// in microseconds. It keeps very short notes from flickering.
pub const GRACE_US: u64 = 500_000;

/// Lowest note number that has a key on the keyboard.
pub const FIRST_KEY: u8 = 36;

/// Highest note number that is played and highlighted.
pub const LAST_KEY: u8 = 105;

/// Number of slots in a highlight frame.
pub const KEY_COUNT: usize = 88;

/// What a frame tells the renderer about the keyboard: for each of the 88
/// keys whether it is lit, and by which track. The key of note number `n` is
/// in slot `n - 36`.
pub type HighlightFrame = [(bool, usize); 88];

/// Latest end that a note of a playable song may have, in microseconds.
pub const MAX_NOTE_END_US: u64 = 1_099_511_627_776;

/// One note of the merged, time-ordered note list. Times are in microseconds
/// from the beginning of the song.
#[derive(Clone, Copy, Debug, PartialEq, Eq)]
pub struct Note {
    pub id: usize,
    pub start: u64,
    pub duration: u64,
    pub channel: u8,
    pub number: u8,
    pub velocity: u8,
    pub track_id: usize,
}

impl Note {
    /// The nominal end of the note.
    pub open spec fn end(self) -> int {
        self.start + self.duration
    }

    /// The note ends no later than `MAX_NOTE_END_US`.
    pub open spec fn well_timed(self) -> bool {
        self.end() <= MAX_NOTE_END_US
    }

    /// The note is nominally sounding at song time `t`.
    pub open spec fn sounds_at(self, t: int) -> bool {
        self.start <= t <= self.end()
    }

    /// Song time `t` lies in the note's window: from its start until the
    /// grace period after its end has passed.
    pub open spec fn in_window(self, t: int) -> bool {
        self.start <= t < self.end() + GRACE_US
    }

    /// The note has a key on the keyboard and is not on a percussion channel.
    pub open spec fn playable(self) -> bool {
        &&& FIRST_KEY <= self.number <= LAST_KEY
        &&& self.channel != 8
        &&& self.channel != 9
    }

    /// The slot of the note's key in a highlight frame.
    pub open spec fn key(self) -> int {
        self.number - FIRST_KEY
    }

    /// Whether the note ends early enough to be played.
    pub fn is_well_timed(&self) -> (b: bool)
        ensures
            b == self.well_timed(),
    {
        self.start <= MAX_NOTE_END_US && self.duration <= MAX_NOTE_END_US - self.start
    }

    /// Whether the note is nominally sounding at song time `t`.
    pub fn is_sounding_at(&self, t: i64) -> (b: bool)
        requires
            self.well_timed(),
        ensures
            b == self.sounds_at(t as int),
    {
        t >= 0 && self.start <= t as u64 && t as u64 <= self.start + self.duration
    }

    /// Whether song time `t` lies in the window of the note.
    pub fn is_in_window(&self, t: i64) -> (b: bool)
        requires
            self.well_timed(),
        ensures
            b == self.in_window(t as int),
    {
        t >= 0 && self.start <= t as u64 && (t as u64) < self.start + self.duration + GRACE_US
    }

    /// Whether the note has a key and is not on a percussion channel.
    pub fn is_playable(&self) -> (b: bool)
        ensures
            b == self.playable(),
    {
        self.number >= FIRST_KEY && self.number <= LAST_KEY && self.channel != 9
            && self.channel != 8
    }

    /// The slot of the key of a playable note.
    pub fn key_index(&self) -> (k: usize)
        requires
            self.playable(),
        ensures
            k == self.key(),
            k < KEY_COUNT,
    {
        (self.number - FIRST_KEY) as usize
    }
}

/// Every note of the list ends no later than `MAX_NOTE_END_US`.
pub open spec fn all_well_timed(notes: Seq<Note>) -> bool {
    forall|i: int| 0 <= i < notes.len() ==> (#[trigger] notes[i]).well_timed()
}

/// No two notes of the list share an id.
pub open spec fn unique_ids(notes: Seq<Note>) -> bool {
    forall|i: int, j: int|
        0 <= i < notes.len() && 0 <= j < notes.len() && i != j ==> (#[trigger] notes[i]).id != (
        #[trigger] notes[j]).id
}

/// `v` is the earliest start among the notes, or zero for an empty list.
pub open spec fn is_song_start(notes: Seq<Note>, v: int) -> bool {
    if notes.len() == 0 {
        v == 0
    } else {
        &&& exists|i: int| 0 <= i < notes.len() && (#[trigger] notes[i]).start == v
        &&& forall|i: int| 0 <= i < notes.len() ==> v <= (#[trigger] notes[i]).start
    }
}

/// `v` is the latest end among the notes, or zero for an empty list.
pub open spec fn is_song_end(notes: Seq<Note>, v: int) -> bool {
    if notes.len() == 0 {
        v == 0
    } else {
        &&& exists|i: int| 0 <= i < notes.len() && (#[trigger] notes[i]).end() == v
        &&& forall|i: int| 0 <= i < notes.len() ==> (#[trigger] notes[i]).end() <= v
    }
}

/// The earliest start among the notes; zero for an empty list.
pub open spec fn song_start(notes: Seq<Note>) -> int {
    choose|v: int| is_song_start(notes, v)
}

/// The latest end among the notes; zero for an empty list.
pub open spec fn song_end(notes: Seq<Note>) -> int {
    choose|v: int| is_song_end(notes, v)
}

/// A list has one earliest start and one latest end.
pub proof fn lemma_song_bounds_unique(notes: Seq<Note>, first: int, last: int)
    requires
        is_song_start(notes, first),
        is_song_end(notes, last),
    ensures
        song_start(notes) == first,
        song_end(notes) == last,
{
    let f = song_start(notes);
    let l = song_end(notes);
    assert(is_song_start(notes, f));
    assert(is_song_end(notes, l));
    if notes.len() > 0 {
        let i = choose|i: int| 0 <= i < notes.len() && (#[trigger] notes[i]).start == first;
        let j = choose|j: int| 0 <= j < notes.len() && (#[trigger] notes[j]).start == f;
        assert(f <= notes[i].start && first <= notes[j].start);
        let a = choose|a: int| 0 <= a < notes.len() && (#[trigger] notes[a]).end() == last;
        let b = choose|b: int| 0 <= b < notes.len() && (#[trigger] notes[b]).end() == l;
        assert(notes[a].end() <= l && notes[b].end() <= last);
    }
}

/// Whether every note ends early enough for the song to be playable.
pub fn check_well_timed(notes: &Vec<Note>) -> (b: bool)
    ensures
        b == all_well_timed(notes@),
{
    let mut k: usize = 0;
    while k < notes.len()
        invariant
            k <= notes.len(),
            forall|i: int| 0 <= i < k ==> (#[trigger] notes@[i]).well_timed(),
        decreases notes.len() - k,
    {
        if !notes[k].is_well_timed() {
            return false;
        }
        k += 1;
    }
    true
}

/// Whether the ids of the notes are pairwise distinct.
pub fn check_unique_ids(notes: &Vec<Note>) -> (b: bool)
    ensures
        b == unique_ids(notes@),
{
    broadcast use vstd::std_specs::hash::group_hash_axioms;

    let mut seen: HashSet<usize> = HashSet::new();
    let mut k: usize = 0;
    while k < notes.len()
        invariant
            k <= notes.len(),
            unique_ids(notes@.take(k as int)),
            forall|id: usize|
                seen@.contains(id) <==> exists|i: int| 0 <= i < k && (#[trigger] notes@[i]).id == id,
        decreases notes.len() - k,
    {
        let id = notes[k].id;
        if !seen.insert(id) {
            proof {
                let i = choose|i: int| 0 <= i < k && (#[trigger] notes@[i]).id == id;
                assert(notes@[i].id == notes@[k as int].id);
            }
            return false;
        }
        proof {
            let next = notes@.take(k as int + 1);
            assert forall|i: int, j: int|
                0 <= i < next.len() && 0 <= j < next.len() && i != j implies (#[trigger] next[i]).id
                != (#[trigger] next[j]).id by {
                if i < k && j < k {
                    assert(notes@.take(k as int)[i] == next[i]);
                    assert(notes@.take(k as int)[j] == next[j]);
                } else if i == k {
                    assert(notes@[j].id != id);
                } else {
                    assert(notes@[i].id != id);
                }
            }
        }
        k += 1;
    }
    assert(notes@.take(k as int) =~= notes@);
    true
}

/// The earliest start and the latest end of the notes; zero and zero for an
/// empty list.
pub fn song_bounds(notes: &Vec<Note>) -> (bounds: (u64, u64))
    requires
        all_well_timed(notes@),
    ensures
        is_song_start(notes@, bounds.0 as int),
        is_song_end(notes@, bounds.1 as int),
        bounds.0 == song_start(notes@),
        bounds.1 == song_end(notes@),
        bounds.0 <= bounds.1 <= MAX_NOTE_END_US,
{
    if notes.len() == 0 {
        proof {
            lemma_song_bounds_unique(notes@, 0, 0);
        }
        return (0, 0);
    }
    let mut first: u64 = notes[0].start;
    let mut last: u64 = notes[0].start + notes[0].duration;
    let mut k: usize = 1;
    proof {
        let head = notes@.take(1);
        assert(head[0].start == first && head[0].end() == last);
    }
    while k < notes.len()
        invariant
            1 <= k <= notes.len(),
            all_well_timed(notes@),
            is_song_start(notes@.take(k as int), first as int),
            is_song_end(notes@.take(k as int), last as int),
            first <= last <= MAX_NOTE_END_US,
        decreases notes.len() - k,
    {
        let n = notes[k];
        let ghost before = notes@.take(k as int);
        let ghost after = notes@.take(k as int + 1);
        proof {
            assert(forall|i: int| 0 <= i < k ==> before[i] == after[i]);
            assert(after[k as int] == n);
            let i0 = choose|i: int| 0 <= i < before.len() && (#[trigger] before[i]).start == first;
            assert(after[i0].start == first);
            let i1 = choose|i: int| 0 <= i < before.len() && (#[trigger] before[i]).end() == last;
            assert(after[i1].end() == last);
        }
        if n.start < first {
            first = n.start;
        }
        if n.start + n.duration > last {
            last = n.start + n.duration;
        }
        k += 1;
    }
    assert(notes@.take(k as int) =~= notes@);
    proof {
        lemma_song_bounds_unique(notes@, first as int, last as int);
    }
    (first, last)
}

} // verus!
