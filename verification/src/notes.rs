//! The falling notes: one rectangle per playable note, laid out over its key.
//! Horizontal measures are in thousandths of a pixel, vertical ones in
//! microseconds.

use crate::note::{Note, FIRST_KEY};
use vstd::prelude::*;

verus! {

/// Shortest length that a falling note is drawn with, in microseconds.
pub const MIN_LENGTH_US: u64 = 100_000;

/// What is taken off the length of a falling note so that successive notes
/// on one key show a gap, in microseconds.
pub const GAP_US: u64 = 10_000;

/// What is taken off the width of a key to get the width of a falling note.
pub const SIDE_GAP: i64 = 1_000;

/// Number of keys that a layout must hold for every playable note to have
/// its key.
pub const PLAYABLE_KEYS: usize = 70;

/// A key of the on-screen keyboard.
#[derive(Clone, Copy, Debug, PartialEq, Eq)]
pub struct Key {
    pub x: i32,
    pub w: i32,
    pub is_black: bool,
}

/// The two colors of a track: one for white keys, one for black keys.
#[derive(Clone, Copy, Debug, PartialEq, Eq)]
pub struct TrackColor {
    pub base: (u8, u8, u8),
    pub dark: (u8, u8, u8),
}

/// One falling note, as the renderer draws it.
#[derive(Clone, Copy, Debug, PartialEq, Eq)]
pub struct NoteInstance {
    pub x: i64,
    pub start_us: u64,
    pub width: i64,
    pub length_us: u64,
    pub color: (u8, u8, u8),
    pub radius: u64,
}

/// Corner radius of the falling notes in thousandths: four times the
/// window's width over its height, and zero for a window without height.
pub open spec fn corner_radius(window_w: int, window_h: int) -> int {
    if window_h == 0 {
        0
    } else {
        4000 * window_w / window_h
    }
}

/// The color of a note on `key`: its track's color, taken from the schema
/// round-robin, in the shade for the kind of key.
pub open spec fn lane_color(n: Note, key: Key, schema: Seq<TrackColor>) -> (u8, u8, u8) {
    let color = schema[(n.track_id as int) % (schema.len() as int)];
    if key.is_black {
        color.dark
    } else {
        color.base
    }
}

/// The rectangle of a playable note.
pub open spec fn instance_of(n: Note, keys: Seq<Key>, schema: Seq<TrackColor>, radius: int)
    -> NoteInstance {
    let key = keys[n.key()];
    NoteInstance {
        x: key.x as i64,
        start_us: n.start,
        width: (key.w - SIDE_GAP) as i64,
        length_us: if n.duration >= MIN_LENGTH_US {
            (n.duration - GAP_US) as u64
        } else {
            (MIN_LENGTH_US - GAP_US) as u64
        },
        color: lane_color(n, key, schema),
        radius: radius as u64,
    }
}

/// The rectangles of the playable notes, in list order.
pub open spec fn placed(notes: Seq<Note>, keys: Seq<Key>, schema: Seq<TrackColor>, radius: int)
    -> Seq<NoteInstance>
    decreases notes.len(),
{
    if notes.len() == 0 {
        Seq::empty()
    } else {
        let before = placed(notes.drop_last(), keys, schema, radius);
        if notes.last().playable() {
            before.push(instance_of(notes.last(), keys, schema, radius))
        } else {
            before
        }
    }
}

/// Some note has no key: the song is wider than the keyboard.
pub open spec fn wider_than_keyboard(notes: Seq<Note>) -> bool {
    exists|i: int| 0 <= i < notes.len() && !(#[trigger] notes[i]).playable()
}

/// The shade of `next` that replaces the color of `inst` when the track
/// color `prev` gives way to `next`: the red of `inst` tells which shade of
/// `prev` it has. `None` if it has neither.
pub open spec fn reshaded(inst: NoteInstance, prev: TrackColor, next: TrackColor) -> Option<
    (u8, u8, u8),
> {
    if inst.color.0 == prev.dark.0 {
        Some(next.dark)
    } else if inst.color.0 == prev.base.0 {
        Some(next.base)
    } else {
        None
    }
}

/// `inst`, in its new shade if it had one of `prev`.
pub open spec fn recolored_one(inst: NoteInstance, prev: TrackColor, next: TrackColor)
    -> NoteInstance {
    match reshaded(inst, prev, next) {
        Some(color) => NoteInstance { color, ..inst },
        None => inst,
    }
}

/// The rectangles that change shade, in their new shade and in order.
pub open spec fn recolored_hits(buffer: Seq<NoteInstance>, prev: TrackColor, next: TrackColor)
    -> Seq<NoteInstance>
    decreases buffer.len(),
{
    if buffer.len() == 0 {
        Seq::empty()
    } else {
        let before = recolored_hits(buffer.drop_last(), prev, next);
        if reshaded(buffer.last(), prev, next) is Some {
            before.push(recolored_one(buffer.last(), prev, next))
        } else {
            before
        }
    }
}

/// Some rectangle has a shade of `prev`.
pub open spec fn any_hit(buffer: Seq<NoteInstance>, prev: TrackColor) -> bool {
    exists|i: int|
        0 <= i < buffer.len() && ((#[trigger] buffer[i]).color.0 == prev.dark.0
            || buffer[i].color.0 == prev.base.0)
}

/// The place in the schema of the color that `note_color` follows: the one
/// before it, and for zero the place given by the number of rectangles.
pub open spec fn previous_color(note_color: int, count: int) -> int {
    if note_color != 0 {
        note_color - 1
    } else {
        count - 1
    }
}

/// Corner radius of the falling notes for a window of the given size.
pub fn corner_radius_of(window_w: u32, window_h: u32) -> (r: u64)
    ensures
        r == corner_radius(window_w as int, window_h as int),
{
    if window_h == 0 {
        0
    } else {
        4000 * (window_w as u64) / (window_h as u64)
    }
}

/// The falling notes of a song. The renderer is handed the rectangles that
/// `resize` and `recolor` return.
pub struct Notes {
    /// Every rectangle that has been laid out so far.
    pub instance_buffer: Vec<NoteInstance>,
}

impl Notes {
    /// Lays the playable notes out over their keys.
    pub fn new(
        notes: &Vec<Note>,
        keys: &[Key],
        schema: &Vec<TrackColor>,
        window_w: u32,
        window_h: u32,
    ) -> (laid: Notes)
        requires
            keys@.len() >= PLAYABLE_KEYS,
            schema@.len() > 0,
        ensures
            laid.instance_buffer@ == placed(
                notes@,
                keys@,
                schema@,
                corner_radius(window_w as int, window_h as int),
            ),
    {
        let mut laid = Notes { instance_buffer: Vec::new() };
        let _ = laid.resize(notes, keys, schema, window_w, window_h);
        laid
    }

    /// Lays the playable notes out anew, for a window of the given size.
    /// Returns the new rectangles for the renderer, and whether some note
    /// had no key. The rectangles are also added to the buffer.
    pub fn resize(
        &mut self,
        notes: &Vec<Note>,
        keys: &[Key],
        schema: &Vec<TrackColor>,
        window_w: u32,
        window_h: u32,
    ) -> (out: (Vec<NoteInstance>, bool))
        requires
            keys@.len() >= PLAYABLE_KEYS,
            schema@.len() > 0,
        ensures
            out.0@ == placed(
                notes@,
                keys@,
                schema@,
                corner_radius(window_w as int, window_h as int),
            ),
            out.1 == wider_than_keyboard(notes@),
            final(self).instance_buffer@ == old(self).instance_buffer@ + out.0@,
    {
        let radius = corner_radius_of(window_w, window_h);
        let mut instances: Vec<NoteInstance> = Vec::new();
        let mut wider = false;
        let mut k: usize = 0;
        while k < notes.len()
            invariant
                k <= notes.len(),
                keys@.len() >= PLAYABLE_KEYS,
                schema@.len() > 0,
                radius == corner_radius(window_w as int, window_h as int),
                instances@ == placed(notes@.take(k as int), keys@, schema@, radius as int),
                wider == wider_than_keyboard(notes@.take(k as int)),
                self.instance_buffer@ == old(self).instance_buffer@ + instances@,
            decreases notes.len() - k,
        {
            let n = notes[k];
            proof {
                let next = notes@.take(k as int + 1);
                assert(next.drop_last() =~= notes@.take(k as int));
                assert(next.last() == n);
                if wider_than_keyboard(notes@.take(k as int)) {
                    let i = choose|i: int|
                        0 <= i < k && !(#[trigger] notes@.take(k as int)[i]).playable();
                    assert(next[i] == notes@.take(k as int)[i]);
                }
                if wider_than_keyboard(next) && n.playable() {
                    let i = choose|i: int| 0 <= i < next.len() && !(#[trigger] next[i]).playable();
                    assert(notes@.take(k as int)[i] == next[i]);
                }
                if !n.playable() {
                    assert(!next[k as int].playable());
                }
            }
            if n.is_playable() {
                let key = keys[(n.number - FIRST_KEY) as usize];
                let color = schema[n.track_id % schema.len()];
                let inst = NoteInstance {
                    x: key.x as i64,
                    start_us: n.start,
                    width: key.w as i64 - SIDE_GAP,
                    length_us: if n.duration >= MIN_LENGTH_US {
                        n.duration - GAP_US
                    } else {
                        MIN_LENGTH_US - GAP_US
                    },
                    color: if key.is_black {
                        color.dark
                    } else {
                        color.base
                    },
                    radius,
                };
                assert(inst == instance_of(n, keys@, schema@, radius as int));
                instances.push(inst);
                self.instance_buffer.push(inst);
            } else {
                wider = true;
            }
            k += 1;
        }
        assert(notes@.take(k as int) =~= notes@);
        (instances, wider)
    }

    /// Moves the rectangles of one track color on to the next: each
    /// rectangle whose red is that of a shade of the color before
    /// `note_color` in the schema takes the same shade of the color at
    /// `note_color`. Returns the rectangles that changed, for the renderer.
    pub fn recolor(&mut self, schema: &Vec<TrackColor>, note_color: usize) -> (changed: Vec<
        NoteInstance,
    >)
        requires
            old(self).instance_buffer@.len() > 0 ==> 0 <= previous_color(
                note_color as int,
                old(self).instance_buffer@.len() as int,
            ) < schema@.len(),
            old(self).instance_buffer@.len() > 0 && any_hit(
                old(self).instance_buffer@,
                schema@[previous_color(
                    note_color as int,
                    old(self).instance_buffer@.len() as int,
                )],
            ) ==> note_color < schema@.len(),
        ensures
            old(self).instance_buffer@.len() == 0 ==> changed@.len() == 0
                && final(self).instance_buffer@.len() == 0,
            old(self).instance_buffer@.len() > 0 ==> ({
                let prev = schema@[previous_color(
                    note_color as int,
                    old(self).instance_buffer@.len() as int,
                )];
                let next = schema@[note_color as int];
                &&& final(self).instance_buffer@.len() == old(self).instance_buffer@.len()
                &&& forall|x: int|
                    0 <= x < old(self).instance_buffer@.len() ==> final(self).instance_buffer@[x]
                        == recolored_one(#[trigger] old(self).instance_buffer@[x], prev, next)
                &&& changed@ == recolored_hits(old(self).instance_buffer@, prev, next)
            }),
    {
        let mut changed: Vec<NoteInstance> = Vec::new();
        let count = self.instance_buffer.len();
        if count == 0 {
            return changed;
        }
        let color_index = if note_color != 0 {
            note_color - 1
        } else {
            count - 1
        };
        let prev = schema[color_index];
        let ghost next = schema@[note_color as int];
        let ghost buffer = self.instance_buffer@;
        let mut x: usize = 0;
        while x < count
            invariant
                x <= count,
                count == buffer.len(),
                buffer == old(self).instance_buffer@,
                self.instance_buffer@.len() == count,
                prev == schema@[color_index as int],
                next == schema@[note_color as int],
                any_hit(buffer, prev) ==> note_color < schema@.len(),
                forall|i: int|
                    0 <= i < x ==> self.instance_buffer@[i] == recolored_one(
                        #[trigger] buffer[i],
                        prev,
                        next,
                    ),
                forall|i: int| x <= i < count ==> self.instance_buffer@[i] == buffer[i],
                changed@ == recolored_hits(buffer.take(x as int), prev, next),
            decreases count - x,
        {
            let inst = self.instance_buffer[x];
            proof {
                let upto = buffer.take(x as int + 1);
                assert(upto.drop_last() =~= buffer.take(x as int));
                assert(upto.last() == inst);
                assert(buffer[x as int] == inst);
            }
            if inst.color.0 == prev.dark.0 {
                let shade = schema[note_color].dark;
                let redone = NoteInstance { color: shade, ..inst };
                self.instance_buffer[x] = redone;
                changed.push(redone);
            } else if inst.color.0 == prev.base.0 {
                let shade = schema[note_color].base;
                let redone = NoteInstance { color: shade, ..inst };
                self.instance_buffer[x] = redone;
                changed.push(redone);
            }
            x += 1;
        }
        assert(buffer.take(x as int) =~= buffer);
        changed
    }
}

} // verus!
