//! What a scheduling pass does, as mathematics: which notes become active,
//! which events go out and which keys light up.

use crate::gate::{GateView, PendingNote};
use crate::note::{all_well_timed, unique_ids, Note, KEY_COUNT};
use crate::output::{release, strike, OutputEvent};
use vstd::prelude::*;

verus! {

/// The position of the note with id `id` in the list.
pub open spec fn index_of(notes: Seq<Note>, id: usize) -> int {
    choose|i: int| 0 <= i < notes.len() && (#[trigger] notes[i]).id == id
}

/// Every active entry is a note of the list, under its own id.
pub open spec fn active_within(notes: Seq<Note>, active: Map<usize, Note>) -> bool {
    forall|id: usize| #[trigger]
        active.contains_key(id) ==> exists|i: int|
            0 <= i < notes.len() && (#[trigger] notes[i]).id == id && active[id] == notes[i]
}

/// The notes that sound at song time `t`, by id.
pub open spec fn sounding_notes(notes: Seq<Note>, t: int) -> Map<usize, Note> {
    Map::new(
        |id: usize|
            exists|i: int|
                0 <= i < notes.len() && (#[trigger] notes[i]).id == id && notes[i].sounds_at(t),
        |id: usize| notes[index_of(notes, id)],
    )
}

/// The note-off events that silence every active note, in list order.
pub open spec fn releases(notes: Seq<Note>, active: Map<usize, Note>) -> Seq<OutputEvent>
    decreases notes.len(),
{
    if notes.len() == 0 {
        Seq::empty()
    } else {
        let rest = releases(notes.drop_last(), active);
        if active.contains_key(notes.last().id) {
            rest.push(release(notes.last()))
        } else {
            rest
        }
    }
}

/// `n` begins to sound in a pass at song time `t`: it sounds and is not
/// active.
pub open spec fn newly_sounding(n: Note, active: Map<usize, Note>, t: int) -> bool {
    n.sounds_at(t) && !active.contains_key(n.id)
}

/// `n` falls silent in a pass at song time `t`: it is active and does not
/// sound.
pub open spec fn falls_silent(n: Note, active: Map<usize, Note>, t: int) -> bool {
    !n.sounds_at(t) && active.contains_key(n.id)
}

/// What a scheduling pass at song time `t` emits for the note `n`: a note-on
/// if it begins to sound, a note-off if it falls silent, else nothing.
pub open spec fn pass_event(n: Note, active: Map<usize, Note>, t: int) -> Seq<OutputEvent> {
    if newly_sounding(n, active, t) {
        seq![strike(n)]
    } else if falls_silent(n, active, t) {
        seq![release(n)]
    } else {
        Seq::empty()
    }
}

/// What a scheduling pass without a gate emits at song time `t`, in list
/// order.
pub open spec fn pass_events(notes: Seq<Note>, active: Map<usize, Note>, t: int) -> Seq<
    OutputEvent,
>
    decreases notes.len(),
{
    if notes.len() == 0 {
        Seq::empty()
    } else {
        pass_events(notes.drop_last(), active, t) + pass_event(notes.last(), active, t)
    }
}

/// The held-back form of a note that has no key.
pub open spec fn held_back(n: Note) -> PendingNote {
    PendingNote { channel: n.channel, note: n.number, velocity: n.velocity }
}

/// The note gate after a scheduling pass at song time `t`: each note that
/// begins to sound is handed to it in list order, a playable one as part of the
/// chord, another to be held back.
pub open spec fn gate_after_pass(
    notes: Seq<Note>,
    active: Map<usize, Note>,
    gate: GateView,
    t: int,
) -> GateView
    decreases notes.len(),
{
    if notes.len() == 0 {
        gate
    } else {
        let before = gate_after_pass(notes.drop_last(), active, gate, t);
        let n = notes.last();
        if newly_sounding(n, active, t) {
            if n.playable() {
                before.requiring(n)
            } else {
                before.enqueued(held_back(n))
            }
        } else {
            before
        }
    }
}

/// A pass at song time `t` adds a note to the chord.
pub open spec fn any_required(notes: Seq<Note>, active: Map<usize, Note>, t: int) -> bool {
    exists|i: int|
        0 <= i < notes.len() && newly_sounding(#[trigger] notes[i], active, t)
            && notes[i].playable()
}

/// The frame `base` after every playable note whose window holds `t` has lit
/// its key with its track; of several notes on one key the last in the list
/// shows.
pub open spec fn highlighted(notes: Seq<Note>, base: Seq<(bool, usize)>, t: int) -> Seq<
    (bool, usize),
>
    decreases notes.len(),
{
    if notes.len() == 0 {
        base
    } else {
        let before = highlighted(notes.drop_last(), base, t);
        let n = notes.last();
        if n.in_window(t) && n.playable() {
            before.update(n.key(), (true, n.track_id))
        } else {
            before
        }
    }
}

/// The notes that a player is built on: the list as given, or none if a note
/// of it ends too late to be played.
pub open spec fn accepted_notes(notes: Seq<Note>) -> Seq<Note> {
    if all_well_timed(notes) {
        notes
    } else {
        Seq::empty()
    }
}

/// A frame in which no key is lit.
pub open spec fn dark_frame() -> Seq<(bool, usize)> {
    Seq::new(KEY_COUNT as nat, |k: int| (false, 0usize))
}

/// While no note sounds at song time `t` and none is active, a scheduling
/// pass emits nothing, activates nothing and hands nothing to the note gate.
pub proof fn lemma_silent_pass(notes: Seq<Note>, gate: GateView, t: int)
    requires
        forall|i: int| 0 <= i < notes.len() ==> !(#[trigger] notes[i]).sounds_at(t),
    ensures
        sounding_notes(notes, t) == Map::<usize, Note>::empty(),
        pass_events(notes, Map::<usize, Note>::empty(), t) == Seq::<OutputEvent>::empty(),
        gate_after_pass(notes, Map::<usize, Note>::empty(), gate, t) == gate,
        !any_required(notes, Map::<usize, Note>::empty(), t),
    decreases notes.len(),
{
    assert(sounding_notes(notes, t) =~= Map::<usize, Note>::empty());
    if notes.len() > 0 {
        let rest = notes.drop_last();
        assert forall|i: int| 0 <= i < rest.len() implies !(#[trigger] rest[i]).sounds_at(t) by {
            assert(rest[i] == notes[i]);
        }
        lemma_silent_pass(rest, gate, t);
        assert(!notes.last().sounds_at(t)) by {
            assert(notes.last() == notes[notes.len() - 1]);
        }
    }
}

/// Silencing twice is silencing once: with no active note there is nothing
/// to release.
pub proof fn lemma_clear_twice_is_silent(notes: Seq<Note>)
    ensures
        releases(notes, Map::<usize, Note>::empty()) == Seq::<OutputEvent>::empty(),
    decreases notes.len(),
{
    if notes.len() > 0 {
        lemma_clear_twice_is_silent(notes.drop_last());
    }
}

/// After a pass without a gate, a note of the list is active if and only if
/// it sounds.
pub proof fn lemma_active_iff_sounding(notes: Seq<Note>, t: int, i: int)
    requires
        unique_ids(notes),
        0 <= i < notes.len(),
    ensures
        sounding_notes(notes, t).contains_key(notes[i].id) <==> notes[i].sounds_at(t),
        notes[i].sounds_at(t) ==> sounding_notes(notes, t)[notes[i].id] == notes[i],
{
    if sounding_notes(notes, t).contains_key(notes[i].id) {
        let j = choose|j: int|
            0 <= j < notes.len() && (#[trigger] notes[j]).id == notes[i].id && notes[j].sounds_at(
                t,
            );
        assert(i == j);
    }
    if notes[i].sounds_at(t) {
        let j = index_of(notes, notes[i].id);
        assert(notes[j].id == notes[i].id);
        assert(i == j);
    }
}

/// The song times of the passes never go back.
pub open spec fn never_back(times: Seq<int>) -> bool {
    forall|a: int, b: int| 0 <= a <= b < times.len() ==> times[a] <= times[b]
}

/// The active notes before pass `k` of a playthrough without a gate that
/// begins with no note active and makes its passes at the song times
/// `times`: none before the first pass, afterwards those that sounded at the
/// pass before.
pub open spec fn active_before(notes: Seq<Note>, times: Seq<int>, k: int) -> Map<usize, Note> {
    if k <= 0 {
        Map::empty()
    } else {
        sounding_notes(notes, times[k - 1])
    }
}

/// Pass `k` of the playthrough emits the note-on of the note at `i`.
pub open spec fn struck_in(notes: Seq<Note>, times: Seq<int>, k: int, i: int) -> bool {
    newly_sounding(notes[i], active_before(notes, times, k), times[k])
}

/// Pass `k` of the playthrough emits the note-off of the note at `i`.
pub open spec fn released_in(notes: Seq<Note>, times: Seq<int>, k: int, i: int) -> bool {
    falls_silent(notes[i], active_before(notes, times, k), times[k])
}

/// In a playthrough whose song time never goes back, the note-on of a note
/// goes out exactly once: in the first pass at or after its start, if the
/// note still sounds then, and in no other.
pub proof fn lemma_note_on_exactly_once(notes: Seq<Note>, times: Seq<int>, i: int, k: int)
    requires
        unique_ids(notes),
        never_back(times),
        0 <= i < notes.len(),
        0 <= k < times.len(),
        notes[i].sounds_at(times[k]),
        k > 0 ==> times[k - 1] < notes[i].start,
    ensures
        forall|j: int| 0 <= j < times.len() ==> (struck_in(notes, times, j, i) <==> j == k),
{
    assert forall|j: int| 0 <= j < times.len() implies (struck_in(notes, times, j, i) <==> j
        == k) by {
        if j > 0 {
            lemma_active_iff_sounding(notes, times[j - 1], i);
        }
        if j < k {
            assert(times[j] <= times[k - 1]);
        } else if j > k {
            assert(times[k] <= times[j - 1] <= times[j]);
        }
    }
}

/// In such a playthrough the note-off of a note that was struck goes out
/// exactly once: in the first pass after its end, and in no other.
pub proof fn lemma_note_off_exactly_once(notes: Seq<Note>, times: Seq<int>, i: int, m: int)
    requires
        unique_ids(notes),
        never_back(times),
        0 <= i < notes.len(),
        0 < m < times.len(),
        notes[i].sounds_at(times[m - 1]),
        times[m] > notes[i].end(),
    ensures
        forall|j: int| 0 <= j < times.len() ==> (released_in(notes, times, j, i) <==> j == m),
{
    assert forall|j: int| 0 <= j < times.len() implies (released_in(notes, times, j, i) <==> j
        == m) by {
        if j > 0 {
            lemma_active_iff_sounding(notes, times[j - 1], i);
        }
        if 0 < j < m {
            assert(times[j - 1] <= times[j] <= times[m - 1]);
        } else if j > m {
            assert(times[m] <= times[j - 1]);
        }
    }
}

/// A note whose window the song time never enters while it sounds is
/// neither struck nor released.
pub proof fn lemma_note_never_sounding_is_silent(notes: Seq<Note>, times: Seq<int>, i: int)
    requires
        unique_ids(notes),
        0 <= i < notes.len(),
        forall|k: int| 0 <= k < times.len() ==> !notes[i].sounds_at(#[trigger] times[k]),
    ensures
        forall|j: int|
            0 <= j < times.len() ==> !struck_in(notes, times, j, i) && !released_in(
                notes,
                times,
                j,
                i,
            ),
{
    assert forall|j: int| 0 <= j < times.len() implies !struck_in(notes, times, j, i)
        && !released_in(notes, times, j, i) by {
        assert(!notes[i].sounds_at(times[j]));
        if j > 0 {
            lemma_active_iff_sounding(notes, times[j - 1], i);
            assert(!notes[i].sounds_at(times[j - 1]));
        }
    }
}

/// The note at `i` lights the key in slot `k` at song time `t`: it is
/// playable, `t` lies in its window and `k` is its key.
pub open spec fn lights(notes: Seq<Note>, t: int, k: int, i: int) -> bool {
    0 <= i < notes.len() && notes[i].playable() && notes[i].in_window(t) && notes[i].key() == k
}

/// A pass leaves a slot of the frame alone unless a note lights its key, and
/// then the slot shows the track of the last such note in the list. Notes
/// outside the keyboard's range or on a percussion channel light nothing.
pub proof fn lemma_highlighted_slot(notes: Seq<Note>, base: Seq<(bool, usize)>, t: int, k: int)
    requires
        base.len() == KEY_COUNT,
        0 <= k < KEY_COUNT,
    ensures
        highlighted(notes, base, t).len() == KEY_COUNT,
        (forall|i: int| !lights(notes, t, k, i)) ==> highlighted(notes, base, t)[k] == base[k],
        forall|i: int|
            lights(notes, t, k, i) && (forall|j: int| i < j ==> !lights(notes, t, k, j))
                ==> highlighted(notes, base, t)[k] == (true, notes[i].track_id),
    decreases notes.len(),
{
    if notes.len() > 0 {
        let rest = notes.drop_last();
        let last = notes.len() - 1;
        lemma_highlighted_slot(rest, base, t, k);
        assert forall|i: int| lights(rest, t, k, i) == (lights(notes, t, k, i) && i != last) by {
            if 0 <= i < last {
                assert(rest[i] == notes[i]);
            }
        }
        if forall|i: int| !lights(notes, t, k, i) {
            assert(!lights(notes, t, k, last));
            assert forall|i: int| !lights(rest, t, k, i) by {
                assert(!lights(notes, t, k, i));
            }
        }
        assert forall|i: int|
            lights(notes, t, k, i) && (forall|j: int| i < j ==> !lights(notes, t, k, j))
                implies highlighted(notes, base, t)[k] == (true, notes[i].track_id) by {
            if i != last {
                assert(!lights(notes, t, k, last));
                assert(lights(rest, t, k, i));
                assert forall|j: int| i < j implies !lights(rest, t, k, j) by {
                    assert(!lights(notes, t, k, j));
                }
                assert(rest[i] == notes[i]);
            }
        }
    }
}

/// A pass adds to the chord only playable notes that begin to sound, under
/// their own number: a note outside the keyboard's range or on a percussion
/// channel is never required.
pub proof fn lemma_chord_only_playable(
    notes: Seq<Note>,
    active: Map<usize, Note>,
    gate: GateView,
    t: int,
    number: u8,
)
    requires
        gate_after_pass(notes, active, gate, t).required.contains_key(number),
        !gate.required.contains_key(number),
    ensures
        exists|i: int|
            0 <= i < notes.len() && newly_sounding(#[trigger] notes[i], active, t)
                && notes[i].playable() && notes[i].number == number,
    decreases notes.len(),
{
    if notes.len() > 0 {
        let rest = notes.drop_last();
        let n = notes.last();
        if gate_after_pass(rest, active, gate, t).required.contains_key(number) {
            lemma_chord_only_playable(rest, active, gate, t, number);
            let i = choose|i: int|
                0 <= i < rest.len() && newly_sounding(#[trigger] rest[i], active, t)
                    && rest[i].playable() && rest[i].number == number;
            assert(notes[i] == rest[i]);
        } else {
            assert(notes[notes.len() - 1] == n);
            assert(newly_sounding(n, active, t) && n.playable() && n.number == number);
        }
    }
}

/// The events of a pass are the decisions of the pass, note by note: every
/// note that begins to sound has its note-on among them, every note that
/// falls silent its note-off, and there is no other event.
pub proof fn lemma_pass_events_are_decisions(notes: Seq<Note>, active: Map<usize, Note>, t: int)
    ensures
        forall|i: int|
            0 <= i < notes.len() && newly_sounding(#[trigger] notes[i], active, t)
                ==> pass_events(notes, active, t).contains(strike(notes[i])),
        forall|i: int|
            0 <= i < notes.len() && falls_silent(#[trigger] notes[i], active, t) ==> pass_events(
                notes,
                active,
                t,
            ).contains(release(notes[i])),
        forall|e: OutputEvent|
            pass_events(notes, active, t).contains(e) ==> exists|i: int|
                0 <= i < notes.len() && ((newly_sounding(#[trigger] notes[i], active, t) && e
                    == strike(notes[i])) || (falls_silent(notes[i], active, t) && e == release(
                    notes[i],
                ))),
    decreases notes.len(),
{
    if notes.len() > 0 {
        let rest = notes.drop_last();
        let n = notes.last();
        let last = notes.len() - 1;
        lemma_pass_events_are_decisions(rest, active, t);
        let head = pass_events(rest, active, t);
        let all = pass_events(notes, active, t);
        assert(all == head + pass_event(n, active, t));
        assert forall|k: int| 0 <= k < head.len() implies all[k] == head[k] by {}
        assert forall|i: int|
            0 <= i < notes.len() && newly_sounding(
                #[trigger] notes[i],
                active,
                t,
            ) implies all.contains(strike(notes[i])) by {
            if i < last {
                assert(rest[i] == notes[i]);
                let k = choose|k: int| 0 <= k < head.len() && head[k] == strike(rest[i]);
                assert(all[k] == strike(notes[i]));
            } else {
                assert(all[head.len() as int] == strike(n));
            }
        }
        assert forall|i: int|
            0 <= i < notes.len() && falls_silent(
                #[trigger] notes[i],
                active,
                t,
            ) implies all.contains(release(notes[i])) by {
            if i < last {
                assert(rest[i] == notes[i]);
                let k = choose|k: int| 0 <= k < head.len() && head[k] == release(rest[i]);
                assert(all[k] == release(notes[i]));
            } else {
                assert(all[head.len() as int] == release(n));
            }
        }
        assert forall|e: OutputEvent| all.contains(e) implies exists|i: int|
            0 <= i < notes.len() && ((newly_sounding(#[trigger] notes[i], active, t) && e
                == strike(notes[i])) || (falls_silent(notes[i], active, t) && e == release(
                notes[i],
            ))) by {
            let k = choose|k: int| 0 <= k < all.len() && all[k] == e;
            if k < head.len() {
                assert(head.contains(e));
                let i = choose|i: int|
                    0 <= i < rest.len() && ((newly_sounding(#[trigger] rest[i], active, t) && e
                        == strike(rest[i])) || (falls_silent(rest[i], active, t) && e == release(
                        rest[i],
                    )));
                assert(notes[i] == rest[i]);
            } else {
                assert(notes[last] == n);
            }
        }
    }
}

/// Silencing releases the active notes of the list and nothing else.
pub proof fn lemma_releases_are_the_active(notes: Seq<Note>, active: Map<usize, Note>)
    ensures
        forall|i: int|
            0 <= i < notes.len() && active.contains_key((#[trigger] notes[i]).id) ==> releases(
                notes,
                active,
            ).contains(release(notes[i])),
        forall|e: OutputEvent|
            releases(notes, active).contains(e) ==> exists|i: int|
                0 <= i < notes.len() && active.contains_key((#[trigger] notes[i]).id) && e
                    == release(notes[i]),
    decreases notes.len(),
{
    if notes.len() > 0 {
        let rest = notes.drop_last();
        let n = notes.last();
        let last = notes.len() - 1;
        lemma_releases_are_the_active(rest, active);
        let head = releases(rest, active);
        let all = releases(notes, active);
        assert forall|k: int| 0 <= k < head.len() implies all[k] == head[k] by {}
        assert forall|i: int|
            0 <= i < notes.len() && active.contains_key(
                (#[trigger] notes[i]).id,
            ) implies all.contains(release(notes[i])) by {
            if i < last {
                assert(rest[i] == notes[i]);
                let k = choose|k: int| 0 <= k < head.len() && head[k] == release(rest[i]);
                assert(all[k] == release(notes[i]));
            } else {
                assert(all[head.len() as int] == release(n));
            }
        }
        assert forall|e: OutputEvent| all.contains(e) implies exists|i: int|
            0 <= i < notes.len() && active.contains_key((#[trigger] notes[i]).id) && e == release(
                notes[i],
            ) by {
            let k = choose|k: int| 0 <= k < all.len() && all[k] == e;
            if k < head.len() {
                assert(head.contains(e));
                let i = choose|i: int|
                    0 <= i < rest.len() && active.contains_key((#[trigger] rest[i]).id) && e
                        == release(rest[i]);
                assert(notes[i] == rest[i]);
            } else {
                assert(notes[last] == n);
            }
        }
    }
}

} // verus!
