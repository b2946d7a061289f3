//! The player: it steps the stopwatch, keeps the set of sounding notes, emits
//! note-on and note-off events and tells the renderer which keys are lit.

use crate::config::{valid_speed, PlaybackConfig, MAX_SPEED_PERMILLE};
use crate::gate::{cleared_of, delivered_to, GateView, NoteGate};
use crate::note::{
    all_well_timed, check_well_timed, is_song_end, is_song_start, song_bounds, song_end,
    song_start, unique_ids, HighlightFrame, Note, LEAD_US, MAX_NOTE_END_US,
};
use crate::output::{OutputEvent, OutputSink};
use crate::position::{
    lemma_seek_reaches_progress, lemma_song_time_never_back, progress, raw_time, seek_target, song_time, FULL_PROGRESS_PPM,
    MAX_PROGRESS_PPM,
};
use crate::rewind::RewindController;
use crate::schedule::{
    accepted_notes, active_before, active_within, any_required, dark_frame, gate_after_pass,
    highlighted, index_of, lemma_silent_pass, never_back, newly_sounding, pass_events, releases,
    sounding_notes,
};
use crate::timer::{capped, Timer, MAX_ELAPSED_US};
use std::collections::HashMap;
use vstd::prelude::*;

verus! {

/// The state of a player as plain values.
pub struct PlayerView {
    pub notes: Seq<Note>,
    pub first_start: int,
    pub last_end: int,
    pub elapsed: int,
    pub paused: bool,
    pub active: Map<usize, Note>,
    /// Progress in millionths, as of the last update.
    pub percentage: int,
    /// Song time in microseconds, as of the last update.
    pub time: int,
    pub rewind: RewindController,
    pub gate: Option<GateView>,
}

impl PlayerView {
    /// The notes are playable and have distinct ids, the bounds are theirs,
    /// the stopwatch and the progress are within their ranges, and every
    /// active note is a note of the list.
    pub open spec fn wf(self) -> bool {
        &&& all_well_timed(self.notes)
        &&& unique_ids(self.notes)
        &&& is_song_start(self.notes, self.first_start)
        &&& is_song_end(self.notes, self.last_end)
        &&& 0 <= self.first_start <= self.last_end <= MAX_NOTE_END_US
        &&& 0 <= self.elapsed <= MAX_ELAPSED_US
        &&& 0 <= self.percentage <= MAX_PROGRESS_PPM
        &&& active_within(self.notes, self.active)
        &&& self.gate matches Some(g) ==> g.wf()
    }

    /// The state after the active notes and the chord have been dropped.
    pub open spec fn cleared(self) -> PlayerView {
        PlayerView {
            active: Map::empty(),
            gate: cleared_of(self.gate),
            ..self
        }
    }

    /// The state after a seek to the elapsed time `t`.
    pub open spec fn sought(self, t: int) -> PlayerView {
        PlayerView { elapsed: capped(t), ..self.cleared() }
    }

    /// The state after the keyboard scrub, if one is under way, has moved
    /// the position by its step.
    pub open spec fn scrubbed(self, speed: int) -> PlayerView {
        match self.rewind {
            RewindController::Keyboard { speed: step, .. } => self.sought(
                seek_target(self.percentage + step, speed, self.last_end),
            ),
            _ => self,
        }
    }

    /// What the keyboard scrub of an update emits: it silences the active
    /// notes.
    pub open spec fn scrub_events(self) -> Seq<OutputEvent> {
        match self.rewind {
            RewindController::Keyboard { .. } => releases(self.notes, self.active),
            _ => Seq::empty(),
        }
    }

    /// The state after `dt` microseconds have passed on the stopwatch and the
    /// position has been read off it.
    pub open spec fn ticked(self, speed: int, dt: int) -> PlayerView {
        let elapsed = if self.paused {
            self.elapsed
        } else {
            capped(self.elapsed + dt)
        };
        PlayerView {
            elapsed,
            percentage: progress(elapsed, speed, self.last_end),
            time: song_time(elapsed, speed, self.first_start),
            ..self
        }
    }

    /// The state after the note gate, if there is one, has had its frame.
    pub open spec fn polled(self) -> PlayerView {
        match self.gate {
            Some(g) => PlayerView {
                gate: Some(g.polled()),
                paused: self.paused && !g.poll_resumes(),
                ..self
            },
            None => self,
        }
    }

    /// What the frame of the note gate emits.
    pub open spec fn poll_events(self) -> Seq<OutputEvent> {
        match self.gate {
            Some(g) => g.poll_events(),
            None => Seq::empty(),
        }
    }

    /// The frame before the scheduling pass: the keys held on the input
    /// device with a gate, a dark frame without.
    pub open spec fn poll_frame(self) -> Seq<(bool, usize)> {
        match self.gate {
            Some(g) => g.overlay(),
            None => dark_frame(),
        }
    }

    /// The state after the scheduling pass at the current song time. While
    /// paused there is no pass. Without a gate the active notes become those
    /// that sound now. With a gate every note that sounds now is added to
    /// them and handed to the note gate, and the stopwatch pauses if the chord
    /// grew.
    pub open spec fn scheduled(self) -> PlayerView {
        if self.paused {
            self
        } else {
            match self.gate {
                None => PlayerView { active: sounding_notes(self.notes, self.time), ..self },
                Some(g) => PlayerView {
                    active: self.active.union_prefer_right(sounding_notes(self.notes, self.time)),
                    gate: Some(gate_after_pass(self.notes, self.active, g, self.time)),
                    paused: any_required(self.notes, self.active, self.time),
                    ..self
                },
            }
        }
    }

    /// What the scheduling pass emits: nothing while paused or gated.
    pub open spec fn schedule_events(self) -> Seq<OutputEvent> {
        if self.paused || self.gate is Some {
            Seq::empty()
        } else {
            pass_events(self.notes, self.active, self.time)
        }
    }

    /// The frame `base` after the scheduling pass has lit its keys.
    pub open spec fn schedule_frame(self, base: Seq<(bool, usize)>) -> Seq<(bool, usize)> {
        if self.paused {
            base
        } else {
            highlighted(self.notes, base, self.time)
        }
    }

    /// The state after one update at speed `speed` in which `dt`
    /// microseconds of wall-clock time have passed.
    pub open spec fn stepped(self, speed: int, dt: int) -> PlayerView {
        self.scrubbed(speed).ticked(speed, dt).polled().scheduled()
    }

    /// What that update emits.
    pub open spec fn step_events(self, speed: int, dt: int) -> Seq<OutputEvent> {
        let ticked = self.scrubbed(speed).ticked(speed, dt);
        self.scrub_events() + ticked.poll_events() + ticked.polled().schedule_events()
    }

    /// The highlight frame that the update returns.
    pub open spec fn step_frame(self, speed: int, dt: int) -> Seq<(bool, usize)> {
        let ticked = self.scrubbed(speed).ticked(speed, dt);
        ticked.polled().schedule_frame(ticked.poll_frame())
    }
}

/// A seek to the elapsed time `t` forgets the active notes, and the update
/// that follows it with no time passed reads the song time
/// `t * speed / 1000 + first_start - LEAD_US`, exactly. Left out: a seek
/// beyond the stopwatch's range, and a keyboard scrub under way, which moves
/// the position again before the clock is read.
pub proof fn lemma_seek_then_update(v: PlayerView, t: int, speed: int)
    requires
        v.wf(),
        0 <= t <= MAX_ELAPSED_US,
        !(v.rewind is Keyboard),
    ensures
        v.sought(t).active == Map::<usize, Note>::empty(),
        v.sought(t).stepped(speed, 0).time == t * speed / 1000 + v.first_start - LEAD_US,
        v.sought(t).stepped(speed, 0).elapsed == t,
{
}

/// A seek to the progress `p` forgets the active notes, and the update that
/// follows it with no time passed reads a progress of at most `p` that falls
/// short of it by less than `1 + 1000 * (speed + 1000) / (last_end +
/// LEAD_US)` millionths. If the stopwatch is still paused when the
/// scheduling pass is due, no note is active after that update either. Left
/// out: a position before the beginning or beyond the stopwatch's range, and
/// a keyboard scrub under way.
pub proof fn lemma_seek_percentage_then_update(v: PlayerView, p: int, speed: int)
    requires
        v.wf(),
        valid_speed(speed),
        0 <= p,
        seek_target(p, speed, v.last_end) <= MAX_ELAPSED_US,
        !(v.rewind is Keyboard),
    ensures
        ({
            let seeked = v.sought(seek_target(p, speed, v.last_end));
            let after = seeked.stepped(speed, 0);
            &&& seeked.active == Map::<usize, Note>::empty()
            &&& after.percentage <= p
            &&& (p - after.percentage - 1) * (v.last_end + LEAD_US) < (speed + 1000) * 1000
            &&& seeked.ticked(speed, 0).polled().paused ==> after.active == Map::<
                usize,
                Note,
            >::empty()
        }),
{
    lemma_seek_reaches_progress(p, speed, v.last_end);
    let t = seek_target(p, speed, v.last_end);
    assert(0 <= t) by (nonlinear_arith)
        requires
            t == seek_target(p, speed, v.last_end),
            p >= 0,
            v.last_end >= 0,
            speed >= 1,
    ;
}

/// An update of a running player without a gate and without a keyboard
/// scrub is the stopwatch's step and the scheduling pass at the new song
/// time: afterwards exactly the notes that sound are active, the events are
/// those of the pass, and the frame is dark but for the keys that the pass
/// lights.
pub proof fn lemma_plain_update(v: PlayerView, speed: int, dt: int)
    requires
        v.gate is None,
        !v.paused,
        !(v.rewind is Keyboard),
    ensures
        ({
            let elapsed = capped(v.elapsed + dt);
            let time = song_time(elapsed, speed, v.first_start);
            &&& v.stepped(speed, dt) == (PlayerView {
                elapsed,
                percentage: progress(elapsed, speed, v.last_end),
                time,
                active: sounding_notes(v.notes, time),
                ..v
            })
            &&& v.step_events(speed, dt) == pass_events(v.notes, v.active, time)
            &&& v.step_frame(speed, dt) == highlighted(v.notes, dark_frame(), time)
        }),
{
    let time = song_time(capped(v.elapsed + dt), speed, v.first_start);
    assert(v.step_events(speed, dt) =~= pass_events(v.notes, v.active, time));
}

/// While the stopwatch is paused when the scheduling pass is due, an update
/// emits nothing for the notes, activates none and lights no key of its own.
pub proof fn lemma_paused_update(v: PlayerView, speed: int, dt: int)
    requires
        v.scrubbed(speed).ticked(speed, dt).polled().paused,
    ensures
        v.stepped(speed, dt).active == v.scrubbed(speed).active,
        v.step_events(speed, dt) == v.scrub_events() + v.scrubbed(speed).poll_events(),
        v.step_frame(speed, dt) == v.scrubbed(speed).poll_frame(),
{
    assert(v.step_events(speed, dt) =~= v.scrub_events() + v.scrubbed(speed).poll_events());
}

/// While a chord is due, an update of a paused player leaves the stopwatch
/// paused where it is and the active notes as they are, however much time
/// has passed. Left out: a keyboard scrub under way, whose seek drops the
/// chord.
pub proof fn lemma_update_waits_for_chord(v: PlayerView, speed: int, dt: int)
    requires
        v.paused,
        v.gate matches Some(g) && !g.required.is_empty(),
        !(v.rewind is Keyboard),
    ensures
        v.stepped(speed, dt).paused,
        v.stepped(speed, dt).elapsed == v.elapsed,
        v.stepped(speed, dt).active == v.active,
        v.stepped(speed, dt).gate->0.required == v.gate->0.required,
{
}

impl PlayerView {
    /// The state after one update for each entry of `dts`, in their order,
    /// all at the speed `speed`.
    pub open spec fn after_updates(self, speed: int, dts: Seq<int>) -> PlayerView
        decreases dts.len(),
    {
        if dts.len() == 0 {
            self
        } else {
            self.after_updates(speed, dts.drop_last()).stepped(speed, dts.last())
        }
    }

    /// The song times that those updates read, one after the other.
    pub open spec fn times_of_updates(self, speed: int, dts: Seq<int>) -> Seq<int> {
        Seq::new(dts.len(), |k: int| self.after_updates(speed, dts.take(k + 1)).time)
    }

    /// A player that plays by itself: no note gate, running, nothing
    /// scrubbing.
    pub open spec fn plays_freely(self) -> bool {
        &&& self.gate is None
        &&& !self.paused
        &&& self.rewind is Idle
        &&& 0 <= self.elapsed <= MAX_ELAPSED_US
    }
}

/// A player that plays by itself keeps doing so from update to update; its
/// notes and bounds stay, its stopwatch never goes back, and after each
/// update exactly the notes that sound at the song time it read are active.
pub proof fn lemma_free_run(v: PlayerView, speed: int, dts: Seq<int>, k: int)
    requires
        v.plays_freely(),
        forall|i: int| 0 <= i < dts.len() ==> dts[i] >= 0,
        0 <= k <= dts.len(),
    ensures
        ({
            let now = v.after_updates(speed, dts.take(k));
            &&& now.plays_freely()
            &&& now.notes == v.notes
            &&& now.first_start == v.first_start
            &&& now.last_end == v.last_end
            &&& v.elapsed <= now.elapsed
            &&& k > 0 ==> {
                let before = v.after_updates(speed, dts.take(k - 1));
                &&& before.elapsed <= now.elapsed
                &&& now.time == song_time(now.elapsed, speed, v.first_start)
                &&& now.active == sounding_notes(v.notes, now.time)
                &&& before.step_events(speed, dts[k - 1]) == pass_events(
                    v.notes,
                    before.active,
                    now.time,
                )
                &&& before.step_frame(speed, dts[k - 1]) == highlighted(
                    v.notes,
                    dark_frame(),
                    now.time,
                )
            }
        }),
    decreases k,
{
    if k > 0 {
        lemma_free_run(v, speed, dts, k - 1);
        let upto = dts.take(k);
        assert(upto.drop_last() =~= dts.take(k - 1));
        assert(upto.last() == dts[k - 1]);
        let before = v.after_updates(speed, dts.take(k - 1));
        lemma_plain_update(before, speed, dts[k - 1]);
    } else {
        assert(dts.take(0) =~= Seq::<int>::empty());
    }
}

/// Across the updates of a player that plays by itself at a fixed speed, the
/// song time never goes back, and each update is a scheduling pass of the
/// playthrough that those song times make: from no active note, what an
/// update finds active is what sounded at the update before.
pub proof fn lemma_free_run_is_a_playthrough(v: PlayerView, speed: int, dts: Seq<int>)
    requires
        v.plays_freely(),
        v.active == Map::<usize, Note>::empty(),
        0 <= speed,
        forall|i: int| 0 <= i < dts.len() ==> dts[i] >= 0,
    ensures
        never_back(v.times_of_updates(speed, dts)),
        forall|k: int|
            0 <= k < dts.len() ==> {
                let times = v.times_of_updates(speed, dts);
                let before = #[trigger] v.after_updates(speed, dts.take(k));
                &&& before.active == active_before(v.notes, times, k)
                &&& before.step_events(speed, dts[k]) == pass_events(
                    v.notes,
                    active_before(v.notes, times, k),
                    times[k],
                )
            },
{
    let times = v.times_of_updates(speed, dts);
    assert forall|a: int, b: int| 0 <= a <= b < times.len() implies times[a] <= times[b] by {
        lemma_free_run_elapsed(v, speed, dts, a + 1, b + 1);
        lemma_free_run(v, speed, dts, a + 1);
        lemma_free_run(v, speed, dts, b + 1);
        lemma_song_time_never_back(
            v.after_updates(speed, dts.take(a + 1)).elapsed,
            v.after_updates(speed, dts.take(b + 1)).elapsed,
            speed,
            v.first_start,
        );
    }
    assert forall|k: int| 0 <= k < dts.len() implies {
        let before = #[trigger] v.after_updates(speed, dts.take(k));
        &&& before.active == active_before(v.notes, times, k)
        &&& before.step_events(speed, dts[k]) == pass_events(
            v.notes,
            active_before(v.notes, times, k),
            times[k],
        )
    } by {
        lemma_free_run(v, speed, dts, k);
        lemma_free_run(v, speed, dts, k + 1);
        if k == 0 {
            assert(dts.take(0) =~= Seq::<int>::empty());
        }
    }
}

/// The stopwatch of a player that plays by itself shows no less after more
/// updates.
proof fn lemma_free_run_elapsed(v: PlayerView, speed: int, dts: Seq<int>, a: int, b: int)
    requires
        v.plays_freely(),
        forall|i: int| 0 <= i < dts.len() ==> dts[i] >= 0,
        0 <= a <= b <= dts.len(),
    ensures
        v.after_updates(speed, dts.take(a)).elapsed <= v.after_updates(speed, dts.take(b)).elapsed,
    decreases b - a,
{
    if a < b {
        lemma_free_run_elapsed(v, speed, dts, a, b - 1);
        lemma_free_run(v, speed, dts, b);
    }
}

/// Plays one song: steps the stopwatch, tracks which notes sound and emits
/// their events.
pub struct Player {
    notes: Vec<Note>,
    first_note_start: u64,
    last_note_end: u64,
    active: HashMap<usize, Note>,
    timer: Timer,
    percentage: u64,
    time: i64,
    rewind: RewindController,
    gate: NoteGate,
}

impl View for Player {
    type V = PlayerView;

    closed spec fn view(&self) -> PlayerView {
        PlayerView {
            notes: self.notes@,
            first_start: self.first_note_start as int,
            last_end: self.last_note_end as int,
            elapsed: self.timer.elapsed(),
            paused: self.timer.paused(),
            active: self.active@,
            percentage: self.percentage as int,
            time: self.time as int,
            rewind: self.rewind,
            gate: self.gate@,
        }
    }
}

impl Player {
    /// The state of a new player for `notes`: one lead-in before the first
    /// note, running, with no note active, and gated if `gated`.
    pub open spec fn new_view(notes: Seq<Note>, gated: bool) -> PlayerView {
        let accepted = accepted_notes(notes);
        let first_start = song_start(accepted);
        PlayerView {
            notes: accepted,
            first_start,
            last_end: song_end(accepted),
            elapsed: 0,
            paused: false,
            active: Map::empty(),
            percentage: 0,
            time: first_start - LEAD_US,
            rewind: RewindController::Idle,
            gate: if gated {
                Some(GateView::fresh())
            } else {
                None
            },
        }
    }

    /// A player for `notes`, one lead-in before the first of them, running,
    /// with no note active. The session is gated if `config` asks for
    /// play-along and an input device is at hand. A list with a note that
    /// ends after `MAX_NOTE_END_US` is played as an empty song.
    pub fn new(notes: Vec<Note>, config: &PlaybackConfig, input_available: bool) -> (player: Player)
        requires
            unique_ids(notes@),
        ensures
            player@.wf(),
            player@ == Self::new_view(notes@, config.wants_play_along() && input_available),
    {
        let notes = if check_well_timed(&notes) {
            notes
        } else {
            Vec::new()
        };
        let (first_note_start, last_note_end) = song_bounds(&notes);
        let gate = NoteGate::select(config, input_available);
        let mut player = Player {
            notes,
            first_note_start,
            last_note_end,
            active: HashMap::new(),
            timer: Timer::new(),
            percentage: 0,
            time: 0,
            rewind: RewindController::Idle,
            gate,
        };
        let ghost before = player@;
        let ghost speed = config.speed();
        let mut sink = OutputSink::new();
        // Primes progress and song time; before the first note nothing sounds.
        player.update(config, 0, &mut sink);
        proof {
            let ticked = before.scrubbed(speed).ticked(speed, 0);
            assert(ticked.elapsed == 0);
            assert(0int * speed == 0) by (nonlinear_arith);
            assert(raw_time(0, speed) == 0);
            assert(ticked.percentage == 0) by {
                assert(0int * 1_000_000 / (before.last_end + LEAD_US) == 0) by (nonlinear_arith)
                    requires
                        before.last_end + LEAD_US > 0,
                ;
            }
            let t = ticked.time;
            assert(t == before.first_start - LEAD_US);
            let polled = ticked.polled();
            if before.gate is Some {
                assert(GateView::fresh().polled().required =~= GateView::fresh().required);
                assert(GateView::fresh().polled() == GateView::fresh());
            }
            assert(polled == ticked);
            assert forall|i: int| 0 <= i < before.notes.len() implies !(
            #[trigger] before.notes[i]).sounds_at(t) by {}
            match before.gate {
                Some(g) => {
                    lemma_silent_pass(before.notes, g, t);
                    assert(before.active.union_prefer_right(sounding_notes(before.notes, t))
                        =~= Map::<usize, Note>::empty());
                },
                None => {
                    lemma_silent_pass(before.notes, GateView::fresh(), t);
                },
            }
        }
        player
    }

    /// Emits a note-off for every active note, in list order, and forgets
    /// the active notes and the chord.
    pub fn clear(&mut self, sink: &mut OutputSink)
        requires
            old(self)@.wf(),
        ensures
            final(self)@.wf(),
            final(self)@ == old(self)@.cleared(),
            final(sink)@ == old(sink)@ + releases(old(self)@.notes, old(self)@.active),
    {
        broadcast use vstd::std_specs::hash::group_hash_axioms;

        let mut k: usize = 0;
        while k < self.notes.len()
            invariant
                k <= self.notes.len(),
                *self == *old(self),
                sink@ == old(sink)@ + releases(self.notes@.take(k as int), self.active@),
            decreases self.notes.len() - k,
        {
            let n = self.notes[k];
            proof {
                let next = self.notes@.take(k as int + 1);
                assert(next.drop_last() =~= self.notes@.take(k as int));
                assert(next.last() == n);
            }
            if self.active.contains_key(&n.id) {
                sink.release(&n);
            }
            k += 1;
        }
        assert(self.notes@.take(k as int) =~= self.notes@);
        self.active.clear();
        self.gate.clear();
    }

    /// Starts the stopwatch from zero.
    pub fn start(&mut self)
        requires
            old(self)@.wf(),
        ensures
            final(self)@.wf(),
            final(self)@ == (PlayerView { elapsed: 0, paused: false, ..old(self)@ }),
    {
        self.timer.start();
    }

    /// Silences every active note, then toggles between paused and playing.
    pub fn pause_resume(&mut self, sink: &mut OutputSink)
        requires
            old(self)@.wf(),
        ensures
            final(self)@.wf(),
            final(self)@ == (PlayerView { paused: !old(self)@.paused, ..old(self)@.cleared() }),
            final(sink)@ == old(sink)@ + releases(old(self)@.notes, old(self)@.active),
    {
        self.clear(sink);
        self.timer.pause_resume();
    }

    /// Pauses the stopwatch and begins scrubbing as `state` says.
    pub fn start_rewind(&mut self, state: RewindController)
        requires
            old(self)@.wf(),
        ensures
            final(self)@.wf(),
            final(self)@ == (PlayerView { paused: true, rewind: state, ..old(self)@ }),
    {
        self.rewind.start_rewind(&mut self.timer, state);
    }

    /// Ends scrubbing. The stopwatch resumes only if it was running when
    /// scrubbing began. Without scrubbing under way nothing changes.
    pub fn stop_rewind(&mut self)
        requires
            old(self)@.wf(),
        ensures
            final(self)@.wf(),
            final(self)@ == (PlayerView {
                paused: old(self)@.rewind.paused_after_stop(old(self)@.paused),
                rewind: RewindController::Idle,
                ..old(self)@
            }),
    {
        self.rewind.stop_rewind(&mut self.timer);
    }

    /// Seeks to the elapsed time `t_us` and silences every active note. The
    /// paused flag is left alone.
    pub fn set_time(&mut self, t_us: u64, sink: &mut OutputSink)
        requires
            old(self)@.wf(),
        ensures
            final(self)@.wf(),
            final(self)@ == old(self)@.sought(t_us as int),
            final(sink)@ == old(sink)@ + releases(old(self)@.notes, old(self)@.active),
    {
        self.timer.set_time(t_us);
        self.clear(sink);
    }

    /// Seeks to the progress `p_ppm`, in millionths of the song, at the
    /// speed of `config`.
    pub fn set_percentage_time(&mut self, config: &PlaybackConfig, p_ppm: i64, sink: &mut OutputSink)
        requires
            old(self)@.wf(),
        ensures
            final(self)@.wf(),
            final(self)@ == old(self)@.sought(
                seek_target(p_ppm as int, config.speed(), old(self)@.last_end),
            ),
            final(sink)@ == old(sink)@ + releases(old(self)@.notes, old(self)@.active),
    {
        let speed = config.speed_permille();
        self.seek(speed, p_ppm as i128, sink);
    }

    /// Progress through the song in millionths, as of the last update.
    pub fn percentage_ppm(&self) -> (p: u64)
        ensures
            p == self@.percentage,
    {
        self.percentage
    }

    /// Song time in microseconds, as of the last update.
    pub fn time_us(&self) -> (t: i64)
        ensures
            t == self@.time,
    {
        self.time
    }

    /// Whether the stopwatch is paused.
    pub fn is_paused(&self) -> (p: bool)
        ensures
            p == self@.paused,
    {
        self.timer.is_paused()
    }

    /// The elapsed time on the stopwatch, in microseconds.
    pub fn elapsed_us(&self) -> (e: u64)
        ensures
            e == self@.elapsed,
    {
        self.timer.elapsed_us()
    }

    /// What is scrubbing, if anything.
    pub fn rewind(&self) -> (r: RewindController)
        ensures
            r == self@.rewind,
    {
        self.rewind
    }

    /// Whether a scrub is under way.
    pub fn is_rewinding(&self) -> (b: bool)
        ensures
            b == self@.rewind.rewinding(),
    {
        self.rewind.is_rewinding()
    }

    /// The earliest start among the notes; zero without notes.
    pub fn first_note_start(&self) -> (t: u64)
        ensures
            t == self@.first_start,
    {
        self.first_note_start
    }

    /// The latest end among the notes; zero without notes.
    pub fn last_note_end(&self) -> (t: u64)
        ensures
            t == self@.last_end,
    {
        self.last_note_end
    }

    /// Whether the note with id `id` is active: its note-on went out and its
    /// note-off has not.
    pub fn is_active(&self, id: usize) -> (b: bool)
        ensures
            b == self@.active.contains_key(id),
    {
        broadcast use vstd::std_specs::hash::group_hash_axioms;

        self.active.contains_key(&id)
    }

    /// The number of active notes.
    pub fn active_count(&self) -> (n: usize)
        ensures
            n == self@.active.len(),
    {
        broadcast use vstd::std_specs::hash::group_hash_axioms;

        self.active.len()
    }

    /// Whether play-along gates this session.
    pub fn is_gated(&self) -> (b: bool)
        ensures
            b == (self@.gate is Some),
    {
        self.gate.is_engaged()
    }

    /// The song has been played to its end.
    pub fn is_finished(&self) -> (b: bool)
        ensures
            b == (self@.percentage >= FULL_PROGRESS_PPM),
    {
        self.percentage >= FULL_PROGRESS_PPM
    }

    /// Hands a raw message of the input device to the note gate. Without a gate
    /// the message is dropped.
    pub fn deliver_input(&mut self, message: &[u8])
        requires
            old(self)@.wf(),
        ensures
            final(self)@.wf(),
            final(self)@ == (PlayerView {
                gate: delivered_to(old(self)@.gate, message@),
                ..old(self)@
            }),
    {
        self.gate.deliver(message);
    }

    /// The scheduling pass of a session without a gate, at the current song
    /// time: lights the keys of the notes in their window, releases the
    /// active notes that no longer sound and strikes those that begin to.
    fn pass_open(&mut self, frame: &mut HighlightFrame, sink: &mut OutputSink)
        requires
            old(self)@.wf(),
            old(self)@.gate is None,
        ensures
            final(self)@.wf(),
            final(self)@ == (PlayerView {
                active: sounding_notes(old(self)@.notes, old(self)@.time),
                ..old(self)@
            }),
            final(sink)@ == old(sink)@ + pass_events(
                old(self)@.notes,
                old(self)@.active,
                old(self)@.time,
            ),
            final(frame)@ == highlighted(old(self)@.notes, old(frame)@, old(self)@.time),
    {
        broadcast use vstd::std_specs::hash::group_hash_axioms;

        let t = self.time;
        let ghost notes = self.notes@;
        let ghost active0 = self.active@;
        let mut k: usize = 0;
        while k < self.notes.len()
            invariant
                k <= self.notes.len(),
                self.notes@ == notes,
                t == self.time,
                old(self)@.wf(),
                old(self)@.notes == notes,
                old(self)@.active == active0,
                old(self)@.time == t,
                self@ == (PlayerView { active: self.active@, ..old(self)@ }),
                forall|i: int|
                    0 <= i < k ==> (self.active@.contains_key((#[trigger] notes[i]).id)
                        <==> notes[i].sounds_at(t as int)),
                forall|i: int|
                    k <= i < notes.len() ==> (self.active@.contains_key((#[trigger] notes[i]).id)
                        <==> active0.contains_key(notes[i].id)),
                active_within(notes, self.active@),
                sink@ == old(sink)@ + pass_events(notes.take(k as int), active0, t as int),
                frame@ == highlighted(notes.take(k as int), old(frame)@, t as int),
            decreases self.notes.len() - k,
        {
            let n = self.notes[k];
            let ghost before = self.active@;
            proof {
                let next = notes.take(k as int + 1);
                assert(next.drop_last() =~= notes.take(k as int));
                assert(next.last() == n);
                assert(notes[k as int] == n);
            }
            if n.is_in_window(t) && n.is_playable() {
                frame[n.key_index()] = (true, n.track_id);
            }
            let sounding = n.is_sounding_at(t);
            if self.active.contains_key(&n.id) {
                if !sounding {
                    sink.release(&n);
                    self.active.remove(&n.id);
                    assert(self.active@ =~= before.remove(n.id));
                }
            } else if sounding {
                self.active.insert(n.id, n);
                sink.strike(&n);
            }
            proof {
                assert(sink@ =~= old(sink)@ + pass_events(
                    notes.take(k as int + 1),
                    active0,
                    t as int,
                ));
                assert forall|id: usize| #[trigger] self.active@.contains_key(id) implies exists|
                    i: int,
                |
                    0 <= i < notes.len() && (#[trigger] notes[i]).id == id && self.active@[id]
                        == notes[i] by {
                    if id == n.id {
                        assert(notes[k as int].id == id);
                    } else {
                        assert(before.contains_key(id));
                    }
                }
            }
            k += 1;
        }
        proof {
            assert(notes.take(k as int) =~= notes);
            let target = sounding_notes(notes, t as int);
            assert forall|id: usize| self.active@.contains_key(id) == target.contains_key(
                id,
            ) by {
                if self.active@.contains_key(id) {
                    let i = choose|i: int|
                        0 <= i < notes.len() && (#[trigger] notes[i]).id == id && self.active@[id]
                            == notes[i];
                    assert(notes[i].sounds_at(t as int));
                }
                if target.contains_key(id) {
                    let i = choose|i: int|
                        0 <= i < notes.len() && (#[trigger] notes[i]).id == id
                            && notes[i].sounds_at(t as int);
                    assert(self.active@.contains_key(notes[i].id));
                }
            }
            assert forall|id: usize| self.active@.contains_key(id) implies self.active@[id]
                == target[id] by {
                let i = choose|i: int|
                    0 <= i < notes.len() && (#[trigger] notes[i]).id == id && self.active@[id]
                        == notes[i];
                let j = index_of(notes, id);
                assert(notes[j].id == id);
                assert(i == j);
            }
            assert(self.active@ =~= target);
        }
    }

    /// The scheduling pass of a gated session, at the current song time:
    /// lights the keys of the notes in their window and hands every note
    /// that begins to sound to the note gate. Nothing is emitted: the player's
    /// own key presses make the sound.
    fn pass_gated(&mut self, frame: &mut HighlightFrame)
        requires
            old(self)@.wf(),
            old(self)@.gate is Some,
            !old(self)@.paused,
        ensures
            final(self)@.wf(),
            final(self)@ == old(self)@.scheduled(),
            final(frame)@ == highlighted(old(self)@.notes, old(frame)@, old(self)@.time),
    {
        broadcast use vstd::std_specs::hash::group_hash_axioms;

        let t = self.time;
        let ghost notes = self.notes@;
        let ghost active0 = self.active@;
        let ghost gate0 = old(self)@.gate->0;
        let mut k: usize = 0;
        while k < self.notes.len()
            invariant
                k <= self.notes.len(),
                self.notes@ == notes,
                t == self.time,
                old(self)@.wf(),
                old(self)@.notes == notes,
                old(self)@.active == active0,
                old(self)@.time == t,
                old(self)@.gate == Some(gate0),
                self@ == (PlayerView {
                    active: self.active@,
                    gate: self@.gate,
                    paused: self@.paused,
                    ..old(self)@
                }),
                self@.gate == Some(gate_after_pass(notes.take(k as int), active0, gate0, t as int)),
                self@.paused <==> exists|i: int|
                    0 <= i < k && newly_sounding(#[trigger] notes[i], active0, t as int)
                        && notes[i].playable(),
                forall|i: int|
                    0 <= i < k ==> (self.active@.contains_key((#[trigger] notes[i]).id) <==> (
                    active0.contains_key(notes[i].id) || notes[i].sounds_at(t as int))),
                forall|i: int|
                    k <= i < notes.len() ==> (self.active@.contains_key((#[trigger] notes[i]).id)
                        <==> active0.contains_key(notes[i].id)),
                forall|id: usize| active0.contains_key(id) ==> self.active@.contains_key(id),
                active_within(notes, self.active@),
                self@.gate matches Some(g) && g.wf(),
                frame@ == highlighted(notes.take(k as int), old(frame)@, t as int),
            decreases self.notes.len() - k,
        {
            let n = self.notes[k];
            let ghost before = self.active@;
            proof {
                let next = notes.take(k as int + 1);
                assert(next.drop_last() =~= notes.take(k as int));
                assert(next.last() == n);
                assert(notes[k as int] == n);
            }
            if n.is_in_window(t) && n.is_playable() {
                frame[n.key_index()] = (true, n.track_id);
            }
            if n.is_sounding_at(t) && !self.active.contains_key(&n.id) {
                self.active.insert(n.id, n);
                if n.is_playable() {
                    self.gate.require_note(&mut self.timer, &n);
                } else {
                    self.gate.enqueue_outrange(n.channel, n.number, n.velocity);
                }
                assert(newly_sounding(notes[k as int], active0, t as int));
            }
            proof {
                assert forall|id: usize| #[trigger] self.active@.contains_key(id) implies exists|
                    i: int,
                |
                    0 <= i < notes.len() && (#[trigger] notes[i]).id == id && self.active@[id]
                        == notes[i] by {
                    if id == n.id {
                        assert(notes[k as int].id == id);
                    } else {
                        assert(before.contains_key(id));
                    }
                }
            }
            k += 1;
        }
        proof {
            assert(notes.take(k as int) =~= notes);
            let sounding = sounding_notes(notes, t as int);
            let target = active0.union_prefer_right(sounding);
            assert forall|id: usize| self.active@.contains_key(id) == target.contains_key(
                id,
            ) by {
                if self.active@.contains_key(id) {
                    let i = choose|i: int|
                        0 <= i < notes.len() && (#[trigger] notes[i]).id == id && self.active@[id]
                            == notes[i];
                    assert(active0.contains_key(notes[i].id) || notes[i].sounds_at(t as int));
                }
                if sounding.contains_key(id) {
                    let i = choose|i: int|
                        0 <= i < notes.len() && (#[trigger] notes[i]).id == id
                            && notes[i].sounds_at(t as int);
                    assert(self.active@.contains_key(notes[i].id));
                }
            }
            assert forall|id: usize| self.active@.contains_key(id) implies self.active@[id]
                == target[id] by {
                let i = choose|i: int|
                    0 <= i < notes.len() && (#[trigger] notes[i]).id == id && self.active@[id]
                        == notes[i];
                if sounding.contains_key(id) {
                    let j = index_of(notes, id);
                    assert(notes[j].id == id);
                    assert(i == j);
                } else {
                    assert(active0.contains_key(id));
                    let j = choose|j: int|
                        0 <= j < notes.len() && (#[trigger] notes[j]).id == id && active0[id]
                            == notes[j];
                    assert(i == j);
                }
            }
            assert(self.active@ =~= target);
        }
    }

    /// Seeks to the progress `p`, in millionths of the song, at `speed`.
    fn seek(&mut self, speed: u32, p: i128, sink: &mut OutputSink)
        requires
            old(self)@.wf(),
            valid_speed(speed as int),
            -0x2_0000_0000_0000_0000 <= p <= 0x2_0000_0000_0000_0000,
        ensures
            final(self)@.wf(),
            final(self)@ == old(self)@.sought(
                seek_target(p as int, speed as int, old(self)@.last_end),
            ),
            final(sink)@ == old(sink)@ + releases(old(self)@.notes, old(self)@.active),
    {
        let target: u64 = if p <= 0 {
            0
        } else {
            let length: u128 = (self.last_note_end + LEAD_US) as u128;
            let part: u128 = p as u128;
            let per: u128 = 1000 * (speed as u128);
            assert(part * length <= 0x2_0000_0000_0000_0000 * 0x400_0000_0000) by (nonlinear_arith)
                requires
                    0 <= part <= 0x2_0000_0000_0000_0000,
                    0 <= length <= 0x400_0000_0000,
            ;
            let t: u128 = part * length / per;
            if t > MAX_ELAPSED_US as u128 {
                MAX_ELAPSED_US
            } else {
                t as u64
            }
        };
        assert(capped(target as int) == capped(
            seek_target(p as int, speed as int, self@.last_end),
        ));
        self.set_time(target, sink);
    }

    /// Lets `dt_us` microseconds pass on the stopwatch and reads the
    /// progress and the song time off it.
    fn tick(&mut self, speed: u32, dt_us: u64)
        requires
            old(self)@.wf(),
            valid_speed(speed as int),
        ensures
            final(self)@.wf(),
            final(self)@ == old(self)@.ticked(speed as int, dt_us as int),
    {
        self.timer.advance(dt_us);
        let elapsed = self.timer.elapsed_us();
        assert(elapsed * speed <= MAX_ELAPSED_US * MAX_SPEED_PERMILLE) by (nonlinear_arith)
            requires
                0 <= elapsed <= MAX_ELAPSED_US,
                0 <= speed <= MAX_SPEED_PERMILLE,
        ;
        let raw: u64 = elapsed * (speed as u64) / 1000;
        let length: u128 = (self.last_note_end + LEAD_US) as u128;
        let scaled: u128 = (raw as u128) * 1_000_000;
        let part: u128 = scaled / length;
        assert(part <= raw) by (nonlinear_arith)
            requires
                part == scaled / length,
                scaled == raw * 1_000_000,
                length >= 1_000_000,
                raw >= 0,
        ;
        self.percentage = part as u64;
        self.time = raw as i64 + self.first_note_start as i64 - LEAD_US as i64;
    }

    /// One frame. A keyboard scrub first moves the position by its step.
    /// Then `dt_us` microseconds pass on the stopwatch, and progress and
    /// song time are read off it. A gate then shows the keys held on the
    /// input device and takes up one of its events. Unless the stopwatch is
    /// paused by now, the scheduling pass follows: it lights the keys of the
    /// notes whose window holds the song time, and emits the note-offs and
    /// note-ons that are due, or with a gate hands the notes that are due to
    /// it. Returns the highlight frame.
    pub fn update(&mut self, config: &PlaybackConfig, dt_us: u64, sink: &mut OutputSink) -> (frame:
        HighlightFrame)
        requires
            old(self)@.wf(),
        ensures
            final(self)@.wf(),
            final(self)@ == old(self)@.stepped(config.speed(), dt_us as int),
            final(sink)@ == old(sink)@ + old(self)@.step_events(config.speed(), dt_us as int),
            frame@ == old(self)@.step_frame(config.speed(), dt_us as int),
    {
        let speed = config.speed_permille();
        match self.rewind {
            RewindController::Keyboard { speed: step, .. } => {
                self.seek(speed, self.percentage as i128 + step as i128, sink);
            },
            _ => {},
        }
        let ghost scrubbed = self@;
        let ghost sink1 = sink@;
        assert(scrubbed == old(self)@.scrubbed(speed as int));
        assert(sink1 == old(sink)@ + old(self)@.scrub_events());
        self.tick(speed, dt_us);
        let ghost ticked = self@;
        let mut frame: HighlightFrame = [(false, 0usize);88];
        assert(frame@ =~= dark_frame());
        self.gate.update(&mut frame, &mut self.timer, sink);
        let ghost polled = self@;
        let ghost sink2 = sink@;
        assert(polled == ticked.polled());
        assert(sink2 == sink1 + ticked.poll_events());
        assert(frame@ == ticked.poll_frame());
        if self.timer.is_paused() {
            assert(sink@ =~= old(sink)@ + old(self)@.step_events(speed as int, dt_us as int));
            return frame;
        }
        if self.gate.is_engaged() {
            self.pass_gated(&mut frame);
        } else {
            self.pass_open(&mut frame, sink);
        }
        assert(sink@ =~= old(sink)@ + old(self)@.step_events(speed as int, dt_us as int));
        frame
    }
}

} // verus!

