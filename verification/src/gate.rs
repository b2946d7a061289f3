//! The play-along gate: playback waits until the chord that is due has been
//! struck on an external input device.

use crate::config::PlaybackConfig;
use crate::note::{HighlightFrame, Note, FIRST_KEY, KEY_COUNT};
use crate::output::{OutputEvent, OutputSink};
use crate::timer::Timer;
use std::collections::HashMap;
use std::collections::VecDeque;
use vstd::prelude::*;

verus! {

/// Status byte of a note-off message on the first channel.
pub const NOTE_OFF_STATUS: u8 = 128;

/// Status byte of a note-on message on the first channel.
pub const NOTE_ON_STATUS: u8 = 144;

/// Lowest note number that the input device is listened to for.
pub const LOWEST_INPUT_NOTE: u8 = 21;

/// Highest note number that the input device is listened to for.
pub const HIGHEST_INPUT_NOTE: u8 = 108;

/// A key of the input device went down or up.
#[derive(Clone, Copy, Debug, PartialEq, Eq)]
pub struct InputEvent {
    pub pressed: bool,
    pub note: u8,
    pub velocity: u8,
}

/// A note-on that is held back until the chord has been struck.
#[derive(Clone, Copy, Debug, PartialEq, Eq)]
pub struct PendingNote {
    pub channel: u8,
    pub note: u8,
    pub velocity: u8,
}

/// What a raw message of the input device means. Only three-byte messages
/// for notes 21 to 108 count. Status 128, or a velocity of zero under any
/// status, is a release; status 144 with a velocity is a press.
pub open spec fn decoded(message: Seq<u8>) -> Option<InputEvent> {
    if message.len() == 3 && LOWEST_INPUT_NOTE <= message[1] <= HIGHEST_INPUT_NOTE {
        if message[0] == NOTE_OFF_STATUS || message[2] == 0 {
            Some(InputEvent { pressed: false, note: message[1], velocity: message[2] })
        } else if message[0] == NOTE_ON_STATUS {
            Some(InputEvent { pressed: true, note: message[1], velocity: message[2] })
        } else {
            None
        }
    } else {
        None
    }
}

/// The input port to listen on when `port_count` ports are offered: none
/// without ports, the only one if there is one, else the second.
pub open spec fn chosen_port(port_count: int) -> Option<usize> {
    if port_count <= 0 {
        None
    } else if port_count == 1 {
        Some(0usize)
    } else {
        Some(1usize)
    }
}

/// `note` has a slot in the mirror of pressed keys.
pub open spec fn has_slot(note: u8) -> bool {
    FIRST_KEY <= note && note - FIRST_KEY < KEY_COUNT
}

/// Reads a raw message of the input device.
pub fn decode_message(message: &[u8]) -> (event: Option<InputEvent>)
    ensures
        event == decoded(message@),
{
    if message.len() != 3 {
        return None;
    }
    let note = message[1];
    if note < LOWEST_INPUT_NOTE || note > HIGHEST_INPUT_NOTE {
        return None;
    }
    if message[0] == NOTE_OFF_STATUS || message[2] == 0 {
        Some(InputEvent { pressed: false, note, velocity: message[2] })
    } else if message[0] == NOTE_ON_STATUS {
        Some(InputEvent { pressed: true, note, velocity: message[2] })
    } else {
        None
    }
}

/// Picks the input port to listen on.
pub fn choose_input_port(port_count: usize) -> (port: Option<usize>)
    ensures
        port == chosen_port(port_count as int),
{
    if port_count == 0 {
        None
    } else if port_count == 1 {
        Some(0)
    } else {
        Some(1)
    }
}

/// The state of a gate as plain values.
pub struct GateView {
    /// Which keys of the input device are down, by slot.
    pub pressed: Seq<bool>,
    /// The chord that must be struck before playback goes on, by note number.
    pub required: Map<u8, Note>,
    /// Playback was halted for a chord and has not been resumed since.
    pub waiting: bool,
    /// The one note-on that is held back until the chord has been struck.
    pub pending: Option<PendingNote>,
    /// Events of the input device that have arrived and were not yet taken
    /// up, oldest first.
    pub inbox: Seq<InputEvent>,
}

impl GateView {
    /// A gate with no key down, no chord due and nothing queued.
    pub open spec fn fresh() -> GateView {
        GateView {
            pressed: Seq::new(KEY_COUNT as nat, |k: int| false),
            required: Map::empty(),
            waiting: false,
            pending: None,
            inbox: Seq::empty(),
        }
    }

    /// The mirror has one flag per key, and while a chord is due the note gate
    /// is waiting.
    pub open spec fn wf(self) -> bool {
        &&& self.pressed.len() == KEY_COUNT
        &&& self.required.dom().finite()
        &&& !self.required.is_empty() ==> self.waiting
    }

    /// The note gate after the input device has sent `message`. A press takes
    /// its note out of the chord before the event is queued.
    pub open spec fn delivered(self, message: Seq<u8>) -> GateView {
        match decoded(message) {
            Some(e) => GateView {
                required: if e.pressed {
                    self.required.remove(e.note)
                } else {
                    self.required
                },
                inbox: self.inbox.push(e),
                ..self
            },
            None => self,
        }
    }

    /// The note gate after `n` has been added to the chord.
    pub open spec fn requiring(self, n: Note) -> GateView {
        GateView { required: self.required.insert(n.number, n), waiting: true, ..self }
    }

    /// The note gate after `p` has been put in the single slot for held-back
    /// notes, replacing what was there.
    pub open spec fn enqueued(self, p: PendingNote) -> GateView {
        GateView { pending: Some(p), ..self }
    }

    /// The note gate after the chord has been dropped.
    pub open spec fn cleared(self) -> GateView {
        GateView { required: Map::empty(), ..self }
    }

    /// The mirror of pressed keys after `e`.
    pub open spec fn marked(self, e: InputEvent) -> Seq<bool> {
        if has_slot(e.note) {
            self.pressed.update(e.note - FIRST_KEY, e.pressed)
        } else {
            self.pressed
        }
    }

    /// Taking up `e` lets the held-back note through: `e` is a press, no
    /// chord is due and a note is held back.
    pub open spec fn flushes(self, e: InputEvent) -> bool {
        e.pressed && self.required.is_empty() && self.pending is Some
    }

    /// What taking up `e` sends to the output: the event itself, echoed on
    /// the first channel, and after a press the held-back note if no chord is
    /// due.
    pub open spec fn echo(self, e: InputEvent) -> Seq<OutputEvent> {
        if e.pressed {
            let on = OutputEvent::NoteOn { channel: 0, note: e.note, velocity: e.velocity };
            if self.flushes(e) {
                let p = self.pending->0;
                seq![
                    on,
                    OutputEvent::NoteOn { channel: p.channel, note: p.note, velocity: p.velocity },
                ]
            } else {
                seq![on]
            }
        } else {
            seq![OutputEvent::NoteOff { channel: 0, note: e.note }]
        }
    }

    /// What one update sends to the output: the echo of the oldest queued
    /// event, if there is one.
    pub open spec fn poll_events(self) -> Seq<OutputEvent> {
        if self.inbox.len() > 0 {
            self.echo(self.inbox[0])
        } else {
            Seq::empty()
        }
    }

    /// One update ends the wait: the note gate is waiting and no chord is due.
    pub open spec fn poll_resumes(self) -> bool {
        self.waiting && self.required.is_empty()
    }

    /// The note gate after one update: at most one queued event is taken up,
    /// and the wait ends if no chord is due.
    pub open spec fn polled(self) -> GateView {
        let waiting = self.waiting && !self.required.is_empty();
        if self.inbox.len() > 0 {
            let e = self.inbox[0];
            GateView {
                pressed: self.marked(e),
                pending: if self.flushes(e) {
                    None
                } else {
                    self.pending
                },
                waiting,
                inbox: self.inbox.drop_first(),
                ..self
            }
        } else {
            GateView { waiting, ..self }
        }
    }

    /// The highlight frame that shows the pressed keys and nothing else.
    pub open spec fn overlay(self) -> Seq<(bool, usize)> {
        Seq::new(KEY_COUNT as nat, |k: int| (self.pressed[k], 0usize))
    }
}

/// What happens to a gate between two scheduling passes: the input device
/// delivers a message, or the frame loop runs the note gate's update.
pub enum GateStep {
    Deliver(Seq<u8>),
    Update,
}

/// `step` delivers a press of `note`.
pub open spec fn is_press_of(step: GateStep, note: u8) -> bool {
    step matches GateStep::Deliver(message) && decoded(message) matches Some(e) && e.pressed
        && e.note == note
}

/// Some step of `steps` delivers a press of `note`.
pub open spec fn pressed_during(steps: Seq<GateStep>, note: u8) -> bool {
    exists|i: int| 0 <= i < steps.len() && is_press_of(#[trigger] steps[i], note)
}

impl GateView {
    /// The note gate after `step`.
    pub open spec fn after_step(self, step: GateStep) -> GateView {
        match step {
            GateStep::Deliver(message) => self.delivered(message),
            GateStep::Update => self.polled(),
        }
    }

    /// The note gate after `steps`, in their order.
    pub open spec fn after_steps(self, steps: Seq<GateStep>) -> GateView
        decreases steps.len(),
    {
        if steps.len() == 0 {
            self
        } else {
            self.after_steps(steps.drop_last()).after_step(steps.last())
        }
    }
}

/// Deliveries and updates, in any order, leave of the chord exactly the notes
/// that have not been pressed since.
pub proof fn lemma_chord_left(g: GateView, steps: Seq<GateStep>, note: u8)
    requires
        g.wf(),
    ensures
        g.after_steps(steps).wf(),
        g.after_steps(steps).required.contains_key(note) <==> g.required.contains_key(note)
            && !pressed_during(steps, note),
        g.after_steps(steps).required.contains_key(note) ==> g.after_steps(steps).required[note]
            == g.required[note],
    decreases steps.len(),
{
    if steps.len() > 0 {
        let rest = steps.drop_last();
        let last = steps.last();
        lemma_chord_left(g, rest, note);
        let before = g.after_steps(rest);
        assert(steps[steps.len() - 1] == last);
        if pressed_during(rest, note) {
            let i = choose|i: int| 0 <= i < rest.len() && is_press_of(#[trigger] rest[i], note);
            assert(steps[i] == rest[i]);
        }
        if pressed_during(steps, note) && !is_press_of(last, note) {
            let i = choose|i: int| 0 <= i < steps.len() && is_press_of(#[trigger] steps[i], note);
            assert(rest[i] == steps[i]);
        }
        match last {
            GateStep::Deliver(message) => {
                match decoded(message) {
                    Some(e) => {
                        if e.pressed {
                            assert(before.delivered(message).required == before.required.remove(
                                e.note,
                            ));
                            if !before.delivered(message).required.is_empty() {
                                let k = choose|k: u8|
                                    before.delivered(message).required.contains_key(k);
                                assert(before.required.contains_key(k));
                            }
                        }
                    },
                    None => {},
                }
            },
            GateStep::Update => {},
        }
    }
}

/// Chord gating: while a note of the chord has not been pressed, the note gate
/// stays waiting and no update lets the stopwatch resume, whatever else is
/// pressed and in whatever order; once every note of the chord has been
/// pressed, no chord is due any more.
pub proof fn lemma_chord_gates_resumption(g: GateView, steps: Seq<GateStep>)
    requires
        g.wf(),
    ensures
        (exists|note: u8| g.required.contains_key(note) && !pressed_during(steps, note)) ==> {
            &&& g.after_steps(steps).waiting
            &&& forall|j: int|
                0 <= j < steps.len() && steps[j] is Update ==> !(#[trigger] g.after_steps(
                    steps.take(j),
                )).poll_resumes()
        },
        (forall|note: u8| g.required.contains_key(note) ==> pressed_during(steps, note))
            ==> g.after_steps(steps).required.is_empty(),
{
    if exists|note: u8| g.required.contains_key(note) && !pressed_during(steps, note) {
        let note = choose|note: u8| g.required.contains_key(note) && !pressed_during(steps, note);
        lemma_chord_left(g, steps, note);
        assert(g.after_steps(steps).required.contains_key(note));
        assert forall|j: int| 0 <= j < steps.len() && steps[j] is Update implies !(
        #[trigger] g.after_steps(steps.take(j))).poll_resumes() by {
            let prefix = steps.take(j);
            if pressed_during(prefix, note) {
                let i = choose|i: int|
                    0 <= i < prefix.len() && is_press_of(#[trigger] prefix[i], note);
                assert(steps[i] == prefix[i]);
            }
            lemma_chord_left(g, prefix, note);
            assert(g.after_steps(prefix).required.contains_key(note));
        }
    }
    if forall|note: u8| g.required.contains_key(note) ==> pressed_during(steps, note) {
        assert forall|note: u8| !g.after_steps(steps).required.contains_key(note) by {
            lemma_chord_left(g, steps, note);
        }
        assert(g.after_steps(steps).required.dom() =~= Set::<u8>::empty());
    }
}

/// Bridge to an external input device. The device's callback hands its raw
/// messages to `deliver`; the frame loop calls `update` once per frame.
pub struct PlayAlongGate {
    pressed: [bool; 88],
    required: HashMap<u8, Note>,
    waiting: bool,
    pending: Option<PendingNote>,
    inbox: VecDeque<InputEvent>,
}

impl View for PlayAlongGate {
    type V = GateView;

    closed spec fn view(&self) -> GateView {
        GateView {
            pressed: self.pressed@,
            required: self.required@,
            waiting: self.waiting,
            pending: self.pending,
            inbox: self.inbox@,
        }
    }
}

impl PlayAlongGate {
    /// A gate with no key down, no chord due and nothing queued.
    pub fn new() -> (gate: PlayAlongGate)
        ensures
            gate@.wf(),
            gate@ == GateView::fresh(),
    {
        let gate = PlayAlongGate {
            pressed: [false;88],
            required: HashMap::new(),
            waiting: false,
            pending: None,
            inbox: VecDeque::new(),
        };
        assert(gate@.pressed =~= GateView::fresh().pressed);
        gate
    }

    /// Takes a raw message from the input device. Called from the device's
    /// side, before the frame loop sees the event.
    pub fn deliver(&mut self, message: &[u8])
        ensures
            final(self)@ == old(self)@.delivered(message@),
            old(self)@.wf() ==> final(self)@.wf(),
    {
        broadcast use vstd::std_specs::hash::group_hash_axioms;

        match decode_message(message) {
            Some(e) => {
                if e.pressed {
                    self.required.remove(&e.note);
                }
                self.inbox.push_back(e);
                assert(self@.required =~= old(self)@.delivered(message@).required);
            },
            None => {},
        }
    }

    /// Adds `n` to the chord that must be struck, marks the note gate as
    /// waiting and pauses the stopwatch.
    pub fn require_note(&mut self, timer: &mut Timer, n: &Note)
        ensures
            final(self)@ == old(self)@.requiring(*n),
            old(self)@.wf() ==> final(self)@.wf(),
            final(timer).paused(),
            final(timer).elapsed() == old(timer).elapsed(),
    {
        broadcast use vstd::std_specs::hash::group_hash_axioms;

        self.waiting = true;
        self.required.insert(n.number, *n);
        timer.pause();
    }

    /// Holds back a note-on until the chord has been struck. There is one
    /// slot: a note that was held back before is dropped.
    pub fn enqueue_outrange(&mut self, channel: u8, note: u8, velocity: u8)
        ensures
            final(self)@ == old(self)@.enqueued(PendingNote { channel, note, velocity }),
            old(self)@.wf() ==> final(self)@.wf(),
    {
        self.pending = Some(PendingNote { channel, note, velocity });
    }

    /// Drops the chord.
    pub fn clear(&mut self)
        ensures
            final(self)@ == old(self)@.cleared(),
            old(self)@.wf() ==> final(self)@.wf(),
    {
        self.required.clear();
    }

    /// One frame of the note gate. The frame is overwritten with the keys that
    /// are down on the input device. Then at most one queued event is taken
    /// up and echoed to the output, and if no chord is due the wait ends and
    /// the stopwatch resumes. Never blocks.
    pub fn update(&mut self, frame: &mut HighlightFrame, timer: &mut Timer, sink: &mut OutputSink)
        ensures
            final(self)@ == old(self)@.polled(),
            old(self)@.wf() ==> final(self)@.wf(),
            final(frame)@ == old(self)@.overlay(),
            final(sink)@ == old(sink)@ + old(self)@.poll_events(),
            final(timer).elapsed() == old(timer).elapsed(),
            final(timer).paused() == (old(timer).paused() && !old(self)@.poll_resumes()),
    {
        broadcast use vstd::std_specs::hash::group_hash_axioms;

        let mut k: usize = 0;
        while k < 88
            invariant
                k <= 88,
                forall|i: int| 0 <= i < k ==> frame@[i] == (self.pressed@[i], 0usize),
            decreases 88 - k,
        {
            frame[k] = (self.pressed[k], 0);
            k += 1;
        }
        assert(frame@ =~= old(self)@.overlay());

        match self.inbox.pop_front() {
            Some(e) => {
                assert(e == old(self)@.inbox[0]);
                assert(self.inbox@ =~= old(self)@.inbox.drop_first());
                if e.note >= FIRST_KEY && ((e.note - FIRST_KEY) as usize) < KEY_COUNT {
                    self.pressed[(e.note - FIRST_KEY) as usize] = e.pressed;
                }
                if e.pressed {
                    sink.note_on(0, e.note, e.velocity);
                    if self.required.is_empty() {
                        match self.pending {
                            Some(p) => {
                                self.pending = None;
                                sink.note_on(p.channel, p.note, p.velocity);
                            },
                            None => {},
                        }
                    }
                } else {
                    sink.note_off(0, e.note);
                }
                assert(sink@ =~= old(sink)@ + old(self)@.poll_events());
            },
            None => {
                assert(sink@ =~= old(sink)@ + old(self)@.poll_events());
            },
        }
        if self.required.is_empty() && self.waiting {
            self.waiting = false;
            timer.resume();
        }
    }

    /// The chord has been struck, or none was due.
    pub fn chord_met(&self) -> (met: bool)
        ensures
            met == self@.required.is_empty(),
    {
        self.required.is_empty()
    }

    /// Playback was halted for a chord and has not been resumed since.
    pub fn is_waiting(&self) -> (w: bool)
        ensures
            w == self@.waiting,
    {
        self.waiting
    }
}

/// The note gate of a session, chosen when the session begins. An open one
/// lets every note play by itself and does nothing when called. A
/// play-along gate holds playback until the chord that is due has been
/// struck.
pub enum NoteGate {
    Open,
    PlayAlong(PlayAlongGate),
}

impl View for NoteGate {
    type V = Option<GateView>;

    open spec fn view(&self) -> Option<GateView> {
        match self {
            NoteGate::Open => None,
            NoteGate::PlayAlong(g) => Some(g@),
        }
    }
}

/// `gate` after the input device has sent `message`.
pub open spec fn delivered_to(gate: Option<GateView>, message: Seq<u8>) -> Option<GateView> {
    match gate {
        Some(g) => Some(g.delivered(message)),
        None => None,
    }
}

/// `gate` after its chord has been dropped.
pub open spec fn cleared_of(gate: Option<GateView>) -> Option<GateView> {
    match gate {
        Some(g) => Some(g.cleared()),
        None => None,
    }
}

impl NoteGate {
    /// A play-along gate if `config` asks for play-along and an input
    /// device is at hand, else an open one.
    pub fn select(config: &PlaybackConfig, input_available: bool) -> (gate: NoteGate)
        ensures
            gate@ == if config.wants_play_along() && input_available {
                Some(GateView::fresh())
            } else {
                None
            },
    {
        if config.play_along() && input_available {
            NoteGate::PlayAlong(PlayAlongGate::new())
        } else {
            NoteGate::Open
        }
    }

    /// Whether playback is gated.
    pub fn is_engaged(&self) -> (engaged: bool)
        ensures
            engaged == (self@ is Some),
    {
        match self {
            NoteGate::Open => false,
            NoteGate::PlayAlong(_) => true,
        }
    }

    /// Takes a raw message from the input device.
    pub fn deliver(&mut self, message: &[u8])
        ensures
            final(self)@ == delivered_to(old(self)@, message@),
            old(self)@ matches Some(g) && g.wf() ==> final(self)@->0.wf(),
    {
        match self {
            NoteGate::PlayAlong(g) => {
                g.deliver(message);
            },
            NoteGate::Open => {},
        }
    }

    /// Adds `n` to the chord that must be struck and pauses the stopwatch.
    pub fn require_note(&mut self, timer: &mut Timer, n: &Note)
        ensures
            final(self)@ == match old(self)@ {
                Some(g) => Some(g.requiring(*n)),
                None => None,
            },
            old(self)@ matches Some(g) && g.wf() ==> final(self)@->0.wf(),
            final(timer).paused() == (old(timer).paused() || old(self)@ is Some),
            final(timer).elapsed() == old(timer).elapsed(),
    {
        match self {
            NoteGate::PlayAlong(g) => {
                g.require_note(timer, n);
            },
            NoteGate::Open => {},
        }
    }

    /// Holds back a note-on until the chord has been struck.
    pub fn enqueue_outrange(&mut self, channel: u8, note: u8, velocity: u8)
        ensures
            final(self)@ == match old(self)@ {
                Some(g) => Some(g.enqueued(PendingNote { channel, note, velocity })),
                None => None,
            },
            old(self)@ matches Some(g) && g.wf() ==> final(self)@->0.wf(),
    {
        match self {
            NoteGate::PlayAlong(g) => {
                g.enqueue_outrange(channel, note, velocity);
            },
            NoteGate::Open => {},
        }
    }

    /// Drops the chord.
    pub fn clear(&mut self)
        ensures
            final(self)@ == cleared_of(old(self)@),
            old(self)@ matches Some(g) && g.wf() ==> final(self)@->0.wf(),
    {
        match self {
            NoteGate::PlayAlong(g) => {
                g.clear();
            },
            NoteGate::Open => {},
        }
    }

    /// One frame of the note gate. An open one leaves everything as it is.
    pub fn update(&mut self, frame: &mut HighlightFrame, timer: &mut Timer, sink: &mut OutputSink)
        ensures
            final(self)@ == match old(self)@ {
                Some(g) => Some(g.polled()),
                None => None,
            },
            old(self)@ matches Some(g) && g.wf() ==> final(self)@->0.wf(),
            final(frame)@ == match old(self)@ {
                Some(g) => g.overlay(),
                None => old(frame)@,
            },
            final(sink)@ == old(sink)@ + match old(self)@ {
                Some(g) => g.poll_events(),
                None => Seq::empty(),
            },
            final(timer).elapsed() == old(timer).elapsed(),
            final(timer).paused() == (old(timer).paused() && !(old(self)@ matches Some(g)
                && g.poll_resumes())),
    {
        match self {
            NoteGate::PlayAlong(g) => {
                g.update(frame, timer, sink);
            },
            NoteGate::Open => {
                assert(sink@ =~= old(sink)@ + Seq::<OutputEvent>::empty());
            },
        }
    }
}

} // verus!
