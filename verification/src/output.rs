//! Events emitted towards the synthesizer.

use crate::note::Note;
use vstd::prelude::*;

verus! {

/// A call on the output device.
#[derive(Clone, Copy, Debug, PartialEq, Eq)]
pub enum OutputEvent {
    NoteOn { channel: u8, note: u8, velocity: u8 },
    NoteOff { channel: u8, note: u8 },
}

/// The note-on event of a note.
pub open spec fn strike(n: Note) -> OutputEvent {
    OutputEvent::NoteOn { channel: n.channel, note: n.number, velocity: n.velocity }
}

/// The note-off event of a note.
pub open spec fn release(n: Note) -> OutputEvent {
    OutputEvent::NoteOff { channel: n.channel, note: n.number }
}

/// Collects the events of the engine, in the order in which they are emitted.
/// Whoever drives the engine forwards them to the device and empties the
/// sink.
pub struct OutputSink {
    pub events: Vec<OutputEvent>,
}

impl View for OutputSink {
    type V = Seq<OutputEvent>;

    open spec fn view(&self) -> Seq<OutputEvent> {
        self.events@
    }
}

impl OutputSink {
    /// An empty sink.
    pub fn new() -> (sink: OutputSink)
        ensures
            sink@ == Seq::<OutputEvent>::empty(),
    {
        OutputSink { events: Vec::new() }
    }

    /// Emits a note-on.
    pub fn note_on(&mut self, channel: u8, note: u8, velocity: u8)
        ensures
            final(self)@ == old(self)@.push(OutputEvent::NoteOn { channel, note, velocity }),
    {
        self.events.push(OutputEvent::NoteOn { channel, note, velocity });
    }

    /// Emits a note-off.
    pub fn note_off(&mut self, channel: u8, note: u8)
        ensures
            final(self)@ == old(self)@.push(OutputEvent::NoteOff { channel, note }),
    {
        self.events.push(OutputEvent::NoteOff { channel, note });
    }

    /// Emits the note-on event of `n`.
    pub fn strike(&mut self, n: &Note)
        ensures
            final(self)@ == old(self)@.push(strike(*n)),
    {
        self.note_on(n.channel, n.number, n.velocity);
    }

    /// Emits the note-off event of `n`.
    pub fn release(&mut self, n: &Note)
        ensures
            final(self)@ == old(self)@.push(release(*n)),
    {
        self.note_off(n.channel, n.number);
    }

    /// Hands out the collected events and leaves the sink empty.
    pub fn take(&mut self) -> (events: Vec<OutputEvent>)
        ensures
            events@ == old(self)@,
            final(self)@ == Seq::<OutputEvent>::empty(),
    {
        let mut events: Vec<OutputEvent> = Vec::new();
        std::mem::swap(&mut events, &mut self.events);
        events
    }
}

} // verus!
