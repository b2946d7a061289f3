//! Scrubbing through the song while a key or the pointer is held.

use crate::timer::Timer;
use vstd::prelude::*;

verus! {

/// What the player is being scrubbed by, if anything. `was_paused` is the
/// stopwatch's paused flag at the moment scrubbing began; it is put back when
/// scrubbing stops.
#[derive(Clone, Copy, Debug, PartialEq, Eq)]
pub enum RewindController {
    /// A key is held: every frame moves the position by `speed`, in
    /// millionths of the song, backward if negative.
    Keyboard { speed: i64, was_paused: bool },
    /// The pointer drags the progress bar: the position is set from outside
    /// every frame.
    Mouse { was_paused: bool },
    /// Nothing is scrubbing.
    Idle,
}

impl RewindController {
    /// Scrubbing is under way.
    pub open spec fn rewinding(self) -> bool {
        !(self is Idle)
    }

    /// The paused flag to return to when scrubbing stops; `paused` while idle.
    pub open spec fn paused_after_stop(self, paused: bool) -> bool {
        match self {
            RewindController::Keyboard { was_paused, .. } => was_paused && paused,
            RewindController::Mouse { was_paused } => was_paused && paused,
            RewindController::Idle => paused,
        }
    }

    /// Whether scrubbing is under way.
    pub fn is_rewinding(&self) -> (b: bool)
        ensures
            b == self.rewinding(),
    {
        match self {
            RewindController::Idle => false,
            _ => true,
        }
    }

    /// Pauses the stopwatch and installs `state`.
    pub fn start_rewind(&mut self, timer: &mut Timer, state: RewindController)
        ensures
            *final(self) == state,
            final(timer).paused(),
            final(timer).elapsed() == old(timer).elapsed(),
    {
        timer.pause();
        *self = state;
    }

    /// Goes back to idle. The stopwatch resumes only if it was running when
    /// scrubbing began; while idle nothing happens.
    pub fn stop_rewind(&mut self, timer: &mut Timer)
        ensures
            *final(self) == RewindController::Idle,
            final(timer).paused() == old(self).paused_after_stop(old(timer).paused()),
            final(timer).elapsed() == old(timer).elapsed(),
    {
        let state = *self;
        *self = RewindController::Idle;
        let was_paused = match state {
            RewindController::Keyboard { was_paused, .. } => was_paused,
            RewindController::Mouse { was_paused } => was_paused,
            RewindController::Idle => {
                return ;
            },
        };
        if !was_paused {
            timer.resume();
        }
    }
}

/// Scrubbing that starts while paused ends paused, and scrubbing that starts
/// while playing ends playing: starting pauses the stopwatch, and stopping
/// restores the flag that `state` captured.
pub proof fn lemma_rewind_restores_pause(state: RewindController, paused: bool)
    requires
        state.rewinding(),
        state matches RewindController::Keyboard { was_paused, .. } ==> was_paused == paused,
        state matches RewindController::Mouse { was_paused } ==> was_paused == paused,
    ensures
        state.paused_after_stop(true) == paused,
{
}

} // verus!
