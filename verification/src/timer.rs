//! A virtual stopwatch with pause, resume and seek.

use vstd::prelude::*;

verus! {

/// Largest elapsed time the stopwatch holds, in microseconds (a little under
/// thirteen days). Advancing or seeking past it stops here.
pub const MAX_ELAPSED_US: u64 = 1_099_511_627_776;

/// `t`, held at the stopwatch's ceiling.
pub open spec fn capped(t: int) -> int {
    if t <= MAX_ELAPSED_US {
        t
    } else {
        MAX_ELAPSED_US as int
    }
}

/// Virtual elapsed time since the last `start` or `set_time`, and a paused
/// flag. Time is fed in by the caller, frame by frame, and counts only while
/// the stopwatch is not paused.
pub struct Timer {
    elapsed_us: u64,
    paused: bool,
}

impl Timer {
    /// Elapsed virtual time in microseconds.
    pub closed spec fn elapsed(&self) -> int {
        self.elapsed_us as int
    }

    /// Whether the stopwatch is paused.
    pub closed spec fn paused(&self) -> bool {
        self.paused
    }

    /// The elapsed time never exceeds the ceiling.
    #[verifier::type_invariant]
    spec fn within_ceiling(&self) -> bool {
        self.elapsed_us <= MAX_ELAPSED_US
    }

    /// A running stopwatch at zero.
    pub fn new() -> (t: Timer)
        ensures
            t.elapsed() == 0,
            !t.paused(),
    {
        Timer { elapsed_us: 0, paused: false }
    }

    /// Begins accumulation from zero.
    pub fn start(&mut self)
        ensures
            final(self).elapsed() == 0,
            !final(self).paused(),
    {
        self.elapsed_us = 0;
        self.paused = false;
    }

    /// Lets `dt_us` microseconds of wall-clock time pass: they are added to
    /// the elapsed time unless the stopwatch is paused.
    pub fn advance(&mut self, dt_us: u64)
        ensures
            final(self).paused() == old(self).paused(),
            old(self).paused() ==> final(self).elapsed() == old(self).elapsed(),
            !old(self).paused() ==> final(self).elapsed() == capped(old(self).elapsed() + dt_us),
            final(self).elapsed() >= old(self).elapsed(),
            final(self).elapsed() <= MAX_ELAPSED_US,
    {
        proof {
            use_type_invariant(&*self);
        }
        if !self.paused {
            if dt_us >= MAX_ELAPSED_US - self.elapsed_us {
                self.elapsed_us = MAX_ELAPSED_US;
            } else {
                self.elapsed_us = self.elapsed_us + dt_us;
            }
        }
    }

    /// Stops accumulation.
    pub fn pause(&mut self)
        ensures
            final(self).paused(),
            final(self).elapsed() == old(self).elapsed(),
    {
        proof {
            use_type_invariant(&*self);
        }
        self.paused = true;
    }

    /// Lets accumulation go on.
    pub fn resume(&mut self)
        ensures
            !final(self).paused(),
            final(self).elapsed() == old(self).elapsed(),
    {
        proof {
            use_type_invariant(&*self);
        }
        self.paused = false;
    }

    /// Toggles the paused flag.
    pub fn pause_resume(&mut self)
        ensures
            final(self).paused() == !old(self).paused(),
            final(self).elapsed() == old(self).elapsed(),
    {
        proof {
            use_type_invariant(&*self);
        }
        self.paused = !self.paused;
    }

    /// Rebases the elapsed time to `t_us`, forward or backward. The paused
    /// flag is left alone.
    pub fn set_time(&mut self, t_us: u64)
        ensures
            final(self).elapsed() == capped(t_us as int),
            final(self).paused() == old(self).paused(),
    {
        self.elapsed_us = if t_us <= MAX_ELAPSED_US {
            t_us
        } else {
            MAX_ELAPSED_US
        };
    }

    /// The elapsed virtual time in microseconds.
    pub fn elapsed_us(&self) -> (e: u64)
        ensures
            e == self.elapsed(),
            e <= MAX_ELAPSED_US,
    {
        proof {
            use_type_invariant(self);
        }
        self.elapsed_us
    }

    /// Whether the stopwatch is paused.
    pub fn is_paused(&self) -> (p: bool)
        ensures
            p == self.paused(),
    {
        self.paused
    }
}

} // verus!
