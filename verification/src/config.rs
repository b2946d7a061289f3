//! Playback settings that the user changes while a song plays.

use vstd::prelude::*;

verus! {

/// Speed at which a song plays as written, in thousandths.
pub const NORMAL_SPEED_PERMILLE: u32 = 1_000;

/// Highest playback speed, in thousandths: a hundred times the written tempo.
pub const MAX_SPEED_PERMILLE: u32 = 100_000;

/// `speed` is a playback speed that the engine accepts.
pub open spec fn valid_speed(speed: int) -> bool {
    1 <= speed <= MAX_SPEED_PERMILLE
}

/// `offset + delta`, held within the range of `i64`.
pub open spec fn shifted_offset(offset: int, delta: int) -> int {
    if offset + delta > i64::MAX {
        i64::MAX as int
    } else if offset + delta < i64::MIN {
        i64::MIN as int
    } else {
        offset + delta
    }
}

/// The speed multiplier, which stays above zero, the offset that the renderer
/// adds to the song time, and whether play-along was asked for.
pub struct PlaybackConfig {
    speed_permille: u32,
    playback_offset_us: i64,
    play_along: bool,
}

impl PlaybackConfig {
    /// The speed multiplier in thousandths.
    pub closed spec fn speed(&self) -> int {
        self.speed_permille as int
    }

    /// The offset, in microseconds, that rendering adds to the song time.
    /// Scheduling never reads it.
    pub closed spec fn offset(&self) -> int {
        self.playback_offset_us as int
    }

    /// Whether the session is to wait for the player's own key presses.
    pub closed spec fn wants_play_along(&self) -> bool {
        self.play_along
    }

    #[verifier::type_invariant]
    spec fn speed_in_range(&self) -> bool {
        valid_speed(self.speed_permille as int)
    }

    /// Normal speed and no offset.
    pub fn new(play_along: bool) -> (c: PlaybackConfig)
        ensures
            c.speed() == NORMAL_SPEED_PERMILLE,
            c.offset() == 0,
            c.wants_play_along() == play_along,
    {
        PlaybackConfig { speed_permille: NORMAL_SPEED_PERMILLE, playback_offset_us: 0, play_along }
    }

    /// The speed multiplier in thousandths; always a valid speed.
    pub fn speed_permille(&self) -> (s: u32)
        ensures
            s == self.speed(),
            valid_speed(s as int),
    {
        proof {
            use_type_invariant(self);
        }
        self.speed_permille
    }

    /// The offset that rendering adds to the song time, in microseconds.
    pub fn playback_offset_us(&self) -> (o: i64)
        ensures
            o == self.offset(),
    {
        self.playback_offset_us
    }

    /// Whether play-along was asked for.
    pub fn play_along(&self) -> (p: bool)
        ensures
            p == self.wants_play_along(),
    {
        self.play_along
    }

    /// Sets the speed if `permille` is a valid speed, and says whether it did.
    pub fn set_speed_permille(&mut self, permille: u32) -> (accepted: bool)
        ensures
            accepted == valid_speed(permille as int),
            final(self).speed() == if accepted {
                permille as int
            } else {
                old(self).speed()
            },
            final(self).offset() == old(self).offset(),
            final(self).wants_play_along() == old(self).wants_play_along(),
    {
        proof {
            use_type_invariant(&*self);
        }
        if 1 <= permille && permille <= MAX_SPEED_PERMILLE {
            self.speed_permille = permille;
            true
        } else {
            false
        }
    }

    /// Moves the offset by `delta_us`, stopping at the ends of `i64`.
    pub fn shift_offset(&mut self, delta_us: i64)
        ensures
            final(self).offset() == shifted_offset(old(self).offset(), delta_us as int),
            final(self).speed() == old(self).speed(),
            final(self).wants_play_along() == old(self).wants_play_along(),
    {
        proof {
            use_type_invariant(&*self);
        }
        let sum: i128 = self.playback_offset_us as i128 + delta_us as i128;
        self.playback_offset_us = if sum > i64::MAX as i128 {
            i64::MAX
        } else if sum < i64::MIN as i128 {
            i64::MIN
        } else {
            sum as i64
        };
    }
}

} // verus!
