//! The position in the song, read off the stopwatch.

use crate::config::valid_speed;
use crate::note::LEAD_US;
use vstd::prelude::*;

verus! {

/// Progress of a song that has been played to its end, in millionths.
pub const FULL_PROGRESS_PPM: u64 = 1_000_000;

/// Largest progress that is ever read off the stopwatch, in millionths: the
/// stopwatch's ceiling at the highest speed, over the shortest song.
pub const MAX_PROGRESS_PPM: u64 = 109_951_162_777_600;

/// Played time before the lead-in is taken off, in microseconds: the elapsed
/// time scaled by the speed.
pub open spec fn raw_time(elapsed: int, speed: int) -> int {
    elapsed * speed / 1000
}

/// The song time: the coordinate in which notes are scheduled. It starts one
/// lead-in before the first note.
pub open spec fn song_time(elapsed: int, speed: int, first_start: int) -> int {
    raw_time(elapsed, speed) + first_start - LEAD_US
}

/// Progress through the song in millionths. The song is over one lead-out
/// after the last note has ended.
pub open spec fn progress(elapsed: int, speed: int, last_end: int) -> int {
    raw_time(elapsed, speed) * 1_000_000 / (last_end + LEAD_US)
}

/// The elapsed time at which the progress is `p` millionths; zero for a
/// position before the beginning.
pub open spec fn seek_target(p: int, speed: int, last_end: int) -> int {
    if p <= 0 {
        0
    } else {
        p * (last_end + LEAD_US) / (1000 * speed)
    }
}

/// A seek to a progress and the progress read back differ only by rounding:
/// at the elapsed time that a seek to `p` millionths picks, the progress is
/// at most `p`, and it falls short of `p` by less than
/// `1 + 1000 * (speed + 1000) / (last_end + LEAD_US)` millionths, which is
/// less than two up to twice the normal speed.
pub proof fn lemma_seek_reaches_progress(p: int, speed: int, last_end: int)
    requires
        0 <= p,
        valid_speed(speed),
        0 <= last_end,
    ensures
        progress(seek_target(p, speed, last_end), speed, last_end) <= p,
        (p - progress(seek_target(p, speed, last_end), speed, last_end) - 1) * (last_end
            + LEAD_US) < (speed + 1000) * 1000,
{
    let length = last_end + LEAD_US;
    let t = seek_target(p, speed, last_end);
    let raw = raw_time(t, speed);
    let got = progress(t, speed, last_end);
    let per = 1000 * speed;
    if p == 0 {
        assert(t == 0);
        assert(raw == 0);
        assert(got == 0) by (nonlinear_arith)
            requires
                got == 0int * 1_000_000 / length,
                length > 0,
        ;
        assert((p - got - 1) * length < (speed + 1000) * 1000) by (nonlinear_arith)
            requires
                p == 0,
                got == 0,
                length > 0,
                speed >= 1,
        ;
    } else {
        assert(t * per <= p * length < t * per + per) by (nonlinear_arith)
            requires
                t == (p * length) / per,
                per > 0,
        ;
        assert(t * per == (t * speed) * 1000) by (nonlinear_arith)
            requires
                per == 1000 * speed,
        ;
        assert(raw * 1000 <= t * speed < raw * 1000 + 1000);
        assert(got * length <= raw * 1_000_000 < got * length + length) by (nonlinear_arith)
            requires
                got == (raw * 1_000_000) / length,
                length > 0,
        ;
        assert(got <= p) by (nonlinear_arith)
            requires
                got * length <= p * length,
                length > 0,
        ;
        assert((p - got - 1) * length == p * length - got * length - length)
            by (nonlinear_arith);
    }
}

/// At a fixed speed the song time never goes back while the elapsed time
/// does not.
pub proof fn lemma_song_time_never_back(earlier: int, later: int, speed: int, first_start: int)
    requires
        earlier <= later,
        0 <= speed,
    ensures
        song_time(earlier, speed, first_start) <= song_time(later, speed, first_start),
{
    assert(earlier * speed <= later * speed) by (nonlinear_arith)
        requires
            earlier <= later,
            0 <= speed,
    ;
}

} // verus!
