//! The sit/stand state machine that turns detector frames into recording decisions.
use vstd::prelude::*;
use crate::text::str_equal;

verus! {

/// What a detector frame asks of the recording.
#[derive(Clone, Copy, PartialEq, Eq, Debug, Structural)]
pub enum Decision {
    /// The streamer stands or moves: keep or start recording.
    Start,
    /// The streamer has sat still long enough: stop recording.
    Stop,
    /// Nothing changes.
    Continue,
}

/// Milliseconds in a second.
pub const MILLIS_PER_SEC: u64 = 1000;

/// The debounced sit/stand state machine.
///
/// Time is given by the caller as milliseconds on a monotonic clock.
pub struct SitStandLogic {
    sitting_since: Option<u64>,
    sit_stop_secs: u64,
}

/// The posture reported by a detector frame.
pub open spec fn is_standing(state: Seq<char>) -> bool {
    state == "standing"@
}

pub open spec fn is_sitting(state: Seq<char>) -> bool {
    state == "sitting"@
}

/// Whether `sit_stop_secs` have passed from `since` to `now` (a clock that went backwards
/// counts as no time passed).
pub open spec fn sat_long_enough(since: u64, now: u64, sit_stop_secs: u64) -> bool {
    now >= since && (now - since) >= (sit_stop_secs as int) * 1000
}

/// One step of the state machine: the new sitting start and the decision.
pub open spec fn sit_stand_step(
    sitting_since: Option<u64>,
    sit_stop_secs: u64,
    state: Seq<char>,
    motion_high: bool,
    now: u64,
) -> (Option<u64>, Decision) {
    if is_standing(state) || motion_high {
        (None, Decision::Start)
    } else if is_sitting(state) {
        match sitting_since {
            None => (Some(now), Decision::Continue),
            Some(t) => (sitting_since, if sat_long_enough(t, now, sit_stop_secs) {
                Decision::Stop
            } else {
                Decision::Continue
            }),
        }
    } else {
        (sitting_since, Decision::Continue)
    }
}

impl SitStandLogic {
    /// When the streamer was first seen sitting (since the last start or reset).
    pub closed spec fn sitting_since(&self) -> Option<u64> {
        self.sitting_since
    }

    /// How long the streamer must sit still before recording stops, in seconds.
    pub closed spec fn sit_stop_secs(&self) -> u64 {
        self.sit_stop_secs
    }

    /// A fresh state machine; the sitting threshold is at least one second.
    pub fn new(sit_stop_seconds: u64) -> (res: SitStandLogic)
        ensures
            res.sitting_since() is None,
            res.sit_stop_secs() == if sit_stop_seconds < 1 { 1 } else { sit_stop_seconds },
    {
        SitStandLogic {
            sitting_since: None,
            sit_stop_secs: if sit_stop_seconds < 1 { 1 } else { sit_stop_seconds },
        }
    }

    /// Feeds one frame: its posture (`"standing"`, `"sitting"`, or anything else), whether
    /// its motion was above the threshold, and the time in milliseconds.
    pub fn update(&mut self, state: &str, motion_high: bool, now_ms: u64) -> (d: Decision)
        ensures
            (final(self).sitting_since(), d) == sit_stand_step(
                old(self).sitting_since(), old(self).sit_stop_secs(), state@, motion_high, now_ms),
            final(self).sit_stop_secs() == old(self).sit_stop_secs(),
    {
        if str_equal(state, "standing") || motion_high {
            self.sitting_since = None;
            Decision::Start
        } else if str_equal(state, "sitting") {
            match self.sitting_since {
                None => {
                    self.sitting_since = Some(now_ms);
                    Decision::Continue
                },
                Some(t) => {
                    if now_ms >= t && (now_ms - t) as u128 >= (self.sit_stop_secs as u128) * 1000 {
                        Decision::Stop
                    } else {
                        Decision::Continue
                    }
                },
            }
        } else {
            Decision::Continue
        }
    }

    /// Forgets the sitting start.
    pub fn reset(&mut self)
        ensures
            final(self).sitting_since() is None,
            final(self).sit_stop_secs() == old(self).sit_stop_secs(),
    {
        self.sitting_since = None;
    }
}

/// A frame that shows standing or motion always asks to record, and clears the sitting start.
pub proof fn law_activity_starts(since: Option<u64>, stop: u64, state: Seq<char>, motion_high: bool, now: u64)
    requires
        is_standing(state) || motion_high,
    ensures
        sit_stand_step(since, stop, state, motion_high, now) == (None::<u64>, Decision::Start),
{
}

/// No frame asks to stop unless the streamer was already seen sitting before it: the first
/// sitting frame after a start or reset only starts the clock.
pub proof fn law_no_stop_without_prior_sitting(stop: u64, state: Seq<char>, motion_high: bool, now: u64)
    ensures
        sit_stand_step(None, stop, state, motion_high, now).1 != Decision::Stop,
{
}

/// A stop is asked only for a still, sitting streamer whose sitting started at least the
/// threshold ago.
pub proof fn law_stop_needs_long_sitting(since: Option<u64>, stop: u64, state: Seq<char>, motion_high: bool, now: u64)
    requires
        sit_stand_step(since, stop, state, motion_high, now).1 == Decision::Stop,
    ensures
        is_sitting(state),
        !motion_high,
        since matches Some(t) && sat_long_enough(t, now, stop),
{
}

/// Frames of unknown posture without motion change nothing: the sitting clock keeps running.
pub proof fn law_unknown_keeps_clock(since: Option<u64>, stop: u64, state: Seq<char>, now: u64)
    requires
        !is_standing(state),
        !is_sitting(state),
    ensures
        sit_stand_step(since, stop, state, false, now) == (since, Decision::Continue),
{
}

/// Once the streamer has been seen sitting at time `t`, a later still sitting frame at a time
/// at least the threshold after `t` asks to stop.
pub proof fn law_long_sitting_stops(t: u64, stop: u64, now: u64)
    requires
        now >= t,
        now - t >= (stop as int) * 1000,
    ensures
        sit_stand_step(Some(t), stop, "sitting"@, false, now) == (Some(t), Decision::Stop),
{
    reveal_strlit("sitting");
    reveal_strlit("standing");
    assert("sitting"@[1] != "standing"@[1]);
}

} // verus!
