//! Monitoring a room: the live-state poll loop's decisions.
use vstd::prelude::*;
use std::sync::Arc;
use std::sync::atomic::{AtomicBool, Ordering};
use crate::text::concat;

verus! {

/// The handle of a room's monitor loop.
pub struct MonitorHandle {
    pub stop: Arc<AtomicBool>,
}

/// The last live-state probe of a monitored room.
pub struct MonitorState {
    pub live: bool,
    pub last_poll_ts: i64,
}

/// The `monitor_event` payload.
pub struct MonitorEvent {
    pub room_id: String,
    pub live: bool,
    pub last_poll_ts: i64,
    pub last_error: Option<String>,
}

/// Asks the monitor loop to stop (it notices within a second).
pub fn stop(handle: MonitorHandle) {
    handle.stop.store(true, Ordering::SeqCst);
}

/// What one poll did.
pub enum PollOutcome {
    /// The room id could not be read: report and wait for the next poll.
    Skip(String),
    /// The room id and the live state (a failed probe counts as not live, with its error).
    Probed { web_rid: String, live: bool, error: Option<String> },
}

/// Combines the room-id extraction and the live probe of one poll.
pub fn poll_outcome(web_rid: Result<String, String>, live: Result<bool, String>) -> (res: PollOutcome)
    ensures
        match web_rid {
            Err(e) => res == PollOutcome::Skip(e),
            Ok(w) => match live {
                Ok(l) => res == (PollOutcome::Probed { web_rid: w, live: l, error: None }),
                Err(e) => res == (PollOutcome::Probed { web_rid: w, live: false, error: Some(e) }),
            },
        },
{
    match web_rid {
        Err(e) => PollOutcome::Skip(e),
        Ok(w) => match live {
            Ok(l) => PollOutcome::Probed { web_rid: w, live: l, error: None },
            Err(e) => PollOutcome::Probed { web_rid: w, live: false, error: Some(e) },
        },
    }
}

/// Whether the live state differs from the last one seen (the first poll always does).
pub fn live_changed(last: Option<bool>, live: bool) -> (res: bool)
    ensures
        res == (last != Some(live)),
{
    match last {
        Some(l) => l != live,
        None => true,
    }
}

/// Seconds between polls: the configured value clamped to 20..=120.
pub fn poll_interval_secs(monitor_poll_secs: u64) -> (res: u64)
    ensures
        20 <= res <= 120,
        20 <= monitor_poll_secs <= 120 ==> res == monitor_poll_secs,
        monitor_poll_secs < 20 ==> res == 20,
        monitor_poll_secs > 120 ==> res == 120,
{
    if monitor_poll_secs < 20 { 20 } else if monitor_poll_secs > 120 { 120 } else { monitor_poll_secs }
}

/// What one poll of the monitor loop leads to.
pub struct PollActions {
    /// The room's new last probe, to keep for status queries.
    pub state: Option<MonitorState>,
    /// The `monitor_event` to send.
    pub event: Option<MonitorEvent>,
    /// Run the monitor's decision (`monitor_plan`) with this live state.
    pub drive: Option<bool>,
    /// Whether the live state changed since the last probe (worth a log line).
    pub changed: bool,
    /// Seconds to wait before the next poll.
    pub sleep_secs: u64,
}

/// One poll of a room's monitor loop: a poll that could not read the room id only waits; a
/// probed poll keeps the state `(live, poll time)`, sends one event with the same values and
/// the probe's error, runs the monitor's decision, and notes whether the live state changed.
/// Either way the next poll comes after the configured interval clamped to 20..=120 s.
pub fn poll_actions(room_id: &str, outcome: PollOutcome, last_live: &mut Option<bool>, poll_ts: i64,
    monitor_poll_secs: u64) -> (res: PollActions)
    ensures
        res.sleep_secs == (if monitor_poll_secs < 20 { 20 } else if monitor_poll_secs > 120 { 120 } else { monitor_poll_secs }),
        match outcome {
            PollOutcome::Skip(_) => res.state is None && res.event is None && res.drive is None && !res.changed
                && *final(last_live) == *old(last_live),
            PollOutcome::Probed { web_rid: _, live, error } =>
                (res.state matches Some(st) && st.live == live && st.last_poll_ts == poll_ts)
                && (res.event matches Some(e) && e.room_id@ == room_id@ && e.live == live
                    && e.last_poll_ts == poll_ts && e.last_error == error)
                && res.drive == Some(live)
                && res.changed == (*old(last_live) != Some(live))
                && *final(last_live) == Some(live),
        },
{
    let sleep_secs = poll_interval_secs(monitor_poll_secs);
    match outcome {
        PollOutcome::Skip(_) => PollActions { state: None, event: None, drive: None, changed: false, sleep_secs },
        PollOutcome::Probed { web_rid: _, live, error } => {
            let changed = live_changed(*last_live, live);
            *last_live = Some(live);
            PollActions {
                state: Some(MonitorState { live, last_poll_ts: poll_ts }),
                event: Some(MonitorEvent { room_id: room_id.to_owned(), live, last_poll_ts: poll_ts, last_error: error }),
                drive: Some(live),
                changed,
                sleep_secs,
            }
        },
    }
}

/// What the monitor does after a poll.
pub struct MonitorPlan {
    /// Start recording (before the detector).
    pub begin_recording: bool,
    /// Start a detector that starts and stops recording by itself.
    pub spawn_detector: bool,
    /// Stop and remove the room's detector.
    pub stop_detector: bool,
    /// Stop the recording and finish its file.
    pub finalize_recording: bool,
    /// Forget the room's sit/stand state.
    pub clear_logic: bool,
}

/// The monitor's decision. Live: when no detector runs, start one, after starting the
/// recording if none runs. Not live: stop the detector if there is one, finish the
/// recording if there is one, and forget the sit/stand state if either was there.
pub open spec fn monitor_decision(live: bool, detector_present: bool, detector_running: bool, recording: bool)
    -> MonitorPlan
{
    if live {
        MonitorPlan {
            begin_recording: !detector_running && !recording,
            spawn_detector: !detector_running,
            stop_detector: false,
            finalize_recording: false,
            clear_logic: false,
        }
    } else {
        MonitorPlan {
            begin_recording: false,
            spawn_detector: false,
            stop_detector: detector_present,
            finalize_recording: recording,
            clear_logic: detector_present || recording,
        }
    }
}

/// Decides what the monitor does after a poll (see `monitor_decision`).
pub fn monitor_plan(live: bool, detector_present: bool, detector_running: bool, recording: bool) -> (res: MonitorPlan)
    ensures
        res == monitor_decision(live, detector_present, detector_running, recording),
{
    if live {
        MonitorPlan {
            begin_recording: !detector_running && !recording,
            spawn_detector: !detector_running,
            stop_detector: false,
            finalize_recording: false,
            clear_logic: false,
        }
    } else {
        MonitorPlan {
            begin_recording: false,
            spawn_detector: false,
            stop_detector: detector_present,
            finalize_recording: recording,
            clear_logic: detector_present || recording,
        }
    }
}

/// While the room is live the monitor never stops anything; while it is not live it never
/// starts anything; it never starts a second recording.
pub proof fn law_monitor_edges(live: bool, present: bool, running: bool, recording: bool)
    ensures
        live ==> !monitor_decision(live, present, running, recording).stop_detector
            && !monitor_decision(live, present, running, recording).finalize_recording,
        !live ==> !monitor_decision(live, present, running, recording).begin_recording
            && !monitor_decision(live, present, running, recording).spawn_detector,
        monitor_decision(live, present, running, recording).begin_recording ==> !recording,
{
}

/// A live room is always recorded and watched: when no detector runs, one is started, and
/// when nothing records either, recording starts too, whether or not a stopped detector is
/// still registered; a running recording is never started twice.
pub proof fn law_live_room_is_recorded(present: bool, running: bool, recording: bool)
    ensures
        !running ==> monitor_decision(true, present, running, recording).spawn_detector,
        !running && !recording ==> monitor_decision(true, present, running, recording).begin_recording,
        recording ==> !monitor_decision(true, present, running, recording).begin_recording,
        running ==> !monitor_decision(true, present, running, recording).spawn_detector
            && !monitor_decision(true, present, running, recording).begin_recording,
        monitor_decision(false, present, running, recording).finalize_recording == recording,
        monitor_decision(false, present, running, recording).stop_detector == present,
{
}

/// A room that stays live with a running detector is left alone.
pub proof fn law_monitor_steady(present: bool, recording: bool)
    ensures
        monitor_decision(true, present, true, recording) == (MonitorPlan {
            begin_recording: false,
            spawn_detector: false,
            stop_detector: false,
            finalize_recording: false,
            clear_logic: false,
        }),
{
}

/// What starting to monitor a room does.
pub enum MonitorStart {
    /// The room is already monitored: nothing to do.
    AlreadyMonitoring,
    /// Start the monitor loop.
    Start,
    /// The room is not configured.
    UnknownRoom(String),
}

/// The monitoring core shared by the start command and the tray menu: what starting to
/// monitor a room does. A monitored room needs nothing; an unknown room is refused; `Start`
/// means the caller starts the room's monitor loop.
pub fn start_monitor_inner(monitoring: bool, room_exists: bool, room_id: &str) -> (res: MonitorStart)
    ensures
        monitoring ==> res is AlreadyMonitoring,
        !monitoring && room_exists ==> res is Start,
        !monitoring && !room_exists ==> (res matches MonitorStart::UnknownRoom(m)
            && m@ == "房间 "@ + room_id@ + " 不存在，请先添加"@),
{
    if monitoring {
        MonitorStart::AlreadyMonitoring
    } else if room_exists {
        MonitorStart::Start
    } else {
        let m = concat("房间 ", room_id);
        MonitorStart::UnknownRoom(concat(m.as_str(), " 不存在，请先添加"))
    }
}

/// What stopping to monitor a room does: its detector is stopped, a running recording is
/// stopped and finished too, and its sit/stand state is forgotten.
pub fn stop_monitor_plan(recording: bool) -> (res: MonitorPlan)
    ensures
        res == (MonitorPlan {
            begin_recording: false,
            spawn_detector: false,
            stop_detector: true,
            finalize_recording: recording,
            clear_logic: true,
        }),
{
    MonitorPlan {
        begin_recording: false,
        spawn_detector: false,
        stop_detector: true,
        finalize_recording: recording,
        clear_logic: true,
    }
}

/// Starting the monitor's detector needs a stream address in stream mode.
pub fn check_detector_source(room_id: &str, mode: &str, source: &str) -> (res: Result<(), String>)
    ensures
        (mode@ == "stream"@ && source@.len() == 0) ==> (res matches Err(m)
            && m@ == "房间 "@ + room_id@ + " 未配置直播流地址，无法启动监控"@),
        !(mode@ == "stream"@ && source@.len() == 0) ==> res is Ok,
{
    if crate::text::str_equal(mode, "stream") && source.is_empty() {
        let m = concat("房间 ", room_id);
        Err(concat(m.as_str(), " 未配置直播流地址，无法启动监控"))
    } else {
        Ok(())
    }
}

} // verus!
