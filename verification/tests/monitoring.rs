use std::sync::atomic::{AtomicBool, Ordering};
use std::sync::Arc;

use douyin_recorder::detector::{
    configured_python, detection_line, detector_action, detector_ffmpeg_command, detector_script_args,
    DetectorAction,
};
use douyin_recorder::logic::{Decision, SitStandLogic};
use douyin_recorder::monitor::{
    check_detector_source, live_changed, monitor_plan, poll_interval_secs, poll_outcome,
    poll_actions, start_monitor_inner, stop, stop_monitor_plan, MonitorHandle, MonitorStart, PollOutcome,
};

#[test]
fn standing_or_motion_starts() {
    let mut l = SitStandLogic::new(5);
    assert_eq!(l.update("standing", false, 0), Decision::Start);
    assert_eq!(l.update("sitting", true, 10), Decision::Start);
    assert_eq!(l.update("unknown", true, 20), Decision::Start);
}

#[test]
fn first_sitting_frame_only_starts_clock() {
    let mut l = SitStandLogic::new(5);
    assert_eq!(l.update("sitting", false, 1_000), Decision::Continue);
    assert_eq!(l.update("sitting", false, 5_999), Decision::Continue);
    assert_eq!(l.update("sitting", false, 6_000), Decision::Stop);
    assert_eq!(l.update("sitting", false, 60_000), Decision::Stop);
}

#[test]
fn standing_clears_sitting_clock() {
    let mut l = SitStandLogic::new(5);
    assert_eq!(l.update("sitting", false, 0), Decision::Continue);
    assert_eq!(l.update("standing", false, 3_000), Decision::Start);
    assert_eq!(l.update("sitting", false, 6_000), Decision::Continue);
    assert_eq!(l.update("sitting", false, 10_999), Decision::Continue);
    assert_eq!(l.update("sitting", false, 11_000), Decision::Stop);
}

#[test]
fn unknown_posture_keeps_clock() {
    let mut l = SitStandLogic::new(2);
    assert_eq!(l.update("sitting", false, 0), Decision::Continue);
    assert_eq!(l.update("unknown", false, 1_000), Decision::Continue);
    assert_eq!(l.update("sitting", false, 2_000), Decision::Stop);
}

#[test]
fn reset_forgets_sitting() {
    let mut l = SitStandLogic::new(1);
    assert_eq!(l.update("sitting", false, 0), Decision::Continue);
    l.reset();
    assert_eq!(l.update("sitting", false, 5_000), Decision::Continue);
    assert_eq!(l.update("sitting", false, 6_000), Decision::Stop);
}

#[test]
fn zero_threshold_counts_as_one_second() {
    let mut l = SitStandLogic::new(0);
    assert_eq!(l.update("sitting", false, 0), Decision::Continue);
    assert_eq!(l.update("sitting", false, 999), Decision::Continue);
    assert_eq!(l.update("sitting", false, 1_000), Decision::Stop);
}

#[test]
fn clock_going_backwards_does_not_stop() {
    let mut l = SitStandLogic::new(1);
    assert_eq!(l.update("sitting", false, 10_000), Decision::Continue);
    assert_eq!(l.update("sitting", false, 0), Decision::Continue);
}

#[test]
fn detector_feed_from_stream() {
    assert_eq!(
        detector_ffmpeg_command("stream", "https://x.flv"),
        vec!["-y", "-i", "https://x.flv", "-vf", "scale=320:240", "-r", "3", "-pix_fmt", "gray", "-f", "rawvideo", "-"]
    );
}

#[test]
fn detector_feed_from_screen() {
    assert_eq!(
        detector_ffmpeg_command("screen", "desktop"),
        vec![
            "-y", "-f", "gdigrab", "-framerate", "3", "-i", "desktop", "-vf", "scale=320:240", "-r", "3",
            "-pix_fmt", "gray", "-f", "rawvideo", "-"
        ]
    );
}

#[test]
fn detector_script_command() {
    assert_eq!(
        detector_script_args("detector.py", "1.5"),
        vec!["detector.py", "--width", "320", "--height", "240", "--sensitivity", "1.5"]
    );
}

#[test]
fn configured_interpreter() {
    assert_eq!(configured_python(&Some("C:/py/python.exe".to_string())), Some("C:/py/python.exe".to_string()));
    assert_eq!(configured_python(&Some(String::new())), None);
    assert_eq!(configured_python(&None), None);
}

#[test]
fn detection_lines_are_trimmed() {
    assert_eq!(detection_line("  {\"state\":\"sitting\"}\r\n"), Some("{\"state\":\"sitting\"}".to_string()));
    assert_eq!(detection_line(" \t "), None);
    assert_eq!(detection_line(""), None);
}

#[test]
fn detector_actions() {
    assert!(detector_action(Decision::Start, true, false) == DetectorAction::BeginRecording);
    assert!(detector_action(Decision::Start, false, false) == DetectorAction::Nothing);
    assert!(detector_action(Decision::Start, true, true) == DetectorAction::Nothing);
    assert!(detector_action(Decision::Stop, false, true) == DetectorAction::FinishRecording);
    assert!(detector_action(Decision::Stop, true, false) == DetectorAction::Nothing);
    assert!(detector_action(Decision::Continue, true, true) == DetectorAction::Nothing);
}

#[test]
fn poll_outcomes() {
    assert!(matches!(poll_outcome(Err("bad id".to_string()), Ok(true)), PollOutcome::Skip(e) if e == "bad id"));
    assert!(matches!(
        poll_outcome(Ok("9".to_string()), Ok(true)),
        PollOutcome::Probed { web_rid, live: true, error: None } if web_rid == "9"
    ));
    assert!(matches!(
        poll_outcome(Ok("9".to_string()), Err("timeout".to_string())),
        PollOutcome::Probed { live: false, error: Some(e), .. } if e == "timeout"
    ));
}

#[test]
fn live_changes() {
    assert!(live_changed(None, false));
    assert!(live_changed(Some(true), false));
    assert!(!live_changed(Some(true), true));
}

#[test]
fn poll_interval_is_clamped() {
    assert_eq!(poll_interval_secs(0), 20);
    assert_eq!(poll_interval_secs(30), 30);
    assert_eq!(poll_interval_secs(120), 120);
    assert_eq!(poll_interval_secs(500), 120);
}

fn plan(live: bool, present: bool, running: bool, recording: bool) -> [bool; 5] {
    let p = monitor_plan(live, present, running, recording);
    [p.begin_recording, p.spawn_detector, p.stop_detector, p.finalize_recording, p.clear_logic]
}

#[test]
fn going_live_starts_recording_and_detector() {
    assert_eq!(plan(true, false, false, false), [true, true, false, false, false]);
    assert_eq!(plan(true, true, false, true), [false, true, false, false, false]);
    assert_eq!(plan(true, true, true, false), [false, false, false, false, false]);
}

#[test]
fn going_offline_stops_everything() {
    assert_eq!(plan(false, true, true, true), [false, false, true, true, true]);
    assert_eq!(plan(false, false, false, true), [false, false, false, true, true]);
    assert_eq!(plan(false, false, false, false), [false, false, false, false, false]);
}

#[test]
fn starting_a_monitor() {
    assert!(matches!(start_monitor_inner(true, false, "1"), MonitorStart::AlreadyMonitoring));
    assert!(matches!(start_monitor_inner(false, true, "1"), MonitorStart::Start));
    assert!(matches!(start_monitor_inner(false, false, "42"), MonitorStart::UnknownRoom(m) if m == "房间 42 不存在，请先添加"));
}

#[test]
fn stopping_a_monitor_stops_its_recording() {
    let p = stop_monitor_plan(true);
    assert!(p.stop_detector && p.finalize_recording && p.clear_logic && !p.begin_recording && !p.spawn_detector);
    assert!(!stop_monitor_plan(false).finalize_recording);
}

#[test]
fn monitor_detector_needs_stream_address() {
    assert_eq!(check_detector_source("5", "stream", "").unwrap_err(), "房间 5 未配置直播流地址，无法启动监控");
    assert!(check_detector_source("5", "stream", "https://x.flv").is_ok());
    assert!(check_detector_source("5", "screen", "").is_ok());
}

#[test]
fn stopping_a_monitor_sets_its_flag() {
    let flag = Arc::new(AtomicBool::new(false));
    stop(MonitorHandle { stop: flag.clone() });
    assert!(flag.load(Ordering::SeqCst));
}

#[test]
fn one_poll_of_the_monitor() {
    let mut last = None;
    let a = poll_actions("r1", poll_outcome(Ok("9".to_string()), Err("timeout".to_string())), &mut last, 100, 5);
    let st = a.state.unwrap();
    assert!(!st.live && st.last_poll_ts == 100);
    let ev = a.event.unwrap();
    assert_eq!((ev.room_id.as_str(), ev.live, ev.last_poll_ts, ev.last_error.as_deref()), ("r1", false, 100, Some("timeout")));
    assert_eq!(a.drive, Some(false));
    assert!(a.changed);
    assert_eq!(a.sleep_secs, 20);
    assert_eq!(last, Some(false));

    let a = poll_actions("r1", poll_outcome(Ok("9".to_string()), Ok(false)), &mut last, 130, 60);
    assert!(!a.changed && a.sleep_secs == 60 && a.event.unwrap().last_error.is_none());

    let a = poll_actions("r1", poll_outcome(Err("bad".to_string()), Ok(true)), &mut last, 160, 999);
    assert!(a.state.is_none() && a.event.is_none() && a.drive.is_none() && !a.changed);
    assert_eq!(a.sleep_secs, 120);
    assert_eq!(last, Some(false));
}
