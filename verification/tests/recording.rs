use douyin_recorder::config::{default_recorder_config, RecorderConfig, RoomConfig};
use douyin_recorder::recorder::{begin_plan, begin_result, finish_actions, FinishOutcome, StoppedEvent};
use douyin_recorder::recorder::{
    build_final_name, copy_failed_error, decide_mode, effective_format_of, ffmpeg_exit_error,
    final_name_with_stamp, find_room, gather_segments, idle_recording_info, list_recordings_in,
    merge_failed_error, merge_plan, merged_empty_error, no_data_error, no_segments_error,
    not_recording_error, now_ts, recording_args, recording_info, resolve_source, resolve_stream_url,
    sanitize_room_id, startup_verdict, stderr_summary, transcode_failed_error, watch_step,
    work_dir_name, ExitCheck, MergePlan, OutputFile, StartupPhase, StartupVerdict, WatchAction,
    WatchState, WorkFile,
};

fn cfg_with(rooms: Vec<RoomConfig>) -> RecorderConfig {
    let mut c = default_recorder_config();
    c.output_dir = "/out".to_string();
    c.rooms = rooms;
    c
}

fn stream_room(id: &str, url: &str) -> RoomConfig {
    let mut r = RoomConfig::new(id.to_string());
    r.stream_url = Some(url.to_string());
    r
}

#[test]
fn sanitize_keeps_safe_characters_only() {
    assert_eq!(sanitize_room_id("ab c/d\\e:f_g-h"), "abcdef_g-h");
    assert_eq!(sanitize_room_id("主播 小王!"), "主播小王");
    assert_eq!(sanitize_room_id("?*<>|"), "");
}

#[test]
fn sanitize_is_idempotent() {
    let once = sanitize_room_id("a b#c_主播-1");
    assert_eq!(sanitize_room_id(&once), once);
}

#[test]
fn work_dir_is_named_after_room() {
    assert_eq!(work_dir_name("12/34"), "._work_1234");
}

#[test]
fn effective_format_prefers_mp4() {
    let mut c = cfg_with(vec![]);
    c.output_format = "mkv".to_string();
    c.auto_mp4 = true;
    assert_eq!(effective_format_of(&c), "mp4");
    c.auto_mp4 = false;
    assert_eq!(effective_format_of(&c), "mkv");
}

#[test]
fn find_room_returns_first_match() {
    let mut a2 = RoomConfig::new("a".to_string());
    a2.name = Some("second".to_string());
    let rooms = vec![RoomConfig::new("b".to_string()), RoomConfig::new("a".to_string()), a2];
    let r = find_room(&rooms, "a").unwrap();
    assert!(r.name.is_none());
    assert!(find_room(&rooms, "z").is_none());
}

#[test]
fn final_name_uses_room_name_then_id() {
    let mut named = RoomConfig::new("123".to_string());
    named.name = Some("小王 Live".to_string());
    let mut empty_name = RoomConfig::new("456".to_string());
    empty_name.name = Some("".to_string());
    let mut bad_name = RoomConfig::new("78/9".to_string());
    bad_name.name = Some("!!!".to_string());
    let mut c = cfg_with(vec![named, empty_name, bad_name]);
    assert_eq!(final_name_with_stamp(&c, "123", "2026-07-23_18-52-34"), "小王Live_2026-07-23_18-52-34.mp4");
    assert_eq!(final_name_with_stamp(&c, "456", "S"), "456_S.mp4");
    assert_eq!(final_name_with_stamp(&c, "78/9", "S"), "789_S.mp4");
    assert_eq!(final_name_with_stamp(&c, "unknown", "S"), "unknown_S.mp4");
    c.auto_mp4 = false;
    c.output_format = "mov".to_string();
    assert_eq!(final_name_with_stamp(&c, "456", "S"), "456_S.mov");
}

#[test]
fn build_final_name_shape() {
    let c = cfg_with(vec![]);
    let n = build_final_name(&c, "99", 1_700_000_000);
    assert!(n.starts_with("99_"));
    assert!(n.ends_with(".mp4"));
    let stamp = &n[3..n.len() - 4];
    // `%Y-%m-%d_%H-%M-%S`
    assert_eq!(stamp.len(), 19);
    assert_eq!(&stamp[4..5], "-");
    assert_eq!(&stamp[10..11], "_");
    assert!(stamp.chars().all(|c| c.is_ascii_digit() || c == '-' || c == '_' || c == '+'));
}

#[test]
fn clock_is_after_2020() {
    assert!(now_ts() > 1_577_836_800);
}

#[test]
fn mode_is_stream_only_with_address_and_not_screen() {
    let room = stream_room("1", "https://x.flv");
    let bare = RoomConfig::new("2".to_string());
    let mut c = cfg_with(vec![]);
    assert_eq!(decide_mode(&c, Some(&room)), "stream");
    assert_eq!(decide_mode(&c, Some(&bare)), "screen");
    assert_eq!(decide_mode(&c, None), "screen");
    c.capture_mode = "screen".to_string();
    assert_eq!(decide_mode(&c, Some(&room)), "screen");
    c.capture_mode = "stream".to_string();
    assert_eq!(decide_mode(&c, Some(&room)), "stream");
}

#[test]
fn no_stream_is_found_by_id_alone() {
    assert!(resolve_stream_url("123").is_none());
}

#[test]
fn detector_source_follows_mode() {
    let room = stream_room("1", "https://x.flv");
    let mut c = cfg_with(vec![]);
    assert_eq!(resolve_source("1", &c, Some(&room)), ("https://x.flv".to_string(), "stream".to_string()));
    assert_eq!(resolve_source("1", &c, None), ("desktop".to_string(), "screen".to_string()));
    c.screen_source = Some("title=OBS".to_string());
    c.capture_mode = "screen".to_string();
    assert_eq!(resolve_source("1", &c, Some(&room)), ("title=OBS".to_string(), "screen".to_string()));
    c.screen_source = None;
    assert_eq!(resolve_source("1", &c, Some(&room)), ("desktop".to_string(), "screen".to_string()));
}

#[test]
fn stream_recording_command() {
    let room = stream_room("1", "https://x.flv");
    let mut c = cfg_with(vec![]);
    c.segment_minutes = 0;
    let (mode, args) = recording_args("1", &c, Some(&room), "/w/seg_%03d.flv", "/w/rec.mp4").unwrap();
    assert_eq!(mode, "stream");
    assert_eq!(
        args,
        vec![
            "-y", "-v", "info", "-i", "https://x.flv", "-c", "copy", "-f", "segment", "-segment_time", "60",
            "-segment_format", "flv", "-reset_timestamps", "1", "-vsync", "0", "-reconnect", "1",
            "-reconnect_streamed", "1", "-reconnect_delay_max", "5", "/w/seg_%03d.flv"
        ]
    );
    c.segment_minutes = 10;
    let (_, args) = recording_args("1", &c, Some(&room), "t", "f").unwrap();
    assert_eq!(args[10], "600");
}

#[test]
fn screen_recording_command() {
    let mut c = cfg_with(vec![]);
    c.screen_source = None;
    let (mode, args) = recording_args("1", &c, None, "t", "/w/rec.mp4").unwrap();
    assert_eq!(mode, "screen");
    assert_eq!(
        args,
        vec![
            "-y", "-v", "info", "-f", "gdigrab", "-framerate", "30", "-i", "desktop", "-c:v", "libx264",
            "-preset", "ultrafast", "-pix_fmt", "yuv420p", "-f", "mp4", "/w/rec.mp4"
        ]
    );
}

#[test]
fn room_without_address_records_screen() {
    let room = RoomConfig::new("7".to_string());
    let c = cfg_with(vec![]);
    let r = recording_args("7", &c, Some(&room), "t", "f");
    assert!(r.is_ok());
    assert_eq!(r.unwrap().0, "screen");
}

#[test]
fn startup_checks() {
    let failed = ExitCheck::Exited { success: false, code: Some(1) };
    assert!(matches!(
        startup_verdict(StartupPhase::Connecting, failed, false),
        StartupVerdict::ExitedEarly { code: Some(1), waited_secs: 2 }
    ));
    assert!(matches!(
        startup_verdict(StartupPhase::Connecting, ExitCheck::Running, false),
        StartupVerdict::KeepWaiting
    ));
    assert!(matches!(
        startup_verdict(StartupPhase::Connecting, ExitCheck::Exited { success: true, code: Some(0) }, false),
        StartupVerdict::KeepWaiting
    ));
    assert!(matches!(
        startup_verdict(StartupPhase::Receiving, ExitCheck::Exited { success: false, code: None }, false),
        StartupVerdict::ExitedEarly { code: None, waited_secs: 5 }
    ));
    assert!(matches!(
        startup_verdict(StartupPhase::Receiving, ExitCheck::Running, false),
        StartupVerdict::NoData
    ));
    assert!(matches!(
        startup_verdict(StartupPhase::Receiving, ExitCheck::Exited { success: false, code: Some(1) }, true),
        StartupVerdict::Healthy
    ));
}

#[test]
fn exit_error_for_forbidden_stream() {
    let e = ffmpeg_exit_error("HTTP error 403 Forbidden", Some(1), 2, "stream");
    assert!(e.starts_with(
        "ffmpeg 启动后2秒内异常退出（exit code: 1 / 0x00000001）（最可能：流地址已过期，HTTP 403。请重新开始录制，会自动重新解析）\n\n排查方向：\n"
    ));
    assert!(e.ends_with("ffmpeg stderr 尾部：\nHTTP error 403 Forbidden"));
}

#[test]
fn exit_error_for_killed_process() {
    let e = ffmpeg_exit_error("", Some(-1414549496), 5, "stream");
    assert!(e.starts_with("ffmpeg 启动后5秒内异常退出（exit code: -1414549496 / 0xABAFB008 (signed: -1414549496)）🚨 高度疑似被杀毒软件"));
    let e = ffmpeg_exit_error("（stderr 未捕获）", Some(-1414549419), 2, "stream");
    assert!(e.contains("0xABAFB055 (signed: -1414549419)）🚨"));
    // Any 0xABxxxxxx code and the Windows 0xC000xxxx codes, whatever their sign as i32.
    let e = ffmpeg_exit_error("", Some(0xABABABABu32 as i32), 2, "stream");
    assert!(e.contains("(signed: -1414812757)）🚨 高度疑似被杀毒软件"));
    let e = ffmpeg_exit_error("", Some(0xC0000005u32 as i32), 2, "stream");
    assert!(e.contains("0xC0000005 (signed: -1073741819)）🚨"));
    // Other codes, or abnormal codes with real stderr output, are not.
    let e = ffmpeg_exit_error("", Some(0x4000_0005), 2, "stream");
    assert!(!e.contains("🚨"));
    let e = ffmpeg_exit_error("boom", Some(0xABABABABu32 as i32), 2, "stream");
    assert!(!e.contains("🚨"));
}

#[test]
fn exit_error_hints_by_keyword_and_mode() {
    let net = ffmpeg_exit_error("Connection refused", Some(1), 2, "stream");
    assert!(net.contains("）（最可能：网络不可达 — 防火墙/代理/抖音风控）\n"));
    let gone = ffmpeg_exit_error("404 Not Found", Some(1), 2, "stream");
    assert!(gone.contains("（最可能：流地址已失效 — 请重新开始录制自动重新解析）"));
    let screen = ffmpeg_exit_error("something", Some(1), 2, "screen");
    assert!(screen.contains("（最可能：屏幕捕获源不可用 — 检查屏幕源设置）"));
    let other = ffmpeg_exit_error("something", None, 2, "stream");
    assert!(other.contains("exit code: -1 / 0xFFFFFFFF (signed: -1)）（请确认主播正在直播，或参考下方 ffmpeg stderr）"));
}

#[test]
fn no_data_error_ends_with_stderr() {
    let e = no_data_error("tail");
    assert!(e.starts_with("开始录制 5 秒后仍未收到数据。\n可能原因：\n"));
    assert!(e.ends_with("\nffmpeg stderr 尾部：\ntail"));
}

#[test]
fn stream_segments_are_sorted_flv_above_1k() {
    let files = vec![
        WorkFile { path: "/w/seg_002.flv".to_string(), is_flv: true, size: 5000 },
        WorkFile { path: "/w/seg_000.flv".to_string(), is_flv: true, size: 2000 },
        WorkFile { path: "/w/seg_001.flv".to_string(), is_flv: true, size: 1024 },
        WorkFile { path: "/w/merged.mp4".to_string(), is_flv: false, size: 9000 },
        WorkFile { path: "/w/seg_003.flv".to_string(), is_flv: true, size: 1025 },
    ];
    assert_eq!(gather_segments("stream", &files, None), vec!["/w/seg_000.flv", "/w/seg_002.flv", "/w/seg_003.flv"]);
}

#[test]
fn screen_segment_is_rec_file() {
    assert_eq!(gather_segments("screen", &vec![], Some(("/w/rec.mp4".to_string(), 2048))), vec!["/w/rec.mp4"]);
    assert!(gather_segments("screen", &vec![], Some(("/w/rec.mp4".to_string(), 1024))).is_empty());
    assert!(gather_segments("screen", &vec![], None).is_empty());
}

fn out_file(name: &str, stem: &str, ext: Option<&str>, modified: i64) -> OutputFile {
    OutputFile {
        file_name: Some(name.to_string()),
        stem: stem.to_string(),
        ext: ext.map(|e| e.to_string()),
        path: format!("/out/{}", name),
        size: 10,
        modified,
    }
}

#[test]
fn listing_is_newest_first_and_skips_work_dirs() {
    let files = vec![
        out_file("a_1.mp4", "a_1", Some("mp4"), 100),
        out_file("._work_a", "._work_a", None, 500),
        out_file("._work_x.mp4", "._work_x", Some("mp4"), 600),
        out_file("notes.txt", "notes", Some("txt"), 700),
        out_file("b_2_3.mkv", "b_2_3", Some("mkv"), 300),
        out_file("c.flv", "c", Some("flv"), 300),
    ];
    let list = list_recordings_in(&files);
    let got: Vec<(String, String, i64, String)> =
        list.iter().map(|r| (r.id.clone(), r.room_id.clone(), r.created_at, r.format.clone())).collect();
    assert_eq!(
        got,
        vec![
            ("b_2_3".to_string(), "b".to_string(), 300, "mkv".to_string()),
            ("c".to_string(), "c".to_string(), 300, "flv".to_string()),
            ("a_1".to_string(), "a".to_string(), 100, "mp4".to_string()),
        ]
    );
    assert_eq!(list[2].path, "/out/a_1.mp4");
    assert_eq!(list[2].size_bytes, 10);
}

#[test]
fn recording_records() {
    let r = recording_info("n_s.mp4", "n", "/out/n_s.mp4", 42, "mp4", 7);
    assert_eq!((r.id.as_str(), r.room_id.as_str(), r.path.as_str(), r.size_bytes, r.format.as_str(), r.created_at),
        ("n_s.mp4", "n", "/out/n_s.mp4", 42, "mp4", 7));
    let idle = idle_recording_info("5");
    assert_eq!(idle.room_id, "5");
    assert!(idle.id.is_empty() && idle.path.is_empty() && idle.format.is_empty());
    assert_eq!((idle.size_bytes, idle.created_at), (0, 0));
}

#[test]
fn watcher_quits_when_recording_is_gone() {
    let mut st = WatchState { last_total_bytes: 5, last_growth_ms: 1 };
    assert!(matches!(watch_step(&mut st, false, true, 10, 2), WatchAction::Quit));
    assert_eq!((st.last_total_bytes, st.last_growth_ms), (5, 1));
}

#[test]
fn watcher_fails_when_ffmpeg_exits() {
    let mut st = WatchState { last_total_bytes: 0, last_growth_ms: 0 };
    match watch_step(&mut st, true, false, 0, 0) {
        WatchAction::Fail(r) => assert_eq!(r, "录制进程已退出（可能：流地址失效、主播下播、网络断开）"),
        _ => panic!("expected a failure"),
    }
}

#[test]
fn watcher_growth_restarts_clock() {
    let mut st = WatchState { last_total_bytes: 0, last_growth_ms: 0 };
    assert!(matches!(watch_step(&mut st, true, true, 100, 50_000), WatchAction::Continue));
    assert_eq!((st.last_total_bytes, st.last_growth_ms), (100, 50_000));
    // No growth for exactly 180 s is still fine; a millisecond more is a stall.
    assert!(matches!(watch_step(&mut st, true, true, 100, 230_000), WatchAction::Continue));
    match watch_step(&mut st, true, true, 100, 230_001) {
        WatchAction::Fail(r) => assert_eq!(r, "录制文件 180 秒无增长（流可能已中断）；部分数据已尝试保留"),
        _ => panic!("expected a stall"),
    }
}

#[test]
fn watcher_no_data_after_90_seconds() {
    let mut st = WatchState { last_total_bytes: 0, last_growth_ms: 1_000 };
    assert!(matches!(watch_step(&mut st, true, true, 0, 91_000), WatchAction::Continue));
    match watch_step(&mut st, true, true, 0, 91_001) {
        WatchAction::Fail(r) => assert_eq!(r, "录制启动后 90 秒内未收到任何数据（流地址可能无效）"),
        _ => panic!("expected no data"),
    }
    // A clock that went backwards counts as no time passed.
    assert!(matches!(watch_step(&mut st, true, true, 0, 0), WatchAction::Continue));
}

#[test]
fn merge_plans() {
    assert!(matches!(merge_plan(0), MergePlan::Nothing));
    assert!(matches!(merge_plan(1), MergePlan::CopyOne));
    assert!(matches!(merge_plan(7), MergePlan::Concatenate));
}

#[test]
fn finishing_errors() {
    assert_eq!(not_recording_error("12"), "房间 12 未在录制");
    assert!(no_segments_error().starts_with("本次录制没有产生有效的视频文件。\n可能原因：\n① 录制时间太短（< 1 秒）"));
    assert_eq!(merge_failed_error("boom", "/w"), "合并失败: boom。原始分片保留在: /w");
    assert_eq!(copy_failed_error("io"), "复制分片失败: io");
    assert_eq!(merged_empty_error("/w"), "合并后无有效数据。原始分片保留在: /w");
    assert_eq!(transcode_failed_error("bad", "/w"), "转码失败: bad。原始分片保留在: /w");
}

#[test]
fn stderr_summaries() {
    assert_eq!(stderr_summary(None), "（stderr 未捕获）");
    assert_eq!(stderr_summary(Some(&vec![])), "（stderr 无输出，可能 ffmpeg 被外部进程强制终止，如杀毒软件）");
    assert_eq!(stderr_summary(Some(&b"abc\xffdef".to_vec())), "abc\u{FFFD}def");
    let long = vec![b'x'; 2000];
    assert_eq!(stderr_summary(Some(&long)).len(), 1500);
}

#[test]
fn stopping_releases_detector_unless_kept() {
    assert!(douyin_recorder::recorder::release_on_stop(false));
    assert!(!douyin_recorder::recorder::release_on_stop(true));
}

#[test]
fn finishing_keeps_segments_on_failure() {
    let a = finish_actions("7", "/w", true, FinishOutcome::MergeFailed("bad".to_string()));
    assert!(matches!(&a.event, StoppedEvent::Failed(e) if e == "bad"));
    assert!(!a.delete_work_dir && !a.reset_logic);
    assert_eq!(a.error.as_deref(), Some("合并失败: bad。原始分片保留在: /w"));
    let a = finish_actions("7", "/w", false, FinishOutcome::NoSegments);
    assert!(matches!(&a.event, StoppedEvent::Failed(e) if e == "无有效分片"));
    let a = finish_actions("7", "/w", false, FinishOutcome::MergedEmpty);
    assert!(matches!(&a.event, StoppedEvent::Failed(e) if e == "merged.mp4 is empty"));
    assert_eq!(a.error.as_deref(), Some("合并后无有效数据。原始分片保留在: /w"));
    let a = finish_actions("7", "/w", false, FinishOutcome::CopyFailed("io".to_string()));
    assert_eq!(a.error.as_deref(), Some("复制分片失败: io"));
    let a = finish_actions("7", "/w", false, FinishOutcome::TranscodeFailed("x".to_string()));
    assert_eq!(a.error.as_deref(), Some("转码失败: x。原始分片保留在: /w"));
    let a = finish_actions("7", "", false, FinishOutcome::NotRecording);
    assert!(matches!(a.event, StoppedEvent::Idle));
    assert_eq!(a.error.as_deref(), Some("房间 7 未在录制"));
}

#[test]
fn finishing_success_cleans_up() {
    let a = finish_actions("7", "/w", true, FinishOutcome::Finished);
    assert!(matches!(a.event, StoppedEvent::Finished));
    assert!(a.delete_work_dir && a.reset_logic && a.error.is_none());
    assert!(!finish_actions("7", "/w", false, FinishOutcome::Finished).reset_logic);
}

#[test]
fn beginning_a_recording() {
    let p = begin_plan(true, true, true);
    assert!(!p.start_recording && !p.attach_detector);
    let p = begin_plan(false, true, true);
    assert!(p.start_recording && p.attach_detector);
    let p = begin_plan(false, true, false);
    assert!(p.start_recording && !p.attach_detector);
    let p = begin_plan(false, false, true);
    assert!(p.start_recording && !p.attach_detector);
    assert!(begin_result(Ok(()), Some(Err("no python".to_string()))).is_ok());
    assert_eq!(begin_result(Err("e".to_string()), None), Err("e".to_string()));
}
