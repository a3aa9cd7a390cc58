use douyin_recorder::commands::{
    apply_resolved_stream, auto_resolve_error, cleanup_check, deletion_check, no_stream_after_resolve_error,
    output_file_name, rename_plan, renamed_file_name, resolve_failure_for_user, resolve_timeout_error,
    room_page_url, room_stream_ready,
};
use douyin_recorder::config::RoomConfig;
use douyin_recorder::resolver::RoomMeta;
use douyin_recorder::transcode::{export_segments, ffmpeg_failure_message, merge_segments, merge_videos, transcode};
use douyin_recorder::types::{pending_recording, PendingFile};

#[test]
fn resolve_failure_hints() {
    assert_eq!(
        resolve_failure_for_user("API 返回错误(4003028): 未在直播"),
        "解析直播流地址失败：API 返回错误(4003028): 未在直播 （主播可能未在直播，或抖音风控拦截了此房间）"
    );
    assert_eq!(
        resolve_failure_for_user("请求 Webcast API 失败: x"),
        "解析直播流地址失败：请求 Webcast API 失败: x （网络异常或抖音风控拦截，请稍后重试）"
    );
    assert_eq!(resolve_failure_for_user("别的"), "解析直播流地址失败：别的 （请检查房间号或网络）");
}

#[test]
fn resolve_errors() {
    assert_eq!(
        auto_resolve_error("e"),
        "自动解析直播流地址失败：e。请确认主播正在直播，或手动填写 flv/hls 流地址。"
    );
    assert_eq!(resolve_timeout_error(), "解析直播流地址超时（6 秒），请检查网络或稍后重试");
    assert_eq!(no_stream_after_resolve_error(), "未能获取到可用直播流地址，请确认主播正在直播");
    assert_eq!(room_page_url("123"), "https://live.douyin.com/123");
}

#[test]
fn stream_readiness() {
    let mut a = RoomConfig::new("a".to_string());
    a.stream_url = Some("https://PULL-x.example/live.FLV?x=1".to_string());
    let mut b = RoomConfig::new("b".to_string());
    b.stream_url = Some("https://live.douyin.com/1".to_string());
    let rooms = vec![a, b, RoomConfig::new("c".to_string())];
    assert!(room_stream_ready(&rooms, "a"));
    assert!(!room_stream_ready(&rooms, "b"));
    assert!(!room_stream_ready(&rooms, "c"));
    assert!(!room_stream_ready(&rooms, "d"));
}

#[test]
fn resolved_stream_fills_missing_name() {
    let mut rooms = vec![RoomConfig::new("1".to_string())];
    let meta = Some(RoomMeta { nickname: "小王".to_string(), title: "t".to_string() });
    let rename = apply_resolved_stream(&mut rooms, "1", "https://a.flv".to_string(), &meta);
    assert_eq!(rename.as_deref(), Some("小王"));
    assert_eq!(rooms[0].name.as_deref(), Some("小王"));
    assert_eq!(rooms[0].stream_url.as_deref(), Some("https://a.flv"));
}

#[test]
fn resolved_stream_fills_empty_name_without_rename() {
    let mut r = RoomConfig::new("1".to_string());
    r.name = Some(String::new());
    let mut rooms = vec![r];
    let meta = Some(RoomMeta { nickname: "小王".to_string(), title: String::new() });
    let rename = apply_resolved_stream(&mut rooms, "1", "u".to_string(), &meta);
    assert!(rename.is_none());
    assert_eq!(rooms[0].name.as_deref(), Some("小王"));
}

#[test]
fn resolved_stream_keeps_existing_name() {
    let mut r = RoomConfig::new("1".to_string());
    r.name = Some("mine".to_string());
    let mut rooms = vec![r];
    let meta = Some(RoomMeta { nickname: "小王".to_string(), title: String::new() });
    assert!(apply_resolved_stream(&mut rooms, "1", "u".to_string(), &meta).is_none());
    assert_eq!(rooms[0].name.as_deref(), Some("mine"));
    assert_eq!(rooms[0].stream_url.as_deref(), Some("u"));
}

#[test]
fn resolved_stream_without_nickname() {
    let mut rooms = vec![RoomConfig::new("1".to_string())];
    let meta = Some(RoomMeta { nickname: String::new(), title: "t".to_string() });
    assert!(apply_resolved_stream(&mut rooms, "1", "u".to_string(), &meta).is_none());
    assert!(rooms[0].name.is_none());
    assert!(apply_resolved_stream(&mut rooms, "1", "v".to_string(), &None).is_none());
    assert_eq!(rooms[0].stream_url.as_deref(), Some("v"));
}

#[test]
fn resolved_stream_for_unknown_room() {
    let mut rooms = vec![RoomConfig::new("1".to_string())];
    assert!(apply_resolved_stream(&mut rooms, "2", "u".to_string(), &None).is_none());
    assert!(rooms[0].stream_url.is_none());
}

#[test]
fn rename_plans() {
    assert_eq!(rename_plan("12 3", "小 王"), Some(("123".to_string(), "小王".to_string())));
    assert_eq!(rename_plan("abc", "a b c"), None);
    assert_eq!(rename_plan("!!", "x"), None);
    assert_eq!(rename_plan("1", "??"), None);
}

#[test]
fn renamed_files() {
    assert_eq!(
        renamed_file_name("123_2026-01-01_10-00-00", "mp4", "123", "小王", "mkv"),
        Some("小王_2026-01-01_10-00-00.mp4".to_string())
    );
    assert_eq!(renamed_file_name("123_x", "", "123", "n", "mkv"), Some("n_x.mkv".to_string()));
    assert_eq!(renamed_file_name("1234_x", "mp4", "123", "n", "mp4"), None);
    assert_eq!(renamed_file_name("123", "mp4", "123", "n", "mp4"), None);
}

#[test]
fn output_names() {
    assert_eq!(output_file_name("clip", "mp4"), "clip.mp4");
}

#[test]
fn deleting_needs_existing_file_inside_output() {
    assert_eq!(deletion_check("/x.mp4", false, true, "/out").unwrap_err(), "文件不存在: /x.mp4");
    assert_eq!(
        deletion_check("/x.mp4", true, false, "/out").unwrap_err(),
        "安全限制：只能删除 output_dir(/out) 下的录制文件"
    );
    assert!(deletion_check("/out/x.mp4", true, true, "/out").is_ok());
}

#[test]
fn cleaning_needs_directory_inside_output() {
    assert_eq!(cleanup_check(false, false).unwrap_err(), "安全限制：只能清理 output_dir 下的残留");
    assert_eq!(cleanup_check(false, true).unwrap_err(), "工作目录不存在");
    assert!(cleanup_check(true, true).is_ok());
}

#[test]
fn transcode_to_mp4() {
    assert_eq!(
        transcode("in.flv", "out.mp4", "mp4"),
        vec![
            "-y", "-i", "in.flv", "-c:v", "libx264", "-profile:v", "baseline", "-level", "3.0", "-pix_fmt",
            "yuv420p", "-preset", "ultrafast", "-c:a", "aac", "-b:a", "128k", "-movflags", "+faststart", "out.mp4"
        ]
    );
}

#[test]
fn transcode_to_webm_and_mkv() {
    assert_eq!(
        transcode("a", "b.webm", "webm"),
        vec!["-y", "-i", "a", "-c:v", "libvpx-vp9", "-c:a", "libopus", "-b:v", "0", "b.webm"]
    );
    let mkv = transcode("a", "b.mkv", "mkv");
    assert_eq!(mkv.len(), 20);
    assert_eq!(&mkv[16..], &["128k", "-movflags", "+faststart", "b.mkv"]);
    let avi = transcode("a", "b.avi", "avi");
    assert_eq!(avi.len(), 18);
    assert_eq!(avi[17], "b.avi");
    let mov = transcode("a", "b.mov", "mov");
    assert_eq!(mov[17], "-movflags");
}

#[test]
fn concat_job() {
    let segs = vec!["C:\\w\\seg_000.flv".to_string(), "/w/seg_001.flv".to_string()];
    let job = merge_segments(&segs, "/w/merged.concat.txt", "/w/merged.flv").unwrap();
    assert_eq!(job.list_text, "file 'C:/w/seg_000.flv'\nfile '/w/seg_001.flv'\n");
    assert_eq!(
        job.args,
        vec!["-y", "-f", "concat", "-safe", "0", "-i", "/w/merged.concat.txt", "-c", "copy", "-movflags", "+faststart", "/w/merged.flv"]
    );
    assert_eq!(merge_segments(&vec![], "l", "o").err().unwrap(), "没有可合并的分片");
    assert_eq!(merge_videos(&vec![], "l", "o").err().unwrap(), "没有可合并的分片");
    assert_eq!(merge_videos(&segs, "l", "o").unwrap().list_text, job.list_text);
}

#[test]
fn export_filter_graph() {
    let bounds = vec![("1.5".to_string(), "3".to_string()), ("10".to_string(), "12.25".to_string())];
    let args = export_segments("in.mp4", &bounds, "out.mp4").unwrap();
    assert_eq!(args.len(), 10);
    assert_eq!(&args[..4], &["-y", "-i", "in.mp4", "-filter_complex"]);
    assert_eq!(
        args[4],
        "[0:v]trim=start=1.5:end=3,setpts=PTS-STARTPTS[v0];[0:a]atrim=start=1.5:end=3,asetpts=PTS-STARTPTS[a0];\
[0:v]trim=start=10:end=12.25,setpts=PTS-STARTPTS[v1];[0:a]atrim=start=10:end=12.25,asetpts=PTS-STARTPTS[a1];\
[v0][v1]concat=n=2:v=1:a=0[v];[a0][a1]concat=n=2:v=0:a=1[a]"
    );
    assert_eq!(&args[5..], &["-map", "[v]", "-map", "[a]", "out.mp4"]);
    assert_eq!(export_segments("in.mp4", &vec![], "o").unwrap_err(), "没有选取片段");
}

#[test]
fn ffmpeg_failure_with_gbk_stderr() {
    // "错误" in GBK.
    let stderr = vec![0xB4, 0xED, 0xCE, 0xF3];
    let msg = ffmpeg_failure_message(&vec!["-i".to_string(), "a b".to_string()], &stderr);
    assert_eq!(msg, "ffmpeg 执行失败。参数: [\"-i\", \"a b\"]\n\nffmpeg stderr 尾部:\n错误");
}

#[test]
fn ffmpeg_failure_falls_back_to_utf8_and_keeps_tail() {
    let mut stderr = vec![b'z'; 1600];
    stderr.extend("前".as_bytes());
    stderr.push(0xFF);
    let msg = ffmpeg_failure_message(&vec![], &stderr);
    let tail = msg.split("ffmpeg stderr 尾部:\n").nth(1).unwrap();
    assert_eq!(tail.chars().count(), 1500);
    assert!(tail.ends_with("zzz前\u{FFFD}"));
    assert!(msg.starts_with("ffmpeg 执行失败。参数: []\n\n"));
}

fn pf(is_video: bool, size: Option<u64>, modified: Option<u64>) -> PendingFile {
    PendingFile { is_video, size, modified_secs: modified }
}

#[test]
fn pending_recording_counts_usable_segments() {
    let files = vec![
        pf(true, Some(20_000), Some(300)),
        pf(true, Some(10_240), Some(100)),
        pf(false, Some(50_000), Some(50)),
        pf(true, Some(30_000), Some(200)),
        pf(true, None, Some(10)),
    ];
    let p = pending_recording("._work_123", "/out/._work_123", &files).unwrap();
    assert_eq!(p.work_dir, "/out/._work_123");
    assert_eq!(p.segment_count, 2);
    assert_eq!(p.total_bytes, 50_000);
    assert_eq!(p.room_id, "123");
    assert_eq!(p.earliest_ts, 200);
}

#[test]
fn pending_recording_edge_cases() {
    assert!(pending_recording("._work_1", "/w", &vec![pf(true, Some(5), Some(1))]).is_none());
    assert!(pending_recording("other", "/w", &vec![pf(true, Some(20_000), Some(1))]).is_none());
    let p = pending_recording("._work_._work_9", "/w", &vec![pf(true, Some(20_000), None)]).unwrap();
    assert_eq!(p.room_id, "9");
    assert_eq!(p.earliest_ts, 0);
}
