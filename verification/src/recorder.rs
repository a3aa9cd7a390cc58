//! Recording: modes, names, ffmpeg arguments, start-up checks, segments and finished files.
use vstd::prelude::*;
use chrono::TimeZone;
use crate::order::{lex_le, lex_le_exec, lex_sorted, lemma_lex_total, lemma_lex_trans};
use crate::config::{opt_str, RecorderConfig, RoomConfig, RoomView, rooms_view, has_room_id, first_index_of};
use crate::config::is_video_ext;
use crate::text::{
    has_prefix, before_char, prefix_before, str_starts_with, views,
    chars_of, concat, decimal, decimal_i64, decimal_u64, has_infix, hex8, hex8_upper, is_alphanumeric,
    push_char, signed_decimal, str_contains, str_equal, unicode_alphanumeric,
};

verus! {

// ---------------------------------------------------------------------------
// Names
// ---------------------------------------------------------------------------

/// A character kept in ids and file names: alphanumeric, `_` or `-`.
pub open spec fn safe_id_char(c: char) -> bool {
    unicode_alphanumeric(c) || c == '_' || c == '-'
}

/// `s` with every character that is not alphanumeric, `_` or `-` removed.
pub open spec fn sanitized(s: Seq<char>) -> Seq<char> {
    s.filter(|c: char| safe_id_char(c))
}

/// Keeps only the characters of a room id (or name) that are safe in file names:
/// alphanumerics, `_` and `-`.
pub fn sanitize_room_id(room_id: &str) -> (res: String)
    ensures
        res@ == sanitized(room_id@),
{
    let v = chars_of(room_id);
    let mut out = String::new();
    let mut i: usize = 0;
    while i < v.len()
        invariant
            i <= v@.len(),
            v@ == room_id@,
            out@ == v@.take(i as int).filter(|c: char| safe_id_char(c)),
        decreases v.len() - i,
    {
        proof {
            reveal_with_fuel(Seq::<char>::filter, 1);
            assert(v@.take(i + 1).drop_last() =~= v@.take(i as int));
            assert(v@.take(i + 1).last() == v@[i as int]);
        }
        let c = v[i];
        if is_alphanumeric(c) || c == '_' || c == '-' {
            push_char(&mut out, c);
        }
        i += 1;
    }
    assert(v@.take(v@.len() as int) =~= v@);
    out
}

/// Sanitising keeps only safe characters.
pub proof fn law_sanitized_is_safe(s: Seq<char>)
    ensures
        forall|i: int| 0 <= i < sanitized(s).len() ==> safe_id_char(#[trigger] sanitized(s)[i]),
{
    assert forall|i: int| 0 <= i < sanitized(s).len() implies safe_id_char(#[trigger] sanitized(s)[i]) by {
        s.lemma_filter_pred(|c: char| safe_id_char(c), i);
    }
}

proof fn lemma_filter_all(s: Seq<char>)
    requires
        forall|i: int| 0 <= i < s.len() ==> safe_id_char(#[trigger] s[i]),
    ensures
        s.filter(|c: char| safe_id_char(c)) == s,
    decreases s.len(),
{
    reveal_with_fuel(Seq::<char>::filter, 1);
    if s.len() > 0 {
        lemma_filter_all(s.drop_last());
        assert(s.drop_last().push(s.last()) =~= s);
    }
}

/// Sanitising is idempotent: a sanitised id is left as it is.
pub proof fn law_sanitize_idempotent(s: Seq<char>)
    ensures
        sanitized(sanitized(s)) == sanitized(s),
{
    law_sanitized_is_safe(s);
    lemma_filter_all(sanitized(s));
}

/// The name of a room's working directory inside the output directory: `._work_<id>`.
pub fn work_dir_name(room_id: &str) -> (res: String)
    ensures
        res@ == "._work_"@ + sanitized(room_id@),
{
    concat("._work_", sanitize_room_id(room_id).as_str())
}

/// The format of a finished recording: mp4 when `auto_mp4`, else the configured format.
pub open spec fn effective_format(auto_mp4: bool, output_format: Seq<char>) -> Seq<char> {
    if auto_mp4 { "mp4"@ } else { output_format }
}

/// The format of a finished recording.
pub fn effective_format_of(cfg: &RecorderConfig) -> (res: String)
    ensures
        res@ == effective_format(cfg.auto_mp4, cfg.output_format@),
{
    if cfg.auto_mp4 { "mp4".to_owned() } else { cfg.output_format.clone() }
}

/// The room with id `room_id`, if any (the first one).
pub fn find_room<'a>(rooms: &'a Vec<RoomConfig>, room_id: &str) -> (res: Option<&'a RoomConfig>)
    ensures
        match res {
            Some(r) => exists|i: int| first_index_of(rooms_view(rooms@), room_id@, i) && rooms@[i] == *r,
            None => !has_room_id(rooms_view(rooms@), room_id@),
        },
{
    let mut i: usize = 0;
    while i < rooms.len()
        invariant
            i <= rooms@.len(),
            forall|k: int| 0 <= k < i ==> rooms@[k].id@ != room_id@,
        decreases rooms.len() - i,
    {
        if str_equal(rooms[i].id.as_str(), room_id) {
            assert(first_index_of(rooms_view(rooms@), room_id@, i as int));
            return Some(&rooms[i]);
        }
        i += 1;
    }
    assert forall|k: int| 0 <= k < rooms_view(rooms@).len() implies #[trigger] rooms_view(rooms@)[k].0 != room_id@ by {
        assert(rooms_view(rooms@)[k].0 == rooms@[k].id@);
    }
    None
}

/// The name part of a finished recording: the room's non-empty display name, sanitised,
/// when that is not empty; otherwise the sanitised room id.
pub open spec fn anchor_part(room_name: Option<Seq<char>>, room_id: Seq<char>) -> Seq<char> {
    match room_name {
        Some(n) => if n.len() > 0 && sanitized(n).len() > 0 { sanitized(n) } else { sanitized(room_id) },
        None => sanitized(room_id),
    }
}

/// The display name of the first room with id `room_id`.
pub open spec fn room_name_of(rooms: Seq<RoomView>, room_id: Seq<char>) -> Option<Seq<char>> {
    if has_room_id(rooms, room_id) {
        rooms[choose|i: int| first_index_of(rooms, room_id, i)].1
    } else {
        None
    }
}

proof fn lemma_first_index_unique(rooms: Seq<RoomView>, id: Seq<char>, i: int, j: int)
    requires
        first_index_of(rooms, id, i),
        first_index_of(rooms, id, j),
    ensures
        i == j,
{
    if i < j {
        assert(rooms[i].0 == id);
    } else if j < i {
        assert(rooms[j].0 == id);
    }
}

/// The file name of a finished recording, given the text of its time stamp:
/// `<name>_<stamp>.<format>`.
pub fn final_name_with_stamp(cfg: &RecorderConfig, room_id: &str, stamp: &str) -> (res: String)
    ensures
        res@ == anchor_part(room_name_of(rooms_view(cfg.rooms@), room_id@), room_id@) + "_"@ + stamp@
            + "."@ + effective_format(cfg.auto_mp4, cfg.output_format@),
{
    let name: Option<String> = match find_room(&cfg.rooms, room_id) {
        Some(r) => match &r.name {
            Some(n) => Some(n.clone()),
            None => None,
        },
        None => None,
    };
    let anchor: String = match name {
        Some(n) => {
            if !n.as_str().is_empty() {
                let s = sanitize_room_id(n.as_str());
                if !s.as_str().is_empty() { s } else { sanitize_room_id(room_id) }
            } else {
                sanitize_room_id(room_id)
            }
        },
        None => sanitize_room_id(room_id),
    };
    proof {
        let rv = rooms_view(cfg.rooms@);
        if has_room_id(rv, room_id@) {
            let j = choose|i: int| first_index_of(rv, room_id@, i);
            assert forall|i: int| first_index_of(rv, room_id@, i) implies i == j by {
                lemma_first_index_unique(rv, room_id@, i, j);
            }
        }
        assert(opt_str(name) == room_name_of(rv, room_id@));
    }
    let fmt = effective_format_of(cfg);
    let r = concat(anchor.as_str(), "_");
    let r = concat(r.as_str(), stamp);
    let r = concat(r.as_str(), ".");
    concat(r.as_str(), fmt.as_str())
}


/// The characters a local-time stamp is written with: ASCII digits, `-`, `_` and the sign `+`.
pub open spec fn stamp_chars(s: Seq<char>) -> bool {
    forall|i: int| 0 <= i < s.len() ==> ('0' <= #[trigger] s[i] <= '9' || s[i] == '-' || s[i] == '_' || s[i] == '+')
}

/// A time stamp as `%Y-%m-%d_%H-%M-%S` writes one: at least 19 characters (a year of at least
/// four digits, possibly signed, and five two-digit fields), each a digit, `-`, `_` or `+`.
pub open spec fn local_stamp_shape(s: Seq<char>) -> bool {
    s.len() >= 19 && stamp_chars(s)
}

/// The local time of `ts` (Unix seconds) as `%Y-%m-%d_%H-%M-%S`, by chrono's `Local` time zone;
/// `None` when the time is not a single local time. The values depend on the machine's time
/// zone and are left unsaid; chrono's formatting code writes the year as four digits (with a
/// sign and more digits outside 0..=9999) and every other field as two digits, which gives
/// the shape stated.
#[verifier::external_body]
fn local_time_text(ts: i64) -> (res: Option<String>)
    ensures
        res matches Some(s) ==> local_stamp_shape(s@),
{
    chrono::Local.timestamp_opt(ts, 0).single().map(|dt| dt.format("%Y-%m-%d_%H-%M-%S").to_string())
}

/// The time stamp in file names: local time as `2026-07-23_18-52-34`, or the decimal
/// seconds when the local time cannot be determined.
fn fmt_ts(ts: i64) -> (res: String)
    ensures
        res@ == signed_decimal(ts as int) || local_stamp_shape(res@),
{
    match local_time_text(ts) {
        Some(s) => s,
        None => decimal_i64(ts),
    }
}

/// The stamp written for time `ts`: a local-time stamp, or the decimal seconds.
pub open spec fn stamp_for(ts: i64, stamp: Seq<char>) -> bool {
    stamp == signed_decimal(ts as int) || local_stamp_shape(stamp)
}

/// The file name of a finished recording: `<name>_<local time>.<format>`, the time written
/// as a local-time stamp or, when there is none, as decimal seconds.
pub fn build_final_name(cfg: &RecorderConfig, room_id: &str, ts: i64) -> (res: String)
    ensures
        exists|stamp: Seq<char>| #[trigger] stamp_for(ts, stamp)
            && res@ == anchor_part(room_name_of(rooms_view(cfg.rooms@), room_id@), room_id@)
            + "_"@ + stamp + "."@ + effective_format(cfg.auto_mp4, cfg.output_format@),
{
    let stamp = fmt_ts(ts);
    let res = final_name_with_stamp(cfg, room_id, stamp.as_str());
    assert(stamp_for(ts, stamp@)
        && res@ == anchor_part(room_name_of(rooms_view(cfg.rooms@), room_id@), room_id@)
        + "_"@ + stamp@ + "."@ + effective_format(cfg.auto_mp4, cfg.output_format@));
    res
}

/// The seconds since the Unix epoch by the system clock; `None` before the epoch.
/// It depends on the clock, so nothing is stated of it.
#[verifier::external_body]
fn unix_time_secs() -> Option<u64> {
    std::time::SystemTime::now().duration_since(std::time::UNIX_EPOCH).ok().map(|d| d.as_secs())
}

/// The current Unix time in seconds (0 when the clock is before the epoch).
pub fn now_ts() -> i64 {
    match unix_time_secs() {
        Some(s) => s as i64,
        None => 0,
    }
}

// ---------------------------------------------------------------------------
// What to record
// ---------------------------------------------------------------------------

/// The recording mode: `stream` when the room has a stream address and the capture mode is
/// not `screen`; otherwise `screen`.
pub open spec fn mode_of(capture_mode: Seq<char>, room: Option<RoomView>) -> Seq<char> {
    let has_url = match room {
        Some(r) => r.2 is Some,
        None => false,
    };
    if has_url && capture_mode != "screen"@ { "stream"@ } else { "screen"@ }
}

pub open spec fn room_opt_view(room: Option<&RoomConfig>) -> Option<RoomView> {
    match room {
        Some(r) => Some(r@),
        None => None,
    }
}

/// Chooses the recording mode for a room.
pub fn decide_mode(cfg: &RecorderConfig, room: Option<&RoomConfig>) -> (res: &'static str)
    ensures
        res@ == mode_of(cfg.capture_mode@, room_opt_view(room)),
{
    let has_url = match room {
        Some(r) => r.stream_url.is_some(),
        None => false,
    };
    let want_stream = !str_equal(cfg.capture_mode.as_str(), "screen");
    if has_url && want_stream { "stream" } else { "screen" }
}

/// Looks up a stream address for a room by its id alone; there is no such source, so none is found.
pub fn resolve_stream_url(_room_id: &str) -> (res: Option<String>)
    ensures
        res is None,
{
    None
}

/// The detector's input `(source, mode)`: in `stream` mode the room's stream address
/// (empty when there is none); otherwise the configured screen source, `desktop` by default.
pub fn resolve_source(room_id: &str, cfg: &RecorderConfig, room: Option<&RoomConfig>) -> (res: (String, String))
    ensures
        res.1@ == mode_of(cfg.capture_mode@, room_opt_view(room)),
        res.1@ == "stream"@ ==> res.0@ == match room {
            Some(r) => match r.stream_url { Some(u) => u@, None => Seq::<char>::empty() },
            None => Seq::<char>::empty(),
        },
        res.1@ != "stream"@ ==> res.0@ == match cfg.screen_source { Some(s) => s@, None => "desktop"@ },
{
    let mode = decide_mode(cfg, room);
    let source = if str_equal(mode, "stream") {
        let from_room: Option<String> = match room {
            Some(r) => match &r.stream_url { Some(u) => Some(u.clone()), None => None },
            None => None,
        };
        match from_room {
            Some(u) => u,
            None => match resolve_stream_url(room_id) {
                Some(u) => u,
                None => String::new(),
            },
        }
    } else {
        match &cfg.screen_source {
            Some(s) => s.clone(),
            None => "desktop".to_owned(),
        }
    };
    (source, mode.to_owned())
}

/// Appends `s` to a list of arguments.
pub fn push_arg(args: &mut Vec<String>, s: &str)
    ensures
        crate::text::views(final(args)@) == crate::text::views(old(args)@).push(s@),
{
    let ghost before = crate::text::views(args@);
    args.push(s.to_owned());
    assert(crate::text::views(args@) =~= before.push(s@));
}

/// The ffmpeg arguments that record a stream into FLV segments of `seg_secs` seconds.
pub open spec fn stream_recording_args(url: Seq<char>, seg_secs: nat, out_template: Seq<char>) -> Seq<Seq<char>> {
    seq!["-y"@, "-v"@, "info"@, "-i"@, url, "-c"@, "copy"@, "-f"@, "segment"@, "-segment_time"@,
        decimal(seg_secs), "-segment_format"@, "flv"@, "-reset_timestamps"@, "1"@, "-vsync"@, "0"@,
        "-reconnect"@, "1"@, "-reconnect_streamed"@, "1"@, "-reconnect_delay_max"@, "5"@, out_template]
}

/// The ffmpeg arguments that record the screen source `src` into an MP4 file.
pub open spec fn screen_recording_args(src: Seq<char>, out_file: Seq<char>) -> Seq<Seq<char>> {
    seq!["-y"@, "-v"@, "info"@, "-f"@, "gdigrab"@, "-framerate"@, "30"@, "-i"@, src, "-c:v"@,
        "libx264"@, "-preset"@, "ultrafast"@, "-pix_fmt"@, "yuv420p"@, "-f"@, "mp4"@, out_file]
}

/// What a recording reads and how: `("stream", url)` or `("screen", source)`.
pub open spec fn recording_input(room_id: Seq<char>, capture_mode: Seq<char>, screen_source: Option<Seq<char>>,
    room: Option<RoomView>) -> Result<(Seq<char>, Seq<char>), Seq<char>>
{
    if mode_of(capture_mode, room) == "stream"@ {
        match room {
            Some(r) => match r.2 {
                Some(u) => Ok(("stream"@, u)),
                None => Err("房间 "@ + room_id + " 未配置直播流地址"@),
            },
            None => Err("房间 "@ + room_id + " 未配置直播流地址"@),
        }
    } else {
        Ok(("screen"@, match screen_source { Some(s) => s, None => "desktop"@ }))
    }
}

/// The ffmpeg arguments of a recording: segments of `max(1, segment_minutes)` minutes named
/// by `out_template` for a stream, or an MP4 file `out_file` for the screen.
pub fn recording_args(room_id: &str, cfg: &RecorderConfig, room: Option<&RoomConfig>, out_template: &str,
    out_file: &str) -> (res: Result<(String, Vec<String>), String>)
    requires
        cfg.segment_minutes <= u64::MAX / 60,
    ensures
        match recording_input(room_id@, cfg.capture_mode@, opt_str(cfg.screen_source), room_opt_view(room)) {
            Ok((mode, input)) => res matches Ok((m, args)) && m@ == mode && crate::text::views(args@) == if mode == "stream"@ {
                stream_recording_args(input, (if cfg.segment_minutes < 1 { 1 } else { cfg.segment_minutes }) as nat * 60,
                    out_template@)
            } else {
                screen_recording_args(input, out_file@)
            },
            Err(e) => res matches Err(msg) && msg@ == e,
        },
{
    let mode = decide_mode(cfg, room);
    let mut args: Vec<String> = Vec::new();
    if str_equal(mode, "stream") {
        let url: String = match room {
            Some(r) => match &r.stream_url {
                Some(u) => u.clone(),
                None => {
                    let m = concat("房间 ", room_id);
                    return Err(concat(m.as_str(), " 未配置直播流地址"));
                },
            },
            None => {
                let m = concat("房间 ", room_id);
                return Err(concat(m.as_str(), " 未配置直播流地址"));
            },
        };
        let minutes = if cfg.segment_minutes < 1 { 1 } else { cfg.segment_minutes };
        let seg = decimal_u64(minutes * 60);
        push_arg(&mut args, "-y");
        push_arg(&mut args, "-v");
        push_arg(&mut args, "info");
        push_arg(&mut args, "-i");
        push_arg(&mut args, url.as_str());
        push_arg(&mut args, "-c");
        push_arg(&mut args, "copy");
        push_arg(&mut args, "-f");
        push_arg(&mut args, "segment");
        push_arg(&mut args, "-segment_time");
        push_arg(&mut args, seg.as_str());
        push_arg(&mut args, "-segment_format");
        push_arg(&mut args, "flv");
        push_arg(&mut args, "-reset_timestamps");
        push_arg(&mut args, "1");
        push_arg(&mut args, "-vsync");
        push_arg(&mut args, "0");
        push_arg(&mut args, "-reconnect");
        push_arg(&mut args, "1");
        push_arg(&mut args, "-reconnect_streamed");
        push_arg(&mut args, "1");
        push_arg(&mut args, "-reconnect_delay_max");
        push_arg(&mut args, "5");
        push_arg(&mut args, out_template);
        assert(crate::text::views(args@) =~= stream_recording_args(url@, (minutes * 60) as nat, out_template@));
        Ok(("stream".to_owned(), args))
    } else {
        let src: String = match &cfg.screen_source {
            Some(s) => s.clone(),
            None => "desktop".to_owned(),
        };
        push_arg(&mut args, "-y");
        push_arg(&mut args, "-v");
        push_arg(&mut args, "info");
        push_arg(&mut args, "-f");
        push_arg(&mut args, "gdigrab");
        push_arg(&mut args, "-framerate");
        push_arg(&mut args, "30");
        push_arg(&mut args, "-i");
        push_arg(&mut args, src.as_str());
        push_arg(&mut args, "-c:v");
        push_arg(&mut args, "libx264");
        push_arg(&mut args, "-preset");
        push_arg(&mut args, "ultrafast");
        push_arg(&mut args, "-pix_fmt");
        push_arg(&mut args, "yuv420p");
        push_arg(&mut args, "-f");
        push_arg(&mut args, "mp4");
        push_arg(&mut args, out_file);
        assert(crate::text::views(args@) =~= screen_recording_args(src@, out_file@));
        Ok(("screen".to_owned(), args))
    }
}


// ---------------------------------------------------------------------------
// Start-up checks
// ---------------------------------------------------------------------------

/// The state of the recording process at a check.
pub enum ExitCheck {
    Running,
    Exited { success: bool, code: Option<i32> },
}

/// The two checks after ffmpeg is started: after connecting (2 s) and after data should
/// have arrived (5 s).
pub enum StartupPhase {
    Connecting,
    Receiving,
}

/// What a start-up check decides.
pub enum StartupVerdict {
    /// Wait for the next check.
    KeepWaiting,
    /// Data is arriving: the recording runs.
    Healthy,
    /// ffmpeg exited with a failure within `waited_secs` seconds.
    ExitedEarly { code: Option<i32>, waited_secs: u64 },
    /// ffmpeg runs (or ended without failure) but no data arrived.
    NoData,
}

/// Decides a start-up check: a failed exit is reported with the seconds waited (2 or 5);
/// after the second wait, the recording is healthy exactly when the first segment has data.
pub fn startup_verdict(phase: StartupPhase, check: ExitCheck, has_data: bool) -> (res: StartupVerdict)
    ensures
        phase is Connecting ==> match check {
            ExitCheck::Exited { success: false, code } => res == (StartupVerdict::ExitedEarly { code, waited_secs: 2 }),
            _ => res is KeepWaiting,
        },
        phase is Receiving ==> if has_data {
            res is Healthy
        } else {
            match check {
                ExitCheck::Exited { success: false, code } => res == (StartupVerdict::ExitedEarly { code, waited_secs: 5 }),
                _ => res is NoData,
            }
        },
{
    match phase {
        StartupPhase::Connecting => match check {
            ExitCheck::Exited { success: false, code } => StartupVerdict::ExitedEarly { code, waited_secs: 2 },
            _ => StartupVerdict::KeepWaiting,
        },
        StartupPhase::Receiving => {
            if has_data {
                StartupVerdict::Healthy
            } else {
                match check {
                    ExitCheck::Exited { success: false, code } => StartupVerdict::ExitedEarly { code, waited_secs: 5 },
                    _ => StartupVerdict::NoData,
                }
            }
        },
    }
}

/// An exit code that points at the process being killed from outside (anti-virus): the codes
/// -1414549496 (`0xABAFB008`) and -1414549419 (`0xABAFB055`), any code whose 32 bits are
/// `0xABxxxxxx` (the debug-heap fill pattern), or a Windows exception code `0xC000xxxx`.
pub open spec fn abnormal_exit_code(c: i32) -> bool {
    c == -1414549496 || c == -1414549419 || ((c as u32) & 0xFF000000u32) == 0xAB000000u32
        || ((c as u32) & 0xFFFF0000u32) == 0xC0000000u32
}

/// Whether the captured stderr is empty or one of the placeholders for no output.
pub open spec fn empty_stderr(stderr: Seq<char>) -> bool {
    stderr.len() == 0 || has_infix(stderr, "stderr 无输出"@) || has_infix(stderr, "stderr 未捕获"@)
}

pub open spec fn hint_antivirus() -> Seq<char> {
    "🚨 高度疑似被杀毒软件 / Windows Defender 拦截：\n\
         · ffmpeg 启动 banner 输出后立即被杀（stderr 无错误消息说明不是 ffmpeg 自己崩）\n\
         · 异常退出码 0xABxxxxxx 是 Windows 调试堆填充 + 进程被外力 kill 的特征\n\
         · 修复方法：把 ffmpeg.exe 和本程序加入 Windows Defender 排除项（白名单）\n\
         · 或临时关闭实时保护验证（设 → 病毒防护 → 管理设置 → 实时保护 关）\n\
         · 参考：https://support.microsoft.com/zh-cn/windows/添加排除项"@
}

/// The diagnosis hint for a failed start: antivirus (abnormal code and no stderr), else by
/// keywords in stderr (403, network, 404), else by mode.
pub open spec fn exit_hint(stderr: Seq<char>, c: i32, mode: Seq<char>) -> Seq<char> {
    if abnormal_exit_code(c) && empty_stderr(stderr) {
        hint_antivirus()
    } else if has_infix(stderr, "403"@) || has_infix(stderr, "Forbidden"@) {
        "（最可能：流地址已过期，HTTP 403。请重新开始录制，会自动重新解析）"@
    } else if has_infix(stderr, "Connection refused"@) || has_infix(stderr, "timeout"@) || has_infix(stderr, "timed out"@) {
        "（最可能：网络不可达 — 防火墙/代理/抖音风控）"@
    } else if has_infix(stderr, "404"@) || has_infix(stderr, "Not Found"@) {
        "（最可能：流地址已失效 — 请重新开始录制自动重新解析）"@
    } else if mode == "screen"@ {
        "（最可能：屏幕捕获源不可用 — 检查屏幕源设置）"@
    } else {
        "（请确认主播正在直播，或参考下方 ffmpeg stderr）"@
    }
}

/// The exit code in hexadecimal, with the signed value for negative codes.
pub open spec fn exit_code_hex(c: i32) -> Seq<char> {
    if c >= 0 {
        "0x"@ + hex8(c as u32)
    } else {
        "0x"@ + hex8(c as u32) + " (signed: "@ + signed_decimal(c as int) + ")"@
    }
}

pub open spec fn exit_error_tail() -> Seq<char> {
    "\n\n\
         排查方向：\n\
         ① 流地址已过期（抖音 flv URL 几分钟就失效，重新开始录制会自动重新解析）\n\
         ② 主播未在直播或被风控拦截\n\
         ③ 杀毒软件 / Windows Defender 把 ffmpeg.exe 当作可疑进程杀掉（最常见）\n\
         ④ ffmpeg 找不到或缺少编解码器\n\
         \n\
         ffmpeg stderr 尾部：\n"@
}

/// The message for ffmpeg exiting during start-up (a missing code counts as -1).
pub open spec fn exit_error_message(stderr: Seq<char>, code: Option<i32>, waited_secs: u64, mode: Seq<char>) -> Seq<char> {
    let c: i32 = match code { Some(c) => c, None => -1i32 };
    "ffmpeg 启动后"@ + decimal(waited_secs as nat) + "秒内异常退出（exit code: "@ + signed_decimal(c as int)
        + " / "@ + exit_code_hex(c) + "）"@ + exit_hint(stderr, c, mode) + exit_error_tail() + stderr
}

fn exit_hint_exec(stderr: &str, c: i32, mode: &str) -> (res: &'static str)
    ensures
        res@ == exit_hint(stderr@, c, mode@),
{
    let abnormal = c == -1414549496 || c == -1414549419 || ((c as u32) & 0xFF000000u32) == 0xAB000000u32
        || ((c as u32) & 0xFFFF0000u32) == 0xC0000000u32;
    let empty = stderr.is_empty() || str_contains(stderr, "stderr 无输出") || str_contains(stderr, "stderr 未捕获");
    if abnormal && empty {
        "🚨 高度疑似被杀毒软件 / Windows Defender 拦截：\n\
         · ffmpeg 启动 banner 输出后立即被杀（stderr 无错误消息说明不是 ffmpeg 自己崩）\n\
         · 异常退出码 0xABxxxxxx 是 Windows 调试堆填充 + 进程被外力 kill 的特征\n\
         · 修复方法：把 ffmpeg.exe 和本程序加入 Windows Defender 排除项（白名单）\n\
         · 或临时关闭实时保护验证（设 → 病毒防护 → 管理设置 → 实时保护 关）\n\
         · 参考：https://support.microsoft.com/zh-cn/windows/添加排除项"
    } else if str_contains(stderr, "403") || str_contains(stderr, "Forbidden") {
        "（最可能：流地址已过期，HTTP 403。请重新开始录制，会自动重新解析）"
    } else if str_contains(stderr, "Connection refused") || str_contains(stderr, "timeout") || str_contains(stderr, "timed out") {
        "（最可能：网络不可达 — 防火墙/代理/抖音风控）"
    } else if str_contains(stderr, "404") || str_contains(stderr, "Not Found") {
        "（最可能：流地址已失效 — 请重新开始录制自动重新解析）"
    } else if str_equal(mode, "screen") {
        "（最可能：屏幕捕获源不可用 — 检查屏幕源设置）"
    } else {
        "（请确认主播正在直播，或参考下方 ffmpeg stderr）"
    }
}

/// The error for ffmpeg exiting within `waited_secs` seconds of start: the exit code (decimal
/// and hexadecimal), a diagnosis hint, the checklist and the stderr tail.
pub fn ffmpeg_exit_error(stderr: &str, code: Option<i32>, waited_secs: u64, mode: &str) -> (res: String)
    ensures
        res@ == exit_error_message(stderr@, code, waited_secs, mode@),
{
    let c: i32 = match code { Some(c) => c, None => -1 };
    let hex = if c >= 0 {
        concat("0x", hex8_upper(c as u32).as_str())
    } else {
        let h = concat("0x", hex8_upper(c as u32).as_str());
        let h = concat(h.as_str(), " (signed: ");
        let h = concat(h.as_str(), decimal_i64(c as i64).as_str());
        concat(h.as_str(), ")")
    };
    let hint = exit_hint_exec(stderr, c, mode);
    let m = concat("ffmpeg 启动后", decimal_u64(waited_secs).as_str());
    let m = concat(m.as_str(), "秒内异常退出（exit code: ");
    let m = concat(m.as_str(), decimal_i64(c as i64).as_str());
    let m = concat(m.as_str(), " / ");
    let m = concat(m.as_str(), hex.as_str());
    let m = concat(m.as_str(), "）");
    let m = concat(m.as_str(), hint);
    let m = concat(m.as_str(), "\n\n\
         排查方向：\n\
         ① 流地址已过期（抖音 flv URL 几分钟就失效，重新开始录制会自动重新解析）\n\
         ② 主播未在直播或被风控拦截\n\
         ③ 杀毒软件 / Windows Defender 把 ffmpeg.exe 当作可疑进程杀掉（最常见）\n\
         ④ ffmpeg 找不到或缺少编解码器\n\
         \n\
         ffmpeg stderr 尾部：\n");
    concat(m.as_str(), stderr)
}

pub open spec fn no_data_text() -> Seq<char> {
    "开始录制 5 秒后仍未收到数据。\n\
             可能原因：\n\
             ① 流地址已过期（抖音 FLV 地址时效性 ~几分钟，下次会自动重新解析）\n\
             ② 直播间未在直播或被封禁\n\
             ③ 网络防火墙 / 代理问题\n\
             \n\
             请确认直播间正在直播，并重新开始录制。\n\
             \nffmpeg stderr 尾部：\n"@
}

/// The error for a recording that received no data within 5 seconds, with the stderr tail.
pub fn no_data_error(stderr: &str) -> (res: String)
    ensures
        res@ == no_data_text() + stderr@,
{
    concat("开始录制 5 秒后仍未收到数据。\n\
             可能原因：\n\
             ① 流地址已过期（抖音 FLV 地址时效性 ~几分钟，下次会自动重新解析）\n\
             ② 直播间未在直播或被封禁\n\
             ③ 网络防火墙 / 代理问题\n\
             \n\
             请确认直播间正在直播，并重新开始录制。\n\
             \nffmpeg stderr 尾部：\n", stderr)
}


// ---------------------------------------------------------------------------
// Segments
// ---------------------------------------------------------------------------

/// A file found in a recording's working directory.
pub struct WorkFile {
    /// Its path.
    pub path: String,
    /// Whether its extension is `flv`.
    pub is_flv: bool,
    /// Its size in bytes.
    pub size: u64,
}

/// The paths of the segments worth keeping in stream mode: FLV files above 1 KiB.
pub open spec fn kept_segments(files: Seq<WorkFile>) -> Seq<Seq<char>> {
    files.filter(|f: WorkFile| f.is_flv && f.size > 1024).map_values(|f: WorkFile| f.path@)
}

/// Inserts `x` into a sorted list, after every element not greater than it.
fn insert_sorted(v: &mut Vec<String>, x: String)
    requires
        lex_sorted(crate::text::views(old(v)@)),
    ensures
        lex_sorted(crate::text::views(final(v)@)),
        crate::text::views(final(v)@).to_multiset() == crate::text::views(old(v)@).to_multiset().insert(x@),
{
    let xv = chars_of(x.as_str());
    let ghost vs = crate::text::views(v@);
    let mut j: usize = 0;
    let mut stop = false;
    while j < v.len() && !stop
        invariant
            j <= v@.len(),
            vs == crate::text::views(v@),
            xv@ == x@,
            forall|k: int| 0 <= k < j ==> lex_le(#[trigger] vs[k], x@),
            stop ==> j < v@.len() && !lex_le(vs[j as int], x@),
        decreases v.len() - j + if stop { 0int } else { 1int },
    {
        let cur = chars_of(v[j].as_str());
        if !lex_le_exec(&cur, &xv) {
            stop = true;
        } else {
            j += 1;
        }
    }
    proof {
        if j < vs.len() {
            lemma_lex_total(vs[j as int], x@);
        }
    }
    let ghost xs = x@;
    v.insert(j, x);
    proof {
        let nv = crate::text::views(v@);
        assert(nv =~= vs.insert(j as int, xs));
        vstd::seq_lib::to_multiset_insert(vs, j as int, xs);
        assert forall|a: int, b: int| 0 <= a < b < nv.len() implies lex_le(#[trigger] nv[a], #[trigger] nv[b]) by {
            if b < j {
            } else if a < j && b == j {
            } else if a < j {
                assert(lex_le(vs[a], xs));
                if j < vs.len() {
                    assert(lex_le(xs, vs[j as int]));
                    if b - 1 > j { assert(lex_le(vs[j as int], vs[b - 1])); lemma_lex_trans(xs, vs[j as int], vs[b - 1]); }
                    lemma_lex_trans(vs[a], xs, vs[b - 1]);
                }
            } else if a == j {
                assert(lex_le(xs, vs[j as int]));
                if b - 1 > j { assert(lex_le(vs[j as int], vs[b - 1])); lemma_lex_trans(xs, vs[j as int], vs[b - 1]); }
            } else {
                assert(lex_le(vs[a - 1], vs[b - 1]));
            }
        }
    }
}

/// The segments to merge, in order: in stream mode the FLV files above 1 KiB sorted by path;
/// in screen mode the single `rec.mp4` file when it exists and is above 1 KiB.
pub fn gather_segments(mode: &str, files: &Vec<WorkFile>, rec_file: Option<(String, u64)>) -> (res: Vec<String>)
    ensures
        mode@ == "stream"@ ==> lex_sorted(crate::text::views(res@))
            && crate::text::views(res@).to_multiset() == kept_segments(files@).to_multiset(),
        mode@ != "stream"@ ==> crate::text::views(res@) == match rec_file {
            Some((p, size)) => if size > 1024 { seq![p@] } else { Seq::empty() },
            None => Seq::empty(),
        },
{
    let mut out: Vec<String> = Vec::new();
    if str_equal(mode, "stream") {
        let ghost all = files@;
        let mut i: usize = 0;
        proof {
            reveal_with_fuel(Seq::<WorkFile>::filter, 1);
            assert(all.take(0) =~= Seq::<WorkFile>::empty());
            assert(kept_segments(all.take(0)) =~= Seq::<Seq<char>>::empty());
            assert(crate::text::views(out@) =~= Seq::<Seq<char>>::empty());
        }
        while i < files.len()
            invariant
                i <= files@.len(),
                all == files@,
                lex_sorted(crate::text::views(out@)),
                crate::text::views(out@).to_multiset() == kept_segments(all.take(i as int)).to_multiset(),
            decreases files.len() - i,
        {
            proof {
                reveal_with_fuel(Seq::<WorkFile>::filter, 1);
                assert(all.take(i + 1).drop_last() =~= all.take(i as int));
                assert(all.take(i + 1).last() == files@[i as int]);
            }
            let f = &files[i];
            if f.is_flv && f.size > 1024 {
                proof {
                    let prev = all.take(i as int).filter(|f: WorkFile| f.is_flv && f.size > 1024);
                    assert(prev.push(files@[i as int]).map_values(|f: WorkFile| f.path@)
                        =~= prev.map_values(|f: WorkFile| f.path@).push(files@[i as int].path@));
                    vstd::seq_lib::to_multiset_build(prev.map_values(|f: WorkFile| f.path@), files@[i as int].path@);
                }
                insert_sorted(&mut out, f.path.clone());
            }
            i += 1;
        }
        assert(all.take(all.len() as int) =~= all);
    } else {
        if let Some((p, size)) = rec_file {
            if size > 1024 {
                let ghost pv = p@;
                out.push(p);
                assert(crate::text::views(out@) =~= seq![pv]);
            }
        }
        assert(crate::text::views(out@) =~= match rec_file {
            Some((p, size)) => if size > 1024 { seq![p@] } else { Seq::empty() },
            None => Seq::empty(),
        });
    }
    out
}


// ---------------------------------------------------------------------------
// Finished recordings
// ---------------------------------------------------------------------------

/// A finished recording (its duration is not measured).
pub struct RecordingInfo {
    pub id: String,
    pub room_id: String,
    pub path: String,
    pub size_bytes: u64,
    pub format: String,
    pub created_at: i64,
}

/// A recording as plain values: (id, room, path, size, format, created).
pub type RecordingView = (Seq<char>, Seq<char>, Seq<char>, u64, Seq<char>, i64);

impl RecordingInfo {
    pub open spec fn view(&self) -> RecordingView {
        (self.id@, self.room_id@, self.path@, self.size_bytes, self.format@, self.created_at)
    }
}

pub open spec fn recordings_view(r: Seq<RecordingInfo>) -> Seq<RecordingView> {
    r.map_values(|x: RecordingInfo| x@)
}

/// A file in the output directory.
pub struct OutputFile {
    /// The file name (`None` when the path has none).
    pub file_name: Option<String>,
    /// The file name without its extension.
    pub stem: String,
    /// The extension, when it is text.
    pub ext: Option<String>,
    /// The full path.
    pub path: String,
    /// The size in bytes.
    pub size: u64,
    /// The modification time in Unix seconds.
    pub modified: i64,
}

/// What an output file is listed as: nothing for working directories (`._work…`) and
/// non-video files; otherwise a recording whose id is the stem and whose room is the stem's
/// part before the first `_`.
pub open spec fn listed_recording(f: OutputFile) -> Option<RecordingView> {
    let work = match f.file_name {
        Some(n) => has_prefix(n@, "._work"@),
        None => false,
    };
    if work {
        None
    } else {
        match f.ext {
            Some(e) => if crate::config::video_exts().contains(e@) {
                Some((f.stem@, before_char(f.stem@, '_'), f.path@, f.size, e@, f.modified))
            } else {
                None
            },
            None => None,
        }
    }
}

/// The recordings listed from `files`, in file order.
pub open spec fn listed_recordings(files: Seq<OutputFile>) -> Seq<RecordingView>
    decreases files.len(),
{
    if files.len() == 0 {
        Seq::empty()
    } else {
        let r = listed_recordings(files.drop_last());
        match listed_recording(files.last()) {
            Some(x) => r.push(x),
            None => r,
        }
    }
}

/// Newest first.
pub open spec fn newest_first(r: Seq<RecordingView>) -> bool {
    forall|i: int, j: int| 0 <= i < j < r.len() ==> (#[trigger] r[i]).5 >= (#[trigger] r[j]).5
}

/// `x` placed into a newest-first list after every recording at least as new as it.
pub open spec fn insert_newest(s: Seq<RecordingView>, x: RecordingView) -> Seq<RecordingView>
    decreases s.len(),
{
    if s.len() == 0 {
        seq![x]
    } else if s[0].5 >= x.5 {
        seq![s[0]] + insert_newest(s.drop_first(), x)
    } else {
        seq![x] + s
    }
}

/// The stable newest-first order of `r`: recordings with the same time keep their order.
pub open spec fn sort_newest(r: Seq<RecordingView>) -> Seq<RecordingView>
    decreases r.len(),
{
    if r.len() == 0 {
        r
    } else {
        insert_newest(sort_newest(r.drop_last()), r.last())
    }
}

/// Where `insert_newest` places `x`.
spec fn insert_index(s: Seq<RecordingView>, x: RecordingView) -> int
    decreases s.len(),
{
    if s.len() == 0 {
        0
    } else if s[0].5 >= x.5 {
        1 + insert_index(s.drop_first(), x)
    } else {
        0
    }
}

proof fn lemma_insert_index(s: Seq<RecordingView>, x: RecordingView)
    ensures
        0 <= insert_index(s, x) <= s.len(),
        insert_newest(s, x) == s.insert(insert_index(s, x), x),
        forall|k: int| 0 <= k < insert_index(s, x) ==> (#[trigger] s[k]).5 >= x.5,
        insert_index(s, x) < s.len() ==> s[insert_index(s, x)].5 < x.5,
    decreases s.len(),
{
    if s.len() > 0 && s[0].5 >= x.5 {
        let t = s.drop_first();
        lemma_insert_index(t, x);
        assert(insert_newest(s, x) =~= s.insert(insert_index(s, x), x));
        assert forall|k: int| 0 <= k < insert_index(s, x) implies (#[trigger] s[k]).5 >= x.5 by {
            if k > 0 {
                assert(s[k] == t[k - 1]);
            }
        }
        if insert_index(s, x) < s.len() {
            assert(s[insert_index(s, x)] == t[insert_index(t, x)]);
        }
    } else if s.len() > 0 {
        assert(insert_newest(s, x) =~= s.insert(0, x));
    } else {
        assert(insert_newest(s, x) =~= s.insert(0, x));
    }
}

/// Inserting at the place `insert_newest` chooses keeps a list newest first, and adds `x`.
proof fn lemma_insert_newest(s: Seq<RecordingView>, x: RecordingView)
    requires
        newest_first(s),
    ensures
        newest_first(insert_newest(s, x)),
        insert_newest(s, x).to_multiset() == s.to_multiset().insert(x),
{
    lemma_insert_index(s, x);
    let j = insert_index(s, x);
    let nv = s.insert(j, x);
    vstd::seq_lib::to_multiset_insert(s, j, x);
    assert forall|a: int, b: int| 0 <= a < b < nv.len() implies (#[trigger] nv[a]).5 >= (#[trigger] nv[b]).5 by {
        if b < j {
            assert(nv[a] == s[a] && nv[b] == s[b]);
        } else if a < j && b == j {
            assert(nv[a] == s[a]);
        } else if a < j {
            assert(nv[a] == s[a] && nv[b] == s[b - 1]);
        } else if a == j {
            assert(nv[b] == s[b - 1]);
            if b - 1 > j {
                assert(s[j].5 >= s[b - 1].5);
            }
        } else {
            assert(nv[a] == s[a - 1] && nv[b] == s[b - 1]);
        }
    }
}

/// The listing order is newest first and lists every recording exactly once.
pub proof fn law_listing_newest_first(r: Seq<RecordingView>)
    ensures
        newest_first(sort_newest(r)),
        sort_newest(r).to_multiset() == r.to_multiset(),
    decreases r.len(),
{
    if r.len() > 0 {
        law_listing_newest_first(r.drop_last());
        lemma_insert_newest(sort_newest(r.drop_last()), r.last());
        vstd::seq_lib::to_multiset_build(r.drop_last(), r.last());
        assert(r.drop_last().push(r.last()) =~= r);
    }
}

fn insert_newest_first(v: &mut Vec<RecordingInfo>, x: RecordingInfo)
    ensures
        recordings_view(final(v)@) == insert_newest(recordings_view(old(v)@), x@),
{
    let ghost vs = recordings_view(v@);
    let mut j: usize = 0;
    while j < v.len() && v[j].created_at >= x.created_at
        invariant
            j <= v@.len(),
            vs == recordings_view(v@),
            forall|k: int| 0 <= k < j ==> (#[trigger] vs[k]).5 >= x.created_at,
        decreases v.len() - j,
    {
        j += 1;
    }
    let ghost xv = x@;
    proof {
        lemma_insert_index(vs, xv);
        let i = insert_index(vs, xv);
        if i < j {
            assert(vs[i].5 >= xv.5);
        } else if j < i {
            assert(vs[j as int].5 >= xv.5);
        }
    }
    v.insert(j, x);
    assert(recordings_view(v@) =~= vs.insert(j as int, xv));
}

/// The finished recordings in the output directory, newest first (recordings of the same
/// time in directory order): every video file except working directories.
pub fn list_recordings_in(files: &Vec<OutputFile>) -> (res: Vec<RecordingInfo>)
    ensures
        recordings_view(res@) == sort_newest(listed_recordings(files@)),
{
    let mut out: Vec<RecordingInfo> = Vec::new();
    let ghost all = files@;
    let mut i: usize = 0;
    assert(all.take(0) =~= Seq::<OutputFile>::empty());
    assert(recordings_view(out@) =~= Seq::<RecordingView>::empty());
    while i < files.len()
        invariant
            i <= files@.len(),
            all == files@,
            recordings_view(out@) == sort_newest(listed_recordings(all.take(i as int))),
        decreases files.len() - i,
    {
        assert(all.take(i + 1).drop_last() =~= all.take(i as int));
        assert(all.take(i + 1).last() == files@[i as int]);
        let f = &files[i];
        let work = match &f.file_name {
            Some(n) => str_starts_with(n.as_str(), "._work"),
            None => false,
        };
        if !work {
            if let Some(e) = &f.ext {
                if is_video_ext(e.as_str()) {
                    let room_chars = prefix_before(&chars_of(f.stem.as_str()), '_');
                    let room = crate::text::string_of(&room_chars);
                    let info = RecordingInfo {
                        id: f.stem.clone(),
                        room_id: room,
                        path: f.path.clone(),
                        size_bytes: f.size,
                        format: e.clone(),
                        created_at: f.modified,
                    };
                    proof {
                        let prev = listed_recordings(all.take(i as int));
                        assert(prev.push(info@).drop_last() =~= prev);
                    }
                    insert_newest_first(&mut out, info);
                }
            }
        }
        i += 1;
    }
    assert(all.take(all.len() as int) =~= all);
    out
}

/// The record of a finished recording.
pub fn recording_info(final_name: &str, room_id: &str, path: &str, size: u64, format: &str, created_at: i64)
    -> (res: RecordingInfo)
    ensures
        res@ == (final_name@, room_id@, path@, size, format@, created_at),
{
    RecordingInfo {
        id: final_name.to_owned(),
        room_id: room_id.to_owned(),
        path: path.to_owned(),
        size_bytes: size,
        format: format.to_owned(),
        created_at,
    }
}

/// The answer to stopping a room that is not recording: an empty record for the room.
pub fn idle_recording_info(room_id: &str) -> (res: RecordingInfo)
    ensures
        res@ == (Seq::<char>::empty(), room_id@, Seq::<char>::empty(), 0u64, Seq::<char>::empty(), 0i64),
{
    RecordingInfo {
        id: String::new(),
        room_id: room_id.to_owned(),
        path: String::new(),
        size_bytes: 0,
        format: String::new(),
        created_at: 0,
    }
}


// ---------------------------------------------------------------------------
// Watching a running recording
// ---------------------------------------------------------------------------

/// Seconds without growth after which a recording that had data counts as stalled.
pub const STALE_TIMEOUT_SECS: u64 = 180;
/// Seconds without any data after which a new recording counts as failed.
pub const NO_DATA_TIMEOUT_SECS: u64 = 90;

/// What the watcher remembers between checks: the largest total size seen and when it last grew.
pub struct WatchState {
    pub last_total_bytes: u64,
    pub last_growth_ms: u64,
}

/// What a watcher check decides.
pub enum WatchAction {
    /// The recording is no longer registered: stop watching.
    Quit,
    /// The recording failed for this reason: keep what was recorded and report it.
    Fail(String),
    /// All is well: check again later.
    Continue,
}

/// Milliseconds between `from` and `now` (none when the clock went backwards).
pub open spec fn elapsed_ms(from: u64, now: u64) -> int {
    if now >= from { now - from } else { 0 }
}

/// The reason texts of the watcher.
pub open spec fn reason_exited() -> Seq<char> {
    "录制进程已退出（可能：流地址失效、主播下播、网络断开）"@
}
pub open spec fn reason_no_data() -> Seq<char> {
    "录制启动后 90 秒内未收到任何数据（流地址可能无效）"@
}
pub open spec fn reason_stalled() -> Seq<char> {
    "录制文件 180 秒无增长（流可能已中断）；部分数据已尝试保留"@
}

/// One check of a running recording, made every few seconds: quit when the recording is gone;
/// fail when ffmpeg has exited, when no data arrived within 90 s of the last growth (start),
/// or when the files stopped growing for 180 s; growth restarts the clock.
pub fn watch_step(st: &mut WatchState, still_recording: bool, child_alive: bool, total: u64, now_ms: u64)
    -> (res: WatchAction)
    ensures
        !still_recording ==> res is Quit && *final(st) == *old(st),
        still_recording && !child_alive ==> (res matches WatchAction::Fail(r) && r@ == reason_exited())
            && *final(st) == *old(st),
        still_recording && child_alive && total > old(st).last_total_bytes ==> res is Continue
            && final(st).last_total_bytes == total && final(st).last_growth_ms == now_ms,
        still_recording && child_alive && total <= old(st).last_total_bytes ==> *final(st) == *old(st) && if total == 0 {
            if elapsed_ms(old(st).last_growth_ms, now_ms) > 90 * 1000 {
                res matches WatchAction::Fail(r) && r@ == reason_no_data()
            } else {
                res is Continue
            }
        } else {
            if elapsed_ms(old(st).last_growth_ms, now_ms) > 180 * 1000 {
                res matches WatchAction::Fail(r) && r@ == reason_stalled()
            } else {
                res is Continue
            }
        },
{
    if !still_recording {
        return WatchAction::Quit;
    }
    if !child_alive {
        return WatchAction::Fail("录制进程已退出（可能：流地址失效、主播下播、网络断开）".to_owned());
    }
    let elapsed: u64 = if now_ms >= st.last_growth_ms { now_ms - st.last_growth_ms } else { 0 };
    if total > st.last_total_bytes {
        st.last_total_bytes = total;
        st.last_growth_ms = now_ms;
        WatchAction::Continue
    } else if total == 0 {
        if elapsed > NO_DATA_TIMEOUT_SECS * 1000 {
            WatchAction::Fail("录制启动后 90 秒内未收到任何数据（流地址可能无效）".to_owned())
        } else {
            WatchAction::Continue
        }
    } else if elapsed > STALE_TIMEOUT_SECS * 1000 {
        WatchAction::Fail("录制文件 180 秒无增长（流可能已中断）；部分数据已尝试保留".to_owned())
    } else {
        WatchAction::Continue
    }
}

// ---------------------------------------------------------------------------
// Finishing a recording
// ---------------------------------------------------------------------------

/// How the segments become one file.
pub enum MergePlan {
    /// No segment has data: nothing to keep.
    Nothing,
    /// One segment: copy it.
    CopyOne,
    /// Several segments: concatenate them.
    Concatenate,
}

/// The plan for `n` segments.
pub fn merge_plan(n: usize) -> (res: MergePlan)
    ensures
        n == 0 ==> res is Nothing,
        n == 1 ==> res is CopyOne,
        n > 1 ==> res is Concatenate,
{
    if n == 0 { MergePlan::Nothing } else if n == 1 { MergePlan::CopyOne } else { MergePlan::Concatenate }
}

/// The error for stopping a room that is not recording.
pub fn not_recording_error(room_id: &str) -> (res: String)
    ensures
        res@ == "房间 "@ + room_id@ + " 未在录制"@,
{
    let m = concat("房间 ", room_id);
    concat(m.as_str(), " 未在录制")
}

pub open spec fn no_segments_text() -> Seq<char> {
    "本次录制没有产生有效的视频文件。\n\
             可能原因：\n\
             ① 录制时间太短（< 1 秒）\n\
             ② 直播流地址无效或主播已下播\n\
             请确认直播间正在直播后再尝试录制。"@
}

/// The error for a recording that left no usable segment.
pub fn no_segments_error() -> (res: String)
    ensures
        res@ == no_segments_text(),
{
    "本次录制没有产生有效的视频文件。\n\
             可能原因：\n\
             ① 录制时间太短（< 1 秒）\n\
             ② 直播流地址无效或主播已下播\n\
             请确认直播间正在直播后再尝试录制。".to_owned()
}

/// The error for a failed concatenation; the segments stay in the working directory.
pub fn merge_failed_error(err: &str, work_dir: &str) -> (res: String)
    ensures
        res@ == "合并失败: "@ + err@ + "。原始分片保留在: "@ + work_dir@,
{
    let m = concat("合并失败: ", err);
    let m = concat(m.as_str(), "。原始分片保留在: ");
    concat(m.as_str(), work_dir)
}

/// The error for a failed copy of the only segment.
pub fn copy_failed_error(err: &str) -> (res: String)
    ensures
        res@ == "复制分片失败: "@ + err@,
{
    concat("复制分片失败: ", err)
}

/// The error for an empty merged file; the segments stay in the working directory.
pub fn merged_empty_error(work_dir: &str) -> (res: String)
    ensures
        res@ == "合并后无有效数据。原始分片保留在: "@ + work_dir@,
{
    concat("合并后无有效数据。原始分片保留在: ", work_dir)
}

/// The error for a failed transcode; the segments stay in the working directory.
pub fn transcode_failed_error(err: &str, work_dir: &str) -> (res: String)
    ensures
        res@ == "转码失败: "@ + err@ + "。原始分片保留在: "@ + work_dir@,
{
    let m = concat("转码失败: ", err);
    let m = concat(m.as_str(), "。原始分片保留在: ");
    concat(m.as_str(), work_dir)
}


/// What starting to record a room does.
pub struct BeginPlan {
    /// Start ffmpeg (and then the recording watcher).
    pub start_recording: bool,
    /// Attach a sit/stand detector once the recording runs.
    pub attach_detector: bool,
}

/// Starting to record: nothing when the room records already; otherwise the recording
/// starts, with a detector when the caller asks for one and detection is on.
pub fn begin_plan(recording: bool, spawn_detector: bool, detect_enabled: bool) -> (res: BeginPlan)
    ensures
        recording ==> !res.start_recording && !res.attach_detector,
        !recording ==> res.start_recording && res.attach_detector == (spawn_detector && detect_enabled),
{
    if recording {
        BeginPlan { start_recording: false, attach_detector: false }
    } else {
        BeginPlan { start_recording: true, attach_detector: spawn_detector && detect_enabled }
    }
}

/// The result of starting to record: that of starting the recording itself, whatever became
/// of the detector (a detector that failed to start is only reported).
pub fn begin_result(started: Result<(), String>, detector: Option<Result<(), String>>) -> (res: Result<(), String>)
    ensures
        res == started,
{
    match detector {
        Some(Err(_)) => started,
        _ => started,
    }
}

/// Whether stopping a recording also takes away the room's detector and sit/stand state:
/// yes, unless the detector is kept (a stop that the detector itself asked for).
pub fn release_on_stop(keep_detector: bool) -> (res: bool)
    ensures
        res == !keep_detector,
{
    !keep_detector
}

/// How finishing a stopped recording went.
pub enum FinishOutcome {
    /// The room was not recording.
    NotRecording,
    /// No segment had data.
    NoSegments,
    /// Concatenating the segments failed with this error.
    MergeFailed(String),
    /// Copying the only segment failed with this error.
    CopyFailed(String),
    /// The merged file is missing or empty.
    MergedEmpty,
    /// Transcoding the merged file failed with this error.
    TranscodeFailed(String),
    /// The final file was written.
    Finished,
}

/// The `recording_stopped` event sent when finishing ends.
pub enum StoppedEvent {
    /// The room was not recording: an empty record.
    Idle,
    /// Finishing failed: an empty record with this error.
    Failed(String),
    /// Finishing succeeded: the finished recording.
    Finished,
}

/// What follows the end of finishing: the one `recording_stopped` event, whether the
/// working directory is removed, whether the sit/stand state is reset, and the error
/// returned (none on success).
pub struct FinishActions {
    pub event: StoppedEvent,
    pub delete_work_dir: bool,
    pub reset_logic: bool,
    pub error: Option<String>,
}

/// The actions as plain values: (event kind 0 idle / 1 failed / 2 finished, event error,
/// delete the working directory, reset the sit/stand state, error).
pub type FinishView = (int, Seq<char>, bool, bool, Option<Seq<char>>);

impl FinishActions {
    pub open spec fn view(&self) -> FinishView {
        let (kind, text) = match self.event {
            StoppedEvent::Idle => (0int, Seq::<char>::empty()),
            StoppedEvent::Failed(e) => (1int, e@),
            StoppedEvent::Finished => (2int, Seq::<char>::empty()),
        };
        (kind, text, self.delete_work_dir, self.reset_logic, match self.error { Some(e) => Some(e@), None => None })
    }
}

/// The end of finishing for each outcome: a failure sends one failed event naming its
/// cause, keeps the working directory and returns its error; success sends the finished
/// event, removes the working directory, and resets the sit/stand state when the detector
/// is kept.
pub open spec fn finish_decision(room_id: Seq<char>, work_dir: Seq<char>, keep_detector: bool, outcome: FinishOutcome)
    -> FinishView
{
    match outcome {
        FinishOutcome::NotRecording => (0, Seq::empty(), false, false, Some("房间 "@ + room_id + " 未在录制"@)),
        FinishOutcome::NoSegments => (1, "无有效分片"@, false, false, Some(no_segments_text())),
        FinishOutcome::MergeFailed(e) => (1, e@, false, false,
            Some("合并失败: "@ + e@ + "。原始分片保留在: "@ + work_dir)),
        FinishOutcome::CopyFailed(e) => (1, e@, false, false, Some("复制分片失败: "@ + e@)),
        FinishOutcome::MergedEmpty => (1, "merged.mp4 is empty"@, false, false,
            Some("合并后无有效数据。原始分片保留在: "@ + work_dir)),
        FinishOutcome::TranscodeFailed(e) => (1, e@, false, false,
            Some("转码失败: "@ + e@ + "。原始分片保留在: "@ + work_dir)),
        FinishOutcome::Finished => (2, Seq::empty(), true, keep_detector, None),
    }
}

/// Decides what follows the end of finishing (see `finish_decision`).
pub fn finish_actions(room_id: &str, work_dir: &str, keep_detector: bool, outcome: FinishOutcome) -> (res: FinishActions)
    ensures
        res@ == finish_decision(room_id@, work_dir@, keep_detector, outcome),
{
    match outcome {
        FinishOutcome::NotRecording => FinishActions {
            event: StoppedEvent::Idle,
            delete_work_dir: false,
            reset_logic: false,
            error: Some(not_recording_error(room_id)),
        },
        FinishOutcome::NoSegments => FinishActions {
            event: StoppedEvent::Failed("无有效分片".to_owned()),
            delete_work_dir: false,
            reset_logic: false,
            error: Some(no_segments_error()),
        },
        FinishOutcome::MergeFailed(e) => {
            let msg = merge_failed_error(e.as_str(), work_dir);
            FinishActions { event: StoppedEvent::Failed(e), delete_work_dir: false, reset_logic: false, error: Some(msg) }
        },
        FinishOutcome::CopyFailed(e) => {
            let msg = copy_failed_error(e.as_str());
            FinishActions { event: StoppedEvent::Failed(e), delete_work_dir: false, reset_logic: false, error: Some(msg) }
        },
        FinishOutcome::MergedEmpty => FinishActions {
            event: StoppedEvent::Failed("merged.mp4 is empty".to_owned()),
            delete_work_dir: false,
            reset_logic: false,
            error: Some(merged_empty_error(work_dir)),
        },
        FinishOutcome::TranscodeFailed(e) => {
            let msg = transcode_failed_error(e.as_str(), work_dir);
            FinishActions { event: StoppedEvent::Failed(e), delete_work_dir: false, reset_logic: false, error: Some(msg) }
        },
        FinishOutcome::Finished => FinishActions {
            event: StoppedEvent::Finished,
            delete_work_dir: true,
            reset_logic: keep_detector,
            error: None,
        },
    }
}

/// Finishing keeps the recorded segments unless it succeeded: the working directory is
/// removed exactly on success, an error is returned exactly on failure, the sit/stand state
/// is reset only after a success with the detector kept, and a failed finish always sends a
/// failed event.
pub proof fn law_finish_keeps_segments_on_failure(room_id: Seq<char>, work_dir: Seq<char>, keep: bool, outcome: FinishOutcome)
    ensures
        finish_decision(room_id, work_dir, keep, outcome).2 <==> outcome is Finished,
        finish_decision(room_id, work_dir, keep, outcome).4 is None <==> outcome is Finished,
        finish_decision(room_id, work_dir, keep, outcome).3 ==> outcome is Finished && keep,
        !(outcome is Finished) && !(outcome is NotRecording) ==> finish_decision(room_id, work_dir, keep, outcome).0 == 1,
{
}

/// The stderr text shown in start-up errors, from the bytes read from ffmpeg's stderr:
/// a placeholder when stderr was not captured or is empty, else its first 1500 characters
/// (decoded as lossy UTF-8).
pub fn stderr_summary(buf: Option<&Vec<u8>>) -> (res: String)
    ensures
        buf is None ==> res@ == "（stderr 未捕获）"@,
        (buf matches Some(b) && b@.len() == 0) ==> res@ == "（stderr 无输出，可能 ffmpeg 被外部进程强制终止，如杀毒软件）"@,
        (buf matches Some(b) && b@.len() > 0) ==> res@ == crate::transcode::first_chars(crate::text::utf8_lossy(buf->Some_0@), 1500),
{
    match buf {
        None => "（stderr 未捕获）".to_owned(),
        Some(b) => {
            if b.len() == 0 {
                "（stderr 无输出，可能 ffmpeg 被外部进程强制终止，如杀毒软件）".to_owned()
            } else {
                let text = crate::text::from_utf8_lossy(b);
                let v = chars_of(text.as_str());
                let end = if v.len() <= 1500 { v.len() } else { 1500 };
                let r = crate::text::string_from_range(&v, 0, end);
                assert(r@ =~= crate::transcode::first_chars(text@, 1500));
                r
            }
        },
    }
}

} // verus!
