//! The decisions behind the user commands: resolving a room's stream, naming files.
use vstd::prelude::*;
use crate::config::{first_index_of, has_room_id, opt_str, rooms_view, RoomConfig, RoomView};
use crate::recorder::{find_room, sanitize_room_id, sanitized};
use crate::resolver::{is_stream_url, meta_view, stream_url_rule, RoomMeta};
use crate::text::{concat, has_infix, has_prefix, str_contains, str_equal, str_starts_with, string_from_range, unicode_lowercase};

verus! {

/// The hint added to a failed stream resolution, chosen by the words of the error.
pub open spec fn resolve_hint(msg: Seq<char>) -> Seq<char> {
    if has_infix(msg, "status_code"@) || has_infix(msg, "未在直播"@) || has_infix(msg, "未返回流地址"@) {
        "（主播可能未在直播，或抖音风控拦截了此房间）"@
    } else if has_infix(msg, "请求"@) || has_infix(msg, "非 JSON"@) {
        "（网络异常或抖音风控拦截，请稍后重试）"@
    } else {
        "（请检查房间号或网络）"@
    }
}

/// The error for a failed stream resolution before recording: the cause and a hint.
pub fn resolve_failure_for_user(msg: &str) -> (res: String)
    ensures
        res@ == "解析直播流地址失败："@ + msg@ + " "@ + resolve_hint(msg@),
{
    let hint = if str_contains(msg, "status_code") || str_contains(msg, "未在直播") || str_contains(msg, "未返回流地址") {
        "（主播可能未在直播，或抖音风控拦截了此房间）"
    } else if str_contains(msg, "请求") || str_contains(msg, "非 JSON") {
        "（网络异常或抖音风控拦截，请稍后重试）"
    } else {
        "（请检查房间号或网络）"
    };
    let m = concat("解析直播流地址失败：", msg);
    let m = concat(m.as_str(), " ");
    concat(m.as_str(), hint)
}

/// The error for a stream resolution that failed with `err`.
pub fn auto_resolve_error(err: &str) -> (res: String)
    ensures
        res@ == "自动解析直播流地址失败："@ + err@ + "。请确认主播正在直播，或手动填写 flv/hls 流地址。"@,
{
    let m = concat("自动解析直播流地址失败：", err);
    concat(m.as_str(), "。请确认主播正在直播，或手动填写 flv/hls 流地址。")
}

/// The error for a stream resolution that took longer than 6 seconds.
pub fn resolve_timeout_error() -> (res: String)
    ensures
        res@ == "解析直播流地址超时（6 秒），请检查网络或稍后重试"@,
{
    "解析直播流地址超时（6 秒），请检查网络或稍后重试".to_owned()
}

/// The error when, after resolving, the room still has no stream address.
pub fn no_stream_after_resolve_error() -> (res: String)
    ensures
        res@ == "未能获取到可用直播流地址，请确认主播正在直播"@,
{
    "未能获取到可用直播流地址，请确认主播正在直播".to_owned()
}

/// The address resolved before each recording: the room's live page.
pub fn room_page_url(room_id: &str) -> (res: String)
    ensures
        res@ == "https://live.douyin.com/"@ + room_id@,
{
    crate::resolver::live_page_url(room_id)
}

/// Whether the first room with id `room_id` has a stream address that is a stream URL.
pub open spec fn stream_ready(rooms: Seq<RoomView>, room_id: Seq<char>) -> bool {
    has_room_id(rooms, room_id) && exists|i: int| first_index_of(rooms, room_id, i)
        && (rooms[i].2 matches Some(u) && stream_url_rule(unicode_lowercase(u)))
}

/// Whether the room is ready to record from a stream.
pub fn room_stream_ready(rooms: &Vec<RoomConfig>, room_id: &str) -> (res: bool)
    ensures
        res == stream_ready(rooms_view(rooms@), room_id@),
{
    match find_room(rooms, room_id) {
        Some(r) => {
            proof {
                let rv = rooms_view(rooms@);
                assert forall|i: int, j: int| first_index_of(rv, room_id@, i) && first_index_of(rv, room_id@, j) implies i == j by {
                    if i < j { assert(rv[i].0 == room_id@); } else if j < i { assert(rv[j].0 == room_id@); }
                }
                let i = choose|i: int| first_index_of(rv, room_id@, i) && rooms@[i] == *r;
                assert(rv[i] == r@);
            }
            match &r.stream_url {
                Some(u) => is_stream_url(u.as_str()),
                None => false,
            }
        },
        None => false,
    }
}

/// The room after resolving its stream: the stream address is set; an empty or missing
/// name is filled with a non-empty nickname from the metadata.
pub open spec fn resolved_room(r: RoomView, flv: Seq<char>, meta: Option<(Seq<char>, Seq<char>)>) -> RoomView {
    let unnamed = match r.1 { None => true, Some(n) => n.len() == 0 };
    let name = if unnamed && (meta matches Some(m) && m.0.len() > 0) { Some(meta->Some_0.0) } else { r.1 };
    (r.0, name, Some(flv), r.3)
}

/// Records a resolved stream for the first room with id `room_id`. Returns the room's new
/// name when it had none before and got one, so that its recordings can be renamed.
pub fn apply_resolved_stream(rooms: &mut Vec<RoomConfig>, room_id: &str, flv: String, meta: &Option<RoomMeta>)
    -> (rename_to: Option<String>)
    ensures
        has_room_id(rooms_view(old(rooms)@), room_id@) ==> exists|i: int|
            first_index_of(rooms_view(old(rooms)@), room_id@, i)
            && rooms_view(final(rooms)@) == rooms_view(old(rooms)@).update(i,
                resolved_room(rooms_view(old(rooms)@)[i], flv@, meta_view(*meta)))
            && opt_str(rename_to) == if rooms_view(old(rooms)@)[i].1 is None
                && resolved_room(rooms_view(old(rooms)@)[i], flv@, meta_view(*meta)).1 is Some {
                resolved_room(rooms_view(old(rooms)@)[i], flv@, meta_view(*meta)).1
            } else {
                None
            },
        !has_room_id(rooms_view(old(rooms)@), room_id@) ==> final(rooms)@ == old(rooms)@ && rename_to is None,
{
    let mut i: usize = 0;
    while i < rooms.len()
        invariant
            i <= rooms@.len(),
            rooms@ == old(rooms)@,
            forall|k: int| 0 <= k < i ==> rooms@[k].id@ != room_id@,
        decreases rooms.len() - i,
    {
        if str_equal(rooms[i].id.as_str(), room_id) {
            let ghost before = rooms_view(rooms@);
            assert(first_index_of(before, room_id@, i as int));
            let old_room = rooms[i].duplicate();
            let unnamed = match &old_room.name { None => true, Some(n) => n.as_str().is_empty() };
            let nick: Option<String> = match meta {
                Some(m) => if !m.nickname.as_str().is_empty() { Some(m.nickname.clone()) } else { None },
                None => None,
            };
            let new_name: Option<String> = if unnamed && nick.is_some() {
                nick
            } else {
                match &old_room.name { Some(n) => Some(n.clone()), None => None }
            };
            let rename: Option<String> = if old_room.name.is_none() {
                match &new_name { Some(n) => Some(n.clone()), None => None }
            } else {
                None
            };
            let updated = RoomConfig {
                id: old_room.id,
                name: new_name,
                stream_url: Some(flv),
                enabled: old_room.enabled,
            };
            assert(updated@ == resolved_room(before[i as int], flv@, meta_view(*meta)));
            rooms.set(i, updated);
            assert(rooms_view(rooms@) =~= before.update(i as int, resolved_room(before[i as int], flv@, meta_view(*meta))));
            return rename;
        }
        i += 1;
    }
    assert forall|k: int| 0 <= k < rooms_view(rooms@).len() implies #[trigger] rooms_view(rooms@)[k].0 != room_id@ by {
        assert(rooms_view(rooms@)[k].0 == rooms@[k].id@);
    }
    None
}

/// Renaming recordings after a room got a name: the sanitised room id and name, unless they
/// are equal or either is empty.
pub fn rename_plan(room_id: &str, new_name: &str) -> (res: Option<(String, String)>)
    ensures
        (sanitized(room_id@) == sanitized(new_name@) || sanitized(room_id@).len() == 0 || sanitized(new_name@).len() == 0)
            ==> res is None,
        !(sanitized(room_id@) == sanitized(new_name@) || sanitized(room_id@).len() == 0 || sanitized(new_name@).len() == 0)
            ==> (res matches Some((a, b)) && a@ == sanitized(room_id@) && b@ == sanitized(new_name@)),
{
    let safe_room = sanitize_room_id(room_id);
    let safe_name = sanitize_room_id(new_name);
    if str_equal(safe_room.as_str(), safe_name.as_str()) || safe_room.as_str().is_empty() || safe_name.as_str().is_empty() {
        None
    } else {
        Some((safe_room, safe_name))
    }
}

/// The new file name of a recording named `<room>_<rest>.<ext>` once the room is called
/// `safe_name`: `<safe_name>_<rest>.<ext>` (the effective format when the extension is
/// empty); `None` for files of other rooms.
pub open spec fn renamed_file(stem: Seq<char>, ext: Seq<char>, safe_room: Seq<char>, safe_name: Seq<char>,
    effective_ext: Seq<char>) -> Option<Seq<char>>
{
    let prefix = safe_room + "_"@;
    if has_prefix(stem, prefix) {
        Some(safe_name + "_"@ + stem.skip(prefix.len() as int) + "."@ + if ext.len() == 0 { effective_ext } else { ext })
    } else {
        None
    }
}

/// The new file name of one recording (see `renamed_file`).
pub fn renamed_file_name(stem: &str, ext: &str, safe_room: &str, safe_name: &str, effective_ext: &str)
    -> (res: Option<String>)
    ensures
        crate::resolver::opt_view(res) == renamed_file(stem@, ext@, safe_room@, safe_name@, effective_ext@),
{
    let prefix = concat(safe_room, "_");
    if !str_starts_with(stem, prefix.as_str()) {
        return None;
    }
    let sv = crate::text::chars_of(stem);
    let plen = crate::text::chars_of(prefix.as_str()).len();
    let suffix = string_from_range(&sv, plen, sv.len());
    assert(suffix@ =~= stem@.skip(prefix@.len() as int));
    let n = concat(safe_name, "_");
    let n = concat(n.as_str(), suffix.as_str());
    let n = concat(n.as_str(), ".");
    let e = if ext.is_empty() { effective_ext } else { ext };
    Some(concat(n.as_str(), e))
}

/// The file name of an exported or merged video: `<name>.<format>`.
pub fn output_file_name(name: &str, format: &str) -> (res: String)
    ensures
        res@ == name@ + "."@ + format@,
{
    let m = concat(name, ".");
    concat(m.as_str(), format)
}

/// Whether a recording may be deleted: the file must exist and, once both paths are made
/// canonical, lie inside the output directory (`out_dir` is that directory as shown to the
/// user).
pub fn deletion_check(path: &str, exists: bool, inside_output: bool, out_dir: &str) -> (res: Result<(), String>)
    ensures
        !exists ==> (res matches Err(e) && e@ == "文件不存在: "@ + path@),
        exists && !inside_output ==> (res matches Err(e)
            && e@ == "安全限制：只能删除 output_dir("@ + out_dir@ + ") 下的录制文件"@),
        exists && inside_output ==> res is Ok,
{
    if !exists {
        return Err(concat("文件不存在: ", path));
    }
    if !inside_output {
        let m = concat("安全限制：只能删除 output_dir(", out_dir);
        return Err(concat(m.as_str(), ") 下的录制文件"));
    }
    Ok(())
}

/// Whether a left-over work directory may be removed: it must lie inside the output
/// directory (checked first) and exist.
pub fn cleanup_check(exists: bool, inside_output: bool) -> (res: Result<(), String>)
    ensures
        !inside_output ==> (res matches Err(e) && e@ == "安全限制：只能清理 output_dir 下的残留"@),
        inside_output && !exists ==> (res matches Err(e) && e@ == "工作目录不存在"@),
        inside_output && exists ==> res is Ok,
{
    if !inside_output {
        return Err("安全限制：只能清理 output_dir 下的残留".to_owned());
    }
    if !exists {
        return Err("工作目录不存在".to_owned());
    }
    Ok(())
}

} // verus!
