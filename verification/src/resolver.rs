//! From what a Douyin live page or its web API answered to stream addresses and room metadata.
use vstd::prelude::*;
use crate::json::{field_of, JsonValue};
use crate::streams::{
    best_flv, best_hls, merge_stream_tables, merged_streams, picks_best, recursive_find_streams,
    streams_in, StreamTable,
};
use crate::pattern::{captures, captures_view, compile, regex_captures, regex_compiles, regex_error_text};
use crate::text::{
    all_ascii_digits, all_digits, chars_of, concat, decimal_i64, find_char, has_infix, has_prefix,
    has_suffix, one_of, before_char, prefix_before, signed_decimal, split_by, split_on, str_contains,
    string_from_range, to_lowercase, trim, trim_str, unicode_lowercase, vec_contains, vec_ends_with,
    vec_starts_with, views,
};
use crate::urlcodec::{percent_encode, url_decode, url_decoded, url_encode};
use vstd::utf8::encode_utf8;
use vstd::string::StringSliceAdditionalSpecFns;

verus! {

/// Metadata of a live room.
pub struct RoomMeta {
    /// The streamer's nickname.
    pub nickname: String,
    /// The room's title.
    pub title: String,
}

/// A resolved live stream: the best FLV address, an HLS address when there is one, and room metadata.
pub struct ResolvedStream {
    pub flv: String,
    pub hls: Option<String>,
    pub meta: Option<RoomMeta>,
}

/// The value reached from `v` by following the member names of `path` in order.
pub open spec fn follow(v: Option<JsonValue>, path: Seq<Seq<char>>) -> Option<JsonValue>
    decreases path.len(),
{
    if path.len() == 0 {
        v
    } else {
        field_of(follow(v, path.drop_last()), path.last())
    }
}

/// The text of an optional string value.
pub open spec fn text_of(v: Option<JsonValue>) -> Option<Seq<char>> {
    match v {
        Some(x) => x.text(),
        None => None,
    }
}

/// A metadata value as a pair (nickname, title).
pub open spec fn meta_view(m: Option<RoomMeta>) -> Option<(Seq<char>, Seq<char>)> {
    match m {
        Some(x) => Some((x.nickname@, x.title@)),
        None => None,
    }
}

pub open spec fn path_view(p: Seq<&str>) -> Seq<Seq<char>> {
    p.map_values(|s: &str| s@)
}

/// The value reached from `v` along `path`.
pub fn at_path<'a>(v: &'a JsonValue, path: &Vec<&str>) -> (res: Option<&'a JsonValue>)
    ensures
        match res {
            Some(r) => follow(Some(*v), path_view(path@)) == Some(*r),
            None => follow(Some(*v), path_view(path@)) is None,
        },
{
    let mut cur: Option<&JsonValue> = Some(v);
    let mut i: usize = 0;
    assert(path_view(path@).take(0) =~= Seq::<Seq<char>>::empty());
    while i < path.len()
        invariant
            i <= path@.len(),
            match cur {
                Some(r) => follow(Some(*v), path_view(path@).take(i as int)) == Some(*r),
                None => follow(Some(*v), path_view(path@).take(i as int)) is None,
            },
        decreases path.len() - i,
    {
        assert(path_view(path@).take(i + 1).drop_last() =~= path_view(path@).take(i as int));
        cur = match cur {
            Some(r) => r.get(path[i]),
            None => None,
        };
        i += 1;
    }
    assert(path_view(path@).take(path@.len() as int) =~= path_view(path@));
    cur
}

/// The text reached from `v` along `path`.
pub fn text_at_path(v: &JsonValue, path: &Vec<&str>) -> (res: Option<String>)
    ensures
        match res {
            Some(s) => text_of(follow(Some(*v), path_view(path@))) == Some(s@),
            None => text_of(follow(Some(*v), path_view(path@))) is None,
        },
{
    match at_path(v, path) {
        Some(r) => match r.as_str() {
            Some(s) => Some(s.to_owned()),
            None => None,
        },
        None => None,
    }
}

/// The first of the candidates that is `Some`.
pub open spec fn first_some(c: Seq<Option<Seq<char>>>) -> Option<Seq<char>>
    decreases c.len(),
{
    if c.len() == 0 {
        None
    } else if c[0] is Some {
        c[0]
    } else {
        first_some(c.drop_first())
    }
}

/// The nickname in a web API answer: `data.user.nickname`, else `data.anchor.nickname`,
/// else `data.room.owner.nickname`, else `data.room.anchor.nickname`.
pub open spec fn api_nickname(data: JsonValue) -> Option<Seq<char>> {
    let d = Some(data);
    first_some(seq![
        text_of(follow(d, seq!["data"@, "user"@, "nickname"@])),
        text_of(follow(d, seq!["data"@, "anchor"@, "nickname"@])),
        text_of(follow(d, seq!["data"@, "room"@, "owner"@, "nickname"@])),
        text_of(follow(d, seq!["data"@, "room"@, "anchor"@, "nickname"@])),
    ])
}

/// The room title in a web API answer: `data.room.title`, else `data.room.dynamic_content.title`.
pub open spec fn api_title(data: JsonValue) -> Option<Seq<char>> {
    let d = Some(data);
    first_some(seq![
        text_of(follow(d, seq!["data"@, "room"@, "title"@])),
        text_of(follow(d, seq!["data"@, "room"@, "dynamic_content"@, "title"@])),
    ])
}

/// Metadata of a web API answer, given as soon as any field is found: with a `data` member,
/// a non-empty nickname (with the title, empty when none is found), or else a title (with an
/// empty nickname).
pub open spec fn api_meta(data: JsonValue) -> Option<(Seq<char>, Seq<char>)> {
    if data.field("data"@) is None {
        None
    } else {
        let nick = match api_nickname(data) {
            Some(n) => if n.len() > 0 { Some(n) } else { None },
            None => None,
        };
        match nick {
            Some(n) => Some((n, match api_title(data) { Some(t) => t, None => Seq::empty() })),
            None => match api_title(data) {
                Some(t) => Some((Seq::empty(), t)),
                None => None,
            },
        }
    }
}

proof fn lemma_path_views()
    ensures
        path_view(seq!["data", "user", "nickname"]) =~= seq!["data"@, "user"@, "nickname"@],
        path_view(seq!["data", "anchor", "nickname"]) =~= seq!["data"@, "anchor"@, "nickname"@],
        path_view(seq!["data", "room", "owner", "nickname"]) =~= seq!["data"@, "room"@, "owner"@, "nickname"@],
        path_view(seq!["data", "room", "anchor", "nickname"]) =~= seq!["data"@, "room"@, "anchor"@, "nickname"@],
        path_view(seq!["data", "room", "title"]) =~= seq!["data"@, "room"@, "title"@],
        path_view(seq!["data", "room", "dynamic_content", "title"]) =~= seq!["data"@, "room"@, "dynamic_content"@, "title"@],
        path_view(seq!["app", "initialState", "roomStore", "roomInfo", "room", "anchor", "nickName"])
            =~= seq!["app"@, "initialState"@, "roomStore"@, "roomInfo"@, "room"@, "anchor"@, "nickName"@],
        path_view(seq!["app", "initialState", "roomStore", "roomInfo", "room", "title"])
            =~= seq!["app"@, "initialState"@, "roomStore"@, "roomInfo"@, "room"@, "title"@],
{
}

/// Room metadata from a `webcast/room/web/enter` answer, as soon as any field is found.
pub fn extract_meta_from_api(data: &JsonValue) -> (res: Option<RoomMeta>)
    ensures
        meta_view(res) == api_meta(*data),
{
    proof { lemma_path_views(); }
    if data.get("data").is_none() {
        return None;
    }
    let mut nickname = text_at_path(data, &vec!["data", "user", "nickname"]);
    if nickname.is_none() {
        nickname = text_at_path(data, &vec!["data", "anchor", "nickname"]);
    }
    if nickname.is_none() {
        nickname = text_at_path(data, &vec!["data", "room", "owner", "nickname"]);
    }
    if nickname.is_none() {
        nickname = text_at_path(data, &vec!["data", "room", "anchor", "nickname"]);
    }
    let mut title = text_at_path(data, &vec!["data", "room", "title"]);
    if title.is_none() {
        title = text_at_path(data, &vec!["data", "room", "dynamic_content", "title"]);
    }
    proof {
        reveal_with_fuel(first_some, 5);
    }
    let nick: Option<String> = match nickname {
        Some(n) => if n.as_str().is_empty() { None } else { Some(n) },
        None => None,
    };
    match nick {
        Some(n) => {
            let t = match title {
                Some(t) => t,
                None => String::new(),
            };
            Some(RoomMeta { nickname: n, title: t })
        },
        None => match title {
            Some(t) => Some(RoomMeta { nickname: String::new(), title: t }),
            None => None,
        },
    }
}

/// Metadata in a page's `RENDER_DATA`: both
/// `app.initialState.roomStore.roomInfo.room.anchor.nickName` and `....room.title` must be texts.
pub open spec fn render_meta(data: JsonValue) -> Option<(Seq<char>, Seq<char>)> {
    let d = Some(data);
    let n = text_of(follow(d, seq!["app"@, "initialState"@, "roomStore"@, "roomInfo"@, "room"@, "anchor"@, "nickName"@]));
    let t = text_of(follow(d, seq!["app"@, "initialState"@, "roomStore"@, "roomInfo"@, "room"@, "title"@]));
    match (n, t) {
        (Some(n), Some(t)) => Some((n, t)),
        _ => None,
    }
}

/// Room metadata from a live page's `RENDER_DATA` document.
pub fn extract_meta_from_render_data(data: &JsonValue) -> (res: Option<RoomMeta>)
    ensures
        meta_view(res) == render_meta(*data),
{
    proof { lemma_path_views(); }
    let n = text_at_path(data, &vec!["app", "initialState", "roomStore", "roomInfo", "room", "anchor", "nickName"]);
    let t = text_at_path(data, &vec!["app", "initialState", "roomStore", "roomInfo", "room", "title"]);
    match (n, t) {
        (Some(n), Some(t)) => Some(RoomMeta { nickname: n, title: t }),
        _ => None,
    }
}


/// `status_code` of a web API answer; -1 when it is missing or not an integer.
pub open spec fn status_code(data: JsonValue) -> i64 {
    match data.field("status_code"@) {
        Some(v) => match v.integer() {
            Some(i) => i,
            None => -1i64,
        },
        None => -1i64,
    }
}

/// `status_msg` of a web API answer, or `未知错误` when it is missing.
pub open spec fn status_msg(data: JsonValue) -> Seq<char> {
    match text_of(data.field("status_msg"@)) {
        Some(m) => m,
        None => "未知错误"@,
    }
}

/// The stream tables found under `data` of a web API answer.
pub open spec fn api_found(data: JsonValue) -> (Map<Seq<char>, Seq<char>>, Map<Seq<char>, Seq<char>>) {
    match data.field("data"@) {
        Some(d) => streams_in(d, (Map::empty(), Map::empty())),
        None => (Map::empty(), Map::empty()),
    }
}

/// All streams of a web API answer, keyed `flv:<quality>` / `hls:<quality>`.
pub open spec fn api_streams(data: JsonValue) -> Map<Seq<char>, Seq<char>> {
    merged_streams(api_found(data).0, api_found(data).1)
}

/// The error text for a web API answer with a non-zero status.
pub open spec fn api_status_error(data: JsonValue) -> Seq<char> {
    "API 返回错误("@ + signed_decimal(status_code(data) as int) + "): "@ + status_msg(data)
        + " (主播可能未在直播)"@
}

fn status_code_of(data: &JsonValue) -> (c: i64)
    ensures
        c == status_code(*data),
{
    match data.get("status_code") {
        Some(v) => match v.as_i64() {
            Some(i) => i,
            None => -1,
        },
        None => -1,
    }
}

/// Reads a `webcast/room/web/enter` answer: a non-zero `status_code` is an error naming the
/// code and `status_msg`; otherwise the streams under `data` (keyed `flv:`/`hls:` + quality)
/// and the room metadata, or an error when no stream was found.
pub fn webcast_api_streams(data: &JsonValue) -> (res: Result<(StreamTable, Option<RoomMeta>), String>)
    ensures
        status_code(*data) != 0 ==> res is Err && res->Err_0@ == api_status_error(*data),
        status_code(*data) == 0 ==> match res {
            Ok((t, m)) => t@ == api_streams(*data) && t@ != Map::<Seq<char>, Seq<char>>::empty()
                && meta_view(m) == api_meta(*data),
            Err(e) => api_streams(*data) == Map::<Seq<char>, Seq<char>>::empty()
                && e@ == "API 未返回流地址（主播可能未在直播或已下播）"@,
        },
{
    let code = status_code_of(data);
    if code != 0 {
        let msg: String = match data.get("status_msg") {
            Some(v) => match v.as_str() {
                Some(m) => m.to_owned(),
                None => "未知错误".to_owned(),
            },
            None => "未知错误".to_owned(),
        };
        let e = concat("API 返回错误(", decimal_i64(code).as_str());
        let e = concat(e.as_str(), "): ");
        let e = concat(e.as_str(), msg.as_str());
        let e = concat(e.as_str(), " (主播可能未在直播)");
        return Err(e);
    }
    let meta = extract_meta_from_api(data);
    let mut flv = StreamTable::new();
    let mut hls = StreamTable::new();
    if let Some(d) = data.get("data") {
        recursive_find_streams(d, &mut flv, &mut hls);
    }
    let result = merge_stream_tables(&flv, &hls);
    if result.is_empty() {
        Err("API 未返回流地址（主播可能未在直播或已下播）".to_owned())
    } else {
        Ok((result, meta))
    }
}

/// All streams of a page's `RENDER_DATA`, keyed `flv:<quality>` / `hls:<quality>`.
pub open spec fn render_streams(data: JsonValue) -> Map<Seq<char>, Seq<char>> {
    let found = streams_in(data, (Map::empty(), Map::empty()));
    merged_streams(found.0, found.1)
}

/// Reads a page's `RENDER_DATA` document: its streams and room metadata, or an error when
/// no stream was found.
pub fn render_data_streams(data: &JsonValue) -> (res: Result<(StreamTable, Option<RoomMeta>), String>)
    ensures
        match res {
            Ok((t, m)) => t@ == render_streams(*data) && t@ != Map::<Seq<char>, Seq<char>>::empty()
                && meta_view(m) == render_meta(*data),
            Err(e) => render_streams(*data) == Map::<Seq<char>, Seq<char>>::empty()
                && e@ == "页面 RENDER_DATA 中未找到流地址"@,
        },
{
    let meta = extract_meta_from_render_data(data);
    let mut flv = StreamTable::new();
    let mut hls = StreamTable::new();
    recursive_find_streams(data, &mut flv, &mut hls);
    let result = merge_stream_tables(&flv, &hls);
    if result.is_empty() {
        Err("页面 RENDER_DATA 中未找到流地址".to_owned())
    } else {
        Ok((result, meta))
    }
}

/// Whether a web API answer says the room is live: status 0 and at least one stream under `data`.
pub open spec fn api_says_live(data: JsonValue) -> bool {
    status_code(data) == 0 && (api_found(data).0 != Map::<Seq<char>, Seq<char>>::empty()
        || api_found(data).1 != Map::<Seq<char>, Seq<char>>::empty())
}

/// Decides from a `webcast/room/web/enter` answer whether the room is live.
pub fn live_from_api_answer(data: &JsonValue) -> (live: bool)
    ensures
        live == api_says_live(*data),
{
    if status_code_of(data) != 0 {
        return false;
    }
    let mut flv = StreamTable::new();
    let mut hls = StreamTable::new();
    if let Some(d) = data.get("data") {
        recursive_find_streams(d, &mut flv, &mut hls);
    }
    !flv.is_empty() || !hls.is_empty()
}

/// The `ttwid` value carried in the body of a ttwid registration answer:
/// `1` followed by `data.token`.
pub fn ttwid_from_register_answer(data: &JsonValue) -> (res: Option<String>)
    ensures
        match res {
            Some(t) => text_of(follow(Some(*data), seq!["data"@, "token"@])) matches Some(tok)
                && t@ == "1"@ + tok,
            None => text_of(follow(Some(*data), seq!["data"@, "token"@])) is None,
        },
{
    let path = vec!["data", "token"];
    assert(path_view(path@) =~= seq!["data"@, "token"@]);
    match text_at_path(data, &path) {
        Some(tok) => Some(concat("1", tok.as_str())),
        None => None,
    }
}

/// The option-of-string view.
pub open spec fn opt_view(o: Option<String>) -> Option<Seq<char>> {
    match o {
        Some(s) => Some(s@),
        None => None,
    }
}

/// A resolved stream from a table of addresses: the best FLV address (there must be one),
/// the best HLS address, and the given metadata.
pub fn pick_resolved(urls: &StreamTable, meta: Option<RoomMeta>) -> (res: Option<ResolvedStream>)
    ensures
        match res {
            Some(r) => picks_best(urls@, "flv:"@, Some(r.flv@))
                && picks_best(urls@, "hls:"@, opt_view(r.hls))
                && meta_view(r.meta) == meta_view(meta),
            None => picks_best(urls@, "flv:"@, None),
        },
{
    match best_flv(urls) {
        Some(flv) => Some(ResolvedStream { flv, hls: best_hls(urls), meta }),
        None => None,
    }
}


// ---------------------------------------------------------------------------
// Recognising user input
// ---------------------------------------------------------------------------

/// The rule for a stream address, on already lower-cased text: the part before `?` ends in
/// `.flv` or `.m3u8`, or the text mentions `pull.`, `douyincdn` or `liveplay`.
pub open spec fn stream_url_rule(u: Seq<char>) -> bool {
    let path = before_char(u, '?');
    has_suffix(path, ".flv"@) || has_suffix(path, ".m3u8"@) || has_infix(u, "pull."@)
        || has_infix(u, "douyincdn"@) || has_infix(u, "liveplay"@)
}

/// The rule for a Douyin live-room address, on already lower-cased text.
pub open spec fn douyin_url_rule(u: Seq<char>) -> bool {
    has_infix(u, "douyin.com"@) || has_infix(u, "live.douyin"@) || has_infix(u, "v.douyin.com"@)
}

/// `stream_url_rule` on text that is already lower case.
pub fn is_stream_url_lowercased(u: &str) -> (res: bool)
    ensures
        res == stream_url_rule(u@),
{
    let v = chars_of(u);
    let path = prefix_before(&v, '?');
    vec_ends_with(&path, &chars_of(".flv")) || vec_ends_with(&path, &chars_of(".m3u8"))
        || vec_contains(&v, &chars_of("pull.")) || vec_contains(&v, &chars_of("douyincdn"))
        || vec_contains(&v, &chars_of("liveplay"))
}

/// Whether the input already is a stream address (checked on its lower-cased text).
pub fn is_stream_url(url: &str) -> (res: bool)
    ensures
        res == stream_url_rule(unicode_lowercase(url@)),
{
    let u = to_lowercase(url);
    is_stream_url_lowercased(u.as_str())
}

/// `douyin_url_rule` on text that is already lower case.
pub fn looks_like_douyin_url_lowercased(u: &str) -> (res: bool)
    ensures
        res == douyin_url_rule(u@),
{
    str_contains(u, "douyin.com") || str_contains(u, "live.douyin") || str_contains(u, "v.douyin.com")
}

/// Whether the input looks like a Douyin live-room address (checked on its lower-cased text).
pub fn looks_like_douyin_url(input: &str) -> (res: bool)
    ensures
        res == douyin_url_rule(unicode_lowercase(input@)),
{
    let u = to_lowercase(input);
    looks_like_douyin_url_lowercased(u.as_str())
}

// ---------------------------------------------------------------------------
// Cookies
// ---------------------------------------------------------------------------

/// The value of the first `;`-separated part of a `Set-Cookie` header that, trimmed,
/// starts with `name=`; the value is trimmed.
pub open spec fn cookie_value_in(fields: Seq<Seq<char>>, name: Seq<char>) -> Option<Seq<char>>
    decreases fields.len(),
{
    if fields.len() == 0 {
        None
    } else {
        let part = trim(fields[0]);
        if has_prefix(part, name) && part.len() > name.len() && part[name.len() as int] == '=' {
            Some(trim(part.skip(name.len() as int + 1)))
        } else {
            cookie_value_in(fields.drop_first(), name)
        }
    }
}

/// The value of cookie `name` in a `Set-Cookie` header.
pub open spec fn cookie_value(header: Seq<char>, name: Seq<char>) -> Option<Seq<char>> {
    cookie_value_in(split_by(header, one_of(seq![';'])), name)
}

/// The value of cookie `name` in a `Set-Cookie` header string.
pub fn extract_cookie_value(cookie_header: &str, name: &str) -> (res: Option<String>)
    ensures
        opt_view(res) == cookie_value(cookie_header@, name@),
{
    let seps = vec![';'];
    assert(seps@ =~= seq![';']);
    let fields = split_on(cookie_header, &seps);
    let nv = chars_of(name);
    let mut i: usize = 0;
    assert(views(fields@).skip(0) =~= views(fields@));
    while i < fields.len()
        invariant
            i <= fields@.len(),
            nv@ == name@,
            cookie_value(cookie_header@, name@) == cookie_value_in(views(fields@).skip(i as int), name@),
        decreases fields.len() - i,
    {
        let part = trim_str(fields[i].as_str());
        let pv = chars_of(part.as_str());
        assert(views(fields@).skip(i as int)[0] == fields@[i as int]@);
        if vec_starts_with(&pv, &nv) && pv.len() > nv.len() && pv[nv.len()] == '=' {
            let rest = string_from_range(&pv, nv.len() + 1, pv.len());
            assert(rest@ =~= pv@.skip(name@.len() as int + 1));
            return Some(trim_str(rest.as_str()));
        }
        assert(views(fields@).skip(i as int).drop_first() =~= views(fields@).skip(i + 1));
        i += 1;
    }
    None
}

// ---------------------------------------------------------------------------
// Room ids
// ---------------------------------------------------------------------------

/// The patterns tried, in order, to find a room id in an address.
pub open spec fn web_rid_patterns() -> Seq<Seq<char>> {
    seq![
        r"live\.douyin\.com/([^/?#]+)"@,
        r"/follow/live/(\d+)"@,
        r"room_id[=:](\d+)"@,
        r"anchor_id[=:](\d+)"@,
        r"web_rid[=:](\d+)"@,
        r"roomId[=:](\s*)(\d+)"@,
    ]
}

fn web_rid_pattern(i: usize) -> (p: &'static str)
    requires
        i < 6,
    ensures
        p@ == web_rid_patterns()[i as int],
{
    if i == 0 {
        r"live\.douyin\.com/([^/?#]+)"
    } else if i == 1 {
        r"/follow/live/(\d+)"
    } else if i == 2 {
        r"room_id[=:](\d+)"
    } else if i == 3 {
        r"anchor_id[=:](\d+)"
    } else if i == 4 {
        r"web_rid[=:](\d+)"
    } else {
        r"roomId[=:](\s*)(\d+)"
    }
}

/// What trying `pattern` on `text` gives: its capture groups, or `None` when the pattern
/// does not compile or does not match.
pub open spec fn pattern_result(pattern: Seq<char>, text: Seq<char>) -> Option<Seq<Option<Seq<char>>>> {
    if regex_compiles(pattern) {
        regex_captures(pattern, text)
    } else {
        None
    }
}

/// The results of all room-id patterns on `text`.
pub open spec fn web_rid_results(text: Seq<char>) -> Seq<Option<Seq<Option<Seq<char>>>>> {
    web_rid_patterns().map_values(|p: Seq<char>| pattern_result(p, text))
}

/// Capture group 1, else group 2 (`cap.get(1).or_else(|| cap.get(2))`).
pub open spec fn group_one_or_two(g: Seq<Option<Seq<char>>>) -> Option<Seq<char>> {
    if g.len() > 1 && g[1] is Some {
        g[1]
    } else if g.len() > 2 && g[2] is Some {
        g[2]
    } else {
        None
    }
}

/// The first pattern result whose group 1 (or 2), trimmed, is not empty — trimmed.
pub open spec fn rid_from_results(results: Seq<Option<Seq<Option<Seq<char>>>>>) -> Option<Seq<char>>
    decreases results.len(),
{
    if results.len() == 0 {
        None
    } else {
        match results[0] {
            Some(g) => match group_one_or_two(g) {
                Some(r) => if trim(r).len() > 0 {
                    Some(trim(r))
                } else {
                    rid_from_results(results.drop_first())
                },
                None => rid_from_results(results.drop_first()),
            },
            None => rid_from_results(results.drop_first()),
        }
    }
}

/// The last `/`-separated part whose text before any `?` or `#` is a non-empty run of digits.
pub open spec fn last_digit_part(parts: Seq<Seq<char>>) -> Option<Seq<char>>
    decreases parts.len(),
{
    if parts.len() == 0 {
        None
    } else {
        let clean = split_by(parts.last(), one_of(seq!['?', '#']))[0];
        if all_ascii_digits(clean) && clean.len() > 0 {
            Some(clean)
        } else {
            last_digit_part(parts.drop_last())
        }
    }
}

/// The numeric path segment fallback: only for text containing `/`.
pub open spec fn numeric_segment(text: Seq<char>) -> Option<Seq<char>> {
    if text.contains('/') {
        last_digit_part(split_by(text, one_of(seq!['/'])))
    } else {
        None
    }
}

/// The room id of (already trimmed) `text` given the pattern results: the text itself when
/// it is a non-empty run of digits, else the first pattern hit, else the numeric-segment fallback.
pub open spec fn web_rid_given(text: Seq<char>, results: Seq<Option<Seq<Option<Seq<char>>>>>) -> Option<Seq<char>> {
    if all_ascii_digits(text) && text.len() > 0 {
        Some(text)
    } else {
        match rid_from_results(results) {
            Some(r) => Some(r),
            None => numeric_segment(text),
        }
    }
}

/// The room id of user input.
pub open spec fn web_rid_of(input: Seq<char>) -> Option<Seq<char>> {
    web_rid_given(trim(input), web_rid_results(trim(input)))
}

/// A bare number is its own room id; otherwise a `live.douyin.com/<id>` address gives `<id>`
/// before any other pattern is looked at.
pub proof fn law_live_page_id_first(input: Seq<char>, g: Seq<Option<Seq<char>>>, id: Seq<char>)
    ensures
        all_ascii_digits(trim(input)) && trim(input).len() > 0 ==> web_rid_of(input) == Some(trim(input)),
        !(all_ascii_digits(trim(input)) && trim(input).len() > 0)
            && pattern_result(r"live\.douyin\.com/([^/?#]+)"@, trim(input)) == Some(g)
            && g.len() > 1 && g[1] == Some(id) && trim(id).len() > 0
            ==> web_rid_of(input) == Some(trim(id)),
{
    let x = trim(input);
    let rs = web_rid_results(x);
    assert(rs[0] == pattern_result(r"live\.douyin\.com/([^/?#]+)"@, x));
    reveal_with_fuel(rid_from_results, 2);
}

/// Room ids are taken from a `room_id=` parameter before an `anchor_id=` one: for any input
/// that is not a bare number, where neither the `live.douyin.com/<id>` nor the
/// `/follow/live/<id>` pattern matches, a non-empty `room_id` group gives the room id,
/// whatever the `anchor_id` pattern finds.
pub proof fn law_room_id_before_anchor_id(input: Seq<char>, g: Seq<Option<Seq<char>>>, id: Seq<char>)
    requires
        !(all_ascii_digits(trim(input)) && trim(input).len() > 0),
        pattern_result(r"live\.douyin\.com/([^/?#]+)"@, trim(input)) is None,
        pattern_result(r"/follow/live/(\d+)"@, trim(input)) is None,
        pattern_result(r"room_id[=:](\d+)"@, trim(input)) == Some(g),
        g.len() > 1,
        g[1] == Some(id),
        trim(id).len() > 0,
    ensures
        web_rid_of(input) == Some(trim(id)),
{
    let x = trim(input);
    let rs = web_rid_results(x);
    assert(rs[0] == pattern_result(r"live\.douyin\.com/([^/?#]+)"@, x));
    assert(rs[1] == pattern_result(r"/follow/live/(\d+)"@, x));
    assert(rs[2] == pattern_result(r"room_id[=:](\d+)"@, x));
    assert(rs.drop_first()[0] == rs[1]);
    assert(rs.drop_first().drop_first()[0] == rs[2]);
    assert(group_one_or_two(g) == Some(id));
    reveal_with_fuel(rid_from_results, 4);
}

/// The views of a list of pattern results.
pub open spec fn results_view(r: Seq<Option<Vec<Option<String>>>>) -> Seq<Option<Seq<Option<Seq<char>>>>> {
    r.map_values(|c: Option<Vec<Option<String>>>| captures_view(c))
}

fn numeric_segment_exec(text: &str) -> (res: Option<String>)
    ensures
        opt_view(res) == numeric_segment(text@),
{
    let tv = chars_of(text);
    if find_char(&tv, '/').is_none() {
        assert(!text@.contains('/'));
        return None;
    }
    assert(text@.contains('/'));
    let slash = vec!['/'];
    assert(slash@ =~= seq!['/']);
    let parts = split_on(text, &slash);
    let qh = vec!['?', '#'];
    assert(qh@ =~= seq!['?', '#']);
    let mut n: usize = parts.len();
    assert(views(parts@).take(n as int) =~= views(parts@));
    while n > 0
        invariant
            n <= parts@.len(),
            qh@ == seq!['?', '#'],
            numeric_segment(text@) == last_digit_part(views(parts@).take(n as int)),
        decreases n,
    {
        let fields = split_on(parts[n - 1].as_str(), &qh);
        let clean = chars_of(fields[0].as_str());
        assert(views(parts@).take(n as int).last() == parts@[n - 1]@);
        assert(views(fields@)[0] == fields@[0]@);
        if all_digits(&clean) && clean.len() > 0 {
            return Some(string_from_range(&clean, 0, clean.len()));
        }
        assert(views(parts@).take(n as int).drop_last() =~= views(parts@).take(n - 1));
        n -= 1;
    }
    None
}

/// The room id of trimmed `text` given the results of the room-id patterns on it
/// (`None` for a pattern that did not compile or did not match).
pub fn web_rid_from_results(text: &str, results: &Vec<Option<Vec<Option<String>>>>) -> (res: Option<String>)
    ensures
        opt_view(res) == web_rid_given(text@, results_view(results@)),
{
    let tv = chars_of(text);
    if all_digits(&tv) && tv.len() > 0 {
        return Some(text.to_owned());
    }
    let mut i: usize = 0;
    assert(results_view(results@).skip(0) =~= results_view(results@));
    while i < results.len()
        invariant
            i <= results@.len(),
            !(all_ascii_digits(text@) && text@.len() > 0),
            rid_from_results(results_view(results@)) == rid_from_results(results_view(results@).skip(i as int)),
        decreases results.len() - i,
    {
        assert(results_view(results@).skip(i as int)[0] == captures_view(results@[i as int]));
        match &results[i] {
            Some(g) => {
                let pick: Option<&String> = if g.len() > 1 && g[1].is_some() {
                    g[1].as_ref()
                } else if g.len() > 2 && g[2].is_some() {
                    g[2].as_ref()
                } else {
                    None
                };
                proof {
                    let gv = crate::pattern::groups_view(g@);
                    assert(captures_view(results@[i as int]) == Some(gv));
                    assert(gv.len() == g@.len());
                    if g@.len() > 1 { assert(gv[1] == match g@[1] { Some(x) => Some(x@), None => None }); }
                    if g@.len() > 2 { assert(gv[2] == match g@[2] { Some(x) => Some(x@), None => None }); }
                    assert(match pick { Some(r) => group_one_or_two(gv) == Some(r@), None => group_one_or_two(gv) is None });
                }
                if let Some(r) = pick {
                    let t = trim_str(r.as_str());
                    if !t.as_str().is_empty() {
                        return Some(t);
                    }
                }
            },
            None => {},
        }
        assert(results_view(results@).skip(i as int).drop_first() =~= results_view(results@).skip(i + 1));
        i += 1;
    }
    numeric_segment_exec(text)
}

/// The message for input that holds no room id.
pub open spec fn no_rid_message() -> Seq<char> {
    "无法从输入中提取房间号。支持格式：抖音直播间链接、短链接、纯房间号"@
}

/// The room id (`web_rid`) in user input: a bare run of digits, an id found by the
/// room-id patterns, or the last numeric path segment; an error otherwise.
pub fn extract_web_rid(input: &str) -> (res: Result<String, String>)
    ensures
        match web_rid_of(input@) {
            Some(r) => res is Ok && res->Ok_0@ == r,
            None => res is Err && res->Err_0@ == no_rid_message(),
        },
{
    let text = trim_str(input);
    let tv = chars_of(text.as_str());
    if all_digits(&tv) && tv.len() > 0 {
        return Ok(text);
    }
    let mut results: Vec<Option<Vec<Option<String>>>> = Vec::new();
    let mut i: usize = 0;
    while i < 6
        invariant
            i <= 6,
            results@.len() == i,
            forall|k: int| 0 <= k < i ==> #[trigger] captures_view(results@[k])
                == pattern_result(web_rid_patterns()[k], text@),
        decreases 6 - i,
    {
        let r = match compile(web_rid_pattern(i)) {
            Ok(p) => captures(&p, text.as_str()),
            Err(_) => None,
        };
        results.push(r);
        i += 1;
    }
    assert(results_view(results@) =~= web_rid_results(text@));
    match web_rid_from_results(text.as_str(), &results) {
        Some(r) => Ok(r),
        None => Err("无法从输入中提取房间号。支持格式：抖音直播间链接、短链接、纯房间号".to_owned()),
    }
}


// ---------------------------------------------------------------------------
// The live page
// ---------------------------------------------------------------------------

/// The pattern for the `RENDER_DATA` script element of a live page.
pub open spec fn render_data_pattern() -> Seq<char> {
    r#"<script\s+id="RENDER_DATA"\s+type="application/json">([^<]+)</script>"#@
}

/// The `RENDER_DATA` text given the pattern's captures on the page: group 1 URL-decoded
/// (kept as it is when decoding fails).
pub open spec fn render_data_given(caps: Option<Seq<Option<Seq<char>>>>) -> Result<Seq<char>, Seq<char>> {
    match caps {
        Some(g) => if g.len() > 1 && g[1] is Some {
            let raw = g[1]->Some_0;
            match url_decoded(raw) {
                Some(d) => Ok(d),
                None => Ok(raw),
            }
        } else {
            Err("RENDER_DATA 内容为空"@)
        },
        None => Err("页面中未找到 RENDER_DATA（可能被反爬拦截）"@),
    }
}

/// The result view of a text-or-message result.
pub open spec fn result_view(r: Result<String, String>) -> Result<Seq<char>, Seq<char>> {
    match r {
        Ok(s) => Ok(s@),
        Err(e) => Err(e@),
    }
}

/// The `RENDER_DATA` text from the captures of the `RENDER_DATA` pattern on a page.
pub fn render_data_from_captures(caps: &Option<Vec<Option<String>>>) -> (res: Result<String, String>)
    ensures
        result_view(res) == render_data_given(captures_view(*caps)),
{
    match caps {
        Some(g) => {
            proof {
                let gv = crate::pattern::groups_view(g@);
                if g@.len() > 1 { assert(gv[1] == match g@[1] { Some(x) => Some(x@), None => None }); }
            }
            if g.len() > 1 && g[1].is_some() {
                let raw: &String = g[1].as_ref().unwrap();
                match url_decode(raw.as_str()) {
                    Some(d) => Ok(d),
                    None => Ok(raw.clone()),
                }
            } else {
                Err("RENDER_DATA 内容为空".to_owned())
            }
        },
        None => Err("页面中未找到 RENDER_DATA（可能被反爬拦截）".to_owned()),
    }
}

/// The (URL-decoded) `RENDER_DATA` JSON text of a live page.
pub fn extract_render_data(html: &str) -> (res: Result<String, String>)
    ensures
        regex_compiles(render_data_pattern()) ==> result_view(res)
            == render_data_given(regex_captures(render_data_pattern(), html@)),
        !regex_compiles(render_data_pattern()) ==> res is Err
            && has_prefix(res->Err_0@, "编译 RENDER_DATA 正则失败: "@),
{
    match compile(r#"<script\s+id="RENDER_DATA"\s+type="application/json">([^<]+)</script>"#) {
        Ok(p) => {
            let caps = captures(&p, html);
            render_data_from_captures(&caps)
        },
        Err(e) => {
            let msg = concat("编译 RENDER_DATA 正则失败: ", regex_error_text(&e).as_str());
            assert(msg@.subrange(0, "编译 RENDER_DATA 正则失败: "@.len() as int) =~= "编译 RENDER_DATA 正则失败: "@);
            Err(msg)
        },
    }
}

// ---------------------------------------------------------------------------
// The last resort: addresses anywhere in the page
// ---------------------------------------------------------------------------

/// The pattern for an FLV address with a query (`….flv?…`) anywhere in a page.
pub open spec fn page_flv_pattern() -> Seq<char> {
    r#"https?://[^"'\s<>\\]+\.flv\?[^"'\s<>\\]*"#@
}

/// The pattern for an HLS address with a query (`…/index.m3u8?…`) anywhere in a page.
pub open spec fn page_hls_pattern() -> Seq<char> {
    r#"https?://[^"'\s<>\\]+/index\.m3u8\?[^"'\s<>\\]*"#@
}

/// The first (leftmost) match of `pattern` in `text`, if the pattern compiles and matches.
pub open spec fn first_match(pattern: Seq<char>, text: Seq<char>) -> Option<Seq<char>> {
    match pattern_result(pattern, text) {
        Some(g) => if g.len() > 0 { g[0] } else { None },
        None => None,
    }
}

/// The streams found by the last resort: the first FLV address under `flv:default` and the
/// first HLS address under `hls:default`.
pub open spec fn page_fallback_table(html: Seq<char>) -> Map<Seq<char>, Seq<char>> {
    let flv = match first_match(page_flv_pattern(), html) {
        Some(u) => Map::<Seq<char>, Seq<char>>::empty().insert("flv:default"@, u),
        None => Map::<Seq<char>, Seq<char>>::empty(),
    };
    match first_match(page_hls_pattern(), html) {
        Some(u) => flv.insert("hls:default"@, u),
        None => flv,
    }
}

/// The first match of a pattern in a text (none when the pattern does not compile).
fn first_match_exec(pattern: &str, text: &str) -> (res: Option<String>)
    ensures
        opt_view(res) == first_match(pattern@, text@),
{
    match compile(pattern) {
        Ok(p) => match captures(&p, text) {
            Some(g) => {
                proof {
                    let gv = crate::pattern::groups_view(g@);
                    assert(gv[0] == match g@[0] { Some(x) => Some(x@), None => None });
                }
                match &g[0] {
                    Some(m) => Some(m.clone()),
                    None => None,
                }
            },
            None => None,
        },
        Err(_) => None,
    }
}

/// The last resolution strategy: stream addresses written anywhere in the live page
/// (`….flv?…`, `…/index.m3u8?…`), or an error when there is none. No metadata is read.
pub fn page_fallback_streams(html: &str) -> (res: Result<(StreamTable, Option<RoomMeta>), String>)
    ensures
        match res {
            Ok((t, m)) => t@ == page_fallback_table(html@) && t@ != Map::<Seq<char>, Seq<char>>::empty()
                && m is None,
            Err(e) => page_fallback_table(html@) == Map::<Seq<char>, Seq<char>>::empty()
                && e@ == "页面中未找到 flv/m3u8 流地址"@,
        },
{
    let flv = first_match_exec(r#"https?://[^"'\s<>\\]+\.flv\?[^"'\s<>\\]*"#, html);
    let hls = first_match_exec(r#"https?://[^"'\s<>\\]+/index\.m3u8\?[^"'\s<>\\]*"#, html);
    let mut t = StreamTable::new();
    if let Some(u) = flv {
        t.insert("flv:default".to_owned(), u);
    }
    if let Some(u) = hls {
        t.insert("hls:default".to_owned(), u);
    }
    assert(t@ =~= page_fallback_table(html@));
    if t.is_empty() {
        Err("页面中未找到 flv/m3u8 流地址".to_owned())
    } else {
        Ok((t, None))
    }
}

// ---------------------------------------------------------------------------
// Request addresses
// ---------------------------------------------------------------------------

/// `key=value` with the value percent-encoded.
pub open spec fn query_pair(k: Seq<char>, v: Seq<char>) -> Seq<char> {
    k + "="@ + percent_encode(encode_utf8(v))
}

/// The pairs joined with `&`.
pub open spec fn query_string(pairs: Seq<(Seq<char>, Seq<char>)>) -> Seq<char>
    decreases pairs.len(),
{
    if pairs.len() == 0 {
        Seq::empty()
    } else if pairs.len() == 1 {
        query_pair(pairs[0].0, pairs[0].1)
    } else {
        query_string(pairs.drop_last()) + "&"@ + query_pair(pairs.last().0, pairs.last().1)
    }
}

/// The query parameters of the room-entry API for `web_rid`.
pub open spec fn enter_params(web_rid: Seq<char>) -> Seq<(Seq<char>, Seq<char>)> {
    seq![
        ("aid"@, "6383"@),
        ("app_name"@, "douyin_web"@),
        ("live_id"@, "1"@),
        ("device_platform"@, "web"@),
        ("language"@, "zh-CN"@),
        ("browser_language"@, "zh-CN"@),
        ("browser_platform"@, "Win32"@),
        ("browser_name"@, "Chrome"@),
        ("browser_version"@, "131.0.0.0"@),
        ("web_rid"@, web_rid),
    ]
}

fn enter_param(i: usize) -> (p: (&'static str, &'static str))
    requires
        i < 9,
    ensures
        (p.0@, p.1@) == enter_params(Seq::empty())[i as int],
{
    if i == 0 { ("aid", "6383") }
    else if i == 1 { ("app_name", "douyin_web") }
    else if i == 2 { ("live_id", "1") }
    else if i == 3 { ("device_platform", "web") }
    else if i == 4 { ("language", "zh-CN") }
    else if i == 5 { ("browser_language", "zh-CN") }
    else if i == 6 { ("browser_platform", "Win32") }
    else if i == 7 { ("browser_name", "Chrome") }
    else { ("browser_version", "131.0.0.0") }
}

/// The address of the room-entry web API for `web_rid`.
pub open spec fn enter_url(web_rid: Seq<char>) -> Seq<char> {
    "https://live.douyin.com/webcast/room/web/enter/?"@ + query_string(enter_params(web_rid))
}

/// The address of the room-entry web API (`webcast/room/web/enter`) for `web_rid`.
pub fn webcast_enter_url(web_rid: &str) -> (res: String)
    ensures
        res@ == enter_url(web_rid@),
{
    let ghost ps = enter_params(web_rid@);
    let mut q = String::new();
    let mut i: usize = 0;
    assert(ps.take(0) =~= Seq::<(Seq<char>, Seq<char>)>::empty());
    while i < 10
        invariant
            i <= 10,
            ps == enter_params(web_rid@),
            q@ == query_string(ps.take(i as int)),
        decreases 10 - i,
    {
        let (k, v): (&str, &str) = if i < 9 { enter_param(i) } else { ("web_rid", web_rid) };
        assert((k@, v@) == ps[i as int]);
        let pair = concat(k, "=");
        let pair = concat(pair.as_str(), url_encode(v).as_str());
        assert(ps.take(i + 1).drop_last() =~= ps.take(i as int));
        assert(ps.take(i + 1).last() == ps[i as int]);
        if i == 0 {
            q = pair;
        } else {
            let q2 = concat(q.as_str(), "&");
            q = concat(q2.as_str(), pair.as_str());
        }
        i += 1;
    }
    assert(ps.take(10) =~= ps);
    concat("https://live.douyin.com/webcast/room/web/enter/?", q.as_str())
}

/// The live page of room `web_rid`.
pub fn live_page_url(web_rid: &str) -> (res: String)
    ensures
        res@ == "https://live.douyin.com/"@ + web_rid@,
{
    concat("https://live.douyin.com/", web_rid)
}

/// The first bytes of a response body shown in an error: at most 200 bytes.
/// (A cut inside a character is refused, as slicing the text would refuse it.)
pub fn response_head(body: &str) -> (res: &str)
    requires
        body.spec_bytes().len() <= usize::MAX,
        body.spec_bytes().len() <= 200 || vstd::utf8::is_char_boundary(body.spec_bytes(), 200),
    ensures
        res.spec_bytes() == body.spec_bytes().take(if body.spec_bytes().len() <= 200 { body.spec_bytes().len() as int } else { 200 }),
{
    if body.len() <= 200 {
        assert(body.spec_bytes().take(body.spec_bytes().len() as int) =~= body.spec_bytes());
        body
    } else {
        let (head, _) = body.split_at(200);
        assert(body.spec_bytes().subrange(0, 200) =~= body.spec_bytes().take(200));
        head
    }
}

/// The error for a room-entry answer that is not JSON.
pub fn api_not_json_error(status: &str, body_head: &str) -> (res: String)
    ensures
        res@ == "API 返回非 JSON 数据（HTTP "@ + status@ + "），可能需要更新解析逻辑。响应前 200 字节: "@ + body_head@,
{
    let m = concat("API 返回非 JSON 数据（HTTP ", status);
    let m = concat(m.as_str(), "），可能需要更新解析逻辑。响应前 200 字节: ");
    concat(m.as_str(), body_head)
}

/// The error for a live-state probe answer that is not JSON.
pub fn probe_not_json_error(status: &str, body_head: &str) -> (res: String)
    ensures
        res@ == "Webcast API 返回非 JSON（HTTP "@ + status@ + "），可能触发风控。响应前 200 字节: "@ + body_head@,
{
    let m = concat("Webcast API 返回非 JSON（HTTP ", status);
    let m = concat(m.as_str(), "），可能触发风控。响应前 200 字节: ");
    concat(m.as_str(), body_head)
}

// ---------------------------------------------------------------------------
// Resolving
// ---------------------------------------------------------------------------

/// How resolving user input begins.
pub enum ResolveStart {
    /// The input is already a stream address.
    Ready(ResolvedStream),
    /// The input names this room; its streams must be looked up.
    Lookup(String),
    /// The input is a short link: follow its redirect and continue with the target
    /// (see `resolve_redirect_target`).
    FollowLink(String),
    /// The input cannot be resolved; the message says why.
    Failed(String),
}

/// The rule for a Douyin short link (`v.douyin.com/…`), on already lower-cased text.
pub open spec fn short_link_rule(u: Seq<char>) -> bool {
    has_infix(u, "v.douyin.com"@)
}

/// Whether the input is a Douyin short link (checked on its lower-cased text).
pub fn is_short_link(input: &str) -> (res: bool)
    ensures
        res == short_link_rule(unicode_lowercase(input@)),
{
    let u = to_lowercase(input);
    str_contains(u.as_str(), "v.douyin.com")
}

/// Empty input is refused; a stream address is used as it is; a short link is to be
/// followed; otherwise the room id is extracted (or its extraction error returned).
pub fn resolve_start(input: &str) -> (res: ResolveStart)
    ensures
        trim(input@).len() == 0 ==> (res matches ResolveStart::Failed(e) && e@ == "输入不能为空"@),
        trim(input@).len() > 0 && stream_url_rule(unicode_lowercase(trim(input@))) ==>
            (res matches ResolveStart::Ready(r) && r.flv@ == trim(input@) && r.hls is None && r.meta is None),
        trim(input@).len() > 0 && !stream_url_rule(unicode_lowercase(trim(input@)))
            && short_link_rule(unicode_lowercase(trim(input@))) ==>
            (res matches ResolveStart::FollowLink(l) && l@ == trim(input@)),
        trim(input@).len() > 0 && !stream_url_rule(unicode_lowercase(trim(input@)))
            && !short_link_rule(unicode_lowercase(trim(input@))) ==> match web_rid_of(trim(input@)) {
            Some(rid) => res matches ResolveStart::Lookup(w) && w@ == rid,
            None => res matches ResolveStart::Failed(e) && e@ == no_rid_message(),
        },
{
    let input = trim_str(input);
    if input.as_str().is_empty() {
        return ResolveStart::Failed("输入不能为空".to_owned());
    }
    if is_stream_url(input.as_str()) {
        return ResolveStart::Ready(ResolvedStream { flv: input, hls: None, meta: None });
    }
    if is_short_link(input.as_str()) {
        return ResolveStart::FollowLink(input);
    }
    match extract_web_rid(input.as_str()) {
        Ok(rid) => ResolveStart::Lookup(rid),
        Err(e) => ResolveStart::Failed(e),
    }
}

/// How resolving continues from the address a short link redirected to: a stream address is
/// used as it is; otherwise the room id is read from the target (or the extraction error
/// returned). The target is never followed again.
pub fn resolve_redirect_target(target: &str) -> (res: ResolveStart)
    ensures
        stream_url_rule(unicode_lowercase(trim(target@))) ==>
            (res matches ResolveStart::Ready(r) && r.flv@ == trim(target@) && r.hls is None && r.meta is None),
        !stream_url_rule(unicode_lowercase(trim(target@))) ==> match web_rid_of(trim(target@)) {
            Some(rid) => res matches ResolveStart::Lookup(w) && w@ == rid,
            None => res matches ResolveStart::Failed(e) && e@ == no_rid_message(),
        },
{
    let target = trim_str(target);
    if is_stream_url(target.as_str()) {
        return ResolveStart::Ready(ResolvedStream { flv: target, hls: None, meta: None });
    }
    match extract_web_rid(target.as_str()) {
        Ok(rid) => ResolveStart::Lookup(rid),
        Err(e) => ResolveStart::Failed(e),
    }
}

/// Takes the outcome of one lookup strategy: a resolved stream when it found an FLV
/// address; otherwise the failure is recorded in `attempts` as (strategy, reason).
pub fn take_strategy_outcome(
    strategy: &str,
    outcome: Result<(StreamTable, Option<RoomMeta>), String>,
    attempts: &mut Vec<(String, String)>,
) -> (res: Option<ResolvedStream>)
    ensures
        match outcome {
            Ok((t, m)) => match res {
                Some(r) => picks_best(t@, "flv:"@, Some(r.flv@)) && picks_best(t@, "hls:"@, opt_view(r.hls))
                    && meta_view(r.meta) == meta_view(m) && final(attempts)@ == old(attempts)@,
                None => picks_best(t@, "flv:"@, None) && final(attempts)@.len() == old(attempts)@.len() + 1
                    && final(attempts)@.take(old(attempts)@.len() as int) == old(attempts)@
                    && final(attempts)@.last().0@ == strategy@
                    && final(attempts)@.last().1@ == "未返回流地址"@,
            },
            Err(e) => res is None && final(attempts)@.len() == old(attempts)@.len() + 1
                && final(attempts)@.take(old(attempts)@.len() as int) == old(attempts)@
                && final(attempts)@.last().0@ == strategy@ && final(attempts)@.last().1@ == e@,
        },
{
    match outcome {
        Ok((urls, meta)) => {
            let r = pick_resolved(&urls, meta);
            if r.is_none() {
                attempts.push((strategy.to_owned(), "未返回流地址".to_owned()));
                assert(attempts@.take(attempts@.len() - 1) =~= old(attempts)@);
            }
            r
        },
        Err(e) => {
            attempts.push((strategy.to_owned(), e));
            assert(attempts@.take(attempts@.len() - 1) =~= old(attempts)@);
            None
        },
    }
}

/// One line per failed strategy: `  · <strategy>：<reason>`, joined by newlines.
pub open spec fn attempt_lines(attempts: Seq<(String, String)>) -> Seq<char>
    decreases attempts.len(),
{
    if attempts.len() == 0 {
        Seq::empty()
    } else {
        let line = "  · "@ + attempts.last().0@ + "："@ + attempts.last().1@;
        if attempts.len() == 1 {
            line
        } else {
            attempt_lines(attempts.drop_last()) + "\n"@ + line
        }
    }
}

/// The message when no strategy found a stream for room `web_rid`.
pub open spec fn resolve_failure(web_rid: Seq<char>, attempts: Seq<(String, String)>) -> Seq<char> {
    "无法获取直播流地址（房间 "@ + web_rid
        + "）。请确认：\n1. 主播正在直播（抖音部分直播间会做地域限制或风控）\n2. 房间号/链接正确\n3. 网络连接正常\n\n各解析策略失败原因：\n"@
        + attempt_lines(attempts)
}

/// The message when no strategy found a stream for room `web_rid`, listing each failure.
pub fn resolve_failure_message(web_rid: &str, attempts: &Vec<(String, String)>) -> (res: String)
    ensures
        res@ == resolve_failure(web_rid@, attempts@),
{
    let mut detail = String::new();
    let mut i: usize = 0;
    assert(attempts@.take(0) =~= Seq::<(String, String)>::empty());
    while i < attempts.len()
        invariant
            i <= attempts@.len(),
            detail@ == attempt_lines(attempts@.take(i as int)),
        decreases attempts.len() - i,
    {
        let line = concat("  · ", attempts[i].0.as_str());
        let line = concat(line.as_str(), "：");
        let line = concat(line.as_str(), attempts[i].1.as_str());
        assert(attempts@.take(i + 1).drop_last() =~= attempts@.take(i as int));
        assert(attempts@.take(i + 1).last() == attempts@[i as int]);
        if i == 0 {
            detail = line;
        } else {
            let d = concat(detail.as_str(), "\n");
            detail = concat(d.as_str(), line.as_str());
        }
        i += 1;
    }
    assert(attempts@.take(attempts@.len() as int) =~= attempts@);
    let m = concat("无法获取直播流地址（房间 ", web_rid);
    let m = concat(m.as_str(), "）。请确认：\n1. 主播正在直播（抖音部分直播间会做地域限制或风控）\n2. 房间号/链接正确\n3. 网络连接正常\n\n各解析策略失败原因：\n");
    concat(m.as_str(), detail.as_str())
}


/// A room is live by the web API exactly when the answer's status is 0 and it lists at
/// least one stream: the probe agrees with the stream lookup.
pub proof fn law_live_iff_streams(data: JsonValue)
    ensures
        api_says_live(data) == (status_code(data) == 0 && api_streams(data) != Map::<Seq<char>, Seq<char>>::empty()),
{
    let (flv, hls) = api_found(data);
    let m = api_streams(data);
    reveal_strlit("flv:");
    reveal_strlit("hls:");
    if exists|k: Seq<char>| flv.contains_key(k) {
        let k = choose|k: Seq<char>| flv.contains_key(k);
        assert(("flv:"@ + k).subrange(0, 4) =~= "flv:"@);
        assert(("flv:"@ + k).skip(4) =~= k);
        assert(m.contains_key("flv:"@ + k));
        assert(flv != Map::<Seq<char>, Seq<char>>::empty());
    } else if exists|k: Seq<char>| hls.contains_key(k) {
        assert(flv =~= Map::<Seq<char>, Seq<char>>::empty());
        let k = choose|k: Seq<char>| hls.contains_key(k);
        assert(("hls:"@ + k).subrange(0, 4) =~= "hls:"@);
        assert(("hls:"@ + k).skip(4) =~= k);
        assert(m.contains_key("hls:"@ + k));
        assert(hls != Map::<Seq<char>, Seq<char>>::empty());
    } else {
        assert(flv =~= Map::<Seq<char>, Seq<char>>::empty());
        assert(hls =~= Map::<Seq<char>, Seq<char>>::empty());
        assert(m =~= Map::<Seq<char>, Seq<char>>::empty());
    }
}


// ---------------------------------------------------------------------------
// The ttwid cookie
// ---------------------------------------------------------------------------

/// The `Cookie` header value for a ttwid: `ttwid=<value>`, none for a missing or empty one.
pub fn ttwid_cookie(ttwid: &Option<String>) -> (res: Option<String>)
    ensures
        match ttwid {
            Some(t) => if t@.len() > 0 { res matches Some(c) && c@ == "ttwid="@ + t@ } else { res is None },
            None => res is None,
        },
{
    match ttwid {
        Some(t) => if t.as_str().is_empty() { None } else { Some(concat("ttwid=", t.as_str())) },
        None => None,
    }
}

/// The ttwid a live-state prober keeps between polls: it registers once, on its first probe,
/// and reuses what that registration gave (possibly nothing) afterwards.
pub struct TtwidCache {
    ttwid: Option<String>,
    initialized: bool,
}

impl TtwidCache {
    /// The ttwid kept.
    pub closed spec fn kept(&self) -> Option<Seq<char>> {
        opt_view(self.ttwid)
    }

    /// Whether the registration was made.
    pub closed spec fn registered(&self) -> bool {
        self.initialized
    }

    /// A cache before any registration.
    pub fn new() -> (res: TtwidCache)
        ensures
            !res.registered(),
            res.kept() is None,
    {
        TtwidCache { ttwid: None, initialized: false }
    }

    /// Whether the next probe must register first.
    pub fn needs_registration(&self) -> (res: bool)
        ensures
            res == !self.registered(),
    {
        !self.initialized
    }

    /// Records what the registration gave; after the first registration nothing changes.
    pub fn record(&mut self, ttwid: Option<String>)
        ensures
            old(self).registered() ==> final(self).kept() == old(self).kept() && final(self).registered(),
            !old(self).registered() ==> final(self).kept() == opt_view(ttwid) && final(self).registered(),
    {
        if !self.initialized {
            self.ttwid = ttwid;
            self.initialized = true;
        }
    }

    /// The `Cookie` header value for the kept ttwid (see `ttwid_cookie`).
    pub fn cookie(&self) -> (res: Option<String>)
        ensures
            match self.kept() {
                Some(t) => if t.len() > 0 { res matches Some(c) && c@ == "ttwid="@ + t } else { res is None },
                None => res is None,
            },
    {
        ttwid_cookie(&self.ttwid)
    }
}

} // verus!
