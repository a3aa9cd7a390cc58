use douyin_recorder::json::JsonValue;
use douyin_recorder::resolver::{page_fallback_streams, ttwid_cookie, TtwidCache};
use douyin_recorder::resolver::{
    api_not_json_error, extract_cookie_value, extract_meta_from_api, extract_meta_from_render_data,
    extract_render_data, extract_web_rid, live_from_api_answer, live_page_url, looks_like_douyin_url,
    pick_resolved, probe_not_json_error, render_data_from_captures, render_data_streams, resolve_failure_message,
    resolve_redirect_target, resolve_start, response_head, is_short_link, take_strategy_outcome, ttwid_from_register_answer, web_rid_from_results,
    webcast_api_streams, webcast_enter_url, ResolveStart, RoomMeta,
};
use douyin_recorder::streams::{best_hls, merge_stream_tables, StreamTable};

fn obj(members: Vec<(&str, JsonValue)>) -> JsonValue {
    JsonValue::Object(members.into_iter().map(|(k, v)| (k.to_string(), v)).collect())
}

fn s(v: &str) -> JsonValue {
    JsonValue::Str(v.to_string())
}

fn table(pairs: &[(&str, &str)]) -> StreamTable {
    let mut t = StreamTable::new();
    for (k, v) in pairs {
        t.insert(k.to_string(), v.to_string());
    }
    t
}

fn live_answer() -> JsonValue {
    obj(vec![
        ("status_code", JsonValue::Int(0)),
        (
            "data",
            obj(vec![
                ("user", obj(vec![("nickname", s("小王"))])),
                (
                    "data",
                    JsonValue::Array(vec![obj(vec![(
                        "stream_url",
                        obj(vec![
                            ("flv_pull_url", obj(vec![("HD", s("https://hd.flv")), ("SD", s("https://sd.flv"))])),
                            ("hls_pull_url", s("https://x/index.m3u8")),
                        ]),
                    )])]),
                ),
                ("room", obj(vec![("dynamic_content", obj(vec![("title", s("晚上好"))]))])),
            ]),
        ),
    ])
}

#[test]
fn json_accessors() {
    let v = obj(vec![("a", JsonValue::Int(3)), ("b", s("x")), ("a", JsonValue::Int(4))]);
    assert!(matches!(v.get("a"), Some(JsonValue::Int(3))));
    assert!(v.get("zz").is_none());
    assert_eq!(v.get("b").unwrap().as_str(), Some("x"));
    assert_eq!(v.get("a").unwrap().as_i64(), Some(3));
    assert_eq!(v.get("b").unwrap().as_i64(), None);
    assert!(s("x").get("a").is_none());
}

#[test]
fn api_meta_paths() {
    let data = live_answer();
    let m = extract_meta_from_api(&data).unwrap();
    assert_eq!((m.nickname.as_str(), m.title.as_str()), ("小王", "晚上好"));
    let owner = obj(vec![(
        "data",
        obj(vec![("room", obj(vec![("owner", obj(vec![("nickname", s("主"))])), ("title", s("T"))]))]),
    )]);
    let m = extract_meta_from_api(&owner).unwrap();
    assert_eq!((m.nickname.as_str(), m.title.as_str()), ("主", "T"));
    let title_only = obj(vec![("data", obj(vec![("room", obj(vec![("title", s("T"))]))]))]);
    let m = extract_meta_from_api(&title_only).unwrap();
    assert_eq!((m.nickname.as_str(), m.title.as_str()), ("", "T"));
    let empty_nick_title = obj(vec![(
        "data",
        obj(vec![("user", obj(vec![("nickname", s(""))])), ("room", obj(vec![("title", s("T"))]))]),
    )]);
    assert_eq!(extract_meta_from_api(&empty_nick_title).unwrap().nickname, "");
    let no_title = obj(vec![("data", obj(vec![("anchor", obj(vec![("nickname", s("a"))]))]))]);
    assert_eq!(extract_meta_from_api(&no_title).unwrap().title, "");
    let empty_nick = obj(vec![("data", obj(vec![("user", obj(vec![("nickname", s(""))]))]))]);
    assert!(extract_meta_from_api(&empty_nick).is_none());
    assert!(extract_meta_from_api(&obj(vec![])).is_none());
}

#[test]
fn render_meta_needs_both_fields() {
    let room = |title: Option<&str>| {
        let mut members = vec![("anchor", obj(vec![("nickName", s("N"))]))];
        if let Some(t) = title {
            members.push(("title", s(t)));
        }
        obj(vec![(
            "app",
            obj(vec![(
                "initialState",
                obj(vec![("roomStore", obj(vec![("roomInfo", obj(vec![("room", obj(members))]))]))]),
            )]),
        )])
    };
    let m = extract_meta_from_render_data(&room(Some("T"))).unwrap();
    assert_eq!((m.nickname.as_str(), m.title.as_str()), ("N", "T"));
    assert!(extract_meta_from_render_data(&room(None)).is_none());
}

#[test]
fn api_streams_and_meta() {
    let (t, meta) = webcast_api_streams(&live_answer()).unwrap();
    assert_eq!(t.len(), 3);
    assert_eq!(t.get("flv:HD"), Some("https://hd.flv".to_string()));
    assert_eq!(t.get("flv:SD"), Some("https://sd.flv".to_string()));
    assert_eq!(t.get("hls:default"), Some("https://x/index.m3u8".to_string()));
    assert_eq!(meta.unwrap().nickname, "小王");
}

#[test]
fn api_error_status() {
    let a = obj(vec![("status_code", JsonValue::Int(4003028)), ("status_msg", s("room not exist"))]);
    assert_eq!(
        webcast_api_streams(&a).err().unwrap(),
        "API 返回错误(4003028): room not exist (主播可能未在直播)"
    );
    let b = obj(vec![]);
    assert_eq!(webcast_api_streams(&b).err().unwrap(), "API 返回错误(-1): 未知错误 (主播可能未在直播)");
    let c = obj(vec![("status_code", JsonValue::Int(0)), ("data", obj(vec![("x", s("http://nope"))]))]);
    assert_eq!(webcast_api_streams(&c).err().unwrap(), "API 未返回流地址（主播可能未在直播或已下播）");
}

#[test]
fn render_data_streams_found_or_not() {
    let page = obj(vec![("a", obj(vec![("flv_pull_url", s("https://only.flv"))]))]);
    let (t, meta) = render_data_streams(&page).unwrap();
    assert_eq!(t.get("flv:default"), Some("https://only.flv".to_string()));
    assert!(meta.is_none());
    assert_eq!(render_data_streams(&obj(vec![])).err().unwrap(), "页面 RENDER_DATA 中未找到流地址");
}

#[test]
fn live_probe_answers() {
    assert!(live_from_api_answer(&live_answer()));
    let hls_only = obj(vec![
        ("status_code", JsonValue::Int(0)),
        ("data", obj(vec![("hls_pull_url_map", obj(vec![("HD", s("https://h.m3u8"))]))])),
    ]);
    assert!(live_from_api_answer(&hls_only));
    let offline = obj(vec![("status_code", JsonValue::Int(0)), ("data", obj(vec![]))]);
    assert!(!live_from_api_answer(&offline));
    let refused = obj(vec![("status_code", JsonValue::Int(1)), ("data", live_answer())]);
    assert!(!live_from_api_answer(&refused));
}

#[test]
fn ttwid_from_body() {
    let a = obj(vec![("data", obj(vec![("token", s("abc"))]))]);
    assert_eq!(ttwid_from_register_answer(&a), Some("1abc".to_string()));
    assert_eq!(ttwid_from_register_answer(&obj(vec![])), None);
}

#[test]
fn cookie_values() {
    assert_eq!(extract_cookie_value(" a=1 ; ttwid= v ; b=2", "ttwid"), Some("v".to_string()));
    assert_eq!(extract_cookie_value("ttwidx=1; ttwid=2", "ttwid"), Some("2".to_string()));
    assert_eq!(extract_cookie_value("ttwid", "ttwid"), None);
}

#[test]
fn enter_url_is_encoded() {
    assert_eq!(
        webcast_enter_url("12 3/é"),
        "https://live.douyin.com/webcast/room/web/enter/?aid=6383&app_name=douyin_web&live_id=1&device_platform=web\
&language=zh-CN&browser_language=zh-CN&browser_platform=Win32&browser_name=Chrome&browser_version=131.0.0.0\
&web_rid=12%203%2F%C3%A9"
    );
    assert_eq!(live_page_url("9"), "https://live.douyin.com/9");
}

#[test]
fn response_heads() {
    assert_eq!(response_head("short"), "short");
    let long = "a".repeat(300);
    assert_eq!(response_head(&long).len(), 200);
    assert_eq!(
        api_not_json_error("403 Forbidden", "<html>"),
        "API 返回非 JSON 数据（HTTP 403 Forbidden），可能需要更新解析逻辑。响应前 200 字节: <html>"
    );
    assert_eq!(
        probe_not_json_error("200 OK", "x"),
        "Webcast API 返回非 JSON（HTTP 200 OK），可能触发风控。响应前 200 字节: x"
    );
}

#[test]
fn resolving_starts() {
    assert!(matches!(resolve_start("   "), ResolveStart::Failed(e) if e == "输入不能为空"));
    match resolve_start("  https://pull-x.douyincdn.com/a.flv  ") {
        ResolveStart::Ready(r) => {
            assert_eq!(r.flv, "https://pull-x.douyincdn.com/a.flv");
            assert!(r.hls.is_none() && r.meta.is_none());
        }
        _ => panic!("expected a ready stream"),
    }
    assert!(matches!(resolve_start("https://live.douyin.com/777"), ResolveStart::Lookup(w) if w == "777"));
    assert!(matches!(
        resolve_start("hello"),
        ResolveStart::Failed(e) if e == "无法从输入中提取房间号。支持格式：抖音直播间链接、短链接、纯房间号"
    ));
}

#[test]
fn short_links_are_followed() {
    assert!(is_short_link("https://V.DOUYIN.COM/abc/"));
    assert!(!is_short_link("https://live.douyin.com/1"));
    assert!(matches!(resolve_start(" https://v.douyin.com/iRNBho6u/ "), ResolveStart::FollowLink(l) if l == "https://v.douyin.com/iRNBho6u/"));
    assert!(matches!(resolve_start("https://v.douyin.com/123/"), ResolveStart::FollowLink(_)));
    assert!(matches!(
        resolve_redirect_target("https://live.douyin.com/909927995061?enter_from=share"),
        ResolveStart::Lookup(w) if w == "909927995061"
    ));
    assert!(matches!(
        resolve_redirect_target("https://webcast.amemv.com/douyin/webcast/reflow/7300000000000000000?u_code=1"),
        ResolveStart::Lookup(w) if w == "7300000000000000000"
    ));
    assert!(matches!(resolve_redirect_target("https://pull-x.douyincdn.com/a.flv"), ResolveStart::Ready(_)));
    assert!(matches!(resolve_redirect_target("https://www.douyin.com/"), ResolveStart::Failed(_)));
}

#[test]
fn web_rid_edge_cases() {
    assert_eq!(extract_web_rid("https://x.com/a?room_id=55&b=1").unwrap(), "55");
    // Group 1 of the `roomId` pattern always takes part (it may be empty), so group 2 is never used.
    assert!(extract_web_rid("https://x.com/a?roomId= 66").is_err());
    assert_eq!(extract_web_rid("https://x.com/live/123456?x=1").unwrap(), "123456");
    assert_eq!(extract_web_rid("  42  ").unwrap(), "42");
    assert!(looks_like_douyin_url("HTTPS://LIVE.DOUYIN.COM/1"));
}

#[test]
fn web_rid_from_given_matches() {
    let none: Vec<Option<Vec<Option<String>>>> = vec![None, None, None, None, None, None];
    assert_eq!(web_rid_from_results("x/y/789", &none), Some("789".to_string()));
    assert_eq!(web_rid_from_results("nothing", &none), None);
    let mut first = none.clone();
    first[0] = Some(vec![Some("live.douyin.com/abc".to_string()), Some(" abc ".to_string())]);
    assert_eq!(web_rid_from_results("whatever", &first), Some("abc".to_string()));
    let mut sixth = none.clone();
    sixth[5] = Some(vec![Some("roomId=1".to_string()), Some(String::new()), Some("1".to_string())]);
    assert_eq!(web_rid_from_results("whatever", &sixth), None);
}

#[test]
fn render_data_given_captures() {
    assert_eq!(
        render_data_from_captures(&Some(vec![Some("all".to_string()), Some("%7B%7D".to_string())])),
        Ok("{}".to_string())
    );
    assert_eq!(
        render_data_from_captures(&Some(vec![Some("all".to_string()), None])),
        Err("RENDER_DATA 内容为空".to_string())
    );
    assert_eq!(render_data_from_captures(&None), Err("页面中未找到 RENDER_DATA（可能被反爬拦截）".to_string()));
}

#[test]
fn render_data_not_utf8_is_kept_raw() {
    let html = r#"<script id="RENDER_DATA" type="application/json">%FF%7B</script>"#;
    assert_eq!(extract_render_data(html).unwrap(), "%FF%7B");
    let plain = r#"<script  id="RENDER_DATA"  type="application/json">abc</script>"#;
    assert_eq!(extract_render_data(plain).unwrap(), "abc");
    assert!(extract_render_data("<html></html>").is_err());
}

#[test]
fn best_hls_and_merge() {
    let t = table(&[("hls:SD", "sd.m3u8"), ("hls:UHD", "uhd.m3u8"), ("flv:OR4", "o.flv")]);
    assert_eq!(best_hls(&t), Some("uhd.m3u8".to_string()));
    let only = table(&[("hls:weird", "w.m3u8")]);
    assert_eq!(best_hls(&only), Some("w.m3u8".to_string()));
    assert_eq!(best_hls(&table(&[("flv:HD", "h")])), None);
    let merged = merge_stream_tables(&table(&[("HD", "a")]), &table(&[("HD", "b")]));
    assert_eq!(merged.get("flv:HD"), Some("a".to_string()));
    assert_eq!(merged.get("hls:HD"), Some("b".to_string()));
    assert_eq!(merged.len(), 2);
}

#[test]
fn stream_table_basics() {
    let mut t = StreamTable::new();
    assert!(t.is_empty());
    t.insert("k".to_string(), "1".to_string());
    t.insert("k".to_string(), "2".to_string());
    assert_eq!(t.len(), 1);
    assert_eq!(t.get("k"), Some("2".to_string()));
    assert_eq!(t.pairs(), vec![("k".to_string(), "2".to_string())]);
}

#[test]
fn picking_a_resolved_stream() {
    let r = pick_resolved(&table(&[("flv:HD", "h.flv"), ("hls:HD", "h.m3u8")]), None).unwrap();
    assert_eq!((r.flv.as_str(), r.hls.as_deref()), ("h.flv", Some("h.m3u8")));
    assert!(pick_resolved(&table(&[("hls:HD", "h.m3u8")]), None).is_none());
}

#[test]
fn strategy_outcomes_and_failure_message() {
    let mut attempts = Vec::new();
    let meta = Some(RoomMeta { nickname: "n".to_string(), title: "t".to_string() });
    let got = take_strategy_outcome("Webcast API", Ok((table(&[("flv:SD", "s.flv")]), meta)), &mut attempts).unwrap();
    assert_eq!(got.flv, "s.flv");
    assert_eq!(got.meta.unwrap().nickname, "n");
    assert!(attempts.is_empty());
    assert!(take_strategy_outcome("Webcast API", Err("请求失败".to_string()), &mut attempts).is_none());
    assert!(take_strategy_outcome("页面 RENDER_DATA", Ok((table(&[("hls:HD", "x")]), None)), &mut attempts).is_none());
    assert_eq!(
        attempts,
        vec![
            ("Webcast API".to_string(), "请求失败".to_string()),
            ("页面 RENDER_DATA".to_string(), "未返回流地址".to_string())
        ]
    );
    assert_eq!(
        resolve_failure_message("77", &attempts),
        "无法获取直播流地址（房间 77）。请确认：\n1. 主播正在直播（抖音部分直播间会做地域限制或风控）\n2. 房间号/链接正确\n3. 网络连接正常\n\n各解析策略失败原因：\n  · Webcast API：请求失败\n  · 页面 RENDER_DATA：未返回流地址"
    );
}

#[test]
fn only_http_addresses_are_collected() {
    let data = obj(vec![
        ("flv_pull_url", obj(vec![("HD", s("rtmp://x/hd")), ("SD", s("https://sd.flv")), ("LD", JsonValue::Int(1))])),
        ("hls_pull_url", s("ftp://x/index.m3u8")),
        ("nested", JsonValue::Array(vec![obj(vec![("flv_pull_url", s("not-a-url"))])])),
    ]);
    let (t, _) = render_data_streams(&data).unwrap();
    assert_eq!(t.len(), 1);
    assert_eq!(t.get("flv:SD"), Some("https://sd.flv".to_string()));
}

#[test]
fn ttwid_is_registered_once() {
    assert_eq!(ttwid_cookie(&Some("abc".to_string())), Some("ttwid=abc".to_string()));
    assert_eq!(ttwid_cookie(&Some(String::new())), None);
    assert_eq!(ttwid_cookie(&None), None);
    let mut c = TtwidCache::new();
    assert!(c.needs_registration());
    assert_eq!(c.cookie(), None);
    c.record(Some("t1".to_string()));
    assert!(!c.needs_registration());
    assert_eq!(c.cookie(), Some("ttwid=t1".to_string()));
    c.record(Some("t2".to_string()));
    assert_eq!(c.cookie(), Some("ttwid=t1".to_string()));
}

#[test]
fn page_addresses_as_last_resort() {
    let html = r#"<div data-a="https://pull-flv-l1.douyincdn.com/stage/stream-1_or4.flv?expire=1&sign=x">
<script>var h = 'https://pull-hls-l1.douyincdn.com/stage/stream-1/index.m3u8?expire=2';</script>"#;
    let (t, meta) = page_fallback_streams(html).unwrap();
    assert!(meta.is_none());
    assert_eq!(t.len(), 2);
    assert_eq!(t.get("flv:default"), Some("https://pull-flv-l1.douyincdn.com/stage/stream-1_or4.flv?expire=1&sign=x".to_string()));
    assert_eq!(t.get("hls:default"), Some("https://pull-hls-l1.douyincdn.com/stage/stream-1/index.m3u8?expire=2".to_string()));
    let only_hls = page_fallback_streams("x https://h/live/index.m3u8?a=1 y").unwrap().0;
    assert_eq!(only_hls.len(), 1);
    assert_eq!(page_fallback_streams("<html>no streams here a.flv</html>").err().unwrap(), "页面中未找到 flv/m3u8 流地址");
}

#[test]
fn stream_walk_keeps_old_keys_and_finds_deep_ones() {
    let mut flv = table(&[("old", "rtmp://kept")]);
    let mut hls = StreamTable::new();
    let data = JsonValue::Array(vec![obj(vec![(
        "a",
        obj(vec![("b", obj(vec![("flv_pull_url", obj(vec![("FULL_HD1", s("https://deep.flv"))]))]))]),
    )])]);
    douyin_recorder::streams::recursive_find_streams(&data, &mut flv, &mut hls);
    assert_eq!(flv.get("old"), Some("rtmp://kept".to_string()));
    assert_eq!(flv.get("FULL_HD1"), Some("https://deep.flv".to_string()));
    assert!(hls.is_empty());
}
