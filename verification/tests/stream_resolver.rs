use douyin_recorder::json::JsonValue;
use douyin_recorder::resolver::{
    extract_cookie_value, extract_render_data, extract_web_rid, is_stream_url, looks_like_douyin_url,
};
use douyin_recorder::streams::{best_flv, recursive_find_streams, StreamTable};

fn obj(members: Vec<(&str, JsonValue)>) -> JsonValue {
    JsonValue::Object(members.into_iter().map(|(k, v)| (k.to_string(), v)).collect())
}

fn s(v: &str) -> JsonValue {
    JsonValue::Str(v.to_string())
}

#[test]
fn test_extract_web_rid_from_live_url() {
    assert_eq!(
        extract_web_rid("https://live.douyin.com/909927995061").unwrap(),
        "909927995061"
    );
}

#[test]
fn test_extract_web_rid_from_follow_url() {
    assert_eq!(
        extract_web_rid(
            "https://www.douyin.com/follow/live/909927995061?anchor_id=3101042824188062"
        )
        .unwrap(),
        "909927995061"
    );
}

#[test]
fn test_extract_web_rid_from_room_id() {
    assert_eq!(extract_web_rid("909927995061").unwrap(), "909927995061");
}

#[test]
fn test_extract_web_rid_from_anchor_param() {
    assert_eq!(
        extract_web_rid("https://www.douyin.com/some/path?anchor_id=123456789").unwrap(),
        "123456789"
    );
}

#[test]
fn test_extract_web_rid_invalid() {
    assert!(extract_web_rid("not-a-url-or-id").is_err());
    assert!(extract_web_rid("").is_err());
}

#[test]
fn test_is_stream_url() {
    assert!(is_stream_url("https://pull-xxx.douyincdn.com/live/or4.flv?token=abc"));
    assert!(is_stream_url("https://xxx.m3u8?key=val"));
    assert!(!is_stream_url("https://live.douyin.com/123"));
    assert!(!is_stream_url("https://www.douyin.com/follow/live/123"));
}

#[test]
fn test_looks_like_douyin_url() {
    assert!(looks_like_douyin_url("https://live.douyin.com/123"));
    assert!(looks_like_douyin_url("https://v.douyin.com/abc"));
    assert!(looks_like_douyin_url("https://www.douyin.com/follow/live/123"));
    assert!(!looks_like_douyin_url("https://example.com/live/123"));
    assert!(!looks_like_douyin_url("123456789"));
}

#[test]
fn test_best_flv_priority() {
    let mut urls = StreamTable::new();
    urls.insert("flv:SD".into(), "sd.flv".into());
    urls.insert("flv:OR4".into(), "or4.flv".into());
    urls.insert("flv:HD".into(), "hd.flv".into());

    assert_eq!(best_flv(&urls), Some("or4.flv".into()));
}

#[test]
fn test_recursive_find_streams() {
    let json = obj(vec![(
        "data",
        obj(vec![(
            "stream_data",
            obj(vec![
                (
                    "flv_pull_url",
                    obj(vec![
                        ("OR4", s("https://pull-xxx.or4.flv?t=1")),
                        ("HD", s("https://pull-xxx.hd.flv?t=2")),
                    ]),
                ),
                (
                    "hls_pull_url_map",
                    obj(vec![("OR4", s("https://pull-xxx.or4/index.m3u8?t=1"))]),
                ),
            ]),
        )]),
    )]);
    let mut flv = StreamTable::new();
    let mut hls = StreamTable::new();
    recursive_find_streams(&json, &mut flv, &mut hls);

    assert_eq!(flv.get("OR4"), Some("https://pull-xxx.or4.flv?t=1".to_string()));
    assert_eq!(flv.get("HD"), Some("https://pull-xxx.hd.flv?t=2".to_string()));
    assert_eq!(hls.get("OR4"), Some("https://pull-xxx.or4/index.m3u8?t=1".to_string()));
}

#[test]
fn test_extract_cookie_value() {
    let header = "ttwid=1%7Cabc123_xyz; Path=/; Domain=.bytedance.com; Max-Age=31536000";
    assert_eq!(
        extract_cookie_value(header, "ttwid"),
        Some("1%7Cabc123_xyz".to_string())
    );
    assert_eq!(extract_cookie_value(header, "other"), None);
}

#[test]
fn test_extract_render_data() {
    let html = r#"<!DOCTYPE html><html><body>
<script id="RENDER_DATA" type="application/json">%7B%22app%22%3A%7B%7D%7D</script>
</body></html>"#;
    let result = extract_render_data(html);
    assert!(result.is_ok());
    assert_eq!(result.unwrap(), "{\"app\":{}}");
}
