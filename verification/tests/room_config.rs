use douyin_recorder::config::{
    config_file_in, config_path, default_recorder_config, default_true, enabled_room_ids, import_rooms, is_video_ext,
    remove_room, update_room, RoomConfig,
};

fn ids(rooms: &Vec<RoomConfig>) -> Vec<String> {
    rooms.iter().map(|r| r.id.clone()).collect()
}

#[test]
fn new_room_is_enabled_and_bare() {
    let r = RoomConfig::new("123".to_string());
    assert_eq!(r.id, "123");
    assert!(r.name.is_none());
    assert!(r.stream_url.is_none());
    assert!(r.enabled);
}

#[test]
fn duplicate_copies_every_field() {
    let mut r = RoomConfig::new("9".to_string());
    r.name = Some("主播".to_string());
    r.stream_url = Some("https://a.flv".to_string());
    r.enabled = false;
    let d = r.duplicate();
    assert_eq!(d.id, "9");
    assert_eq!(d.name.as_deref(), Some("主播"));
    assert_eq!(d.stream_url.as_deref(), Some("https://a.flv"));
    assert!(!d.enabled);
}

#[test]
fn video_extensions_are_recognised() {
    for e in ["mp4", "mkv", "mov", "webm", "flv", "avi"] {
        assert!(is_video_ext(e), "{}", e);
    }
    assert!(!is_video_ext("txt"));
    assert!(!is_video_ext("MP4"));
    assert!(!is_video_ext(""));
}

#[test]
fn auto_mp4_defaults_to_true() {
    assert!(default_true());
}

#[test]
fn config_file_is_config_json() {
    let p = config_path();
    assert!(p.ends_with("config.json"));
    assert!(p.contains("douyin-recorder"));
}

#[test]
fn config_file_under_system_directory() {
    assert_eq!(config_file_in(Some("/home/u/.config".to_string())), "/home/u/.config/douyin-recorder/config.json");
    assert_eq!(config_file_in(Some("/home/u/.config/".to_string())), "/home/u/.config/douyin-recorder/config.json");
    assert_eq!(config_file_in(None), "./douyin-recorder/config.json");
}

#[test]
fn default_settings() {
    let c = default_recorder_config();
    assert!(c.output_dir.ends_with("抖音直播录屏"));
    assert_eq!(c.output_format, "mp4");
    assert!(c.auto_mp4);
    assert_eq!(c.segment_minutes, 10);
    assert!(c.detect_enabled);
    assert_eq!(c.sit_stop_seconds, 5);
    assert!(!c.autostart);
    assert_eq!(c.capture_mode, "auto");
    assert_eq!(c.screen_source.as_deref(), Some("desktop"));
    assert!(c.python_path.is_none());
    assert!(c.rooms.is_empty());
    assert_eq!(c.monitor_poll_secs, 30);
}

#[test]
fn import_splits_on_all_separators_and_trims() {
    let mut rooms = Vec::new();
    import_rooms(&mut rooms, "111\n222,333 444\t555\r666");
    assert_eq!(ids(&rooms), vec!["111", "222", "333", "444", "555", "666"]);
    assert!(rooms.iter().all(|r| r.enabled && r.name.is_none() && r.stream_url.is_none()));
}

#[test]
fn import_skips_empty_fields_and_duplicates() {
    let mut rooms = vec![RoomConfig::new("111".to_string())];
    import_rooms(&mut rooms, ",,111,\n\n222,222, 333 ");
    assert_eq!(ids(&rooms), vec!["111", "222", "333"]);
}

#[test]
fn import_turns_douyin_address_into_room_id() {
    let mut rooms = Vec::new();
    import_rooms(&mut rooms, "https://live.douyin.com/909927995061");
    assert_eq!(rooms.len(), 1);
    assert_eq!(rooms[0].id, "909927995061");
    assert_eq!(rooms[0].stream_url.as_deref(), Some("https://live.douyin.com/909927995061"));
}

#[test]
fn import_keeps_douyin_address_without_room_id_as_id() {
    let mut rooms = Vec::new();
    import_rooms(&mut rooms, "https://www.douyin.com/");
    assert_eq!(rooms.len(), 1);
    assert_eq!(rooms[0].id, "https://www.douyin.com/");
    assert!(rooms[0].stream_url.is_none());
}

#[test]
fn import_keeps_other_text_as_id() {
    let mut rooms = Vec::new();
    import_rooms(&mut rooms, "my-room");
    assert_eq!(ids(&rooms), vec!["my-room"]);
    assert!(rooms[0].stream_url.is_none());
}

#[test]
fn import_twice_changes_nothing() {
    let text = "111 https://live.douyin.com/222 333,111";
    let mut rooms = vec![RoomConfig::new("000".to_string())];
    import_rooms(&mut rooms, text);
    let once = ids(&rooms);
    import_rooms(&mut rooms, text);
    assert_eq!(ids(&rooms), once);
    assert_eq!(once, vec!["000", "111", "222", "333"]);
}

#[test]
fn import_keeps_existing_rooms_in_front() {
    let mut first = RoomConfig::new("a".to_string());
    first.name = Some("A".to_string());
    let mut rooms = vec![first, RoomConfig::new("b".to_string())];
    import_rooms(&mut rooms, "c a d");
    assert_eq!(ids(&rooms), vec!["a", "b", "c", "d"]);
    assert_eq!(rooms[0].name.as_deref(), Some("A"));
}

#[test]
fn remove_room_drops_every_match() {
    let mut rooms = vec![
        RoomConfig::new("a".to_string()),
        RoomConfig::new("b".to_string()),
        RoomConfig::new("a".to_string()),
        RoomConfig::new("c".to_string()),
    ];
    remove_room(&mut rooms, "a");
    assert_eq!(ids(&rooms), vec!["b", "c"]);
    remove_room(&mut rooms, "zzz");
    assert_eq!(ids(&rooms), vec!["b", "c"]);
}

#[test]
fn update_room_replaces_first_match_only() {
    let mut rooms = vec![RoomConfig::new("a".to_string()), RoomConfig::new("a".to_string())];
    let mut r = RoomConfig::new("a".to_string());
    r.name = Some("new".to_string());
    r.enabled = false;
    update_room(&mut rooms, r);
    assert_eq!(rooms[0].name.as_deref(), Some("new"));
    assert!(!rooms[0].enabled);
    assert!(rooms[1].name.is_none());
    assert!(rooms[1].enabled);
}

#[test]
fn update_unknown_room_changes_nothing() {
    let mut rooms = vec![RoomConfig::new("a".to_string())];
    update_room(&mut rooms, RoomConfig::new("b".to_string()));
    assert_eq!(ids(&rooms), vec!["a"]);
}

#[test]
fn enabled_ids_in_order() {
    let mut b = RoomConfig::new("b".to_string());
    b.enabled = false;
    let rooms = vec![RoomConfig::new("a".to_string()), b, RoomConfig::new("c".to_string())];
    assert_eq!(enabled_room_ids(&rooms), vec!["a", "c"]);
}
