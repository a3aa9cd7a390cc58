//! Rooms and recorder settings, and the operations on the room list.
use vstd::prelude::*;
use crate::resolver::{douyin_url_rule, extract_web_rid, looks_like_douyin_url, web_rid_of};
use crate::text::{has_prefix, has_suffix, one_of, split_by, split_on, str_equal, trim, trim_str, unicode_lowercase, views};

verus! {

/// A live room the recorder knows.
pub struct RoomConfig {
    pub id: String,
    /// The streamer's or room's display name (optional, for display only).
    pub name: Option<String>,
    /// The stream address (flv/hls) or the room's page address; without one, the screen is recorded.
    pub stream_url: Option<String>,
    /// Whether the room is enabled.
    pub enabled: bool,
}

/// A room as plain values: (id, name, stream address, enabled).
pub type RoomView = (Seq<char>, Option<Seq<char>>, Option<Seq<char>>, bool);

pub open spec fn opt_str(o: Option<String>) -> Option<Seq<char>> {
    match o {
        Some(s) => Some(s@),
        None => None,
    }
}

impl RoomConfig {
    /// The room as plain values.
    pub open spec fn view(&self) -> RoomView {
        (self.id@, opt_str(self.name), opt_str(self.stream_url), self.enabled)
    }

    /// A new enabled room with only an id.
    pub fn new(id: String) -> (r: RoomConfig)
        ensures
            r@ == (id@, None::<Seq<char>>, None::<Seq<char>>, true),
    {
        RoomConfig { id, name: None, stream_url: None, enabled: true }
    }

    /// A copy of the room.
    pub fn duplicate(&self) -> (r: RoomConfig)
        ensures
            r@ == self@,
    {
        RoomConfig {
            id: self.id.clone(),
            name: match &self.name { Some(n) => Some(n.clone()), None => None },
            stream_url: match &self.stream_url { Some(u) => Some(u.clone()), None => None },
            enabled: self.enabled,
        }
    }
}

/// The rooms as plain values.
pub open spec fn rooms_view(rooms: Seq<RoomConfig>) -> Seq<RoomView> {
    rooms.map_values(|r: RoomConfig| r@)
}

/// The recorder's settings (everything but the detection sensitivity).
pub struct RecorderConfig {
    /// The directory recordings are written to.
    pub output_dir: String,
    /// The final format: mp4 / mkv / mov / webm.
    pub output_format: String,
    /// Always produce mp4, whatever `output_format` says.
    pub auto_mp4: bool,
    /// Length of one FLV segment, in minutes.
    pub segment_minutes: u64,
    /// Whether sit/stand detection controls recording.
    pub detect_enabled: bool,
    /// Seconds of still sitting after which recording stops.
    pub sit_stop_seconds: u64,
    /// Whether the program starts with the system.
    pub autostart: bool,
    /// Capture mode: auto / stream / screen.
    pub capture_mode: String,
    /// Screen capture source (`desktop` or `title=<window>`).
    pub screen_source: Option<String>,
    /// Python interpreter to use (empty: found automatically).
    pub python_path: Option<String>,
    /// The rooms.
    pub rooms: Vec<RoomConfig>,
    /// Seconds between two live-state probes of a monitored room.
    pub monitor_poll_secs: u64,
}

/// Video file extensions recognised in the output directory.
pub open spec fn video_exts() -> Seq<Seq<char>> {
    seq!["mp4"@, "mkv"@, "mov"@, "webm"@, "flv"@, "avi"@]
}

/// Whether `ext` is one of the recognised video extensions.
pub fn is_video_ext(ext: &str) -> (res: bool)
    ensures
        res == video_exts().contains(ext@),
{
    let r = str_equal(ext, "mp4") || str_equal(ext, "mkv") || str_equal(ext, "mov")
        || str_equal(ext, "webm") || str_equal(ext, "flv") || str_equal(ext, "avi");
    proof {
        let v = video_exts();
        if r {
            if ext@ == "mp4"@ { assert(v[0] == ext@); }
            if ext@ == "mkv"@ { assert(v[1] == ext@); }
            if ext@ == "mov"@ { assert(v[2] == ext@); }
            if ext@ == "webm"@ { assert(v[3] == ext@); }
            if ext@ == "flv"@ { assert(v[4] == ext@); }
            if ext@ == "avi"@ { assert(v[5] == ext@); }
        } else {
            assert forall|i: int| 0 <= i < v.len() implies v[i] != ext@ by {}
        }
    }
    r
}

/// The default of `auto_mp4` when a stored configuration lacks it.
pub fn default_true() -> (res: bool)
    ensures
        res,
{
    true
}

// ---------------------------------------------------------------------------
// Where the configuration lives
// ---------------------------------------------------------------------------

/// `dirs::config_dir`, as text; it depends on the machine and its environment, so nothing
/// is stated of it.
#[verifier::external_body]
fn system_config_dir() -> Option<String> {
    dirs::config_dir().map(|p| p.to_string_lossy().into_owned())
}

/// `dirs::video_dir`, as text; it depends on the machine and its environment, so nothing
/// is stated of it.
#[verifier::external_body]
pub(crate) fn system_video_dir() -> Option<String> {
    dirs::video_dir().map(|p| p.to_string_lossy().into_owned())
}

/// A path component with no separator and no drive mark, other than `.` and `..`.
pub open spec fn plain_name(s: Seq<char>) -> bool {
    s.len() > 0 && !s.contains('/') && !s.contains('\\') && !s.contains(':') && s != "."@ && s != ".."@
}

/// A path with a Windows verbatim prefix (`\\?\`), which `PathBuf::push` normalises.
pub open spec fn verbatim(s: Seq<char>) -> bool {
    has_prefix(s, seq!['\\', '\\', '?', '\\'])
}

/// `res` is `name` appended to `base`, directly or after one separator.
pub open spec fn joined(base: Seq<char>, name: Seq<char>, res: Seq<char>) -> bool {
    res == base + name || res == base + seq!['/'] + name || res == base + seq!['\\'] + name
}

/// `res` is `name` appended to `base` after one separator.
pub open spec fn joined_with_sep(base: Seq<char>, name: Seq<char>, res: Seq<char>) -> bool {
    res == base + seq!['/'] + name || res == base + seq!['\\'] + name
}

/// Whether a path ends in a separator or a drive mark, after which no separator is added.
pub open spec fn ends_open(s: Seq<char>) -> bool {
    s.len() > 0 && (s.last() == '/' || s.last() == '\\' || s.last() == ':')
}

/// `Path::join` on text, for a plain relative name. The documentation of `PathBuf::push`
/// says the path is extended by the name, after a separator when the base does not end in
/// one; a base with a verbatim prefix is normalised instead (`.` and `..` removed), so for it
/// only the name's place at the end and the kept prefix are stated. Which separator the
/// platform writes is left unsaid.
#[verifier::external_body]
pub(crate) fn path_join(base: &str, name: &str) -> (res: String)
    ensures
        plain_name(name@) ==> has_suffix(res@, name@),
        plain_name(name@) && !verbatim(base@) ==> joined(base@, name@, res@),
        plain_name(name@) && !verbatim(base@) && base@.len() > 0 && !ends_open(base@)
            ==> joined_with_sep(base@, name@, res@),
        plain_name(name@) && verbatim(base@) ==> verbatim(res@),
{
    std::path::Path::new(base).join(name).to_string_lossy().into_owned()
}

/// The directory the configuration lives in, given the system configuration directory:
/// that directory, or `.` when there is none.
pub open spec fn config_base(system_dir: Option<String>) -> Seq<char> {
    match system_dir {
        Some(d) => d@,
        None => "."@,
    }
}

/// `res` is the configuration file inside the directory `base`: `base`, `douyin-recorder`,
/// a separator and `config.json`; for a base with a verbatim prefix (which joining
/// normalises) only a verbatim path ending in `config.json`.
pub open spec fn config_file_for(base: Seq<char>, res: Seq<char>) -> bool {
    &&& has_suffix(res, "config.json"@)
    &&& verbatim(base) ==> verbatim(res)
    &&& !verbatim(base) ==> exists|d: Seq<char>| #[trigger] joined(base, "douyin-recorder"@, d)
            && (if verbatim(d) { verbatim(res) } else { joined_with_sep(d, "config.json"@, res) })
}

/// The configuration file for a system configuration directory (`None`: there is none):
/// `config.json` in `douyin-recorder` inside that directory, or inside `.`.
pub fn config_file_in(system_dir: Option<String>) -> (res: String)
    ensures
        config_file_for(config_base(system_dir), res@),
{
    let base = match system_dir {
        Some(d) => d,
        None => ".".to_owned(),
    };
    proof {
        reveal_strlit("douyin-recorder");
        reveal_strlit("config.json");
        reveal_strlit(".");
        reveal_strlit("..");
        assert("config.json"@ != "."@) by { assert("config.json"@.len() != "."@.len()); }
        assert("config.json"@ != ".."@) by { assert("config.json"@.len() != ".."@.len()); }
        assert("douyin-recorder"@ != "."@) by { assert("douyin-recorder"@.len() != "."@.len()); }
        assert("douyin-recorder"@ != ".."@) by { assert("douyin-recorder"@.len() != ".."@.len()); }
        assert(plain_name("douyin-recorder"@));
        assert(plain_name("config.json"@));
    }
    let dir = path_join(base.as_str(), "douyin-recorder");
    let res = path_join(dir.as_str(), "config.json");
    proof {
        if !verbatim(base@) && !verbatim(dir@) {
            let n = dir@.len();
            assert(dir@.last() == dir@[n - 1]);
            assert(dir@.subrange(n - 15, n as int) == "douyin-recorder"@);
            assert(dir@[n - 1] == dir@.subrange(n - 15, n as int)[14]);
            assert(!ends_open(dir@));
        }
        if !verbatim(base@) {
            assert(joined(config_base(system_dir), "douyin-recorder"@, dir@));
        }
    }
    res
}

/// The configuration file: `config.json` in `douyin-recorder` inside the system configuration
/// directory, or inside `.` when there is none (see `config_file_in`). Which directory the
/// system gives depends on the environment.
pub fn config_path() -> (res: String)
    ensures
        exists|base: Seq<char>| #[trigger] config_file_for(base, res@),
{
    let sd = system_config_dir();
    let res = config_file_in(sd);
    assert(config_file_for(config_base(sd), res@));
    res
}

/// The default settings: recordings in `抖音直播录屏` inside the system video directory
/// (the current directory when there is none), mp4 output, 10-minute segments, detection
/// on, stop after 5 s of sitting, no autostart, automatic capture mode from the desktop,
/// no rooms, and a 30 s live-state poll.
pub fn default_recorder_config() -> (cfg: RecorderConfig)
    ensures
        has_suffix(cfg.output_dir@, "抖音直播录屏"@),
        cfg.output_format@ == "mp4"@,
        cfg.auto_mp4,
        cfg.segment_minutes == 10,
        cfg.detect_enabled,
        cfg.sit_stop_seconds == 5,
        !cfg.autostart,
        cfg.capture_mode@ == "auto"@,
        opt_str(cfg.screen_source) == Some("desktop"@),
        cfg.python_path is None,
        cfg.rooms@.len() == 0,
        cfg.monitor_poll_secs == 30,
{
    let base = match system_video_dir() {
        Some(d) => d,
        None => ".".to_owned(),
    };
    proof {
        reveal_strlit("抖音直播录屏");
        reveal_strlit(".");
        reveal_strlit("..");
        assert("抖音直播录屏"@ != "."@) by { assert("抖音直播录屏"@.len() != "."@.len()); }
        assert("抖音直播录屏"@ != ".."@) by { assert("抖音直播录屏"@.len() != ".."@.len()); }
    }
    RecorderConfig {
        output_dir: path_join(base.as_str(), "抖音直播录屏"),
        output_format: "mp4".to_owned(),
        auto_mp4: true,
        segment_minutes: 10,
        detect_enabled: true,
        sit_stop_seconds: 5,
        autostart: false,
        capture_mode: "auto".to_owned(),
        screen_source: Some("desktop".to_owned()),
        python_path: None,
        rooms: Vec::new(),
        monitor_poll_secs: 30,
    }
}

// ---------------------------------------------------------------------------
// The room list
// ---------------------------------------------------------------------------

/// Whether some room has id `id`.
pub open spec fn has_room_id(rooms: Seq<RoomView>, id: Seq<char>) -> bool {
    exists|i: int| 0 <= i < rooms.len() && #[trigger] rooms[i].0 == id
}

/// Whether the ids of `rooms` are pairwise different.
pub open spec fn ids_unique(rooms: Seq<RoomView>) -> bool {
    forall|i: int, j: int| 0 <= i < j < rooms.len() ==> #[trigger] rooms[i].0 != #[trigger] rooms[j].0
}

/// The characters that separate entries of an import text: newline, comma, space, tab, CR.
pub open spec fn import_seps() -> Seq<char> {
    seq!['\n', ',', ' ', '\t', '\r']
}

/// What one imported entry becomes: a Douyin address yields its room id and is kept as
/// the stream address; anything else (or an address without a room id) is the id itself.
pub open spec fn import_entry(raw: Seq<char>) -> (Seq<char>, Option<Seq<char>>) {
    if douyin_url_rule(unicode_lowercase(raw)) {
        match web_rid_of(raw) {
            Some(id) => (id, Some(raw)),
            None => (raw, None),
        }
    } else {
        (raw, None)
    }
}

/// The room list after importing `fields` in order: each field is trimmed; empty fields
/// and fields whose id is already present are skipped; others append an enabled room.
pub open spec fn import_all(rooms: Seq<RoomView>, fields: Seq<Seq<char>>) -> Seq<RoomView>
    decreases fields.len(),
{
    if fields.len() == 0 {
        rooms
    } else {
        let r = import_all(rooms, fields.drop_last());
        let raw = trim(fields.last());
        if raw.len() == 0 {
            r
        } else {
            let (id, url) = import_entry(raw);
            if has_room_id(r, id) {
                r
            } else {
                r.push((id, None, url, true))
            }
        }
    }
}

/// The room list after importing the entries of `text`.
pub open spec fn import_text(rooms: Seq<RoomView>, text: Seq<char>) -> Seq<RoomView> {
    import_all(rooms, split_by(text, one_of(import_seps())))
}

fn contains_room_id(rooms: &Vec<RoomConfig>, id: &str) -> (res: bool)
    ensures
        res == has_room_id(rooms_view(rooms@), id@),
{
    let mut i: usize = 0;
    while i < rooms.len()
        invariant
            i <= rooms@.len(),
            forall|k: int| 0 <= k < i ==> rooms@[k].id@ != id@,
        decreases rooms.len() - i,
    {
        if str_equal(rooms[i].id.as_str(), id) {
            assert(rooms_view(rooms@)[i as int].0 == id@);
            return true;
        }
        i += 1;
    }
    assert forall|k: int| 0 <= k < rooms_view(rooms@).len() implies #[trigger] rooms_view(rooms@)[k].0 != id@ by {
        assert(rooms_view(rooms@)[k].0 == rooms@[k].id@);
    }
    false
}

/// Imports rooms from text holding room ids or Douyin addresses separated by newlines,
/// commas, spaces, tabs or carriage returns.
pub fn import_rooms(rooms: &mut Vec<RoomConfig>, text: &str)
    ensures
        rooms_view(final(rooms)@) == import_text(rooms_view(old(rooms)@), text@),
{
    let seps = vec!['\n', ',', ' ', '\t', '\r'];
    assert(seps@ =~= import_seps());
    let fields = split_on(text, &seps);
    let ghost start = rooms_view(rooms@);
    let mut i: usize = 0;
    assert(views(fields@).take(0) =~= Seq::<Seq<char>>::empty());
    while i < fields.len()
        invariant
            i <= fields@.len(),
            rooms_view(rooms@) == import_all(start, views(fields@).take(i as int)),
        decreases fields.len() - i,
    {
        assert(views(fields@).take(i + 1).drop_last() =~= views(fields@).take(i as int));
        assert(views(fields@).take(i + 1).last() == fields@[i as int]@);
        let raw = trim_str(fields[i].as_str());
        if !raw.as_str().is_empty() {
            let (id, url): (String, Option<String>) = if looks_like_douyin_url(raw.as_str()) {
                match extract_web_rid(raw.as_str()) {
                    Ok(clean) => (clean, Some(raw)),
                    Err(_) => (raw.clone(), None),
                }
            } else {
                (raw.clone(), None)
            };
            if !contains_room_id(rooms, id.as_str()) {
                let ghost before = rooms_view(rooms@);
                rooms.push(RoomConfig { id, name: None, stream_url: url, enabled: true });
                assert(rooms_view(rooms@) =~= before.push(rooms@.last()@));
            }
        }
        i += 1;
    }
    assert(views(fields@).take(fields@.len() as int) =~= views(fields@));
}

/// Removes every room with id `id`, keeping the others in order.
pub fn remove_room(rooms: &mut Vec<RoomConfig>, id: &str)
    ensures
        rooms_view(final(rooms)@) == rooms_view(old(rooms)@).filter(|r: RoomView| r.0 != id@),
{
    let ghost start = rooms_view(rooms@);
    let mut kept: Vec<RoomConfig> = Vec::new();
    let mut i: usize = 0;
    while i < rooms.len()
        invariant
            i <= rooms@.len(),
            start == rooms_view(rooms@),
            rooms_view(kept@) == start.take(i as int).filter(|r: RoomView| r.0 != id@),
        decreases rooms.len() - i,
    {
        proof {
            reveal_with_fuel(Seq::<RoomView>::filter, 1);
            assert(start.take(i + 1).drop_last() =~= start.take(i as int));
            assert(start.take(i + 1).last() == rooms@[i as int]@);
        }
        if !str_equal(rooms[i].id.as_str(), id) {
            let ghost before = rooms_view(kept@);
            kept.push(rooms[i].duplicate());
            assert(rooms_view(kept@) =~= before.push(rooms@[i as int]@));
        }
        i += 1;
    }
    assert(start.take(start.len() as int) =~= start);
    *rooms = kept;
}

/// The first index of a room with id `id`.
pub open spec fn first_index_of(rooms: Seq<RoomView>, id: Seq<char>, i: int) -> bool {
    0 <= i < rooms.len() && rooms[i].0 == id && forall|k: int| 0 <= k < i ==> rooms[k].0 != id
}

/// Replaces the first room whose id is `room.id` by `room`; nothing changes when there is none.
pub fn update_room(rooms: &mut Vec<RoomConfig>, room: RoomConfig)
    ensures
        has_room_id(rooms_view(old(rooms)@), room.id@) ==> exists|i: int|
            first_index_of(rooms_view(old(rooms)@), room.id@, i)
            && rooms_view(final(rooms)@) == rooms_view(old(rooms)@).update(i, room@),
        !has_room_id(rooms_view(old(rooms)@), room.id@) ==> final(rooms)@ == old(rooms)@,
{
    let mut i: usize = 0;
    while i < rooms.len()
        invariant
            i <= rooms@.len(),
            rooms@ == old(rooms)@,
            forall|k: int| 0 <= k < i ==> rooms@[k].id@ != room.id@,
        decreases rooms.len() - i,
    {
        if str_equal(rooms[i].id.as_str(), room.id.as_str()) {
            let ghost before = rooms_view(rooms@);
            assert(first_index_of(before, room.id@, i as int));
            let r = room;
            rooms.set(i, r);
            assert(rooms_view(rooms@) =~= before.update(i as int, r@));
            return;
        }
        i += 1;
    }
    assert forall|k: int| 0 <= k < rooms_view(rooms@).len() implies #[trigger] rooms_view(rooms@)[k].0 != room.id@ by {
        assert(rooms_view(rooms@)[k].0 == rooms@[k].id@);
    }
}

/// The ids of the enabled rooms, in order.
pub fn enabled_room_ids(rooms: &Vec<RoomConfig>) -> (res: Vec<String>)
    ensures
        views(res@) == rooms_view(rooms@).filter(|r: RoomView| r.3).map_values(|r: RoomView| r.0),
{
    let ghost all = rooms_view(rooms@);
    let mut ids: Vec<String> = Vec::new();
    let mut i: usize = 0;
    while i < rooms.len()
        invariant
            i <= rooms@.len(),
            all == rooms_view(rooms@),
            views(ids@) == all.take(i as int).filter(|r: RoomView| r.3).map_values(|r: RoomView| r.0),
        decreases rooms.len() - i,
    {
        proof {
            reveal_with_fuel(Seq::<RoomView>::filter, 1);
            assert(all.take(i + 1).drop_last() =~= all.take(i as int));
            assert(all.take(i + 1).last() == rooms@[i as int]@);
        }
        if rooms[i].enabled {
            let ghost before = views(ids@);
            ids.push(rooms[i].id.clone());
            assert(views(ids@) =~= before.push(rooms@[i as int].id@));
            assert(all.take(i + 1).filter(|r: RoomView| r.3).map_values(|r: RoomView| r.0)
                =~= all.take(i as int).filter(|r: RoomView| r.3).map_values(|r: RoomView| r.0).push(rooms@[i as int].id@));
        }
        i += 1;
    }
    assert(all.take(all.len() as int) =~= all);
    ids
}


proof fn lemma_import_grows(rooms: Seq<RoomView>, fields: Seq<Seq<char>>)
    ensures
        import_all(rooms, fields).len() >= rooms.len(),
        import_all(rooms, fields).take(rooms.len() as int) == rooms,
    decreases fields.len(),
{
    if fields.len() > 0 {
        lemma_import_grows(rooms, fields.drop_last());
        let r = import_all(rooms, fields.drop_last());
        assert(r.push((Seq::<char>::empty(), None::<Seq<char>>, None::<Seq<char>>, true)).take(rooms.len() as int) =~= r.take(rooms.len() as int));
        let raw = trim(fields.last());
        if raw.len() > 0 {
            let (id, url) = import_entry(raw);
            assert(r.push((id, None, url, true)).take(rooms.len() as int) =~= r.take(rooms.len() as int));
        }
    }
}

/// Importing never changes or drops the rooms that were there: they stay, in order, at the front.
pub proof fn law_import_keeps_existing(rooms: Seq<RoomView>, text: Seq<char>)
    ensures
        import_text(rooms, text).len() >= rooms.len(),
        import_text(rooms, text).take(rooms.len() as int) == rooms,
{
    lemma_import_grows(rooms, split_by(text, one_of(import_seps())));
}

proof fn lemma_import_unique(rooms: Seq<RoomView>, fields: Seq<Seq<char>>)
    requires
        ids_unique(rooms),
    ensures
        ids_unique(import_all(rooms, fields)),
    decreases fields.len(),
{
    if fields.len() > 0 {
        lemma_import_unique(rooms, fields.drop_last());
        let r = import_all(rooms, fields.drop_last());
        let raw = trim(fields.last());
        if raw.len() > 0 {
            let (id, url) = import_entry(raw);
            if !has_room_id(r, id) {
                let r2 = r.push((id, None, url, true));
                assert forall|i: int, j: int| 0 <= i < j < r2.len() implies #[trigger] r2[i].0 != #[trigger] r2[j].0 by {
                    if j == r.len() {
                        assert(r[i].0 != id);
                    } else {
                        assert(r[i].0 != r[j].0);
                    }
                }
            }
        }
    }
}

/// Importing keeps room ids unique: a room list without repeated ids has none after any import.
pub proof fn law_import_ids_unique(rooms: Seq<RoomView>, text: Seq<char>)
    requires
        ids_unique(rooms),
    ensures
        ids_unique(import_text(rooms, text)),
{
    lemma_import_unique(rooms, split_by(text, one_of(import_seps())));
}

proof fn lemma_import_covers(rooms: Seq<RoomView>, fields: Seq<Seq<char>>, k: int)
    requires
        0 <= k < fields.len(),
        trim(fields[k]).len() > 0,
    ensures
        has_room_id(import_all(rooms, fields), import_entry(trim(fields[k])).0),
    decreases fields.len(),
{
    let r = import_all(rooms, fields.drop_last());
    let raw = trim(fields.last());
    if k < fields.len() - 1 {
        lemma_import_covers(rooms, fields.drop_last(), k);
        assert(fields.drop_last()[k] == fields[k]);
        let id = import_entry(trim(fields[k])).0;
        let i = choose|i: int| 0 <= i < r.len() && #[trigger] r[i].0 == id;
        if raw.len() > 0 {
            let (id2, url2) = import_entry(raw);
            if !has_room_id(r, id2) {
                assert(r.push((id2, None, url2, true))[i].0 == id);
            }
        }
    } else {
        let (id, url) = import_entry(raw);
        if !has_room_id(r, id) {
            assert(r.push((id, None, url, true))[r.len() as int].0 == id);
        }
    }
}

/// After an import, the id of every non-empty entry of the text is in the room list.
pub proof fn law_import_covers_entries(rooms: Seq<RoomView>, text: Seq<char>, k: int)
    requires
        0 <= k < split_by(text, one_of(import_seps())).len(),
        trim(split_by(text, one_of(import_seps()))[k]).len() > 0,
    ensures
        has_room_id(import_text(rooms, text), import_entry(trim(split_by(text, one_of(import_seps()))[k])).0),
{
    lemma_import_covers(rooms, split_by(text, one_of(import_seps())), k);
}

proof fn lemma_import_nothing_new(rooms: Seq<RoomView>, fields: Seq<Seq<char>>)
    requires
        forall|k: int| 0 <= k < fields.len() && trim(#[trigger] fields[k]).len() > 0
            ==> has_room_id(rooms, import_entry(trim(fields[k])).0),
    ensures
        import_all(rooms, fields) == rooms,
    decreases fields.len(),
{
    if fields.len() > 0 {
        assert forall|k: int| 0 <= k < fields.drop_last().len() && trim(#[trigger] fields.drop_last()[k]).len() > 0
            implies has_room_id(rooms, import_entry(trim(fields.drop_last()[k])).0) by {
            assert(fields.drop_last()[k] == fields[k]);
        }
        lemma_import_nothing_new(rooms, fields.drop_last());
        let raw = trim(fields.last());
        if raw.len() > 0 {
            assert(fields.last() == fields[fields.len() - 1]);
        }
    }
}

/// Importing the same text a second time changes nothing.
pub proof fn law_import_idempotent(rooms: Seq<RoomView>, text: Seq<char>)
    ensures
        import_text(import_text(rooms, text), text) == import_text(rooms, text),
{
    let fields = split_by(text, one_of(import_seps()));
    let once = import_all(rooms, fields);
    assert forall|k: int| 0 <= k < fields.len() && trim(#[trigger] fields[k]).len() > 0
        implies has_room_id(once, import_entry(trim(fields[k])).0) by {
        lemma_import_covers(rooms, fields, k);
    }
    lemma_import_nothing_new(once, fields);
}

/// After removing id `id`, no room has that id.
pub proof fn law_remove_room_removes(rooms: Seq<RoomView>, id: Seq<char>)
    ensures
        !has_room_id(rooms.filter(|r: RoomView| r.0 != id), id),
{
    let f = rooms.filter(|r: RoomView| r.0 != id);
    assert forall|i: int| 0 <= i < f.len() implies #[trigger] f[i].0 != id by {
        rooms.lemma_filter_pred(|r: RoomView| r.0 != id, i);
    }
}

} // verus!
