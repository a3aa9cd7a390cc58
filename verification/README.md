# douyin_recorder

A desktop recorder for Douyin live rooms: it resolves a live room into its stream
addresses, watches rooms for going live, records them with ffmpeg (segments, merge,
transcode), and can let a sit/stand detector start and stop recordings.

The decisions of the program live in a library verified with Verus (`src/`); the
desktop shell, processes, files and network requests live in `app/`.

## Layout

- `src/text.rs` — string helpers specified over `Seq<char>` (trim, split, contains,
  decimal and hexadecimal formatting).
- `src/json.rs` — the JSON values the resolver reads.
- `src/streams.rs` — stream tables, the depth-first search for `flv_pull_url` /
  `hls_pull_url_map` / `hls_pull_url`, and the choice of the best quality.
- `src/resolver.rs` — recognising user input (stream address, short link, Douyin address,
  room id), reading the web API and `RENDER_DATA` answers and, as a last resort, stream
  addresses written anywhere in the live page; cookies and the kept `ttwid`, request
  addresses, and the resolution steps and their failure report.
- `src/pattern.rs`, `src/urlcodec.rs` — the `regex` and `urlencoding` calls.
- `src/config.rs` — rooms and settings: import, removal, update, defaults.
- `src/recorder.rs` — file names, recording command lines, start-up checks, ffmpeg error
  diagnosis, segment selection, the recording watcher, what ends a finish (event, clean-up,
  error), listing.
- `src/transcode.rs` — transcode, concatenation and export command lines, ffmpeg failures.
- `src/logic.rs` — the sit/stand state machine; `src/detector.rs` — what its decisions do.
- `src/monitor.rs` — the monitor loop's decisions on each live-state edge.
- `src/commands.rs`, `src/types.rs` — decisions behind the user commands.
- `tests/` — tests of the library.
- `app/` — the Tauri application: commands, tray, ffmpeg and Python processes, HTTP,
  settings file.

Each public function states its result in its `ensures`; properties that relate several
calls are public proof functions named `law_*`.
