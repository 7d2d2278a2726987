# tj_videoprep

The planning and analysis core of TJ-VideoPrep, a desktop tool that picks an
audio track of a film, measures its start offset against the video, and
produces an aligned audio file plus preview / full-resolution / re-wrapped
video with ffmpeg. The core is written in Verus and proved against its
specifications; the desktop shell around it is ordinary Rust.

Layout:

- `src/text.rs` – text helpers with exact specifications (trimming, search,
  integer and decimal parsing and printing, ordering, sorting).
- `src/paths.rs` – joining directory and file names through `std::path`.
- `src/json.rs` – a JSON document as plain values, parsed from text with
  `serde_json`, and the lenient field readers.
- `src/probe.rs` – analysis of ffprobe's report text: tracks,
  recommendation, offset and alignment note.
- `src/encode.rs` – the ffmpeg argument lists and the plan of a job, the
  displayed commands, progress and messages of a run.
- `src/tools.rs` – settings defaults, the search order for ffmpeg, ffprobe
  and mpv, mpv's version line.
- `src/mpvdl.rs`, `src/player.rs` – choosing the mpv build to download; the
  mpv command line for listening.
- `src/laws.rs` – properties of the library as a whole.
- `app/` – the Tauri program: commands, processes, files, network, dialogs.
- `tests/` – tests of the library on concrete values.
