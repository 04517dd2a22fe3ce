# clipper_studio

The verified core of a desktop studio for clipping live-stream recordings
(BililiveRecorder workspaces, Bilibili danmaku, speech-recognised
subtitles, FFmpeg clip, merge and burn passes). Every function under
`src/` is checked by Verus against its `requires`/`ensures` contract,
except the few trusted wrappers around outside code, whose contracts Verus
takes on trust (each says in its doc comment what it claims):

- `danmaku_xml::xml_steps` — quick-xml's `Reader::from_str` / `read_event`;
- `danmaku_xml::utf8_lossy` — `String::from_utf8_lossy`;
- `media::encode_component` — `urlencoding::encode`;
- `media_tasks::json_ids` — `serde_json::to_string` on a list of ids;
- `plugin_transport::parse_reply` — `serde_json::from_str` on a plugin's
  reply line;
- `plugin_transport::json_string_of`, `plugin_transport::json_text_of` —
  `serde_json::to_string` on the request's action and payload;
- `storage::regex_digit_class` — the regex crate's `\d` class, which the
  recorder's file and directory name patterns use;
- `text::string_of` — collecting characters into a `String`;
- `text::to_lowercase` — `str::to_lowercase`.

`serde_json::Value` is declared to Verus as an opaque type
in `plugin_transport`.

Layout:

- `src/` — the library, one module per concern: text and SQL literal
  helpers (`text`, `sql`, `encoding`), subtitle and danmaku formats
  (`subtitle`, `danmaku`, `danmaku_xml`), workspace scanning and session
  grouping (`storage`, `sessions`, `workspaces`, `watcher`), FFmpeg
  planning (`clipper`, `merger`, `segment`, `media_tasks`), clip naming and
  clip tasks (`clips`, `clip_tasks`), speech recognition (`asr`,
  `asr_queue`, `asr_tasks`, `splitter`, `subtitle_edits`), the background
  task queue (`tasks`), plugins (`manifest`, `plugins`, `plugin_settings`, and the stdio reply protocol
  in `plugin_transport`),
  configuration and dependencies (`config`, `deps`), the library browser
  and dashboard (`catalog`, `tags`, `dashboard`) and the media server's
  rules (`media`). Public `law_*` proof functions state properties that
  span several operations.
- `tests/` — ordinary Rust tests of the library.
- `app/` — a command-line front end doing the file-system work around the
  library: `config.toml`, workspace listings, danmaku XML and ASS files,
  DanmakuFactory, media-server paths, running stdio tool plugins and
  reading plugin manifests. It also does the one floating-point step of
  reading danmaku XML: each `<d>` element's time field read as seconds.
