//! Verified core of a live-stream clipping studio: subtitle and danmaku
//! formats, clip naming, recording-session grouping, FFmpeg argument
//! planning, configuration bookkeeping and assorted text codecs.

pub mod text;
pub mod subtitle;
pub mod config;
pub mod danmaku;
pub mod danmaku_xml;
pub mod manifest;
pub mod clipper;
pub mod merger;
pub mod storage;
pub mod sessions;
pub mod asr;
pub mod splitter;
pub mod encoding;
pub mod plugins;
pub mod media;
pub mod segment;
pub mod tasks;
pub mod watcher;
pub mod sql;
pub mod clips;
pub mod asr_queue;
pub mod catalog;
pub mod workspaces;
pub mod tags;
pub mod media_tasks;
pub mod subtitle_edits;
pub mod asr_tasks;
pub mod dashboard;
pub mod clip_tasks;
pub mod plugin_settings;
pub mod deps;
pub mod plugin_transport;
