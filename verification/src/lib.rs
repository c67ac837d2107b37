//! Trove: a collection of small developer tools (JSON, text, encodings,
//! timestamps, identifiers, media helpers) with a registry that lists and
//! finds them, the rules around running them, and what the command line,
//! the HTTP API and the WebSocket protocol answer.

pub mod category;
pub mod context;
pub mod error;
pub mod text;
pub mod tool;
pub mod registry;
pub mod engine;
pub mod config;
pub mod request;
pub mod static_files;

pub mod string_case;
pub mod url_codec;
pub mod text_stats;
pub mod base64_codec;
pub mod hash_tool;
pub mod json_formatter;
pub mod json_validator;
pub mod timestamp;
pub mod uuid_gen;
pub mod video_concat;
pub mod ffmpeg_detector;
pub mod concat_run;
pub mod builtin;

pub mod ws_protocol;
pub mod report;
