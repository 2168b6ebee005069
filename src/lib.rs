//! Normalizes, filters and renders structured JSON log lines: each line is classified as a
//! record of a known schema, or not; records pass a level threshold and an optional predicate,
//! and are rendered in a short, long or bare layout, with or without terminal colour.
pub mod config;
pub mod entry;
pub mod filter;
pub mod json;
pub mod level;
pub mod pipeline;
pub mod render;
pub mod style;
pub mod text;
pub mod time;

pub use config::{guess_colour_depth, parse_format, pick_colour, FormatError};
pub use entry::{classify, BunyanEntry, Decision, Entry, Fields, Span, TracingEntry};
pub use filter::{predicate_verdict, Filter, FilterError, ScriptOutcome};
pub use json::{parse_document, Json, Member, Numeral};
pub use level::{Level, TracingLevel, UnknownLevel};
pub use pipeline::{emit_accepted, process_line, Config};
pub use render::emit_bare;
pub use style::{bold, level, Colour, Format};
pub use time::Timestamp;
