//! Core types and parsing for loglens.
//!
//! A log line is expected to start with a timestamp token followed by a
//! level token, e.g. `2026-08-21T10:15:03Z INFO server started`. Anything
//! that doesn't match that shape is still counted toward the total, just
//! not attributed to a level.
pub mod cli;
pub mod entry;
pub mod filter;
pub mod json;
pub mod level;
pub mod summary;
pub mod text;
pub mod timestamp;

pub use entry::{parse_line, Entry};
pub use filter::{passes_filters, passes_filters_and_message};
pub use level::Level;
pub use summary::{
    summarize, summarize_with_all_filters, summarize_with_all_filters_and_lines,
    summarize_with_filters, summarize_with_filters_and_lines, summarize_with_min_level, LevelLines,
    Summary,
};
