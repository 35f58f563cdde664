//! A line-oriented search: sources are scanned line by line, each line is
//! tested against a glob pattern, and every hit is handed to the active
//! result sinks, which print it or tally it per source.
pub mod text;
pub mod hit_handling;
pub mod pattern;
pub mod plan;
pub mod search;
pub mod laws;
