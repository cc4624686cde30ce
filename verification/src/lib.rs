//! Timing engine for synchronised lyrics: a parser for timestamped lyric
//! text, a playback clock, a line and word cursor, and the coordinator that
//! reconciles incoming track samples with the state on display.

pub mod config;
pub mod coordinator;
pub mod lyrics;
pub mod navidrome;
pub mod playback;
pub mod setup;
pub mod text;
pub mod timestamp;
