//! Syllable counting and haiku detection for a stream of chat lines.
//!
//! `text` holds the tokenising rules, `dictionary` the pronunciation lookup,
//! `counting` the memoised word counter and both recognisers, and `window`
//! the per-channel sliding windows.
pub mod commands;
pub mod counting;
pub mod dictionary;
pub mod text;
pub mod window;
