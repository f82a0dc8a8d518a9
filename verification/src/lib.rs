//! Live numbers and small graphs as text art for a terminal.
//!
//! The renderers turn data into frames: sequences of lines of text. They
//! print nothing and keep no state but the histories that the caller
//! hands them.

pub mod menu;
pub mod tui;
