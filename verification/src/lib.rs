//! The logic of a terminal workspace application: text editing, terminal
//! session rules, theming and the self-update pipeline.
//!
//! Everything here computes on plain values. Reading files, talking to the
//! network and painting belong to the application around this library.

pub mod path;
pub mod terminal;
pub mod text;
pub mod text_sanitize;
pub mod theme;
pub mod update;
pub mod widgets;
pub mod window_chrome;
