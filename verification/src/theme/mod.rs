//! Themes: their colours, the theme in use, and the signal of its changes.

pub mod model;
pub mod signal;
pub mod syntax;
pub mod watcher;
