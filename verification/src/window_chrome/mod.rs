//! The frame of the window: its title bar and the material behind it.

pub mod macos_backdrop;
pub mod title_bar;
