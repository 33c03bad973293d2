//! Editing widgets: the state behind them and the rules by which it changes.

pub mod bindings;
pub mod scrollbar;
pub mod text_area;
pub mod text_input;
