//! The rules of a terminal session: its grid and mode types, how shells are
//! found and prepared, and what the view does with what comes from them.

pub mod allocation;
pub mod events;
pub mod input;
pub mod shell;
pub mod startup;
pub mod types;
pub mod view;
