//! Replacing an installed `.app` bundle from a disk image.

pub mod dmg;
pub mod install;
pub mod swap;
