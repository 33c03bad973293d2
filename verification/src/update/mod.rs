//! Self-update: release polling, asset picking, download verification and
//! the swap of the installed bundle.

pub mod checker;
pub mod error;
pub mod install_method;
pub mod ip;
pub mod macos;
pub mod migrations;
pub mod redirect;
pub mod signature;
pub mod verified_download;
pub mod version;

use vstd::prelude::*;

use crate::update::error::UpdateError;

verus! {

/// What the title bar shows of a running update.
#[derive(Clone, Debug)]
pub enum SelfUpdateStatus {
    /// Nothing is in flight.
    Idle,
    Downloading,
    /// The new version is in place; a restart brings it up.
    ReadyToRestart,
    /// The last attempt failed, and another may be made.
    Errored(UpdateError),
}

impl Default for SelfUpdateStatus {
    fn default() -> (r: SelfUpdateStatus)
        ensures
            r == SelfUpdateStatus::Idle,
    {
        SelfUpdateStatus::Idle
    }
}

impl SelfUpdateStatus {
    /// Whether an update is being downloaded or put in place.
    pub fn is_busy(&self) -> (r: bool)
        ensures
            r == (self is Downloading),
    {
        matches!(self, SelfUpdateStatus::Downloading)
    }
}

/// Where the installed binary is expected.
pub fn installed_binary_path() -> (r: &'static str)
    ensures
        r@ == "/Applications/PaneFlow.app/Contents/MacOS/paneflow"@,
{
    "/Applications/PaneFlow.app/Contents/MacOS/paneflow"
}

} // verus!
