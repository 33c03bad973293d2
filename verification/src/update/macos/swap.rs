//! The swap of an installed bundle for a new one.
//!
//! The new bundle is copied beside the installed one and verified there; the
//! installed one is moved aside, the new one takes its place, and what was
//! moved aside goes away. When the new one cannot take the place, the old one
//! is moved back. [`SwapFlow`] decides; whoever drives it acts on the file
//! system and reports back.

use vstd::prelude::*;

use crate::path;
use crate::text::chars;
use crate::update::error;
use crate::update::error::UpdateError;
use crate::update::error::UpdateFailure;
use crate::update::macos::dmg;

verus! {

/// A place that the swap looks at or changes.
#[derive(Clone, Copy, Debug, PartialEq, Eq, Structural)]
pub enum Slot {
    /// The bundle on the mounted disk image.
    Source,
    /// Where the bundle is installed.
    Live,
    /// Where the installed bundle is moved aside to.
    Old,
    /// Where the new bundle is copied to.
    New,
}

/// What is to be done next.
#[derive(Clone, Copy, Debug, PartialEq, Eq, Structural)]
pub enum SwapAction {
    /// Report whether the place exists.
    Look(Slot),
    /// Remove what is there, as far as possible.
    Remove(Slot),
    Rename { from: Slot, to: Slot },
    /// Copy the source to the place of the new bundle.
    Copy,
    /// Verify the copied bundle.
    Verify,
    /// Take the quarantine mark off the installed bundle, as far as possible.
    StripQuarantine,
    /// Nothing: the result is there.
    Finish,
}

/// What came of the last action.
#[derive(Clone, Debug, PartialEq, Eq)]
pub enum SwapReply {
    /// To [`SwapAction::Look`].
    Exists(bool),
    /// It worked. To a best-effort action also when it did not.
    Done,
    /// A rename failed, with the words of the operating system.
    RenameFailed { not_found: bool, message: String },
    /// A copy or a verification failed.
    Failed(UpdateFailure),
}

/// A [`SwapReply`] as a mathematical value.
pub enum Reply {
    Exists(bool),
    Done,
    RenameFailed { not_found: bool, message: Seq<char> },
    Failed(error::Failure),
}

impl View for SwapReply {
    type V = Reply;

    open spec fn view(&self) -> Reply {
        match *self {
            SwapReply::Exists(b) => Reply::Exists(b),
            SwapReply::Done => Reply::Done,
            SwapReply::RenameFailed { not_found, message } => Reply::RenameFailed {
                not_found,
                message: message@,
            },
            SwapReply::Failed(f) => Reply::Failed(f@),
        }
    }
}

/// Whether a reply answers an action.
pub open spec fn answers(action: SwapAction, reply: Reply) -> bool {
    match action {
        SwapAction::Look(_) => reply is Exists,
        SwapAction::Remove(_) => reply is Done,
        SwapAction::Rename { .. } => reply is Done || reply is RenameFailed,
        SwapAction::Copy => reply is Done || reply is Failed,
        SwapAction::Verify => reply is Done || reply is Failed,
        SwapAction::StripQuarantine => reply is Done,
        SwapAction::Finish => false,
    }
}

/// The places of one swap, and the name of the bundle.
pub struct Places {
    pub name: Seq<char>,
    pub source: Seq<char>,
    pub live: Seq<char>,
    pub old: Seq<char>,
    pub new: Seq<char>,
}

/// How far a swap has come.
pub enum Stage {
    LookForSource,
    LookForOld,
    LookForLive,
    Recover,
    DropStaleOld,
    LookForNew,
    DropStaleNew,
    Copy,
    Verify,
    MoveAside,
    Promote,
    LookForRollback { message: Seq<char> },
    Rollback { message: Seq<char> },
    /// The swap has failed; what was copied goes away.
    DropNew { failure: error::Failure },
    LookForLeftover,
    DropLeftover,
    Strip,
    /// Over: `None` is success.
    Finished { failure: Option<error::Failure> },
}

impl Places {
    /// The disk image does not hold the bundle.
    pub open spec fn malformed(self) -> error::Failure {
        error::Failure {
            error: error::Fault::Other(
                "DMG did not contain the "@ + self.name + " bundle at "@ + self.source
                    + " - archive appears malformed."@,
            ),
            context: None,
        }
    }

    /// The bundle of a broken-off swap could not be moved back.
    pub open spec fn unrecovered(self, message: Seq<char>) -> error::Failure {
        error::Failure {
            error: error::system_fault(None, message),
            context: Some("recover live bundle "@ + self.live + " from "@ + self.old),
        }
    }

    /// What the promotion is called in messages.
    pub open spec fn promotion(self) -> Seq<char> {
        "promote "@ + self.new + " \u{2192} "@ + self.live
    }

    /// Neither the new nor the old bundle could be put in place.
    pub open spec fn lost(self, message: Seq<char>, rollback: Seq<char>) -> error::Failure {
        error::Failure {
            error: error::Fault::InstallFailed { log_path: seq![] },
            context: Some(
                self.promotion() + " failed ("@ + message + "); rollback from "@ + self.old
                    + " also failed ("@ + rollback
                    + ") - no live install remains, reinstall PaneFlow manually"@,
            ),
        }
    }

    /// The stage that a reply leads to.
    pub open spec fn step(self, stage: Stage, reply: Reply) -> Stage {
        match (stage, reply) {
            (Stage::LookForSource, Reply::Exists(found)) => if found {
                Stage::LookForOld
            } else {
                Stage::Finished { failure: Some(self.malformed()) }
            },
            (Stage::LookForOld, Reply::Exists(found)) => if found {
                Stage::LookForLive
            } else {
                Stage::LookForNew
            },
            (Stage::LookForLive, Reply::Exists(found)) => if found {
                Stage::DropStaleOld
            } else {
                Stage::Recover
            },
            (Stage::Recover, Reply::Done) => Stage::LookForNew,
            (Stage::Recover, Reply::RenameFailed { message, .. }) => Stage::Finished {
                failure: Some(self.unrecovered(message)),
            },
            (Stage::DropStaleOld, _) => Stage::LookForNew,
            (Stage::LookForNew, Reply::Exists(found)) => if found {
                Stage::DropStaleNew
            } else {
                Stage::Copy
            },
            (Stage::DropStaleNew, _) => Stage::Copy,
            (Stage::Copy, Reply::Done) => Stage::Verify,
            (Stage::Copy, Reply::Failed(failure)) => Stage::DropNew { failure },
            (Stage::Verify, Reply::Done) => Stage::MoveAside,
            (Stage::Verify, Reply::Failed(failure)) => Stage::DropNew { failure },
            (Stage::MoveAside, Reply::Done) => Stage::Promote,
            (Stage::MoveAside, Reply::RenameFailed { not_found, message }) => if not_found {
                Stage::Promote
            } else {
                Stage::DropNew {
                    failure: dmg::filesystem_failure(message, "move aside "@ + self.live),
                }
            },
            (Stage::Promote, Reply::Done) => Stage::LookForLeftover,
            (Stage::Promote, Reply::RenameFailed { message, .. }) => Stage::LookForRollback {
                message,
            },
            (Stage::LookForRollback { message }, Reply::Exists(found)) => if found {
                Stage::Rollback { message }
            } else {
                Stage::DropNew { failure: dmg::filesystem_failure(message, self.promotion()) }
            },
            (Stage::Rollback { message }, Reply::Done) => Stage::DropNew {
                failure: dmg::filesystem_failure(message, self.promotion()),
            },
            (Stage::Rollback { message }, Reply::RenameFailed { message: rollback, .. }) =>
                Stage::DropNew { failure: self.lost(message, rollback) },
            (Stage::DropNew { failure }, _) => Stage::Finished { failure: Some(failure) },
            (Stage::LookForLeftover, Reply::Exists(found)) => if found {
                Stage::DropLeftover
            } else {
                Stage::Strip
            },
            (Stage::DropLeftover, _) => Stage::Strip,
            (Stage::Strip, _) => Stage::Finished { failure: None },
            _ => stage,
        }
    }
}

/// What is to be done at a stage.
pub open spec fn action_at(stage: Stage) -> SwapAction {
    match stage {
        Stage::LookForSource => SwapAction::Look(Slot::Source),
        Stage::LookForOld => SwapAction::Look(Slot::Old),
        Stage::LookForLive => SwapAction::Look(Slot::Live),
        Stage::Recover => SwapAction::Rename { from: Slot::Old, to: Slot::Live },
        Stage::DropStaleOld => SwapAction::Remove(Slot::Old),
        Stage::LookForNew => SwapAction::Look(Slot::New),
        Stage::DropStaleNew => SwapAction::Remove(Slot::New),
        Stage::Copy => SwapAction::Copy,
        Stage::Verify => SwapAction::Verify,
        Stage::MoveAside => SwapAction::Rename { from: Slot::Live, to: Slot::Old },
        Stage::Promote => SwapAction::Rename { from: Slot::New, to: Slot::Live },
        Stage::LookForRollback { .. } => SwapAction::Look(Slot::Old),
        Stage::Rollback { .. } => SwapAction::Rename { from: Slot::Old, to: Slot::Live },
        Stage::DropNew { .. } => SwapAction::Remove(Slot::New),
        Stage::LookForLeftover => SwapAction::Look(Slot::Old),
        Stage::DropLeftover => SwapAction::Remove(Slot::Old),
        Stage::Strip => SwapAction::StripQuarantine,
        Stage::Finished { .. } => SwapAction::Finish,
    }
}

/// The stage of a running swap.
enum SwapStage {
    LookForSource,
    LookForOld,
    LookForLive,
    Recover,
    DropStaleOld,
    LookForNew,
    DropStaleNew,
    Copy,
    Verify,
    MoveAside,
    Promote,
    LookForRollback { message: String },
    Rollback { message: String },
    DropNew { failure: UpdateFailure },
    LookForLeftover,
    DropLeftover,
    Strip,
    Finished { failure: Option<UpdateFailure> },
}

impl SwapStage {
    spec fn model(self) -> Stage {
        match self {
            SwapStage::LookForSource => Stage::LookForSource,
            SwapStage::LookForOld => Stage::LookForOld,
            SwapStage::LookForLive => Stage::LookForLive,
            SwapStage::Recover => Stage::Recover,
            SwapStage::DropStaleOld => Stage::DropStaleOld,
            SwapStage::LookForNew => Stage::LookForNew,
            SwapStage::DropStaleNew => Stage::DropStaleNew,
            SwapStage::Copy => Stage::Copy,
            SwapStage::Verify => Stage::Verify,
            SwapStage::MoveAside => Stage::MoveAside,
            SwapStage::Promote => Stage::Promote,
            SwapStage::LookForRollback { message } => Stage::LookForRollback { message: message@ },
            SwapStage::Rollback { message } => Stage::Rollback { message: message@ },
            SwapStage::DropNew { failure } => Stage::DropNew { failure: failure@ },
            SwapStage::LookForLeftover => Stage::LookForLeftover,
            SwapStage::DropLeftover => Stage::DropLeftover,
            SwapStage::Strip => Stage::Strip,
            SwapStage::Finished { failure } => Stage::Finished {
                failure: match failure {
                    Some(f) => Some(f@),
                    None => None,
                },
            },
        }
    }
}

/// A running swap.
pub struct SwapFlow {
    name: String,
    source: String,
    live: String,
    old: String,
    new: String,
    stage: SwapStage,
}

impl SwapFlow {
    /// The places of the swap.
    pub closed spec fn places(&self) -> Places {
        Places {
            name: self.name@,
            source: self.source@,
            live: self.live@,
            old: self.old@,
            new: self.new@,
        }
    }

    /// How far the swap has come.
    pub closed spec fn stage(&self) -> Stage {
        self.stage.model()
    }

    /// Begins a swap of the bundle at `install_dir` for the one of the same
    /// name on the mounted volume.
    pub fn start(mounted_volume: &str, install_dir: &str) -> (r: Result<SwapFlow, UpdateError>)
        ensures
            match r {
                Ok(flow) => {
                    &&& flow.stage() == Stage::LookForSource
                    &&& path::parse(install_dir@).file_name() == Some(flow.places().name)
                    &&& flow.places().source == path::join_text(
                        mounted_volume@,
                        flow.places().name,
                    )
                    &&& flow.places().live == install_dir@
                    &&& dmg::staging(install_dir@) == Some((flow.places().old, flow.places().new))
                },
                Err(e) => path::parse(install_dir@).file_name() is None && e@
                    == error::Fault::Other(
                    "install_dir has no file name - cannot locate the bundle inside the DMG"@,
                ),
            },
    {
        let name = match dmg::bundle_file_name(install_dir) {
            Ok(n) => n,
            Err(e) => {
                return Err(e);
            },
        };
        let (old_dir, new_dir) = match dmg::staging_dirs(install_dir) {
            Ok(d) => d,
            Err(e) => {
                return Err(e);
            },
        };
        let source = path::join(mounted_volume, name.as_str());
        Ok(
            SwapFlow {
                name,
                source,
                live: install_dir.to_string(),
                old: old_dir,
                new: new_dir,
                stage: SwapStage::LookForSource,
            },
        )
    }

    /// The path of a place.
    pub fn path_of(&self, slot: Slot) -> (r: &str)
        ensures
            r@ == match slot {
                Slot::Source => self.places().source,
                Slot::Live => self.places().live,
                Slot::Old => self.places().old,
                Slot::New => self.places().new,
            },
    {
        match slot {
            Slot::Source => self.source.as_str(),
            Slot::Live => self.live.as_str(),
            Slot::Old => self.old.as_str(),
            Slot::New => self.new.as_str(),
        }
    }

    /// What is to be done next.
    pub fn action(&self) -> (r: SwapAction)
        ensures
            r == action_at(self.stage()),
    {
        match &self.stage {
            SwapStage::LookForSource => SwapAction::Look(Slot::Source),
            SwapStage::LookForOld => SwapAction::Look(Slot::Old),
            SwapStage::LookForLive => SwapAction::Look(Slot::Live),
            SwapStage::Recover => SwapAction::Rename { from: Slot::Old, to: Slot::Live },
            SwapStage::DropStaleOld => SwapAction::Remove(Slot::Old),
            SwapStage::LookForNew => SwapAction::Look(Slot::New),
            SwapStage::DropStaleNew => SwapAction::Remove(Slot::New),
            SwapStage::Copy => SwapAction::Copy,
            SwapStage::Verify => SwapAction::Verify,
            SwapStage::MoveAside => SwapAction::Rename { from: Slot::Live, to: Slot::Old },
            SwapStage::Promote => SwapAction::Rename { from: Slot::New, to: Slot::Live },
            SwapStage::LookForRollback { .. } => SwapAction::Look(Slot::Old),
            SwapStage::Rollback { .. } => SwapAction::Rename { from: Slot::Old, to: Slot::Live },
            SwapStage::DropNew { .. } => SwapAction::Remove(Slot::New),
            SwapStage::LookForLeftover => SwapAction::Look(Slot::Old),
            SwapStage::DropLeftover => SwapAction::Remove(Slot::Old),
            SwapStage::Strip => SwapAction::StripQuarantine,
            SwapStage::Finished { .. } => SwapAction::Finish,
        }
    }

    fn malformed(&self) -> (r: UpdateFailure)
        ensures
            r@ == self.places().malformed(),
    {
        let head = chars::concat3("DMG did not contain the ", self.name.as_str(), " bundle at ");
        UpdateFailure::bare(
            UpdateError::Other(
                chars::concat3(
                    head.as_str(),
                    self.source.as_str(),
                    " - archive appears malformed.",
                ),
            ),
        )
    }

    fn unrecovered(&self, message: String) -> (r: UpdateFailure)
        ensures
            r@ == self.places().unrecovered(message@),
    {
        let head = chars::concat3("recover live bundle ", self.live.as_str(), " from ");
        UpdateFailure {
            error: error::system_error(None, message),
            context: Some(chars::concat(head.as_str(), self.old.as_str())),
        }
    }

    fn promotion(&self) -> (r: String)
        ensures
            r@ == self.places().promotion(),
    {
        let head = chars::concat3("promote ", self.new.as_str(), " \u{2192} ");
        chars::concat(head.as_str(), self.live.as_str())
    }

    fn lost(&self, message: &str, rollback: &str) -> (r: UpdateFailure)
        ensures
            r@ == self.places().lost(message@, rollback@),
    {
        let what = self.promotion();
        let first = chars::concat3(what.as_str(), " failed (", message);
        let second = chars::concat3(first.as_str(), "); rollback from ", self.old.as_str());
        let third = chars::concat3(second.as_str(), " also failed (", rollback);
        let log_path = String::new();
        assert(log_path@ =~= Seq::<char>::empty());
        UpdateFailure {
            error: UpdateError::InstallFailed { log_path },
            context: Some(
                chars::concat(
                    third.as_str(),
                    ") - no live install remains, reinstall PaneFlow manually",
                ),
            ),
        }
    }

    fn not_moved_aside(&self, message: &str) -> (r: UpdateFailure)
        ensures
            r@ == dmg::filesystem_failure(message@, "move aside "@ + self.places().live),
    {
        let context = chars::concat("move aside ", self.live.as_str());
        dmg::classify_filesystem_error(message, context.as_str())
    }

    fn not_promoted(&self, message: &str) -> (r: UpdateFailure)
        ensures
            r@ == dmg::filesystem_failure(message@, self.places().promotion()),
    {
        let context = self.promotion();
        dmg::classify_filesystem_error(message, context.as_str())
    }

    /// Takes what came of the last action.
    pub fn advance(&mut self, reply: SwapReply)
        requires
            answers(action_at(old(self).stage()), reply@),
        ensures
            final(self).places() == old(self).places(),
            final(self).stage() == old(self).places().step(old(self).stage(), reply@),
    {
        let mut stage = SwapStage::Strip;
        core::mem::swap(&mut stage, &mut self.stage);
        self.stage =
        match (stage, reply) {
            (SwapStage::LookForSource, SwapReply::Exists(found)) => if found {
                SwapStage::LookForOld
            } else {
                SwapStage::Finished { failure: Some(self.malformed()) }
            },
            (SwapStage::LookForOld, SwapReply::Exists(found)) => if found {
                SwapStage::LookForLive
            } else {
                SwapStage::LookForNew
            },
            (SwapStage::LookForLive, SwapReply::Exists(found)) => if found {
                SwapStage::DropStaleOld
            } else {
                SwapStage::Recover
            },
            (SwapStage::Recover, SwapReply::Done) => SwapStage::LookForNew,
            (SwapStage::Recover, SwapReply::RenameFailed { message, .. }) => SwapStage::Finished {
                failure: Some(self.unrecovered(message)),
            },
            (SwapStage::DropStaleOld, _) => SwapStage::LookForNew,
            (SwapStage::LookForNew, SwapReply::Exists(found)) => if found {
                SwapStage::DropStaleNew
            } else {
                SwapStage::Copy
            },
            (SwapStage::DropStaleNew, _) => SwapStage::Copy,
            (SwapStage::Copy, SwapReply::Done) => SwapStage::Verify,
            (SwapStage::Copy, SwapReply::Failed(failure)) => SwapStage::DropNew { failure },
            (SwapStage::Verify, SwapReply::Done) => SwapStage::MoveAside,
            (SwapStage::Verify, SwapReply::Failed(failure)) => SwapStage::DropNew { failure },
            (SwapStage::MoveAside, SwapReply::Done) => SwapStage::Promote,
            (SwapStage::MoveAside, SwapReply::RenameFailed { not_found, message }) => if not_found {
                SwapStage::Promote
            } else {
                SwapStage::DropNew { failure: self.not_moved_aside(message.as_str()) }
            },
            (SwapStage::Promote, SwapReply::Done) => SwapStage::LookForLeftover,
            (SwapStage::Promote, SwapReply::RenameFailed { message, .. }) =>
                SwapStage::LookForRollback { message },
            (SwapStage::LookForRollback { message }, SwapReply::Exists(found)) => if found {
                SwapStage::Rollback { message }
            } else {
                SwapStage::DropNew { failure: self.not_promoted(message.as_str()) }
            },
            (SwapStage::Rollback { message }, SwapReply::Done) => SwapStage::DropNew {
                failure: self.not_promoted(message.as_str()),
            },
            (SwapStage::Rollback { message }, SwapReply::RenameFailed { message: rollback, .. }) =>
                SwapStage::DropNew { failure: self.lost(message.as_str(), rollback.as_str()) },
            (SwapStage::DropNew { failure }, _) => SwapStage::Finished { failure: Some(failure) },
            (SwapStage::LookForLeftover, SwapReply::Exists(found)) => if found {
                SwapStage::DropLeftover
            } else {
                SwapStage::Strip
            },
            (SwapStage::DropLeftover, _) => SwapStage::Strip,
            (SwapStage::Strip, _) => SwapStage::Finished { failure: None },
            (other, _) => other,
        };
    }

    /// The result of a finished swap.
    pub fn result(self) -> (r: Option<Result<(), UpdateFailure>>)
        ensures
            match r {
                Some(Ok(_)) => self.stage() == (Stage::Finished { failure: None }),
                Some(Err(f)) => self.stage() == (Stage::Finished { failure: Some(f@) }),
                None => !(self.stage() is Finished),
            },
    {
        match self.stage {
            SwapStage::Finished { failure: None } => Some(Ok(())),
            SwapStage::Finished { failure: Some(f) } => Some(Err(f)),
            _ => None,
        }
    }
}

/// What lies at a place.
pub enum Content {
    /// A bundle that was installed before the swap began.
    Installed,
    /// A bundle copied from the disk image.
    Copied { verified: bool },
    /// Anything else.
    Debris,
}

/// The places that a swap changes, and what lies there.
pub struct Disk {
    pub live: Option<Content>,
    pub old: Option<Content>,
    pub new: Option<Content>,
}

impl Disk {
    /// What lies at a place. The source is not changed and not kept track of.
    pub open spec fn at(self, slot: Slot) -> Option<Content> {
        match slot {
            Slot::Source => None,
            Slot::Live => self.live,
            Slot::Old => self.old,
            Slot::New => self.new,
        }
    }

    /// The disk with something else at a place.
    pub open spec fn with(self, slot: Slot, content: Option<Content>) -> Disk {
        match slot {
            Slot::Source => self,
            Slot::Live => Disk { live: content, ..self },
            Slot::Old => Disk { old: content, ..self },
            Slot::New => Disk { new: content, ..self },
        }
    }

    /// Whether a swap can begin here: what is installed is a bundle, and so is
    /// what was moved aside when nothing is installed.
    pub open spec fn sound(self) -> bool {
        &&& self.live matches Some(c) ==> c is Installed
        &&& self.live is None ==> (self.old matches Some(c) ==> c is Installed)
    }

    /// Whether a bundle from before the swap is still there, in place or
    /// moved aside.
    pub open spec fn keeps_bundle(self) -> bool {
        self.live == Some(Content::Installed) || self.old == Some(Content::Installed)
    }
}

/// Whether an action with this reply can turn the disk `d` into `after`.
pub open spec fn happens(d: Disk, action: SwapAction, reply: Reply, after: Disk) -> bool {
    match action {
        SwapAction::Look(slot) => {
            &&& after == d
            &&& slot != Slot::Source ==> reply == Reply::Exists(d.at(slot) is Some)
        },
        SwapAction::Remove(slot) => {
            // Removed, removed in part, or untouched.
            ||| after == d.with(slot, None)
            ||| after == d.with(slot, Some(Content::Debris))
            ||| after == d
        },
        SwapAction::Rename { from, to } => match reply {
            Reply::Done => d.at(from) is Some && after == d.with(to, d.at(from)).with(from, None),
            Reply::RenameFailed { not_found, .. } => {
                &&& after == d
                &&& not_found ==> d.at(from) is None
            },
            _ => false,
        },
        SwapAction::Copy => match reply {
            // What lay there already takes the copy in, and is no bundle then.
            Reply::Done => {
                ||| after == d.with(Slot::New, Some(Content::Copied { verified: false }))
                ||| d.new is Some && after == d.with(Slot::New, Some(Content::Debris))
            },
            // Nothing was copied, or some of it, or what lay there is untouched.
            _ => {
                ||| after == d.with(Slot::New, None)
                ||| after == d.with(Slot::New, Some(Content::Debris))
                ||| after == d
            },
        },
        SwapAction::Verify => match reply {
            Reply::Done => d.new is Some && after == d.with(
                Slot::New,
                Some(Content::Copied { verified: true }),
            ),
            _ => after == d,
        },
        SwapAction::StripQuarantine => after == d,
        SwapAction::Finish => false,
    }
}

/// Whether these are the stages of one swap and the disk at each of them,
/// under any replies that the actions can have.
pub open spec fn is_run(
    places: Places,
    stages: Seq<Stage>,
    disks: Seq<Disk>,
    replies: Seq<Reply>,
) -> bool {
    &&& stages.len() == replies.len() + 1
    &&& disks.len() == stages.len()
    &&& stages[0] == Stage::LookForSource
    &&& forall|i: int|
        0 <= i < replies.len() ==> {
            &&& answers(action_at(#[trigger] stages[i]), replies[i])
            &&& happens(disks[i], action_at(stages[i]), replies[i], disks[i + 1])
            &&& stages[i + 1] == places.step(stages[i], replies[i])
        }
}

/// What holds of the disk at a stage of a swap that began at `first`.
spec fn holds(first: Disk, stage: Stage, d: Disk) -> bool {
    let any = first.keeps_bundle();
    let staged = any ==> d.live == Some(Content::Installed);
    let empty = !any ==> d.live is None && d.old is None;
    let fresh = d.new == Some(Content::Copied { verified: true });
    match stage {
        Stage::LookForSource => d == first,
        Stage::LookForOld => d == first,
        Stage::LookForLive => d == first && d.old is Some,
        Stage::Recover => d == first && d.live is None && d.old is Some,
        Stage::DropStaleOld => d == first && d.live is Some,
        Stage::LookForNew => staged && empty,
        Stage::DropStaleNew => staged && empty,
        Stage::Copy => staged && empty,
        Stage::Verify => staged && empty,
        Stage::MoveAside => staged && empty && fresh,
        Stage::Promote => fresh && d.live is None && (any ==> d.old == Some(Content::Installed))
            && empty,
        Stage::LookForRollback { .. } => d.live is None && (any ==> d.old == Some(
            Content::Installed,
        )) && empty,
        Stage::Rollback { .. } => d.live is None && any && d.old == Some(Content::Installed),
        Stage::DropNew { failure } => staged || (failure.error is InstallFailed && d.old == Some(
            Content::Installed,
        )),
        Stage::LookForLeftover => d.live == Some(Content::Copied { verified: true }),
        Stage::DropLeftover => d.live == Some(Content::Copied { verified: true }),
        Stage::Strip => d.live == Some(Content::Copied { verified: true }),
        Stage::Finished { failure: None } => d.live == Some(Content::Copied { verified: true }),
        Stage::Finished { failure: Some(f) } => {
            ||| staged
            ||| f.error is InstallFailed && d.old == Some(Content::Installed)
            ||| first.live is None && d == first
        },
    }
}

/// How many stages a stage can be away from the first.
spec fn depth(stage: Stage) -> int {
    match stage {
        Stage::LookForSource => 0,
        Stage::LookForOld => 1,
        Stage::LookForLive => 2,
        Stage::Recover => 3,
        Stage::DropStaleOld => 3,
        Stage::LookForNew => 4,
        Stage::DropStaleNew => 5,
        Stage::Copy => 6,
        Stage::Verify => 7,
        Stage::MoveAside => 8,
        Stage::Promote => 9,
        Stage::LookForRollback { .. } => 10,
        Stage::Rollback { .. } => 11,
        Stage::DropNew { .. } => 12,
        Stage::LookForLeftover => 10,
        Stage::DropLeftover => 11,
        Stage::Strip => 12,
        Stage::Finished { .. } => 13,
    }
}

proof fn lemma_step(places: Places, first: Disk, stage: Stage, d: Disk, reply: Reply, after: Disk)
    requires
        first.sound(),
        holds(first, stage, d),
        answers(action_at(stage), reply),
        happens(d, action_at(stage), reply, after),
    ensures
        holds(first, places.step(stage, reply), after),
        depth(places.step(stage, reply)) > depth(stage),
{
}

proof fn lemma_run(
    places: Places,
    stages: Seq<Stage>,
    disks: Seq<Disk>,
    replies: Seq<Reply>,
    i: int,
)
    requires
        is_run(places, stages, disks, replies),
        disks[0].sound(),
        0 <= i < stages.len(),
    ensures
        holds(disks[0], stages[i], disks[i]),
        depth(stages[i]) >= i,
    decreases i,
{
    if i > 0 {
        lemma_run(places, stages, disks, replies, i - 1);
        assert(answers(action_at(stages[i - 1]), replies[i - 1]));
        assert(stages[i - 1 + 1] == places.step(stages[i - 1], replies[i - 1]));
        lemma_step(places, disks[0], stages[i - 1], disks[i - 1], replies[i - 1], disks[i]);
    }
}

/// Whatever the file system answers, a swap never loses the installation. Up
/// to the moment that a verified bundle is in place, a bundle from before is
/// there, in place or moved aside. A swap that succeeds leaves a verified
/// bundle in place; one that fails leaves the installed bundle in place,
/// unless it says that the install has failed.
pub proof fn swap_never_loses_the_bundle(
    places: Places,
    stages: Seq<Stage>,
    disks: Seq<Disk>,
    replies: Seq<Reply>,
    i: int,
)
    requires
        is_run(places, stages, disks, replies),
        disks[0].sound(),
        0 <= i < stages.len(),
    ensures
        disks[0].keeps_bundle() ==> disks[i].keeps_bundle() || disks[i].live == Some(
            Content::Copied { verified: true },
        ),
        stages[i] matches Stage::Finished { failure: None } ==> disks[i].live == Some(
            Content::Copied { verified: true },
        ),
        stages[i] matches Stage::Finished { failure: Some(f) } ==> disks[0].live is Some
            ==> disks[i].live == Some(Content::Installed) || f.error is InstallFailed,
{
    lemma_run(places, stages, disks, replies, i);
}

/// What takes the place of the installed bundle has been verified after it
/// was copied.
pub proof fn only_verified_bundles_are_promoted(
    places: Places,
    stages: Seq<Stage>,
    disks: Seq<Disk>,
    replies: Seq<Reply>,
    i: int,
)
    requires
        is_run(places, stages, disks, replies),
        disks[0].sound(),
        0 <= i < stages.len(),
        stages[i] is Promote,
    ensures
        disks[i].new == Some(Content::Copied { verified: true }),
{
    lemma_run(places, stages, disks, replies, i);
}

/// A swap comes to its end after a bounded number of actions.
pub proof fn swap_comes_to_an_end(
    places: Places,
    stages: Seq<Stage>,
    disks: Seq<Disk>,
    replies: Seq<Reply>,
)
    requires
        is_run(places, stages, disks, replies),
        disks[0].sound(),
    ensures
        replies.len() <= 13,
{
    lemma_run(places, stages, disks, replies, stages.len() - 1);
}

/// A swap for which everything goes well copies the new bundle beside the installed one,
/// verifies it there, moves the installed one aside, puts the new one in its place and
/// takes away what was moved aside. What an earlier swap left behind goes first.
pub proof fn good_swaps_replace_the_bundle(places: Places, old: bool, new: bool, leftover: bool)
    ensures
        ({
            let after = |stage: Stage, reply: Reply| places.step(stage, reply);
            let on_old = after(Stage::LookForSource, Reply::Exists(true));
            let on_live = after(on_old, Reply::Exists(true));
            let dropping_old = after(on_live, Reply::Exists(true));
            let on_new = if old {
                after(dropping_old, Reply::Done)
            } else {
                after(on_old, Reply::Exists(false))
            };
            let dropping_new = after(on_new, Reply::Exists(true));
            let copying = if new {
                after(dropping_new, Reply::Done)
            } else {
                after(on_new, Reply::Exists(false))
            };
            let verifying = after(copying, Reply::Done);
            let aside = after(verifying, Reply::Done);
            let promoting = after(aside, Reply::Done);
            let on_leftover = after(promoting, Reply::Done);
            let dropping = after(on_leftover, Reply::Exists(true));
            let stripping = if leftover {
                after(dropping, Reply::Done)
            } else {
                after(on_leftover, Reply::Exists(false))
            };
            &&& action_at(Stage::LookForSource) == SwapAction::Look(Slot::Source)
            &&& action_at(on_old) == SwapAction::Look(Slot::Old)
            &&& action_at(on_live) == SwapAction::Look(Slot::Live)
            &&& action_at(dropping_old) == SwapAction::Remove(Slot::Old)
            &&& action_at(on_new) == SwapAction::Look(Slot::New)
            &&& action_at(dropping_new) == SwapAction::Remove(Slot::New)
            &&& action_at(copying) == SwapAction::Copy
            &&& action_at(verifying) == SwapAction::Verify
            &&& action_at(aside) == (SwapAction::Rename { from: Slot::Live, to: Slot::Old })
            &&& action_at(promoting) == (SwapAction::Rename { from: Slot::New, to: Slot::Live })
            &&& action_at(on_leftover) == SwapAction::Look(Slot::Old)
            &&& action_at(dropping) == SwapAction::Remove(Slot::Old)
            &&& action_at(stripping) == SwapAction::StripQuarantine
            &&& after(stripping, Reply::Done) == (Stage::Finished { failure: None })
            &&& action_at(Stage::Finished { failure: None }) == SwapAction::Finish
        }),
{
}

/// A bundle that an earlier swap left moved aside, with none in its place, is moved back
/// first. If that fails, the swap ends there.
pub proof fn bundles_left_aside_are_moved_back(places: Places, message: Seq<char>, missing: bool)
    ensures
        ({
            let recovering = places.step(Stage::LookForLive, Reply::Exists(false));
            let failed = places.step(
                recovering,
                Reply::RenameFailed { not_found: missing, message },
            );
            &&& action_at(recovering) == (SwapAction::Rename { from: Slot::Old, to: Slot::Live })
            &&& action_at(places.step(recovering, Reply::Done)) == SwapAction::Look(Slot::New)
            &&& failed matches Stage::Finished { failure: Some(f) } && f.context == Some(
                "recover live bundle "@ + places.live + " from "@ + places.old,
            ) && f.error == error::system_fault(None, message)
        }),
{
}

/// An image without the bundle changes nothing.
pub proof fn images_without_the_bundle_are_refused(places: Places)
    ensures
        places.step(Stage::LookForSource, Reply::Exists(false)) == (Stage::Finished {
            failure: Some(
                error::Failure {
                    error: error::Fault::Other(
                        "DMG did not contain the "@ + places.name + " bundle at "@ + places.source
                            + " - archive appears malformed."@,
                    ),
                    context: None,
                },
            ),
        }),
{
}

/// A copy that fails, or does not verify, is taken away again, and the swap ends with that
/// failure; so it is with a bundle that cannot be moved aside, unless there is none.
pub proof fn bad_copies_are_taken_away(
    places: Places,
    f: error::Failure,
    message: Seq<char>,
)
    ensures
        ({
            let after = |stage: Stage, reply: Reply| places.step(stage, reply);
            let dropped = |stage: Stage| after(stage, Reply::Done);
            let copying = after(Stage::Copy, Reply::Failed(f));
            let verifying = after(Stage::Verify, Reply::Failed(f));
            let stuck = after(
                Stage::MoveAside,
                Reply::RenameFailed { not_found: false, message },
            );
            let absent = after(Stage::MoveAside, Reply::RenameFailed { not_found: true, message });
            &&& action_at(copying) == SwapAction::Remove(Slot::New)
            &&& dropped(copying) == (Stage::Finished { failure: Some(f) })
            &&& action_at(verifying) == SwapAction::Remove(Slot::New)
            &&& dropped(verifying) == (Stage::Finished { failure: Some(f) })
            &&& action_at(stuck) == SwapAction::Remove(Slot::New)
            &&& dropped(stuck) == (Stage::Finished {
                failure: Some(dmg::filesystem_failure(message, "move aside "@ + places.live)),
            })
            &&& action_at(absent) == (SwapAction::Rename { from: Slot::New, to: Slot::Live })
        }),
{
}

/// Where the new bundle cannot take the place, the old one is moved back if there is one,
/// and the new one is taken away; the swap ends with why it could not. If moving back
/// fails too, that is told, with both reasons.
pub proof fn failed_promotions_are_rolled_back(
    places: Places,
    message: Seq<char>,
    rollback: Seq<char>,
    missing: bool,
)
    ensures
        ({
            let after = |stage: Stage, reply: Reply| places.step(stage, reply);
            let looking = after(Stage::Promote, Reply::RenameFailed { not_found: missing, message });
            let back = after(looking, Reply::Exists(true));
            let undone = after(back, Reply::Done);
            let nothing = after(looking, Reply::Exists(false));
            let lost = after(back, Reply::RenameFailed { not_found: missing, message: rollback });
            let promotion = "promote "@ + places.new + " \u{2192} "@ + places.live;
            let why = Stage::Finished {
                failure: Some(dmg::filesystem_failure(message, promotion)),
            };
            &&& action_at(looking) == SwapAction::Look(Slot::Old)
            &&& action_at(back) == (SwapAction::Rename { from: Slot::Old, to: Slot::Live })
            &&& action_at(undone) == SwapAction::Remove(Slot::New)
            &&& after(undone, Reply::Done) == why
            &&& action_at(nothing) == SwapAction::Remove(Slot::New)
            &&& after(nothing, Reply::Done) == why
            &&& action_at(lost) == SwapAction::Remove(Slot::New)
            &&& after(lost, Reply::Done) == (Stage::Finished {
                failure: Some(
                    error::Failure {
                        error: error::Fault::InstallFailed { log_path: seq![] },
                        context: Some(
                            promotion + " failed ("@ + message + "); rollback from "@ + places.old
                                + " also failed ("@ + rollback
                                + ") - no live install remains, reinstall PaneFlow manually"@,
                        ),
                    },
                ),
            })
        }),
{
}

} // verus!
