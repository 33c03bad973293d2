//! One disk-image update from download to clean-up.
//!
//! The image is downloaded and verified, mounted, the bundle on it verified,
//! and swapped in. Whatever happens, the downloaded image goes away and a
//! mounted volume is released. [`InstallFlow`] decides; whoever drives it acts
//! and reports back.

use vstd::prelude::*;

use crate::path;
use crate::text::chars;
use crate::update::error;
use crate::update::error::UpdateError;
use crate::update::error::UpdateFailure;
use crate::update::macos::dmg;

verus! {

/// What is to be done next.
#[derive(Clone, Copy, Debug, PartialEq, Eq, Structural)]
pub enum InstallAction {
    CreateCacheDir,
    /// Download the image and verify its signature.
    Download,
    /// Report whether the mount point exists.
    LookForMountPoint,
    /// Remove what is at the mount point, as far as possible.
    ClearMountPoint,
    Attach,
    /// Verify the bundle on the mounted volume.
    Verify,
    /// Swap the bundle on the mounted volume in.
    Swap,
    /// Remove the downloaded image, as far as possible.
    RemoveImage,
    /// Release the mounted volume, as far as possible.
    Detach,
    /// Nothing: the result is there.
    Finish,
}

/// What came of the last action.
#[derive(Clone, Debug, PartialEq, Eq)]
pub enum InstallReply {
    /// To [`InstallAction::LookForMountPoint`].
    Exists(bool),
    /// It worked. To a best-effort action also when it did not.
    Done,
    Failed(UpdateFailure),
}

/// An [`InstallReply`] as a mathematical value.
pub enum Reply {
    Exists(bool),
    Done,
    Failed(error::Failure),
}

impl View for InstallReply {
    type V = Reply;

    open spec fn view(&self) -> Reply {
        match *self {
            InstallReply::Exists(b) => Reply::Exists(b),
            InstallReply::Done => Reply::Done,
            InstallReply::Failed(f) => Reply::Failed(f@),
        }
    }
}

/// Whether a reply answers an action.
pub open spec fn answers(action: InstallAction, reply: Reply) -> bool {
    match action {
        InstallAction::LookForMountPoint => reply is Exists,
        InstallAction::ClearMountPoint => reply is Done,
        InstallAction::RemoveImage => reply is Done,
        InstallAction::Detach => reply is Done,
        InstallAction::Finish => false,
        _ => reply is Done || reply is Failed,
    }
}

/// How far an install has come.
pub enum Stage {
    CreateCacheDir,
    Download,
    LookForMountPoint,
    ClearMountPoint,
    Attach,
    Verify,
    Swap,
    RemoveImage { failure: Option<error::Failure>, mounted: bool },
    Detach { failure: Option<error::Failure> },
    /// Over: `None` is success.
    Finished { failure: Option<error::Failure> },
}

/// The failure for a cache directory that could not be made.
pub open spec fn no_cache_dir(cache_dir: Seq<char>, f: error::Failure) -> error::Failure {
    error::Failure { context: Some("create cache dir "@ + cache_dir), ..f }
}

/// The failure for a bundle without a name.
pub open spec fn nameless() -> error::Failure {
    error::Failure {
        error: error::Fault::Other(
            "install_dir has no file name - cannot locate the bundle inside the DMG"@,
        ),
        context: None,
    }
}

/// The stage that a reply leads to. Without a `named` bundle there is nothing
/// to look for on the volume.
pub open spec fn step(cache_dir: Seq<char>, named: bool, stage: Stage, reply: Reply) -> Stage {
    match (stage, reply) {
        (Stage::CreateCacheDir, Reply::Done) => Stage::Download,
        (Stage::CreateCacheDir, Reply::Failed(f)) => Stage::Finished {
            failure: Some(no_cache_dir(cache_dir, f)),
        },
        (Stage::Download, Reply::Done) => Stage::LookForMountPoint,
        (Stage::Download, Reply::Failed(f)) => Stage::RemoveImage {
            failure: Some(f),
            mounted: false,
        },
        (Stage::LookForMountPoint, Reply::Exists(found)) => if found {
            Stage::ClearMountPoint
        } else {
            Stage::Attach
        },
        (Stage::ClearMountPoint, _) => Stage::Attach,
        (Stage::Attach, Reply::Done) => if named {
            Stage::Verify
        } else {
            Stage::Detach { failure: Some(nameless()) }
        },
        (Stage::Attach, Reply::Failed(f)) => Stage::RemoveImage {
            failure: Some(f),
            mounted: false,
        },
        (Stage::Verify, Reply::Done) => Stage::Swap,
        (Stage::Verify, Reply::Failed(f)) => Stage::RemoveImage { failure: Some(f), mounted: true },
        (Stage::Swap, Reply::Done) => Stage::RemoveImage { failure: None, mounted: true },
        (Stage::Swap, Reply::Failed(f)) => Stage::RemoveImage { failure: Some(f), mounted: true },
        (Stage::RemoveImage { failure, mounted }, _) => if mounted {
            Stage::Detach { failure }
        } else {
            Stage::Finished { failure }
        },
        (Stage::Detach { failure }, _) => Stage::Finished { failure },
        _ => stage,
    }
}

/// What is to be done at a stage.
pub open spec fn action_at(stage: Stage) -> InstallAction {
    match stage {
        Stage::CreateCacheDir => InstallAction::CreateCacheDir,
        Stage::Download => InstallAction::Download,
        Stage::LookForMountPoint => InstallAction::LookForMountPoint,
        Stage::ClearMountPoint => InstallAction::ClearMountPoint,
        Stage::Attach => InstallAction::Attach,
        Stage::Verify => InstallAction::Verify,
        Stage::Swap => InstallAction::Swap,
        Stage::RemoveImage { .. } => InstallAction::RemoveImage,
        Stage::Detach { .. } => InstallAction::Detach,
        Stage::Finished { .. } => InstallAction::Finish,
    }
}

/// The stage of a running install.
enum InstallStage {
    CreateCacheDir,
    Download,
    LookForMountPoint,
    ClearMountPoint,
    Attach,
    Verify,
    Swap,
    RemoveImage { failure: Option<UpdateFailure>, mounted: bool },
    Detach { failure: Option<UpdateFailure> },
    Finished { failure: Option<UpdateFailure> },
}

/// An optional failure as a mathematical value.
pub open spec fn failure_of(f: Option<UpdateFailure>) -> Option<error::Failure> {
    match f {
        Some(f) => Some(f@),
        None => None,
    }
}

impl InstallStage {
    spec fn model(self) -> Stage {
        match self {
            InstallStage::CreateCacheDir => Stage::CreateCacheDir,
            InstallStage::Download => Stage::Download,
            InstallStage::LookForMountPoint => Stage::LookForMountPoint,
            InstallStage::ClearMountPoint => Stage::ClearMountPoint,
            InstallStage::Attach => Stage::Attach,
            InstallStage::Verify => Stage::Verify,
            InstallStage::Swap => Stage::Swap,
            InstallStage::RemoveImage { failure, mounted } => Stage::RemoveImage {
                failure: failure_of(failure),
                mounted,
            },
            InstallStage::Detach { failure } => Stage::Detach { failure: failure_of(failure) },
            InstallStage::Finished { failure } => Stage::Finished { failure: failure_of(failure) },
        }
    }
}

/// A running install.
pub struct InstallFlow {
    cache_dir: String,
    image: String,
    mount: String,
    bundle: Option<String>,
    stage: InstallStage,
}

impl InstallFlow {
    /// How far the install has come.
    pub closed spec fn stage(&self) -> Stage {
        self.stage.model()
    }

    /// The directory of the download.
    pub closed spec fn cache(&self) -> Seq<char> {
        self.cache_dir@
    }

    /// Where the image is downloaded to.
    pub closed spec fn image_path(&self) -> Seq<char> {
        self.image@
    }

    /// Where the image is mounted.
    pub closed spec fn mount_path(&self) -> Seq<char> {
        self.mount@
    }

    /// Where the bundle lies on the mounted volume, if it has a name.
    pub closed spec fn bundle_path(&self) -> Option<Seq<char>> {
        match self.bundle {
            Some(b) => Some(b@),
            None => None,
        }
    }

    /// Begins an install over `install_dir` by process `pid`.
    pub fn start(install_dir: &str, cache_dir: &str, pid: u32) -> (r: InstallFlow)
        ensures
            r.stage() == Stage::CreateCacheDir,
            r.cache() == cache_dir@,
            r.image_path() == path::join_text(
                cache_dir@,
                "update-"@ + crate::text::number::decimal(pid as nat) + ".dmg"@,
            ),
            r.mount_path() == "/private/tmp/paneflow-update-"@ + crate::text::number::decimal(
                pid as nat,
            ) + ".mount"@,
            match r.bundle_path() {
                Some(b) => path::parse(install_dir@).file_name() matches Some(n) && b
                    == path::join_text(r.mount_path(), n),
                None => path::parse(install_dir@).file_name() is None,
            },
    {
        let mount = dmg::mount_point(pid);
        let bundle = match dmg::bundle_file_name(install_dir) {
            Ok(n) => Some(path::join(mount.as_str(), n.as_str())),
            Err(_) => None,
        };
        InstallFlow {
            cache_dir: cache_dir.to_string(),
            image: dmg::dmg_path(cache_dir, pid),
            mount,
            bundle,
            stage: InstallStage::CreateCacheDir,
        }
    }

    /// The directory of the download.
    pub fn cache_dir(&self) -> (r: &str)
        ensures
            r@ == self.cache(),
    {
        self.cache_dir.as_str()
    }

    /// Where the image is downloaded to.
    pub fn image(&self) -> (r: &str)
        ensures
            r@ == self.image_path(),
    {
        self.image.as_str()
    }

    /// Where the image is mounted.
    pub fn mount(&self) -> (r: &str)
        ensures
            r@ == self.mount_path(),
    {
        self.mount.as_str()
    }

    /// Where the bundle lies on the mounted volume, if it has a name.
    pub fn bundle(&self) -> (r: Option<&str>)
        ensures
            match r {
                Some(b) => self.bundle_path() == Some(b@),
                None => self.bundle_path() is None,
            },
    {
        match &self.bundle {
            Some(b) => Some(b.as_str()),
            None => None,
        }
    }

    /// What is to be done next.
    pub fn action(&self) -> (r: InstallAction)
        ensures
            r == action_at(self.stage()),
    {
        match &self.stage {
            InstallStage::CreateCacheDir => InstallAction::CreateCacheDir,
            InstallStage::Download => InstallAction::Download,
            InstallStage::LookForMountPoint => InstallAction::LookForMountPoint,
            InstallStage::ClearMountPoint => InstallAction::ClearMountPoint,
            InstallStage::Attach => InstallAction::Attach,
            InstallStage::Verify => InstallAction::Verify,
            InstallStage::Swap => InstallAction::Swap,
            InstallStage::RemoveImage { .. } => InstallAction::RemoveImage,
            InstallStage::Detach { .. } => InstallAction::Detach,
            InstallStage::Finished { .. } => InstallAction::Finish,
        }
    }

    /// Takes what came of the last action.
    pub fn advance(&mut self, reply: InstallReply)
        requires
            answers(action_at(old(self).stage()), reply@),
        ensures
            final(self).cache() == old(self).cache(),
            final(self).image_path() == old(self).image_path(),
            final(self).mount_path() == old(self).mount_path(),
            final(self).bundle_path() == old(self).bundle_path(),
            final(self).stage() == step(
                old(self).cache(),
                old(self).bundle_path() is Some,
                old(self).stage(),
                reply@,
            ),
    {
        let mut stage = InstallStage::Attach;
        core::mem::swap(&mut stage, &mut self.stage);
        self.stage =
        match (stage, reply) {
            (InstallStage::CreateCacheDir, InstallReply::Done) => InstallStage::Download,
            (InstallStage::CreateCacheDir, InstallReply::Failed(f)) => {
                let context = Some(chars::concat("create cache dir ", self.cache_dir.as_str()));
                InstallStage::Finished { failure: Some(UpdateFailure { error: f.error, context }) }
            },
            (InstallStage::Download, InstallReply::Done) => InstallStage::LookForMountPoint,
            (InstallStage::Download, InstallReply::Failed(f)) => InstallStage::RemoveImage {
                failure: Some(f),
                mounted: false,
            },
            (InstallStage::LookForMountPoint, InstallReply::Exists(found)) => if found {
                InstallStage::ClearMountPoint
            } else {
                InstallStage::Attach
            },
            (InstallStage::ClearMountPoint, _) => InstallStage::Attach,
            (InstallStage::Attach, InstallReply::Done) => if self.bundle.is_some() {
                InstallStage::Verify
            } else {
                let words =
                    "install_dir has no file name - cannot locate the bundle inside the DMG".to_string();
                InstallStage::Detach {
                    failure: Some(UpdateFailure::bare(UpdateError::Other(words))),
                }
            },
            (InstallStage::Attach, InstallReply::Failed(f)) => InstallStage::RemoveImage {
                failure: Some(f),
                mounted: false,
            },
            (InstallStage::Verify, InstallReply::Done) => InstallStage::Swap,
            (InstallStage::Verify, InstallReply::Failed(f)) => InstallStage::RemoveImage {
                failure: Some(f),
                mounted: true,
            },
            (InstallStage::Swap, InstallReply::Done) => InstallStage::RemoveImage {
                failure: None,
                mounted: true,
            },
            (InstallStage::Swap, InstallReply::Failed(f)) => InstallStage::RemoveImage {
                failure: Some(f),
                mounted: true,
            },
            (InstallStage::RemoveImage { failure, mounted }, _) => if mounted {
                InstallStage::Detach { failure }
            } else {
                InstallStage::Finished { failure }
            },
            (InstallStage::Detach { failure }, _) => InstallStage::Finished { failure },
            (other, _) => other,
        };
    }

    /// The result of a finished install.
    pub fn result(self) -> (r: Option<Result<(), UpdateFailure>>)
        ensures
            match r {
                Some(Ok(_)) => self.stage() == (Stage::Finished { failure: None }),
                Some(Err(f)) => self.stage() == (Stage::Finished { failure: Some(f@) }),
                None => !(self.stage() is Finished),
            },
    {
        match self.stage {
            InstallStage::Finished { failure: None } => Some(Ok(())),
            InstallStage::Finished { failure: Some(f) } => Some(Err(f)),
            _ => None,
        }
    }
}

/// What an install has done so far.
pub struct Progress {
    /// The image was downloaded and its signature verified.
    pub downloaded: bool,
    /// The bundle on the volume was verified.
    pub verified: bool,
    /// The swap was begun.
    pub swapped: bool,
    /// A volume is mounted and has not been released.
    pub mounted: bool,
    /// A download was begun and its file has not been removed.
    pub image_left: bool,
}

impl Progress {
    /// Nothing has been done.
    pub open spec fn none() -> Progress {
        Progress {
            downloaded: false,
            verified: false,
            swapped: false,
            mounted: false,
            image_left: false,
        }
    }

    /// What has been done after an action with this reply.
    pub open spec fn after(self, action: InstallAction, reply: Reply) -> Progress {
        match action {
            InstallAction::Download => Progress {
                downloaded: reply is Done,
                image_left: true,
                ..self
            },
            InstallAction::Attach => Progress { mounted: reply is Done, ..self },
            InstallAction::Verify => Progress { verified: reply is Done, ..self },
            InstallAction::Swap => Progress { swapped: true, ..self },
            InstallAction::RemoveImage => Progress { image_left: false, ..self },
            InstallAction::Detach => Progress { mounted: false, ..self },
            _ => self,
        }
    }
}

/// Whether these are the stages of one install and what has been done by each
/// of them, under any replies.
pub open spec fn is_run(
    cache_dir: Seq<char>,
    named: bool,
    stages: Seq<Stage>,
    progress: Seq<Progress>,
    replies: Seq<Reply>,
) -> bool {
    &&& stages.len() == replies.len() + 1
    &&& progress.len() == stages.len()
    &&& stages[0] == Stage::CreateCacheDir
    &&& progress[0] == Progress::none()
    &&& forall|i: int|
        0 <= i < replies.len() ==> {
            &&& answers(action_at(#[trigger] stages[i]), replies[i])
            &&& stages[i + 1] == step(cache_dir, named, stages[i], replies[i])
            &&& progress[i + 1] == progress[i].after(action_at(stages[i]), replies[i])
        }
}

spec fn holds(named: bool, stage: Stage, p: Progress) -> bool {
    &&& p.swapped ==> p.downloaded && p.verified
    &&& p.mounted ==> p.downloaded
    &&& match stage {
        Stage::CreateCacheDir => p == Progress::none(),
        Stage::Download => p == Progress::none(),
        Stage::LookForMountPoint => p.downloaded && !p.mounted,
        Stage::ClearMountPoint => p.downloaded && !p.mounted,
        Stage::Attach => p.downloaded && !p.mounted,
        Stage::Verify => p.downloaded && p.mounted,
        Stage::Swap => p.downloaded && p.mounted && p.verified,
        Stage::RemoveImage { failure, mounted } => p.mounted == mounted && (failure is None
            ==> p.swapped),
        Stage::Detach { failure } => (named ==> !p.image_left) && (failure is None ==> p.swapped),
        Stage::Finished { failure } => (named ==> !p.image_left) && !p.mounted && (failure is None
            ==> p.swapped),
    }
}

proof fn lemma_run(
    cache_dir: Seq<char>,
    named: bool,
    stages: Seq<Stage>,
    progress: Seq<Progress>,
    replies: Seq<Reply>,
    i: int,
)
    requires
        is_run(cache_dir, named, stages, progress, replies),
        0 <= i < stages.len(),
    ensures
        holds(named, stages[i], progress[i]),
    decreases i,
{
    if i > 0 {
        lemma_run(cache_dir, named, stages, progress, replies, i - 1);
        assert(answers(action_at(stages[i - 1]), replies[i - 1]));
        assert(stages[i - 1 + 1] == step(cache_dir, named, stages[i - 1], replies[i - 1]));
    }
}

/// Whatever the actions come to, an install that is over has released the
/// volume that it mounted and, where the bundle has a name, removed what it
/// downloaded; and it succeeds only through a swap.
pub proof fn installs_clean_up(
    cache_dir: Seq<char>,
    named: bool,
    stages: Seq<Stage>,
    progress: Seq<Progress>,
    replies: Seq<Reply>,
    i: int,
)
    requires
        is_run(cache_dir, named, stages, progress, replies),
        0 <= i < stages.len(),
        stages[i] is Finished,
    ensures
        !progress[i].mounted,
        named ==> !progress[i].image_left,
        stages[i]->Finished_failure is None ==> progress[i].swapped,
{
    lemma_run(cache_dir, named, stages, progress, replies, i);
}

/// Nothing is mounted unless the image was downloaded and verified, and
/// nothing is swapped in unless the bundle on it was verified too.
pub proof fn only_verified_images_are_used(
    cache_dir: Seq<char>,
    named: bool,
    stages: Seq<Stage>,
    progress: Seq<Progress>,
    replies: Seq<Reply>,
    i: int,
)
    requires
        is_run(cache_dir, named, stages, progress, replies),
        0 <= i < stages.len(),
    ensures
        stages[i] is Attach ==> progress[i].downloaded,
        progress[i].mounted ==> progress[i].downloaded,
        stages[i] is Swap ==> progress[i].downloaded && progress[i].verified
            && progress[i].mounted,
        progress[i].swapped ==> progress[i].downloaded && progress[i].verified,
{
    lemma_run(cache_dir, named, stages, progress, replies, i);
}

/// An update for which everything goes well is downloaded, mounted, verified and swapped
/// in; then the image goes, and the volume is released. What lay at the mount point is
/// cleared first.
pub proof fn good_updates_are_installed(cache_dir: Seq<char>, occupied: bool)
    ensures
        ({
            let after = |stage: Stage, reply: Reply| step(cache_dir, true, stage, reply);
            let downloading = after(Stage::CreateCacheDir, Reply::Done);
            let looking = after(downloading, Reply::Done);
            let looked = after(looking, Reply::Exists(occupied));
            let attaching = if occupied {
                after(looked, Reply::Done)
            } else {
                looked
            };
            let verifying = after(attaching, Reply::Done);
            let swapping = after(verifying, Reply::Done);
            let removing = after(swapping, Reply::Done);
            let detaching = after(removing, Reply::Done);
            &&& action_at(Stage::CreateCacheDir) == InstallAction::CreateCacheDir
            &&& action_at(downloading) == InstallAction::Download
            &&& action_at(looking) == InstallAction::LookForMountPoint
            &&& occupied ==> action_at(looked) == InstallAction::ClearMountPoint
            &&& action_at(attaching) == InstallAction::Attach
            &&& action_at(verifying) == InstallAction::Verify
            &&& action_at(swapping) == InstallAction::Swap
            &&& action_at(removing) == InstallAction::RemoveImage
            &&& action_at(detaching) == InstallAction::Detach
            &&& after(detaching, Reply::Done) == (Stage::Finished { failure: None })
            &&& action_at(Stage::Finished { failure: None }) == InstallAction::Finish
        }),
{
}

/// An update that fails ends with that failure, whatever is cleaned up after it: the image
/// once it was to be downloaded, and the volume once it was mounted.
pub proof fn failed_updates_tell_why(cache_dir: Seq<char>, f: error::Failure)
    ensures
        ({
            let after = |stage: Stage, reply: Reply| step(cache_dir, true, stage, reply);
            let cleaned = |stage: Stage| after(stage, Reply::Done);
            let ended = Stage::Finished { failure: Some(f) };
            &&& after(Stage::CreateCacheDir, Reply::Failed(f)) == (Stage::Finished {
                failure: Some(
                    error::Failure {
                        error: f.error,
                        context: Some("create cache dir "@ + cache_dir),
                    },
                ),
            })
            &&& action_at(after(Stage::Download, Reply::Failed(f))) == InstallAction::RemoveImage
            &&& cleaned(after(Stage::Download, Reply::Failed(f))) == ended
            &&& action_at(after(Stage::Attach, Reply::Failed(f))) == InstallAction::RemoveImage
            &&& cleaned(after(Stage::Attach, Reply::Failed(f))) == ended
            &&& action_at(after(Stage::Verify, Reply::Failed(f))) == InstallAction::RemoveImage
            &&& action_at(cleaned(after(Stage::Verify, Reply::Failed(f)))) == InstallAction::Detach
            &&& cleaned(cleaned(after(Stage::Verify, Reply::Failed(f)))) == ended
            &&& action_at(after(Stage::Swap, Reply::Failed(f))) == InstallAction::RemoveImage
            &&& action_at(cleaned(after(Stage::Swap, Reply::Failed(f)))) == InstallAction::Detach
            &&& cleaned(cleaned(after(Stage::Swap, Reply::Failed(f)))) == ended
        }),
{
}

/// An installation without a name cannot be found on the image: the volume is released,
/// and nothing is verified or swapped.
pub proof fn nameless_installs_are_refused(cache_dir: Seq<char>)
    ensures
        ({
            let refused = step(cache_dir, false, Stage::Attach, Reply::Done);
            let words = "install_dir has no file name - cannot locate the bundle inside the DMG"@;
            &&& action_at(refused) == InstallAction::Detach
            &&& step(cache_dir, false, refused, Reply::Done) == (Stage::Finished {
                failure: Some(error::Failure { error: error::Fault::Other(words), context: None }),
            })
        }),
{
}

} // verus!
