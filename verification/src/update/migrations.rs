//! Start-up migrations for installs that changed from an unpacked archive to a
//! system package.
//!
//! The archive's installer left icons under the user's icon directory, which
//! hide those of the package. They are removed once, each only where the
//! package's icon is readable and differs; a marker file keeps the migration
//! from running again. [`MigrationFlow`] decides; whoever drives it acts on
//! the file system and reports back.

use vstd::prelude::*;

use crate::path;
use crate::text::chars;
use crate::text::number;
use crate::update::install_method;
use crate::update::install_method::InstallMethod;
use crate::update::install_method::PackageManager;

verus! {

/// The marker of a finished icon migration.
pub const MARKER_FILENAME: &'static str = "migration-v0.2.3-icons-cleaned";

/// What the marker of a finished icon migration holds.
pub const MARKER_CONTENTS: &'static str = "v0.2.3 hicolor cleanup\n";

/// The marker of a shown coexistence warning.
pub const COEXISTENCE_MARKER_FILENAME: &'static str = "migration-v0.2.3-coexistence-warned";

/// What the marker of a shown coexistence warning holds.
pub const COEXISTENCE_MARKER_CONTENTS: &'static str = "v0.2.3 coexistence warned\n";

/// The binary of a system package.
pub const SYSTEM_BIN_PATH: &'static str = "/usr/bin/paneflow";

/// The icons of a system package.
pub const SYSTEM_ICON_DIR: &'static str = "/usr/share/icons/hicolor";

/// The SHA-256 digest of some bytes, as `sha2::Sha256` computes it.
pub uninterp spec fn sha256_digest(bytes: Seq<u8>) -> Seq<u8>;

/// `sha2::Sha256::digest`: the 32 bytes of the digest of `bytes`.
#[verifier::external_body]
pub(crate) fn sha256(bytes: &[u8]) -> (r: Vec<u8>)
    ensures
        r@ == sha256_digest(bytes@),
        r@.len() == 32,
{
    <sha2::Sha256 as sha2::Digest>::digest(bytes).to_vec()
}

/// The icon sizes of the packages.
pub fn hicolor_sizes() -> (r: Vec<u32>)
    ensures
        r@ == seq![16u32, 32u32, 48u32, 128u32, 256u32, 512u32],
{
    let r: Vec<u32> = vec![16, 32, 48, 128, 256, 512];
    assert(r@ =~= seq![16u32, 32u32, 48u32, 128u32, 256u32, 512u32]);
    r
}

/// Whether an install comes from a package whose icons may be hidden.
pub open spec fn migrates(method: install_method::Method) -> bool {
    method matches install_method::Method::SystemPackage { manager } && (manager
        == PackageManager::Dnf || manager == PackageManager::Apt || manager
        == PackageManager::Zypper)
}

/// Whether an install comes from a package whose icons may be hidden.
pub fn should_migrate(method: &InstallMethod) -> (r: bool)
    ensures
        r == migrates(method@),
{
    match method {
        InstallMethod::SystemPackage { manager } => match manager {
            PackageManager::Dnf => true,
            PackageManager::Apt => true,
            PackageManager::Zypper => true,
            _ => false,
        },
        _ => false,
    }
}

/// Where an icon of size `n` lies below an icon directory.
pub open spec fn icon_name(n: u32) -> Seq<char> {
    number::decimal(n as nat) + "x"@ + number::decimal(n as nat) + "/apps/paneflow.png"@
}

/// What a path is.
#[derive(Clone, Copy, Debug, PartialEq, Eq, Structural)]
pub enum FileKind {
    Missing,
    /// It cannot be told.
    Unknown,
    Symlink,
    File,
    /// A directory, a socket and the like.
    Other,
}

/// What is to be done next.
#[derive(Clone, Copy, Debug, PartialEq, Eq, Structural)]
pub enum MigrationAction {
    LookForMarker,
    LookForUserDir,
    /// Report what the user's icon is, without following symlinks.
    StatUserIcon,
    ReadUserIcon,
    ReadSystemIcon,
    RemoveUserIcon,
    LookForThemeCache,
    LookForThemeIndex,
    /// Remove the theme cache, as far as possible.
    RemoveThemeCache,
    /// Write the marker, as far as possible.
    WriteMarker,
    /// Nothing: the result is there.
    Finish,
}

/// What came of the last action.
#[derive(Clone, Debug, PartialEq, Eq)]
pub enum MigrationReply {
    /// To the `LookFor` actions.
    Exists(bool),
    /// To [`MigrationAction::StatUserIcon`].
    Kind(FileKind),
    /// To the `Read` actions.
    Bytes(Vec<u8>),
    /// It worked. To a best-effort action also when it did not.
    Done,
    /// It did not, with the words of the operating system.
    Failed(String),
}

/// A [`MigrationReply`] as a mathematical value.
pub enum Reply {
    Exists(bool),
    Kind(FileKind),
    Bytes(Seq<u8>),
    Done,
    Failed(Seq<char>),
}

impl View for MigrationReply {
    type V = Reply;

    open spec fn view(&self) -> Reply {
        match *self {
            MigrationReply::Exists(b) => Reply::Exists(b),
            MigrationReply::Kind(k) => Reply::Kind(k),
            MigrationReply::Bytes(b) => Reply::Bytes(b@),
            MigrationReply::Done => Reply::Done,
            MigrationReply::Failed(m) => Reply::Failed(m@),
        }
    }
}

/// Whether a reply answers an action.
pub open spec fn answers(action: MigrationAction, reply: Reply) -> bool {
    match action {
        MigrationAction::LookForMarker => reply is Exists,
        MigrationAction::LookForUserDir => reply is Exists || reply is Failed,
        MigrationAction::StatUserIcon => reply is Kind,
        MigrationAction::ReadUserIcon => reply is Bytes || reply is Failed,
        MigrationAction::ReadSystemIcon => reply is Bytes || reply is Failed,
        MigrationAction::RemoveUserIcon => reply is Done || reply is Failed,
        MigrationAction::LookForThemeCache => reply is Exists,
        MigrationAction::LookForThemeIndex => reply is Exists,
        MigrationAction::RemoveThemeCache => reply is Done,
        MigrationAction::WriteMarker => reply is Done,
        MigrationAction::Finish => false,
    }
}

/// How far a migration has come.
pub enum Stage {
    LookForMarker,
    LookForUserDir,
    StatUserIcon,
    ReadUserIcon,
    /// The user's icon has this digest.
    ReadSystemIcon { digest: Seq<u8> },
    RemoveUserIcon,
    LookForThemeCache,
    LookForThemeIndex,
    RemoveThemeCache,
    WriteMarker,
    /// Over: `None` is success.
    Finished { failure: Option<Seq<char>> },
}

/// A migration as a mathematical value.
pub struct Migration {
    pub sizes: Seq<u32>,
    /// The index of the size that is looked at.
    pub at: int,
    /// Whether an icon was removed.
    pub deleted: bool,
    /// The words of the first removal that failed.
    pub remove_failed: Option<Seq<char>>,
    pub stage: Stage,
}

/// What is to be done at a stage.
pub open spec fn action_at(stage: Stage) -> MigrationAction {
    match stage {
        Stage::LookForMarker => MigrationAction::LookForMarker,
        Stage::LookForUserDir => MigrationAction::LookForUserDir,
        Stage::StatUserIcon => MigrationAction::StatUserIcon,
        Stage::ReadUserIcon => MigrationAction::ReadUserIcon,
        Stage::ReadSystemIcon { .. } => MigrationAction::ReadSystemIcon,
        Stage::RemoveUserIcon => MigrationAction::RemoveUserIcon,
        Stage::LookForThemeCache => MigrationAction::LookForThemeCache,
        Stage::LookForThemeIndex => MigrationAction::LookForThemeIndex,
        Stage::RemoveThemeCache => MigrationAction::RemoveThemeCache,
        Stage::WriteMarker => MigrationAction::WriteMarker,
        Stage::Finished { .. } => MigrationAction::Finish,
    }
}

impl Migration {
    /// A migration that begins.
    pub open spec fn begun(sizes: Seq<u32>) -> Migration {
        Migration {
            sizes,
            at: 0,
            deleted: false,
            remove_failed: None,
            stage: Stage::LookForMarker,
        }
    }

    /// The same migration at another stage.
    pub open spec fn to(self, stage: Stage) -> Migration {
        Migration { stage, ..self }
    }

    /// When nothing is left to clean: the marker is written unless a removal
    /// failed.
    pub open spec fn settled(self) -> Migration {
        match self.remove_failed {
            Some(e) => self.to(Stage::Finished { failure: Some(e) }),
            None => self.to(Stage::WriteMarker),
        }
    }

    /// On to the size at index `k`, or past the last one.
    pub open spec fn sized(self, k: int) -> Migration {
        let m = Migration { at: k, ..self };
        if k < self.sizes.len() {
            m.to(Stage::StatUserIcon)
        } else if self.deleted {
            m.to(Stage::LookForThemeCache)
        } else {
            m.settled()
        }
    }

    /// Once the user's icon was compared with the system's: one that differs
    /// goes, one that does not stays.
    pub open spec fn compared(self, differs: bool) -> Migration {
        if differs {
            self.to(Stage::RemoveUserIcon)
        } else {
            self.sized(self.at + 1)
        }
    }

    /// The migration after a reply.
    pub open spec fn step(self, reply: Reply) -> Migration {
        match (self.stage, reply) {
            (Stage::LookForMarker, Reply::Exists(found)) => if found {
                self.to(Stage::Finished { failure: None })
            } else {
                self.to(Stage::LookForUserDir)
            },
            (Stage::LookForUserDir, Reply::Exists(found)) => if found {
                self.sized(0)
            } else {
                self.to(Stage::WriteMarker)
            },
            (Stage::LookForUserDir, Reply::Failed(e)) => self.to(
                Stage::Finished { failure: Some(e) },
            ),
            (Stage::StatUserIcon, Reply::Kind(kind)) => if kind == FileKind::File {
                self.to(Stage::ReadUserIcon)
            } else {
                self.sized(self.at + 1)
            },
            (Stage::ReadUserIcon, Reply::Bytes(bytes)) => self.to(
                Stage::ReadSystemIcon { digest: sha256_digest(bytes) },
            ),
            (Stage::ReadUserIcon, _) => self.sized(self.at + 1),
            (Stage::ReadSystemIcon { digest }, Reply::Bytes(bytes)) => self.compared(
                digest != sha256_digest(bytes),
            ),
            (Stage::ReadSystemIcon { .. }, _) => self.sized(self.at + 1),
            (Stage::RemoveUserIcon, Reply::Done) => (Migration { deleted: true, ..self }).sized(
                self.at + 1,
            ),
            (Stage::RemoveUserIcon, Reply::Failed(e)) => (Migration {
                remove_failed: match self.remove_failed {
                    Some(first) => Some(first),
                    None => Some(e),
                },
                ..self
            }).sized(self.at + 1),
            (Stage::LookForThemeCache, Reply::Exists(found)) => if found {
                self.to(Stage::LookForThemeIndex)
            } else {
                self.settled()
            },
            (Stage::LookForThemeIndex, Reply::Exists(found)) => if found {
                self.settled()
            } else {
                self.to(Stage::RemoveThemeCache)
            },
            (Stage::RemoveThemeCache, _) => self.settled(),
            (Stage::WriteMarker, _) => self.to(Stage::Finished { failure: None }),
            _ => self,
        }
    }

    /// While there is a size to look at, it is one of the sizes.
    pub open spec fn inv(self) -> bool {
        &&& 0 <= self.at <= self.sizes.len()
        &&& match self.stage {
            Stage::LookForMarker => self.remove_failed is None,
            Stage::LookForUserDir => self.remove_failed is None,
            Stage::StatUserIcon => self.at < self.sizes.len(),
            Stage::ReadUserIcon => self.at < self.sizes.len(),
            Stage::ReadSystemIcon { .. } => self.at < self.sizes.len(),
            Stage::RemoveUserIcon => self.at < self.sizes.len(),
            Stage::WriteMarker => self.remove_failed is None,
            _ => true,
        }
    }
}

/// The stage of a running migration.
enum MigrationStage {
    LookForMarker,
    LookForUserDir,
    StatUserIcon,
    ReadUserIcon,
    ReadSystemIcon { digest: Vec<u8> },
    RemoveUserIcon,
    LookForThemeCache,
    LookForThemeIndex,
    RemoveThemeCache,
    WriteMarker,
    Finished { failure: Option<String> },
}

impl MigrationStage {
    spec fn model(self) -> Stage {
        match self {
            MigrationStage::LookForMarker => Stage::LookForMarker,
            MigrationStage::LookForUserDir => Stage::LookForUserDir,
            MigrationStage::StatUserIcon => Stage::StatUserIcon,
            MigrationStage::ReadUserIcon => Stage::ReadUserIcon,
            MigrationStage::ReadSystemIcon { digest } => Stage::ReadSystemIcon { digest: digest@ },
            MigrationStage::RemoveUserIcon => Stage::RemoveUserIcon,
            MigrationStage::LookForThemeCache => Stage::LookForThemeCache,
            MigrationStage::LookForThemeIndex => Stage::LookForThemeIndex,
            MigrationStage::RemoveThemeCache => Stage::RemoveThemeCache,
            MigrationStage::WriteMarker => Stage::WriteMarker,
            MigrationStage::Finished { failure } => Stage::Finished {
                failure: match failure {
                    Some(m) => Some(m@),
                    None => None,
                },
            },
        }
    }
}

/// A running migration of the icons of a user.
pub struct MigrationFlow {
    user_icon_dir: String,
    system_icon_dir: String,
    cache_dir: String,
    sizes: Vec<u32>,
    at: usize,
    deleted: bool,
    remove_failed: Option<String>,
    stage: MigrationStage,
}

impl View for MigrationFlow {
    type V = Migration;

    closed spec fn view(&self) -> Migration {
        Migration {
            sizes: self.sizes@,
            at: self.at as int,
            deleted: self.deleted,
            remove_failed: match self.remove_failed {
                Some(m) => Some(m@),
                None => None,
            },
            stage: self.stage.model(),
        }
    }
}

fn same_bytes(a: &Vec<u8>, b: &Vec<u8>) -> (r: bool)
    ensures
        r == (a@ == b@),
{
    if a.len() != b.len() {
        return false;
    }
    let mut i: usize = 0;
    while i < a.len()
        invariant
            a@.len() == b@.len(),
            i <= a@.len(),
            forall|j: int| 0 <= j < i ==> a@[j] == b@[j],
        decreases a@.len() - i,
    {
        if a[i] != b[i] {
            return false;
        }
        i = i + 1;
    }
    assert(a@ =~= b@);
    true
}

impl MigrationFlow {
    /// The user's icon directory.
    pub closed spec fn user_dir(&self) -> Seq<char> {
        self.user_icon_dir@
    }

    /// The package's icon directory.
    pub closed spec fn system_dir(&self) -> Seq<char> {
        self.system_icon_dir@
    }

    /// The directory of the marker.
    pub closed spec fn cache(&self) -> Seq<char> {
        self.cache_dir@
    }

    /// Begins a migration between two icon directories.
    pub fn start(
        user_icon_dir: &str,
        system_icon_dir: &str,
        cache_dir: &str,
        sizes: Vec<u32>,
    ) -> (r: MigrationFlow)
        ensures
            r@ == Migration::begun(sizes@),
            r@.inv(),
            r.user_dir() == user_icon_dir@,
            r.system_dir() == system_icon_dir@,
            r.cache() == cache_dir@,
    {
        MigrationFlow {
            user_icon_dir: user_icon_dir.to_string(),
            system_icon_dir: system_icon_dir.to_string(),
            cache_dir: cache_dir.to_string(),
            sizes,
            at: 0,
            deleted: false,
            remove_failed: None,
            stage: MigrationStage::LookForMarker,
        }
    }

    /// The directory of the marker.
    pub fn cache_dir(&self) -> (r: &str)
        ensures
            r@ == self.cache(),
    {
        self.cache_dir.as_str()
    }

    /// The user's icon directory.
    pub fn user_icon_dir(&self) -> (r: &str)
        ensures
            r@ == self.user_dir(),
    {
        self.user_icon_dir.as_str()
    }

    /// The marker.
    pub fn marker_path(&self) -> (r: String)
        ensures
            r@ == path::join_text(self.cache(), MARKER_FILENAME@),
    {
        path::join(self.cache_dir.as_str(), MARKER_FILENAME)
    }

    /// The cache of the user's icon theme.
    pub fn theme_cache_path(&self) -> (r: String)
        ensures
            r@ == path::join_text(self.user_dir(), "icon-theme.cache"@),
    {
        path::join(self.user_icon_dir.as_str(), "icon-theme.cache")
    }

    /// The index of the user's icon theme.
    pub fn theme_index_path(&self) -> (r: String)
        ensures
            r@ == path::join_text(self.user_dir(), "index.theme"@),
    {
        path::join(self.user_icon_dir.as_str(), "index.theme")
    }

    fn icon(&self) -> (r: String)
        requires
            self@.at < self@.sizes.len(),
        ensures
            r@ == icon_name(self@.sizes[self@.at]),
    {
        let n = number::to_decimal(self.sizes[self.at] as u64);
        let size = chars::concat3(n.as_str(), "x", n.as_str());
        chars::concat(size.as_str(), "/apps/paneflow.png")
    }

    /// The user's icon of the size that is looked at.
    pub fn user_icon(&self) -> (r: Option<String>)
        requires
            self@.inv(),
        ensures
            match r {
                Some(p) => self@.at < self@.sizes.len() && p@ == path::join_text(
                    self.user_dir(),
                    icon_name(self@.sizes[self@.at]),
                ),
                None => self@.at == self@.sizes.len(),
            },
    {
        if self.at < self.sizes.len() {
            let name = self.icon();
            Some(path::join(self.user_icon_dir.as_str(), name.as_str()))
        } else {
            None
        }
    }

    /// The package's icon of the size that is looked at.
    pub fn system_icon(&self) -> (r: Option<String>)
        requires
            self@.inv(),
        ensures
            match r {
                Some(p) => self@.at < self@.sizes.len() && p@ == path::join_text(
                    self.system_dir(),
                    icon_name(self@.sizes[self@.at]),
                ),
                None => self@.at == self@.sizes.len(),
            },
    {
        if self.at < self.sizes.len() {
            let name = self.icon();
            Some(path::join(self.system_icon_dir.as_str(), name.as_str()))
        } else {
            None
        }
    }

    /// What is to be done next.
    pub fn action(&self) -> (r: MigrationAction)
        ensures
            r == action_at(self@.stage),
    {
        match &self.stage {
            MigrationStage::LookForMarker => MigrationAction::LookForMarker,
            MigrationStage::LookForUserDir => MigrationAction::LookForUserDir,
            MigrationStage::StatUserIcon => MigrationAction::StatUserIcon,
            MigrationStage::ReadUserIcon => MigrationAction::ReadUserIcon,
            MigrationStage::ReadSystemIcon { .. } => MigrationAction::ReadSystemIcon,
            MigrationStage::RemoveUserIcon => MigrationAction::RemoveUserIcon,
            MigrationStage::LookForThemeCache => MigrationAction::LookForThemeCache,
            MigrationStage::LookForThemeIndex => MigrationAction::LookForThemeIndex,
            MigrationStage::RemoveThemeCache => MigrationAction::RemoveThemeCache,
            MigrationStage::WriteMarker => MigrationAction::WriteMarker,
            MigrationStage::Finished { .. } => MigrationAction::Finish,
        }
    }

    fn settle(&mut self)
        requires
            old(self)@.inv(),
        ensures
            final(self)@ == old(self)@.settled(),
            final(self)@.inv(),
            final(self).user_dir() == old(self).user_dir(),
            final(self).system_dir() == old(self).system_dir(),
            final(self).cache() == old(self).cache(),
    {
        match &self.remove_failed {
            Some(e) => {
                let words = e.clone();
                self.stage = MigrationStage::Finished { failure: Some(words) };
            },
            None => {
                self.stage = MigrationStage::WriteMarker;
            },
        }
    }

    fn look_at(&mut self, k: usize)
        requires
            k <= old(self)@.sizes.len(),
        ensures
            final(self)@ == old(self)@.sized(k as int),
            final(self)@.inv(),
            final(self).user_dir() == old(self).user_dir(),
            final(self).system_dir() == old(self).system_dir(),
            final(self).cache() == old(self).cache(),
    {
        self.at = k;
        if k < self.sizes.len() {
            self.stage = MigrationStage::StatUserIcon;
        } else {
            self.stage = MigrationStage::LookForThemeCache;
            if !self.deleted {
                self.settle();
            }
        }
    }

    /// Takes whether the user's icon differs from the system's, once both were
    /// read: one that does not stays, one that does goes.
    pub fn compare_icons(&mut self, differs: bool)
        requires
            old(self)@.inv(),
            old(self)@.stage is ReadSystemIcon,
        ensures
            final(self)@ == old(self)@.compared(differs),
            final(self)@.inv(),
            final(self).user_dir() == old(self).user_dir(),
            final(self).system_dir() == old(self).system_dir(),
            final(self).cache() == old(self).cache(),
    {
        let count: usize = self.sizes.len();
        assert(self.at < count);
        if differs {
            self.stage = MigrationStage::RemoveUserIcon;
        } else {
            self.look_at(self.at + 1);
        }
    }

    /// Takes what came of the last action.
    pub fn advance(&mut self, reply: MigrationReply)
        requires
            old(self)@.inv(),
            answers(action_at(old(self)@.stage), reply@),
        ensures
            final(self)@ == old(self)@.step(reply@),
            final(self)@.inv(),
            final(self).user_dir() == old(self).user_dir(),
            final(self).system_dir() == old(self).system_dir(),
            final(self).cache() == old(self).cache(),
    {
        let count: usize = self.sizes.len();
        assert(self.at <= count);
        let mut stage = MigrationStage::LookForThemeIndex;
        core::mem::swap(&mut stage, &mut self.stage);
        match (stage, reply) {
            (MigrationStage::LookForMarker, MigrationReply::Exists(found)) => {
                self.stage =
                if found {
                    MigrationStage::Finished { failure: None }
                } else {
                    MigrationStage::LookForUserDir
                };
            },
            (MigrationStage::LookForUserDir, MigrationReply::Exists(found)) => {
                if found {
                    self.look_at(0);
                } else {
                    self.stage = MigrationStage::WriteMarker;
                }
            },
            (MigrationStage::LookForUserDir, MigrationReply::Failed(e)) => {
                self.stage = MigrationStage::Finished { failure: Some(e) };
            },
            (MigrationStage::StatUserIcon, MigrationReply::Kind(kind)) => {
                if kind == FileKind::File {
                    self.stage = MigrationStage::ReadUserIcon;
                } else {
                    self.look_at(self.at + 1);
                }
            },
            (MigrationStage::ReadUserIcon, MigrationReply::Bytes(bytes)) => {
                self.stage = MigrationStage::ReadSystemIcon { digest: sha256(bytes.as_slice()) };
            },
            (MigrationStage::ReadUserIcon, _) => {
                self.look_at(self.at + 1);
            },
            (MigrationStage::ReadSystemIcon { digest }, MigrationReply::Bytes(bytes)) => {
                let other = sha256(bytes.as_slice());
                let differs = !same_bytes(&digest, &other);
                self.stage = MigrationStage::ReadSystemIcon { digest };
                self.compare_icons(differs);
            },
            (MigrationStage::ReadSystemIcon { .. }, _) => {
                self.look_at(self.at + 1);
            },
            (MigrationStage::RemoveUserIcon, MigrationReply::Done) => {
                self.deleted = true;
                self.look_at(self.at + 1);
            },
            (MigrationStage::RemoveUserIcon, MigrationReply::Failed(e)) => {
                if self.remove_failed.is_none() {
                    self.remove_failed = Some(e);
                }
                self.look_at(self.at + 1);
            },
            (MigrationStage::LookForThemeCache, MigrationReply::Exists(found)) => {
                if found {
                    self.stage = MigrationStage::LookForThemeIndex;
                } else {
                    self.settle();
                }
            },
            (MigrationStage::LookForThemeIndex, MigrationReply::Exists(found)) => {
                if found {
                    self.settle();
                } else {
                    self.stage = MigrationStage::RemoveThemeCache;
                }
            },
            (MigrationStage::RemoveThemeCache, _) => {
                self.settle();
            },
            (MigrationStage::WriteMarker, _) => {
                self.stage = MigrationStage::Finished { failure: None };
            },
            (other, _) => {
                self.stage = other;
            },
        }
    }

    /// The result of a finished migration.
    pub fn result(self) -> (r: Option<Result<(), String>>)
        ensures
            match r {
                Some(Ok(_)) => self@.stage == (Stage::Finished { failure: None }),
                Some(Err(m)) => self@.stage == (Stage::Finished { failure: Some(m@) }),
                None => !(self@.stage is Finished),
            },
    {
        match self.stage {
            MigrationStage::Finished { failure: None } => Some(Ok(())),
            MigrationStage::Finished { failure: Some(m) } => Some(Err(m)),
            _ => None,
        }
    }
}

/// Whether these are the states of one migration, under any replies.
pub open spec fn is_run(states: Seq<Migration>, replies: Seq<Reply>) -> bool {
    &&& states.len() == replies.len() + 1
    &&& states[0] == Migration::begun(states[0].sizes)
    &&& forall|i: int|
        0 <= i < replies.len() ==> {
            &&& answers(action_at((#[trigger] states[i]).stage), replies[i])
            &&& states[i + 1] == states[i].step(replies[i])
        }
}

/// An icon is removed only after it was found to be a regular file, both it
/// and the package's icon were read, and their digests differ. So symlinks,
/// and copies of the package's icon, survive.
pub proof fn only_differing_files_are_removed(
    states: Seq<Migration>,
    replies: Seq<Reply>,
    i: int,
)
    requires
        is_run(states, replies),
        0 <= i < states.len(),
        states[i].stage is RemoveUserIcon,
    ensures
        i >= 3,
        replies[i - 3] == Reply::Kind(FileKind::File),
        replies[i - 2] is Bytes,
        replies[i - 1] is Bytes,
        sha256_digest(replies[i - 2]->Bytes_0) != sha256_digest(replies[i - 1]->Bytes_0),
        replies[i - 2] != replies[i - 1],
        states[i - 3].at == states[i].at,
{
    assert(states[i - 1 + 1] == states[i - 1].step(replies[i - 1]));
    assert(states[i - 2 + 1] == states[i - 2].step(replies[i - 2]));
    assert(states[i - 3 + 1] == states[i - 3].step(replies[i - 3]));
}

proof fn lemma_step(m: Migration, reply: Reply)
    requires
        m.inv(),
    ensures
        m.step(reply).inv(),
{
}

proof fn lemma_run(states: Seq<Migration>, replies: Seq<Reply>, i: int)
    requires
        is_run(states, replies),
        0 <= i < states.len(),
    ensures
        states[i].inv(),
    decreases i,
{
    if i > 0 {
        lemma_run(states, replies, i - 1);
        lemma_step(states[i - 1], replies[i - 1]);
        assert(states[i - 1 + 1] == states[i - 1].step(replies[i - 1]));
    }
}

/// Once a removal has failed, the first failure is what the migration reports
/// and the marker is not written, so that it runs again at the next start.
pub proof fn marker_stands_for_a_complete_run(
    states: Seq<Migration>,
    replies: Seq<Reply>,
    i: int,
)
    requires
        is_run(states, replies),
        0 <= i < states.len(),
        states[i].stage is WriteMarker,
    ensures
        states[i].remove_failed is None,
        forall|j: int|
            0 <= j < i && (#[trigger] states[j]).stage is RemoveUserIcon ==> replies[j] is Done,
{
    lemma_run(states, replies, i);
    assert forall|j: int|
        0 <= j < i && (#[trigger] states[j]).stage is RemoveUserIcon implies replies[j] is Done by {
        assert(states[j + 1] == states[j].step(replies[j]));
        if replies[j] is Failed {
            lemma_failure_stays(states, replies, j + 1, i);
        }
    }
}

proof fn lemma_failure_stays(states: Seq<Migration>, replies: Seq<Reply>, j: int, i: int)
    requires
        is_run(states, replies),
        0 <= j <= i < states.len(),
        states[j].remove_failed is Some,
    ensures
        states[i].remove_failed == states[j].remove_failed,
    decreases i - j,
{
    if j < i {
        lemma_failure_stays(states, replies, j, i - 1);
        assert(states[i - 1 + 1] == states[i - 1].step(replies[i - 1]));
    }
}

/// A migration whose marker is there does nothing.
pub proof fn marked_migrations_do_nothing(states: Seq<Migration>, replies: Seq<Reply>)
    requires
        is_run(states, replies),
        replies.len() > 0,
        replies[0] == Reply::Exists(true),
    ensures
        replies.len() == 1,
        states[1].stage == (Stage::Finished { failure: None }),
{
    assert(states[0int + 1] == states[0].step(replies[0]));
    if replies.len() > 1 {
        assert(answers(action_at(states[1].stage), replies[1]));
    }
}

/// The icon migration of a start, if the install calls for one and the user
/// has a home directory.
pub fn startup_migration(method: &InstallMethod, home: Option<&str>) -> (r: Option<MigrationFlow>)
    ensures
        match r {
            Some(flow) => {
                &&& migrates(method@)
                &&& home matches Some(h) && flow.user_dir() == path::join_text(
                    path::join_text(
                        path::join_text(path::join_text(h@, ".local"@), "share"@),
                        "icons"@,
                    ),
                    "hicolor"@,
                ) && flow.cache() == path::join_text(
                    path::join_text(h@, ".cache"@),
                    "paneflow"@,
                )
                &&& flow.system_dir() == SYSTEM_ICON_DIR@
                &&& flow@ == Migration::begun(seq![16u32, 32u32, 48u32, 128u32, 256u32, 512u32])
                &&& flow@.inv()
            },
            None => !migrates(method@) || home is None,
        },
{
    if !should_migrate(method) {
        return None;
    }
    match home {
        Some(h) => {
            let local = path::join(h, ".local");
            let share = path::join(local.as_str(), "share");
            let icons = path::join(share.as_str(), "icons");
            let user_icon_dir = path::join(icons.as_str(), "hicolor");
            let dot_cache = path::join(h, ".cache");
            let cache_dir = path::join(dot_cache.as_str(), "paneflow");
            Some(
                MigrationFlow::start(
                    user_icon_dir.as_str(),
                    SYSTEM_ICON_DIR,
                    cache_dir.as_str(),
                    hicolor_sizes(),
                ),
            )
        },
        None => None,
    }
}

/// Two installs on one host: the running one and another.
#[derive(Debug, Clone, PartialEq, Eq)]
pub struct CoexistenceReport {
    /// The running binary.
    pub running_path: String,
    /// The binary of the other install.
    pub other_path: String,
    /// What the other install is.
    pub other_method_label: &'static str,
}

/// A [`CoexistenceReport`] as a mathematical value.
pub struct Coexistence {
    pub running_path: Seq<char>,
    pub other_path: Seq<char>,
    pub other_method_label: Seq<char>,
}

impl View for CoexistenceReport {
    type V = Coexistence;

    open spec fn view(&self) -> Coexistence {
        Coexistence {
            running_path: self.running_path@,
            other_path: self.other_path@,
            other_method_label: self.other_method_label@,
        }
    }
}

/// The binary that the archive's installer puts under a home directory.
pub open spec fn unpacked_binary(home: Seq<char>) -> Seq<char> {
    path::join_text(path::join_text(install_method::app_dir_in(home), "bin"@), "paneflow"@)
}

/// The binary that the archive's installer puts under `home`.
pub fn tar_gz_binary(home: &str) -> (r: String)
    ensures
        r@ == unpacked_binary(home@),
{
    let local = path::join(home, ".local");
    let app_dir = path::join(local.as_str(), "paneflow.app");
    let bin = path::join(app_dir.as_str(), "bin");
    path::join(bin.as_str(), "paneflow")
}

/// Whether a host has both a package and an unpacked archive: the package runs
/// and the archive's binary is there, or the other way round. Without a home
/// directory nothing is reported.
pub open spec fn coexistence(
    current: install_method::Method,
    home: Option<Seq<char>>,
    system_bin_exists: bool,
    tar_gz_bin_exists: bool,
) -> Option<Coexistence> {
    if migrates(current) {
        if home is Some && tar_gz_bin_exists {
            Some(
                Coexistence {
                    running_path: SYSTEM_BIN_PATH@,
                    other_path: unpacked_binary(home->Some_0),
                    other_method_label: "tar.gz"@,
                },
            )
        } else {
            None
        }
    } else if current is TarGz && home is Some && system_bin_exists {
        Some(
            Coexistence {
                running_path: path::join_text(
                    path::join_text(current->TarGz_app_dir, "bin"@),
                    "paneflow"@,
                ),
                other_path: SYSTEM_BIN_PATH@,
                other_method_label: "system package"@,
            },
        )
    } else {
        None
    }
}

/// An optional report as a mathematical value.
pub open spec fn report_of(r: Option<CoexistenceReport>) -> Option<Coexistence> {
    match r {
        Some(report) => Some(report@),
        None => None,
    }
}

/// Whether the host has a second install beside the running one. The probes
/// say whether the package's binary and the archive's
/// ([`tar_gz_binary`]) exist.
pub fn detect_coexistent_install_with_probes(
    current: &InstallMethod,
    home: Option<&str>,
    system_bin_exists: bool,
    tar_gz_bin_exists: bool,
) -> (r: Option<CoexistenceReport>)
    ensures
        report_of(r) == coexistence(
            current@,
            install_method::text_of(home),
            system_bin_exists,
            tar_gz_bin_exists,
        ),
{
    if should_migrate(current) {
        return match home {
            Some(h) => {
                if tar_gz_bin_exists {
                    Some(
                        CoexistenceReport {
                            running_path: SYSTEM_BIN_PATH.to_string(),
                            other_path: tar_gz_binary(h),
                            other_method_label: "tar.gz",
                        },
                    )
                } else {
                    None
                }
            },
            None => None,
        };
    }
    match current {
        InstallMethod::TarGz { app_dir } => {
            if home.is_some() && system_bin_exists {
                let bin = path::join(app_dir.as_str(), "bin");
                Some(
                    CoexistenceReport {
                        running_path: path::join(bin.as_str(), "paneflow"),
                        other_path: SYSTEM_BIN_PATH.to_string(),
                        other_method_label: "system package",
                    },
                )
            } else {
                None
            }
        },
        _ => None,
    }
}

/// The marker of a shown coexistence warning.
pub fn coexistence_marker_path(home: &str) -> (r: String)
    ensures
        r@ == path::join_text(
            path::join_text(path::join_text(home@, ".cache"@), "paneflow"@),
            COEXISTENCE_MARKER_FILENAME@,
        ),
{
    let dot_cache = path::join(home, ".cache");
    let cache = path::join(dot_cache.as_str(), "paneflow");
    path::join(cache.as_str(), COEXISTENCE_MARKER_FILENAME)
}

/// The report to warn about: none once the marker says that the user was
/// warned.
pub fn coexistence_should_warn(
    current: &InstallMethod,
    home: Option<&str>,
    system_bin_exists: bool,
    tar_gz_bin_exists: bool,
    marker_exists: bool,
) -> (r: Option<CoexistenceReport>)
    ensures
        report_of(r) == (if marker_exists {
            None
        } else {
            coexistence(
                current@,
                install_method::text_of(home),
                system_bin_exists,
                tar_gz_bin_exists,
            )
        }),
{
    if marker_exists {
        return None;
    }
    detect_coexistent_install_with_probes(current, home, system_bin_exists, tar_gz_bin_exists)
}

/// Packages of three managers migrate, and nothing else does.
pub proof fn three_managers_migrate(method: install_method::Method)
    ensures
        migrates(install_method::Method::SystemPackage { manager: PackageManager::Dnf }),
        migrates(install_method::Method::SystemPackage { manager: PackageManager::Apt }),
        migrates(install_method::Method::SystemPackage { manager: PackageManager::Zypper }),
        !migrates(install_method::Method::SystemPackage { manager: PackageManager::RpmOstree }),
        !migrates(install_method::Method::SystemPackage { manager: PackageManager::Other }),
        !(method is SystemPackage) ==> !migrates(method),
{
}

/// The icon of a size lies in the directory of that size, which is as wide as it is high.
pub proof fn icons_lie_under_their_size(n: u32)
    ensures
        icon_name(n) == number::decimal(n as nat) + "x"@ + number::decimal(n as nat)
            + "/apps/paneflow.png"@,
        MARKER_FILENAME@ == "migration-v0.2.3-icons-cleaned"@,
        COEXISTENCE_MARKER_FILENAME@ == "migration-v0.2.3-coexistence-warned"@,
        SYSTEM_BIN_PATH@ == "/usr/bin/paneflow"@,
        SYSTEM_ICON_DIR@ == "/usr/share/icons/hicolor"@,
{
}

/// A migration that was done is not done again. Without a directory of icons there is
/// nothing to do but to note that it is done; one that cannot be looked at ends it.
pub proof fn migrations_run_once(m: Migration, e: Seq<char>)
    ensures
        ({
            let marker = Migration { stage: Stage::LookForMarker, ..m };
            let dir = Migration { stage: Stage::LookForUserDir, ..m };
            &&& action_at(Migration::begun(m.sizes).stage) == MigrationAction::LookForMarker
            &&& marker.step(Reply::Exists(true)) == (Migration {
                stage: Stage::Finished { failure: None },
                ..m
            })
            &&& action_at(marker.step(Reply::Exists(false)).stage)
                == MigrationAction::LookForUserDir
            &&& action_at(dir.step(Reply::Exists(false)).stage) == MigrationAction::WriteMarker
            &&& dir.step(Reply::Failed(e)) == (Migration {
                stage: Stage::Finished { failure: Some(e) },
                ..m
            })
            &&& m.sizes.len() > 0 ==> action_at(dir.step(Reply::Exists(true)).stage)
                == MigrationAction::StatUserIcon && dir.step(Reply::Exists(true)).at == 0
        }),
{
}

/// An icon is taken away if it is a plain file that can be read, the system has one for the
/// same size that can be read, and the two differ. In every other case the next size is
/// looked at, and the icon stays.
pub proof fn differing_icons_are_taken_away(
    m: Migration,
    kind: FileKind,
    e: Seq<char>,
    user: Seq<u8>,
    system: Seq<u8>,
)
    requires
        0 <= m.at,
        m.at + 1 < m.sizes.len(),
    ensures
        ({
            let at = |stage: Stage| Migration { stage, ..m };
            let next = Migration { at: m.at + 1, stage: Stage::StatUserIcon, ..m };
            let reading = at(Stage::StatUserIcon).step(Reply::Kind(FileKind::File));
            let comparing = at(Stage::ReadUserIcon).step(Reply::Bytes(user));
            let compared = comparing.step(Reply::Bytes(system));
            &&& action_at(reading.stage) == MigrationAction::ReadUserIcon && reading.at == m.at
            &&& kind != FileKind::File ==> at(Stage::StatUserIcon).step(Reply::Kind(kind)) == next
            &&& at(Stage::ReadUserIcon).step(Reply::Failed(e)) == next
            &&& action_at(comparing.stage) == MigrationAction::ReadSystemIcon && comparing.at
                == m.at
            &&& comparing.step(Reply::Failed(e)) == next
            &&& sha256_digest(user) == sha256_digest(system) ==> compared == next
            &&& sha256_digest(user) != sha256_digest(system) ==> action_at(compared.stage)
                == MigrationAction::RemoveUserIcon && compared.at == m.at
            &&& at(Stage::RemoveUserIcon).step(Reply::Done) == (Migration { deleted: true, ..next })
            &&& at(Stage::RemoveUserIcon).step(Reply::Failed(e)) == (Migration {
                remove_failed: Some(
                    if m.remove_failed is Some {
                        m.remove_failed->Some_0
                    } else {
                        e
                    },
                ),
                ..next
            })
        }),
{
}

/// After the last size the cache of the theme is taken away if an icon was and the theme is
/// not the user's own. That the migration is done is noted unless an icon could not be
/// taken away; then that is told.
pub proof fn migrations_are_noted_when_complete(m: Migration)
    requires
        0 <= m.at,
        m.at + 1 == m.sizes.len(),
    ensures
        ({
            let at = |stage: Stage| Migration { stage, ..m };
            let last = at(Stage::StatUserIcon).step(Reply::Kind(FileKind::Missing));
            let uncached = at(Stage::LookForThemeCache).step(Reply::Exists(false));
            let own = at(Stage::LookForThemeIndex).step(Reply::Exists(true));
            let cleared = at(Stage::RemoveThemeCache).step(Reply::Done);
            let done = |n: Migration| match m.remove_failed {
                None => action_at(n.stage) == MigrationAction::WriteMarker,
                Some(e) => n.stage == (Stage::Finished { failure: Some(e) }),
            };
            &&& m.deleted ==> action_at(last.stage) == MigrationAction::LookForThemeCache
            &&& !m.deleted ==> done(last)
            &&& done(uncached)
            &&& action_at(at(Stage::LookForThemeCache).step(Reply::Exists(true)).stage)
                == MigrationAction::LookForThemeIndex
            &&& done(own)
            &&& action_at(at(Stage::LookForThemeIndex).step(Reply::Exists(false)).stage)
                == MigrationAction::RemoveThemeCache
            &&& done(cleared)
            &&& at(Stage::WriteMarker).step(Reply::Done).stage == (Stage::Finished {
                failure: None,
            })
            &&& action_at(Stage::Finished { failure: None }) == MigrationAction::Finish
        }),
{
}

/// Two installations at once are told to the one that runs: a package is told of the
/// unpacked archive below the user's home, and the archive of the package. What is not
/// there is not told, and without a home nothing is.
pub proof fn the_other_installation_is_told(
    method: install_method::Method,
    home: Seq<char>,
    app_dir: Seq<char>,
    system: bool,
    archive: bool,
)
    requires
        home.len() > 0,
        home.last() != '/',
        app_dir.len() > 0,
        app_dir.last() != '/',
    ensures
        coexistence(method, None, system, archive) is None,
        migrates(method) ==> coexistence(method, Some(home), system, archive) == (if archive {
            Some(
                Coexistence {
                    running_path: "/usr/bin/paneflow"@,
                    other_path: home + "/.local/paneflow.app/bin/paneflow"@,
                    other_method_label: "tar.gz"@,
                },
            )
        } else {
            None
        }),
        coexistence(install_method::Method::TarGz { app_dir }, Some(home), system, archive) == (
        if system {
            Some(
                Coexistence {
                    running_path: app_dir + "/bin/paneflow"@,
                    other_path: "/usr/bin/paneflow"@,
                    other_method_label: "system package"@,
                },
            )
        } else {
            None
        }),
        !migrates(method) && !(method is TarGz) ==> coexistence(
            method,
            Some(home),
            system,
            archive,
        ) is None,
{
    reveal_strlit("bin");
    reveal_strlit("paneflow");
    reveal_strlit("/bin/paneflow");
    reveal_strlit("/.local/paneflow.app");
    reveal_strlit("/.local/paneflow.app/bin/paneflow");
    install_method::the_archive_lies_below_home(home);
    let dir = home + "/.local/paneflow.app"@;
    assert(dir.last() == 'p');
    lemma_binary_below(dir);
    lemma_binary_below(app_dir);
    assert(dir + "/bin/paneflow"@ =~= home + "/.local/paneflow.app/bin/paneflow"@);
}

proof fn lemma_binary_below(dir: Seq<char>)
    requires
        dir.len() > 0,
        dir.last() != '/',
    ensures
        path::join_text(path::join_text(dir, "bin"@), "paneflow"@) == dir + "/bin/paneflow"@,
{
    reveal_strlit("bin");
    reveal_strlit("paneflow");
    reveal_strlit("/bin/paneflow");
    path::joining_puts_one_slash(dir, "bin"@);
    let bin = dir + seq!['/'] + "bin"@;
    assert(bin.last() == 'n');
    path::joining_puts_one_slash(bin, "paneflow"@);
    assert(bin + seq!['/'] + "paneflow"@ =~= dir + "/bin/paneflow"@);
}

} // verus!
