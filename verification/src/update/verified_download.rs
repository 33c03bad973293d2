//! The download of a signed asset.
//!
//! The bytes go to a file beside the destination. Only once their signature
//! has been verified does that file take the destination's name. Whatever goes
//! wrong between, it is removed; only when that last rename fails does it stay,
//! verified as it is. [`DownloadFlow`] decides; whoever drives it fetches and
//! writes, and reports back.

use vstd::prelude::*;

use crate::path;
use crate::text::chars;
use crate::text::number;
use crate::text::split;
use crate::update::error;
use crate::update::error::UpdateError;
use crate::update::error::UpdateFailure;
use crate::update::signature;

verus! {

/// A path whose file name is followed by a suffix.
pub open spec fn suffixed(p: Seq<char>, suffix: Seq<char>) -> Option<Seq<char>> {
    let parts = path::parse(p);
    match (parts.parent(), parts.file_name()) {
        (Some(parent), Some(name)) => Some(path::join_text(path::render(parent), name + suffix)),
        _ => None,
    }
}

/// The path `p` with `suffix` behind its whole file name.
pub fn append_suffix(p: &str, suffix: &str) -> (r: Result<String, UpdateError>)
    ensures
        match r {
            Ok(q) => suffixed(p@, suffix@) == Some(q@),
            Err(e) => suffixed(p@, suffix@) is None && e@ == error::Fault::Other(
                "path has no file name: "@ + p@,
            ),
        },
{
    let parts = path::parts(p);
    match (parts.parent(), parts.file_name()) {
        (Some(parent), Some(name)) => {
            let dir = parent.to_text();
            let full = chars::concat(name, suffix);
            Ok(path::join(dir.as_str(), full.as_str()))
        },
        _ => Err(UpdateError::Other(chars::concat("path has no file name: ", p))),
    }
}

/// A path with a suffix is read back as the same directory with the longer name:
/// it lies beside the path that it was made from.
pub proof fn suffixed_paths_lie_beside(p: Seq<char>, suffix: Seq<char>)
    requires
        path::no_slash(suffix),
    ensures
        suffixed(p, suffix) matches Some(q) ==> {
            &&& path::parse(q).parent() == path::parse(p).parent()
            &&& path::parse(q).file_name() == Some(path::parse(p).file_name()->Some_0 + suffix)
        },
{
    let parts = path::parse(p);
    if suffixed(p, suffix) is Some {
        let dir = parts.parent()->Some_0;
        let name = parts.names.last();
        let full = name + suffix;
        path::lemma_parse_is_proper(p);
        assert(parts.names[parts.names.len() - 1] == name);
        path::lemma_prefix_is_proper(parts);
        assert(full[0] == name[0]);
        if full == seq!['.'] {
            assert(name =~= seq!['.']);
        }
        if full == seq!['.', '.'] {
            assert(full[1] == '.');
            if name.len() == 1 {
                assert(name =~= seq!['.']);
            } else {
                assert(name =~= seq!['.', '.']);
            }
        }
        path::joined_names_read_back(dir, full);
        let q = path::parse(path::join_text(path::render(dir), full));
        assert(q.names.last() == full);
        assert(q.names.drop_last() =~= dir.names);
    }
}

/// What is to be done next.
#[derive(Clone, Copy, Debug, PartialEq, Eq, Structural)]
pub enum DownloadAction {
    /// Ask for the asset and report the status of the answer.
    FetchAsset,
    /// Make the partial file.
    CreatePartial,
    /// Write the answer's body to the partial file, up to one byte more than
    /// the limit, and report how much it was.
    StreamAsset,
    /// Ask for the signature and report the status of the answer.
    FetchSignature,
    /// Report the answer's body, up to one byte more than the limit.
    ReadSignature,
    /// Report what is in the partial file.
    ReadPartial,
    /// Give the partial file the destination's name.
    Promote,
    /// Remove the partial file, as far as possible.
    RemovePartial,
    /// Nothing: the result is there.
    Finish,
}

/// What came of the last action.
#[derive(Clone, Debug, PartialEq, Eq)]
pub enum DownloadReply {
    /// The answer's status code, and the code with its reason phrase.
    Answered { code: u16, status: String },
    /// It worked. To a best-effort action also when it did not.
    Done,
    Written(u64),
    Text(String),
    Bytes(Vec<u8>),
    Failed(UpdateFailure),
}

/// A [`DownloadReply`] as a mathematical value.
pub enum Reply {
    Answered { code: u16, status: Seq<char> },
    Done,
    Written(u64),
    Text(Seq<char>),
    Bytes(Seq<u8>),
    Failed(error::Failure),
}

impl View for DownloadReply {
    type V = Reply;

    open spec fn view(&self) -> Reply {
        match *self {
            DownloadReply::Answered { code, status } => Reply::Answered { code, status: status@ },
            DownloadReply::Done => Reply::Done,
            DownloadReply::Written(n) => Reply::Written(n),
            DownloadReply::Text(t) => Reply::Text(t@),
            DownloadReply::Bytes(b) => Reply::Bytes(b@),
            DownloadReply::Failed(f) => Reply::Failed(f@),
        }
    }
}

/// Whether a reply answers an action.
pub open spec fn answers(action: DownloadAction, reply: Reply) -> bool {
    match action {
        DownloadAction::FetchAsset => reply is Answered || reply is Failed,
        DownloadAction::CreatePartial => reply is Done || reply is Failed,
        DownloadAction::StreamAsset => reply is Written || reply is Failed,
        DownloadAction::FetchSignature => reply is Answered || reply is Failed,
        DownloadAction::ReadSignature => reply is Text || reply is Failed,
        DownloadAction::ReadPartial => reply is Bytes || reply is Failed,
        DownloadAction::Promote => reply is Done || reply is Failed,
        DownloadAction::RemovePartial => reply is Done,
        DownloadAction::Finish => false,
    }
}

/// How far a download has come.
pub enum Stage {
    FetchAsset,
    CreatePartial,
    StreamAsset,
    FetchSignature,
    ReadSignature,
    ReadPartial { signature: Seq<char> },
    Promote,
    RemovePartial { failure: error::Failure },
    /// Over: `None` is success.
    Finished { failure: Option<error::Failure> },
}

/// What is to be done at a stage.
pub open spec fn action_at(stage: Stage) -> DownloadAction {
    match stage {
        Stage::FetchAsset => DownloadAction::FetchAsset,
        Stage::CreatePartial => DownloadAction::CreatePartial,
        Stage::StreamAsset => DownloadAction::StreamAsset,
        Stage::FetchSignature => DownloadAction::FetchSignature,
        Stage::ReadSignature => DownloadAction::ReadSignature,
        Stage::ReadPartial { .. } => DownloadAction::ReadPartial,
        Stage::Promote => DownloadAction::Promote,
        Stage::RemovePartial { .. } => DownloadAction::RemovePartial,
        Stage::Finished { .. } => DownloadAction::Finish,
    }
}

/// A failure with nothing said about what was being done.
pub open spec fn bare(fault: error::Fault) -> error::Failure {
    error::Failure { error: fault, context: None }
}

/// What a download is about.
pub struct Order {
    pub partial: Seq<char>,
    pub dest: Seq<char>,
    pub max_bytes: u64,
    /// The keys of the binary.
    pub keys: Seq<Seq<char>>,
}

impl Order {
    /// The failure for an answer that is not a success.
    pub open spec fn bad_status(status: Seq<char>) -> error::Failure {
        bare(
            error::Fault::Other(
                "Update download returned HTTP "@ + status + ". Try again later."@,
            ),
        )
    }

    /// The failure for an asset that is too large.
    pub open spec fn too_large(self) -> error::Failure {
        bare(
            error::Fault::Other(
                "Update download exceeded "@ + number::decimal(
                    (self.max_bytes / 1024 / 1024) as nat,
                ) + " MiB - aborting."@,
            ),
        )
    }

    /// The failure of a verification.
    pub open spec fn unverified(self, fault: error::Fault) -> error::Failure {
        error::Failure {
            error: fault,
            context: Some("verify minisign signature of "@ + self.partial),
        }
    }

    /// The failure of the last rename.
    pub open spec fn unpromoted(self, f: error::Failure) -> error::Failure {
        error::Failure {
            context: Some("rename "@ + self.partial + " -> "@ + self.dest),
            ..f
        }
    }

    /// The stage that a reply leads to.
    pub open spec fn step(self, stage: Stage, reply: Reply) -> Stage {
        match (stage, reply) {
            (Stage::FetchAsset, Reply::Answered { code, status }) => if 200 <= code < 300 {
                Stage::CreatePartial
            } else {
                Stage::Finished { failure: Some(Order::bad_status(status)) }
            },
            (Stage::FetchAsset, Reply::Failed(f)) => Stage::Finished { failure: Some(f) },
            (Stage::CreatePartial, Reply::Done) => Stage::StreamAsset,
            (Stage::CreatePartial, Reply::Failed(f)) => Stage::Finished { failure: Some(f) },
            (Stage::StreamAsset, Reply::Written(n)) => if n > self.max_bytes {
                Stage::RemovePartial { failure: self.too_large() }
            } else if self.keys.len() == 0 {
                Stage::RemovePartial {
                    failure: bare(
                        signature::rejection(
                            "no verification key embedded in this build - refusing to install an unverifiable update"@,
                        ),
                    ),
                }
            } else {
                Stage::FetchSignature
            },
            (Stage::StreamAsset, Reply::Failed(f)) => Stage::RemovePartial { failure: f },
            (Stage::FetchSignature, Reply::Answered { code, status }) =>
                match signature::signature_answer(code, status) {
                Some(fault) => Stage::RemovePartial { failure: bare(fault) },
                None => Stage::ReadSignature,
            },
            (Stage::FetchSignature, Reply::Failed(f)) => Stage::RemovePartial { failure: f },
            (Stage::ReadSignature, Reply::Text(text)) => match signature::oversized(text) {
                Some(fault) => Stage::RemovePartial { failure: bare(fault) },
                None => Stage::ReadPartial { signature: text },
            },
            (Stage::ReadSignature, Reply::Failed(f)) => Stage::RemovePartial { failure: f },
            (Stage::ReadPartial { signature }, Reply::Bytes(bytes)) =>
                match signature::verification(self.keys, signature, bytes) {
                Some(fault) => Stage::RemovePartial { failure: self.unverified(fault) },
                None => Stage::Promote,
            },
            (Stage::ReadPartial { signature }, Reply::Failed(f)) => Stage::RemovePartial {
                failure: self.unverified(signature::unread(self.keys, signature, f.words())),
            },
            (Stage::Promote, Reply::Done) => Stage::Finished { failure: None },
            (Stage::Promote, Reply::Failed(f)) => Stage::Finished {
                failure: Some(self.unpromoted(f)),
            },
            (Stage::RemovePartial { failure }, _) => Stage::Finished { failure: Some(failure) },
            _ => stage,
        }
    }
}

/// The stage of a running download.
enum DownloadStage {
    FetchAsset,
    CreatePartial,
    StreamAsset,
    FetchSignature,
    ReadSignature,
    ReadPartial { signature: String },
    Promote,
    RemovePartial { failure: UpdateFailure },
    Finished { failure: Option<UpdateFailure> },
}

impl DownloadStage {
    spec fn model(self) -> Stage {
        match self {
            DownloadStage::FetchAsset => Stage::FetchAsset,
            DownloadStage::CreatePartial => Stage::CreatePartial,
            DownloadStage::StreamAsset => Stage::StreamAsset,
            DownloadStage::FetchSignature => Stage::FetchSignature,
            DownloadStage::ReadSignature => Stage::ReadSignature,
            DownloadStage::ReadPartial { signature } => Stage::ReadPartial {
                signature: signature@,
            },
            DownloadStage::Promote => Stage::Promote,
            DownloadStage::RemovePartial { failure } => Stage::RemovePartial { failure: failure@ },
            DownloadStage::Finished { failure } => Stage::Finished {
                failure: match failure {
                    Some(f) => Some(f@),
                    None => None,
                },
            },
        }
    }
}

/// A running download.
pub struct DownloadFlow {
    asset_url: String,
    partial: String,
    dest: String,
    max_bytes: u64,
    keys: Vec<String>,
    stage: DownloadStage,
}

impl DownloadFlow {
    /// What the download is about.
    pub closed spec fn order(&self) -> Order {
        Order {
            partial: self.partial@,
            dest: self.dest@,
            max_bytes: self.max_bytes,
            keys: split::texts(self.keys@),
        }
    }

    /// How far the download has come.
    pub closed spec fn stage(&self) -> Stage {
        self.stage.model()
    }

    /// Where the asset is downloaded from.
    pub closed spec fn url(&self) -> Seq<char> {
        self.asset_url@
    }

    /// Begins a download of `asset_url` to `dest`, to be verified with `keys`.
    pub fn start(asset_url: &str, dest: &str, max_bytes: u64, keys: Vec<String>) -> (r: Result<
        DownloadFlow,
        UpdateError,
    >)
        ensures
            match r {
                Ok(flow) => {
                    &&& flow.stage() == Stage::FetchAsset
                    &&& flow.url() == asset_url@
                    &&& suffixed(dest@, ".partial"@) == Some(flow.order().partial)
                    &&& flow.order().dest == dest@
                    &&& flow.order().max_bytes == max_bytes
                    &&& flow.order().keys == split::texts(keys@)
                },
                Err(e) => suffixed(dest@, ".partial"@) is None && e@ == error::Fault::Other(
                    "path has no file name: "@ + dest@,
                ),
            },
    {
        match append_suffix(dest, ".partial") {
            Ok(partial) => Ok(
                DownloadFlow {
                    asset_url: asset_url.to_string(),
                    partial,
                    dest: dest.to_string(),
                    max_bytes,
                    keys,
                    stage: DownloadStage::FetchAsset,
                },
            ),
            Err(e) => Err(e),
        }
    }

    /// Where the asset is downloaded from.
    pub fn asset_url(&self) -> (r: &str)
        ensures
            r@ == self.url(),
    {
        self.asset_url.as_str()
    }

    /// Where the signature is downloaded from.
    pub fn signature_url(&self) -> (r: String)
        ensures
            r@ == self.url() + ".minisig"@,
    {
        signature::signature_url(self.asset_url.as_str())
    }

    /// The partial file.
    pub fn partial(&self) -> (r: &str)
        ensures
            r@ == self.order().partial,
    {
        self.partial.as_str()
    }

    /// The destination.
    pub fn dest(&self) -> (r: &str)
        ensures
            r@ == self.order().dest,
    {
        self.dest.as_str()
    }

    /// The largest asset that is accepted.
    pub fn max_bytes(&self) -> (r: u64)
        ensures
            r == self.order().max_bytes,
    {
        self.max_bytes
    }

    /// What is to be done next.
    pub fn action(&self) -> (r: DownloadAction)
        ensures
            r == action_at(self.stage()),
    {
        match &self.stage {
            DownloadStage::FetchAsset => DownloadAction::FetchAsset,
            DownloadStage::CreatePartial => DownloadAction::CreatePartial,
            DownloadStage::StreamAsset => DownloadAction::StreamAsset,
            DownloadStage::FetchSignature => DownloadAction::FetchSignature,
            DownloadStage::ReadSignature => DownloadAction::ReadSignature,
            DownloadStage::ReadPartial { .. } => DownloadAction::ReadPartial,
            DownloadStage::Promote => DownloadAction::Promote,
            DownloadStage::RemovePartial { .. } => DownloadAction::RemovePartial,
            DownloadStage::Finished { .. } => DownloadAction::Finish,
        }
    }

    fn bad_status(status: &str) -> (r: UpdateFailure)
        ensures
            r@ == Order::bad_status(status@),
    {
        UpdateFailure::bare(
            UpdateError::Other(
                chars::concat3("Update download returned HTTP ", status, ". Try again later."),
            ),
        )
    }

    fn too_large(&self) -> (r: UpdateFailure)
        ensures
            r@ == self.order().too_large(),
    {
        let mib = number::to_decimal(self.max_bytes / 1024 / 1024);
        UpdateFailure::bare(
            UpdateError::Other(
                chars::concat3("Update download exceeded ", mib.as_str(), " MiB - aborting."),
            ),
        )
    }

    fn unverified(&self, e: UpdateError) -> (r: UpdateFailure)
        ensures
            r@ == self.order().unverified(e@),
    {
        UpdateFailure {
            error: e,
            context: Some(chars::concat("verify minisign signature of ", self.partial.as_str())),
        }
    }

    fn unpromoted(&self, f: UpdateFailure) -> (r: UpdateFailure)
        ensures
            r@ == self.order().unpromoted(f@),
    {
        let head = chars::concat3("rename ", self.partial.as_str(), " -> ");
        UpdateFailure {
            error: f.error,
            context: Some(chars::concat(head.as_str(), self.dest.as_str())),
        }
    }

    /// Takes what came of the last action.
    pub fn advance(&mut self, reply: DownloadReply)
        requires
            answers(action_at(old(self).stage()), reply@),
        ensures
            final(self).order() == old(self).order(),
            final(self).url() == old(self).url(),
            final(self).stage() == old(self).order().step(old(self).stage(), reply@),
    {
        assert(self.order().keys.len() == self.keys@.len());
        let mut stage = DownloadStage::Promote;
        core::mem::swap(&mut stage, &mut self.stage);
        self.stage =
        match (stage, reply) {
            (DownloadStage::FetchAsset, DownloadReply::Answered { code, status }) => if 200 <= code
                && code < 300 {
                DownloadStage::CreatePartial
            } else {
                DownloadStage::Finished { failure: Some(Self::bad_status(status.as_str())) }
            },
            (DownloadStage::FetchAsset, DownloadReply::Failed(f)) => DownloadStage::Finished {
                failure: Some(f),
            },
            (DownloadStage::CreatePartial, DownloadReply::Done) => DownloadStage::StreamAsset,
            (DownloadStage::CreatePartial, DownloadReply::Failed(f)) => DownloadStage::Finished {
                failure: Some(f),
            },
            (DownloadStage::StreamAsset, DownloadReply::Written(n)) => if n > self.max_bytes {
                DownloadStage::RemovePartial { failure: self.too_large() }
            } else if self.keys.len() == 0 {
                DownloadStage::RemovePartial {
                    failure: UpdateFailure::bare(
                        signature::reject(
                            "no verification key embedded in this build - refusing to install an unverifiable update",
                        ),
                    ),
                }
            } else {
                DownloadStage::FetchSignature
            },
            (DownloadStage::StreamAsset, DownloadReply::Failed(f)) => DownloadStage::RemovePartial {
                failure: f,
            },
            (DownloadStage::FetchSignature, DownloadReply::Answered { code, status }) =>
                match signature::check_signature_answer(code, status.as_str()) {
                Err(e) => DownloadStage::RemovePartial { failure: UpdateFailure::bare(e) },
                Ok(_) => DownloadStage::ReadSignature,
            },
            (DownloadStage::FetchSignature, DownloadReply::Failed(f)) =>
                DownloadStage::RemovePartial { failure: f },
            (DownloadStage::ReadSignature, DownloadReply::Text(text)) =>
                match signature::check_signature_size(text.as_str()) {
                Err(e) => DownloadStage::RemovePartial { failure: UpdateFailure::bare(e) },
                Ok(_) => DownloadStage::ReadPartial { signature: text },
            },
            (DownloadStage::ReadSignature, DownloadReply::Failed(f)) =>
                DownloadStage::RemovePartial { failure: f },
            (DownloadStage::ReadPartial { signature }, DownloadReply::Bytes(bytes)) =>
                match signature::verify_with_keys(
                    bytes.as_slice(),
                    signature.as_str(),
                    &self.keys,
                ) {
                Err(e) => DownloadStage::RemovePartial { failure: self.unverified(e) },
                Ok(_) => DownloadStage::Promote,
            },
            (DownloadStage::ReadPartial { signature }, DownloadReply::Failed(f)) => {
                let words = f.words();
                let e = signature::reject_unread(signature.as_str(), &self.keys, words.as_str());
                DownloadStage::RemovePartial { failure: self.unverified(e) }
            },
            (DownloadStage::Promote, DownloadReply::Done) => DownloadStage::Finished {
                failure: None,
            },
            (DownloadStage::Promote, DownloadReply::Failed(f)) => DownloadStage::Finished {
                failure: Some(self.unpromoted(f)),
            },
            (DownloadStage::RemovePartial { failure }, _) => DownloadStage::Finished {
                failure: Some(failure),
            },
            (other, _) => other,
        };
    }

    /// The result of a finished download.
    pub fn result(self) -> (r: Option<Result<(), UpdateFailure>>)
        ensures
            match r {
                Some(Ok(_)) => self.stage() == (Stage::Finished { failure: None }),
                Some(Err(f)) => self.stage() == (Stage::Finished { failure: Some(f@) }),
                None => !(self.stage() is Finished),
            },
    {
        match self.stage {
            DownloadStage::Finished { failure: None } => Some(Ok(())),
            DownloadStage::Finished { failure: Some(f) } => Some(Err(f)),
            _ => None,
        }
    }
}

/// Whether these are the stages of one download, under any replies.
pub open spec fn is_run(order: Order, stages: Seq<Stage>, replies: Seq<Reply>) -> bool {
    &&& stages.len() == replies.len() + 1
    &&& stages[0] == Stage::FetchAsset
    &&& forall|i: int|
        0 <= i < replies.len() ==> {
            &&& answers(action_at(#[trigger] stages[i]), replies[i])
            &&& stages[i + 1] == order.step(stages[i], replies[i])
        }
}

/// The partial file takes the destination's name only after what is in it, and
/// not more than the limit, was verified with the signature that was read.
pub proof fn only_verified_bytes_are_promoted(
    order: Order,
    stages: Seq<Stage>,
    replies: Seq<Reply>,
    i: int,
)
    ensures
        is_run(order, stages, replies) && 0 <= i < stages.len() && stages[i] is Promote ==> {
            &&& i >= 5
            &&& replies[i - 3] is Answered
            &&& replies[i - 2] is Text
            &&& replies[i - 1] is Bytes
            &&& signature::verification(
                order.keys,
                replies[i - 2]->Text_0,
                replies[i - 1]->Bytes_0,
            ) is None
            &&& replies[i - 4] matches Reply::Written(n) && n <= order.max_bytes
            &&& order.keys.len() > 0
        },
{
    if is_run(order, stages, replies) && 0 <= i < stages.len() && stages[i] is Promote {
        assert(stages[i - 1 + 1] == order.step(stages[i - 1], replies[i - 1]));
        assert(stages[i - 2 + 1] == order.step(stages[i - 2], replies[i - 2]));
        assert(stages[i - 3 + 1] == order.step(stages[i - 3], replies[i - 3]));
        assert(stages[i - 4 + 1] == order.step(stages[i - 4], replies[i - 4]));
        assert(stages[i - 5 + 1] == order.step(stages[i - 5], replies[i - 5]));
    }
}

/// Once the signature has been read, every way out but the promotion is an
/// integrity mismatch.
pub proof fn unverified_downloads_are_integrity_mismatches(
    order: Order,
    stages: Seq<Stage>,
    replies: Seq<Reply>,
    i: int,
)
    ensures
        is_run(order, stages, replies) && 0 <= i < replies.len() && stages[i] is ReadPartial
            ==> stages[i + 1] is Promote || (stages[i + 1] matches Stage::RemovePartial { failure }
            && failure.error is IntegrityMismatch),
{
    if is_run(order, stages, replies) && 0 <= i < replies.len() && stages[i] is ReadPartial {
        assert(answers(action_at(stages[i]), replies[i]));
        let signature = stages[i]->ReadPartial_signature;
        let bytes = replies[i]->Bytes_0;
        signature::rejections_are_integrity_mismatches(order.keys, signature, bytes);
    }
}

/// A download that succeeded promoted its file; one that failed after it began
/// to write either removed the file or failed at the very rename.
pub proof fn failed_downloads_leave_no_partial(
    order: Order,
    stages: Seq<Stage>,
    replies: Seq<Reply>,
    i: int,
)
    ensures
        is_run(order, stages, replies) && 0 < i < stages.len() && stages[i] is Finished ==> {
            &&& stages[i]->Finished_failure is None ==> stages[i - 1] is Promote && replies[i
                - 1] is Done
            &&& stages[i]->Finished_failure is Some ==> stages[i - 1] is RemovePartial || stages[i
                - 1] is Promote || stages[i - 1] is FetchAsset || stages[i - 1] is CreatePartial
        },
{
    if is_run(order, stages, replies) && 0 < i < stages.len() && stages[i] is Finished {
        assert(answers(action_at(stages[i - 1]), replies[i - 1]));
        assert(stages[i - 1 + 1] == order.step(stages[i - 1], replies[i - 1]));
    }
}

/// A download for which everything goes well is fetched into the partial file, its
/// signature is fetched, both are held against each other, and the file takes its name.
pub proof fn good_downloads_are_promoted(
    order: Order,
    code: u16,
    status: Seq<char>,
    written: u64,
    signature_code: u16,
    signature_status: Seq<char>,
    signature: Seq<char>,
    bytes: Seq<u8>,
)
    requires
        200 <= code <= 299,
        written <= order.max_bytes,
        order.keys.len() > 0,
        200 <= signature_code <= 299,
        crate::text::width(signature) <= 65536,
        signature::verification(order.keys, signature, bytes) is None,
    ensures
        ({
            let after = |stage: Stage, reply: Reply| order.step(stage, reply);
            let creating = after(Stage::FetchAsset, Reply::Answered { code, status });
            let streaming = after(creating, Reply::Done);
            let fetching = after(streaming, Reply::Written(written));
            let reading = after(
                fetching,
                Reply::Answered { code: signature_code, status: signature_status },
            );
            let comparing = after(reading, Reply::Text(signature));
            let promoting = after(comparing, Reply::Bytes(bytes));
            &&& action_at(Stage::FetchAsset) == DownloadAction::FetchAsset
            &&& action_at(creating) == DownloadAction::CreatePartial
            &&& action_at(streaming) == DownloadAction::StreamAsset
            &&& action_at(fetching) == DownloadAction::FetchSignature
            &&& action_at(reading) == DownloadAction::ReadSignature
            &&& action_at(comparing) == DownloadAction::ReadPartial
            &&& action_at(promoting) == DownloadAction::Promote
            &&& after(promoting, Reply::Done) == (Stage::Finished { failure: None })
            &&& action_at(Stage::Finished { failure: None }) == DownloadAction::Finish
        }),
{
    signature::answers_for_signatures_are_told_apart(signature_code, signature_status);
    signature::signatures_are_small(signature);
}

/// A download that fails ends with that failure. Up to the partial file there is nothing to
/// take away; from there on the file is.
pub proof fn failed_downloads_tell_why(order: Order, f: error::Failure, signature: Seq<char>)
    ensures
        ({
            let ended = Stage::Finished { failure: Some(f) };
            let removed = |stage: Stage| order.step(stage, Reply::Done);
            let streaming = order.step(Stage::StreamAsset, Reply::Failed(f));
            let fetching = order.step(Stage::FetchSignature, Reply::Failed(f));
            let reading = order.step(Stage::ReadSignature, Reply::Failed(f));
            let comparing = order.step(Stage::ReadPartial { signature }, Reply::Failed(f));
            &&& order.step(Stage::FetchAsset, Reply::Failed(f)) == ended
            &&& order.step(Stage::CreatePartial, Reply::Failed(f)) == ended
            &&& action_at(streaming) == DownloadAction::RemovePartial
            &&& removed(streaming) == ended
            &&& action_at(fetching) == DownloadAction::RemovePartial
            &&& removed(fetching) == ended
            &&& action_at(reading) == DownloadAction::RemovePartial
            &&& removed(reading) == ended
            &&& action_at(comparing) == DownloadAction::RemovePartial
            &&& removed(comparing) == (Stage::Finished {
                failure: Some(
                    error::Failure {
                        error: signature::unread(order.keys, signature, f.words()),
                        context: Some("verify minisign signature of "@ + order.partial),
                    },
                ),
            })
            &&& order.step(Stage::Promote, Reply::Failed(f)) == (Stage::Finished {
                failure: Some(
                    error::Failure {
                        error: f.error,
                        context: Some("rename "@ + order.partial + " -> "@ + order.dest),
                    },
                ),
            })
        }),
{
}

/// A download is refused for what the server answers, for its size, for want of a key, and
/// for its signature; each is told in its own words, and what was written goes.
pub proof fn bad_downloads_are_refused(
    order: Order,
    code: u16,
    status: Seq<char>,
    written: u64,
    signature: Seq<char>,
    bytes: Seq<u8>,
)
    ensures
        ({
            let told = |words: Seq<char>| error::Failure {
                error: error::Fault::Other(words),
                context: None,
            };
            let refused = |fault: error::Fault| Stage::RemovePartial {
                failure: error::Failure { error: fault, context: None },
            };
            let answer = Reply::Answered { code, status };
            &&& code < 200 || code > 299 ==> order.step(Stage::FetchAsset, answer)
                == (Stage::Finished {
                failure: Some(
                    told("Update download returned HTTP "@ + status + ". Try again later."@),
                ),
            })
            &&& written > order.max_bytes ==> order.step(
                Stage::StreamAsset,
                Reply::Written(written),
            ) == (Stage::RemovePartial {
                failure: told(
                    "Update download exceeded "@ + number::decimal(
                        (order.max_bytes as int / 1024 / 1024) as nat,
                    ) + " MiB - aborting."@,
                ),
            })
            &&& written <= order.max_bytes && order.keys.len() == 0 ==> order.step(
                Stage::StreamAsset,
                Reply::Written(written),
            ) == refused(
                signature::rejection(
                    "no verification key embedded in this build - refusing to install an unverifiable update"@,
                ),
            )
            &&& code < 200 || code > 299 ==> order.step(Stage::FetchSignature, answer) == refused(
                signature::signature_answer(code, status)->Some_0,
            )
            &&& crate::text::width(signature) > 65536 ==> order.step(
                Stage::ReadSignature,
                Reply::Text(signature),
            ) == refused(
                signature::rejection("update signature is implausibly large - aborting"@),
            )
            &&& signature::verification(order.keys, signature, bytes) is Some ==> order.step(
                Stage::ReadPartial { signature },
                Reply::Bytes(bytes),
            ) == (Stage::RemovePartial {
                failure: error::Failure {
                    error: signature::verification(order.keys, signature, bytes)->Some_0,
                    context: Some("verify minisign signature of "@ + order.partial),
                },
            })
        }),
{
    signature::answers_for_signatures_are_told_apart(code, status);
    signature::signatures_are_small(signature);
}

/// A path can be given a suffix if it has a file name, and only then.
pub proof fn named_paths_can_be_suffixed(p: Seq<char>, suffix: Seq<char>)
    ensures
        suffixed(p, suffix) is Some <==> path::parse(p).file_name() is Some,
{
}

} // verus!
