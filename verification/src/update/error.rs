//! What can go wrong during an update.

use vstd::prelude::*;

use crate::text::chars;

verus! {

/// The error number of the operating system for a full disk.
pub const ENOSPC: i32 = 28;

/// Why an update failed.
#[derive(Clone, Debug, PartialEq, Eq)]
pub enum UpdateError {
    /// The bundle cannot be replaced where it is; the message says what to do.
    InstallDeclined { message: String },
    /// The install broke down and left no working bundle.
    InstallFailed { log_path: String },
    /// The downloaded bytes or the bundle could not be verified.
    IntegrityMismatch { expected: String, got: String },
    /// There is no room left on the disk.
    DiskFull,
    /// A tool or a request took too long.
    Timeout,
    /// Anything else, in words.
    Other(String),
}

/// An [`UpdateError`] as a mathematical value.
pub enum Fault {
    InstallDeclined { message: Seq<char> },
    InstallFailed { log_path: Seq<char> },
    IntegrityMismatch { expected: Seq<char>, got: Seq<char> },
    DiskFull,
    Timeout,
    Other(Seq<char>),
}

impl View for UpdateError {
    type V = Fault;

    open spec fn view(&self) -> Fault {
        match *self {
            UpdateError::InstallDeclined { message } => Fault::InstallDeclined {
                message: message@,
            },
            UpdateError::InstallFailed { log_path } => Fault::InstallFailed { log_path: log_path@ },
            UpdateError::IntegrityMismatch { expected, got } => Fault::IntegrityMismatch {
                expected: expected@,
                got: got@,
            },
            UpdateError::DiskFull => Fault::DiskFull,
            UpdateError::Timeout => Fault::Timeout,
            UpdateError::Other(words) => Fault::Other(words@),
        }
    }
}

/// Whether an error of the operating system, given by its number and its words,
/// says that the disk is full.
pub open spec fn disk_full(os_error: Option<i32>, words: Seq<char>) -> bool {
    os_error == Some(ENOSPC) || chars::occurs(chars::lower(words), "no space left on device"@)
}

/// Whether an error of the operating system says that the disk is full.
pub fn is_disk_full(os_error: Option<i32>, words: &str) -> (r: bool)
    ensures
        r == disk_full(os_error, words@),
{
    if let Some(n) = os_error {
        if n == ENOSPC {
            return true;
        }
    }
    let lower = chars::to_lower(words);
    chars::contains(lower.as_str(), "no space left on device")
}

/// What an error of the operating system means for an update.
pub open spec fn system_fault(os_error: Option<i32>, words: Seq<char>) -> Fault {
    if disk_full(os_error, words) {
        Fault::DiskFull
    } else {
        Fault::Other(words)
    }
}

/// What an error of the operating system means for an update.
pub fn system_error(os_error: Option<i32>, words: String) -> (r: UpdateError)
    ensures
        r@ == system_fault(os_error, words@),
{
    if is_disk_full(os_error, words.as_str()) {
        UpdateError::DiskFull
    } else {
        UpdateError::Other(words)
    }
}

impl Fault {
    /// The fault in words.
    pub open spec fn words(self) -> Seq<char> {
        match self {
            Fault::InstallDeclined { message } => message,
            Fault::InstallFailed { log_path } => "install failed, see "@ + log_path,
            Fault::IntegrityMismatch { expected, got } => "expected "@ + expected + ", got "@ + got,
            Fault::DiskFull => "no space left on device"@,
            Fault::Timeout => "timed out"@,
            Fault::Other(words) => words,
        }
    }
}

impl UpdateError {
    /// The error in words.
    pub fn words(&self) -> (r: String)
        ensures
            r@ == self@.words(),
    {
        match self {
            UpdateError::InstallDeclined { message } => message.clone(),
            UpdateError::InstallFailed { log_path } => chars::concat(
                "install failed, see ",
                log_path.as_str(),
            ),
            UpdateError::IntegrityMismatch { expected, got } => {
                let head = chars::concat3("expected ", expected.as_str(), ", got ");
                chars::concat(head.as_str(), got.as_str())
            },
            UpdateError::DiskFull => "no space left on device".to_string(),
            UpdateError::Timeout => "timed out".to_string(),
            UpdateError::Other(words) => words.clone(),
        }
    }
}

/// An error together with what was being done when it came up.
#[derive(Clone, Debug, PartialEq, Eq)]
pub struct UpdateFailure {
    pub error: UpdateError,
    pub context: Option<String>,
}

/// An [`UpdateFailure`] as a mathematical value.
pub struct Failure {
    pub error: Fault,
    pub context: Option<Seq<char>>,
}

impl View for UpdateFailure {
    type V = Failure;

    open spec fn view(&self) -> Failure {
        Failure {
            error: self.error@,
            context: match self.context {
                Some(c) => Some(c@),
                None => None,
            },
        }
    }
}

impl Failure {
    /// The failure in words: what was being done comes first.
    pub open spec fn words(self) -> Seq<char> {
        match self.context {
            Some(c) => c + ": "@ + self.error.words(),
            None => self.error.words(),
        }
    }
}

impl UpdateFailure {
    /// The failure in words.
    pub fn words(&self) -> (r: String)
        ensures
            r@ == self@.words(),
    {
        let fault = self.error.words();
        match &self.context {
            Some(c) => chars::concat3(c.as_str(), ": ", fault.as_str()),
            None => fault,
        }
    }

    /// The failure `error`, with nothing said about what was being done.
    pub fn bare(error: UpdateError) -> (r: UpdateFailure)
        ensures
            r@ == (Failure { error: error@, context: None }),
    {
        UpdateFailure { error, context: None }
    }
}

/// A disk is full if the system's number says so, or if its words do, in capitals or
/// not; every other error of the system is told in the words that came with it.
pub proof fn full_disks_are_told_apart(
    os_error: Option<i32>,
    words: Seq<char>,
    head: Seq<char>,
    tail: Seq<char>,
)
    ensures
        system_fault(Some(28), words) == Fault::DiskFull,
        chars::lower(words) == head + "no space left on device"@ + tail ==> system_fault(
            os_error,
            words,
        ) == Fault::DiskFull,
        os_error != Some(28i32) && !chars::occurs(chars::lower(words), "no space left on device"@)
            ==> system_fault(os_error, words) == Fault::Other(words),
{
    if chars::lower(words) == head + "no space left on device"@ + tail {
        chars::occurrences_are_inner_texts(chars::lower(words), "no space left on device"@);
    }
}

/// What an error says holds what it knows: the message, the log, what was expected and
/// what came. Where there is more to say of it, that comes first.
pub proof fn errors_say_what_they_know(a: Seq<char>, b: Seq<char>, error: Fault, context: Seq<char>)
    ensures
        (Fault::InstallDeclined { message: a }).words() == a,
        (Fault::InstallFailed { log_path: a }).words() == "install failed, see "@ + a,
        (Fault::IntegrityMismatch { expected: a, got: b }).words() == "expected "@ + a + ", got "@
            + b,
        Fault::DiskFull.words() == "no space left on device"@,
        Fault::Timeout.words() == "timed out"@,
        Fault::Other(a).words() == a,
        (Failure { error, context: None }).words() == error.words(),
        (Failure { error, context: Some(context) }).words() == context + ": "@ + error.words(),
{
}

} // verus!
