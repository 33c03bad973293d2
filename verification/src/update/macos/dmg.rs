//! The rules of the disk-image update: where a bundle may be replaced, which
//! names the pieces have, and what the native tools' answers mean.

use vstd::prelude::*;

use crate::path;
use crate::text::chars;
use crate::text::classes;
use crate::text::number;
use crate::update::error;
use crate::update::error::UpdateError;
use crate::update::error::UpdateFailure;

verus! {

/// Seconds for name lookup, connection and request headers of the download.
pub const DMG_HTTP_CONNECT_TIMEOUT: u64 = 30;

/// Seconds for the body of the download.
pub const DMG_HTTP_BODY_TIMEOUT: u64 = 900;

/// Seconds for one run of a native installer tool.
pub const NATIVE_INSTALLER_TIMEOUT: u64 = 600;

/// Seconds for the clean-up tools.
pub const NATIVE_DETACH_TIMEOUT: u64 = 60;

/// How much of a tool's output is kept.
pub const NATIVE_STDOUT_CAP: u64 = 65536;

/// The largest disk image that is downloaded.
pub const MAX_DMG_BYTES: u64 = 524288000;

/// Whether a bundle lies directly under `/Applications` or under the
/// `Applications` directory of `home`.
pub open spec fn expected_location(bundle: Seq<char>, home: Seq<char>) -> bool {
    match path::parse(bundle).parent() {
        Some(parent) => parent == path::parse("/Applications"@) || parent == path::parse(
            path::join_text(home, "Applications"@),
        ),
        None => false,
    }
}

/// Whether a bundle lies where it may be replaced.
pub fn is_expected_bundle_location(bundle_path: &str, home: &str) -> (r: bool)
    ensures
        r == expected_location(bundle_path@, home@),
{
    match path::parts(bundle_path).parent() {
        Some(parent) => {
            let own = path::join(home, "Applications");
            parent.same(&path::parts("/Applications")) || parent.same(&path::parts(own.as_str()))
        },
        None => false,
    }
}

/// Whether a path lies in a quarantine sandbox.
pub open spec fn translocated(p: Seq<char>) -> bool {
    chars::occurs(p, "/AppTranslocation/"@) || chars::occurs(p, "/var/folders/"@)
}

/// Whether `p` lies in a quarantine sandbox, where macOS runs an app that was
/// started from where it was downloaded to.
pub fn is_translocated_path(p: &str) -> (r: bool)
    ensures
        r == translocated(p@),
{
    chars::contains(p, "/AppTranslocation/") || chars::contains(p, "/var/folders/")
}

/// What a user is told whose bundle cannot be replaced where it lies.
pub open spec fn location_advice(bundle: Seq<char>) -> Seq<char> {
    if translocated(bundle) {
        "PaneFlow is running translocated from a quarantine sandbox ("@ + bundle
            + "), so in-app updates are disabled. Move PaneFlow.app into /Applications (drag it there in Finder) and reopen it."@
    } else {
        "PaneFlow is installed at an unexpected location ("@ + bundle
            + "); reinstall from the DMG into /Applications or ~/Applications to enable in-app updates."@
    }
}

/// Refuses to replace a bundle outside the two expected places.
pub fn check_bundle_location(bundle_path: &str, home: &str) -> (r: Result<(), UpdateError>)
    ensures
        match r {
            Ok(_) => expected_location(bundle_path@, home@),
            Err(e) => !expected_location(bundle_path@, home@) && e@
                == (error::Fault::InstallDeclined { message: location_advice(bundle_path@) }),
        },
{
    if is_expected_bundle_location(bundle_path, home) {
        return Ok(());
    }
    let message = if is_translocated_path(bundle_path) {
        chars::concat3(
            "PaneFlow is running translocated from a quarantine sandbox (",
            bundle_path,
            "), so in-app updates are disabled. Move PaneFlow.app into /Applications (drag it there in Finder) and reopen it.",
        )
    } else {
        chars::concat3(
            "PaneFlow is installed at an unexpected location (",
            bundle_path,
            "); reinstall from the DMG into /Applications or ~/Applications to enable in-app updates.",
        )
    };
    Err(UpdateError::InstallDeclined { message })
}

/// The directory that disk images are downloaded to: under the user's cache
/// directory, or under `~/Library/Caches` where none is known.
pub fn dmg_cache_dir(home: &str, cache_dir: Option<&str>, app_subdir: &str) -> (r: String)
    ensures
        r@ == path::join_text(
            match cache_dir {
                Some(c) => c@,
                None => path::join_text(path::join_text(home@, "Library"@), "Caches"@),
            },
            app_subdir@,
        ),
{
    match cache_dir {
        Some(c) => path::join(c, app_subdir),
        None => {
            let library = path::join(home, "Library");
            let caches = path::join(library.as_str(), "Caches");
            path::join(caches.as_str(), app_subdir)
        },
    }
}

/// Where the disk image of process `pid` is downloaded to.
pub fn dmg_path(cache_dir: &str, pid: u32) -> (r: String)
    ensures
        r@ == path::join_text(
            cache_dir@,
            "update-"@ + number::decimal(pid as nat) + ".dmg"@,
        ),
{
    let id = number::to_decimal(pid as u64);
    let name = chars::concat3("update-", id.as_str(), ".dmg");
    path::join(cache_dir, name.as_str())
}

/// Where process `pid` mounts its disk image.
pub fn mount_point(pid: u32) -> (r: String)
    ensures
        r@ == "/private/tmp/paneflow-update-"@ + number::decimal(pid as nat) + ".mount"@,
{
    let id = number::to_decimal(pid as u64);
    chars::concat3("/private/tmp/paneflow-update-", id.as_str(), ".mount")
}

/// The Team ID in `raw`, if there is one: an empty value stands for none.
pub open spec fn team_id(raw: Option<&str>) -> Option<Seq<char>> {
    if raw matches Some(t) && classes::trimmed(t@).len() > 0 {
        Some(classes::trimmed(raw->Some_0@))
    } else {
        None
    }
}

/// The Team ID in `raw`, if there is one.
pub fn nonempty_team_id(raw: Option<&str>) -> (r: Option<String>)
    ensures
        match r {
            Some(id) => team_id(raw) == Some(id@),
            None => team_id(raw) is None,
        },
{
    match raw {
        Some(t) => {
            let id = classes::trim(t);
            if id.as_str().is_empty() {
                None
            } else {
                Some(id)
            }
        },
        None => None,
    }
}

/// The refusal of a build that names no signer.
pub open spec fn no_team_id() -> error::Fault {
    error::Fault::IntegrityMismatch {
        expected: "valid macOS code signature"@,
        got:
            "no Apple Team ID embedded in this build - refusing to install an unverifiable update"@,
    }
}

/// The Team ID that a bundle has to be signed with. A build without one
/// verifies nothing, so it refuses.
pub fn require_apple_team_id(raw: Option<&str>) -> (r: Result<String, UpdateError>)
    ensures
        match r {
            Ok(id) => team_id(raw) == Some(id@),
            Err(e) => team_id(raw) is None && e@ == no_team_id(),
        },
{
    match nonempty_team_id(raw) {
        Some(id) => Ok(id),
        None => Err(
            UpdateError::IntegrityMismatch {
                expected: "valid macOS code signature".to_string(),
                got:
                    "no Apple Team ID embedded in this build - refusing to install an unverifiable update".to_string(),
            },
        ),
    }
}

/// The `codesign` argument that pins the signer, in the attached form: as an
/// argument of its own the requirement would be taken for a file.
pub fn team_id_requirement_arg(team_id: &str) -> (r: String)
    ensures
        r@ == "-R=anchor apple generic and certificate leaf[subject.OU] = \""@ + team_id@ + "\""@,
{
    chars::concat3(
        "-R=anchor apple generic and certificate leaf[subject.OU] = \"",
        team_id,
        "\"",
    )
}

/// One run of a native tool: the bundle comes after the arguments.
#[derive(Clone, Debug, PartialEq, Eq)]
pub struct ToolRun {
    pub tool: String,
    pub args: Vec<String>,
}

/// A [`ToolRun`] as a mathematical value.
pub struct Run {
    pub tool: Seq<char>,
    pub args: Seq<Seq<char>>,
}

impl View for ToolRun {
    type V = Run;

    open spec fn view(&self) -> Run {
        Run { tool: self.tool@, args: crate::text::split::texts(self.args@) }
    }
}

/// The runs that prove a bundle, in order: the signature holds for every part
/// of it, the signer is the pinned one, and the system policy admits it.
pub open spec fn bundle_checks(id: Seq<char>) -> Seq<Run> {
    seq![
        Run {
            tool: "codesign"@,
            args: seq!["--verify"@, "--strict"@, "--deep"@, "--verbose=2"@],
        },
        Run {
            tool: "codesign"@,
            args: seq![
                "--verify"@,
                "-R=anchor apple generic and certificate leaf[subject.OU] = \""@ + id + "\""@,
            ],
        },
        Run { tool: "spctl"@, args: seq!["--assess"@, "--type"@, "execute"@] },
    ]
}

/// The runs that prove a bundle, or the refusal of a build without a Team ID.
/// Nothing is run in that case.
pub fn verification_plan(embedded_team_id: Option<&str>) -> (r: Result<
    Vec<ToolRun>,
    UpdateError,
>)
    ensures
        match r {
            Ok(runs) => team_id(embedded_team_id) matches Some(id) && runs@.map_values(
                |t: ToolRun| t@,
            ) == bundle_checks(id),
            Err(e) => team_id(embedded_team_id) is None && e@ == no_team_id(),
        },
{
    let id = match require_apple_team_id(embedded_team_id) {
        Ok(id) => id,
        Err(e) => {
            return Err(e);
        },
    };
    let pin = team_id_requirement_arg(id.as_str());
    let whole = ToolRun {
        tool: "codesign".to_string(),
        args: vec![
            "--verify".to_string(),
            "--strict".to_string(),
            "--deep".to_string(),
            "--verbose=2".to_string(),
        ],
    };
    let signer = ToolRun {
        tool: "codesign".to_string(),
        args: vec!["--verify".to_string(), pin],
    };
    let policy = ToolRun {
        tool: "spctl".to_string(),
        args: vec!["--assess".to_string(), "--type".to_string(), "execute".to_string()],
    };
    proof {
        let e = bundle_checks(id@);
        assert(whole@.args =~= e[0].args);
        assert(signer@.args =~= e[1].args);
        assert(policy@.args =~= e[2].args);
    }
    let runs = vec![whole, signer, policy];
    assert(runs@.map_values(|t: ToolRun| t@) =~= bundle_checks(id@));
    Ok(runs)
}

/// What a nonzero exit of a verification tool means.
pub fn rejected_by(tool: &str, stderr: &str) -> (r: UpdateError)
    ensures
        r@ == (error::Fault::IntegrityMismatch {
            expected: "valid macOS code signature"@,
            got: tool@ + " rejected the bundle: "@ + classes::trimmed(stderr@),
        }),
{
    let words = classes::trim(stderr);
    UpdateError::IntegrityMismatch {
        expected: "valid macOS code signature".to_string(),
        got: chars::concat3(tool, " rejected the bundle: ", words.as_str()),
    }
}

/// The two places beside a bundle that a swap goes through.
pub open spec fn staging(install: Seq<char>) -> Option<(Seq<char>, Seq<char>)> {
    let p = path::parse(install);
    match (p.parent(), p.file_name()) {
        (Some(parent), Some(name)) => {
            let dir = path::render(parent);
            Some((path::join_text(dir, name + ".old"@), path::join_text(dir, name + ".new"@)))
        },
        _ => None,
    }
}

/// The places beside the bundle for what was installed and for what comes in.
pub fn staging_dirs(install_dir: &str) -> (r: Result<(String, String), UpdateError>)
    ensures
        match r {
            Ok(d) => staging(install_dir@) == Some((d.0@, d.1@)),
            Err(e) => staging(install_dir@) is None && e@ == error::Fault::Other(
                if path::parse(install_dir@).parent() is None {
                    "install_dir has no parent - refusing to swap at filesystem root"@
                } else {
                    "install_dir has no file name - refusing to swap"@
                },
            ),
        },
{
    let parts = path::parts(install_dir);
    let dir = match parts.parent() {
        Some(parent) => parent.to_text(),
        None => {
            return Err(
                UpdateError::Other(
                    "install_dir has no parent - refusing to swap at filesystem root".to_string(),
                ),
            );
        },
    };
    match parts.file_name() {
        Some(name) => {
            let old_name = chars::concat(name, ".old");
            let new_name = chars::concat(name, ".new");
            Ok((path::join(dir.as_str(), old_name.as_str()), path::join(dir.as_str(), new_name.as_str())))
        },
        None => Err(
            UpdateError::Other("install_dir has no file name - refusing to swap".to_string()),
        ),
    }
}

/// The name that the bundle has inside the disk image: that of the installed
/// one.
pub fn bundle_file_name(install_dir: &str) -> (r: Result<String, UpdateError>)
    ensures
        match r {
            Ok(n) => path::parse(install_dir@).file_name() == Some(n@),
            Err(e) => path::parse(install_dir@).file_name() is None && e@ == error::Fault::Other(
                "install_dir has no file name - cannot locate the bundle inside the DMG"@,
            ),
        },
{
    match path::parts(install_dir).file_name() {
        Some(n) => Ok(n.to_string()),
        None => Err(
            UpdateError::Other(
                "install_dir has no file name - cannot locate the bundle inside the DMG".to_string(),
            ),
        ),
    }
}

/// Whether a file system error says that the place may not be written to.
pub open spec fn write_refused(raw: Seq<char>) -> bool {
    let l = chars::lower(raw);
    ||| chars::occurs(l, "permission denied"@)
    ||| chars::occurs(l, "operation not permitted"@)
    ||| chars::occurs(l, "read-only file system"@)
}

/// What a file system error means for the update: a place that may not be
/// written to declines the install, a full disk is told as such, and everything
/// else is passed on in words.
pub open spec fn filesystem_failure(raw: Seq<char>, context: Seq<char>) -> error::Failure {
    if write_refused(raw) {
        error::Failure {
            error: error::Fault::InstallDeclined {
                message:
                    "Unable to replace PaneFlow.app in its install location - reinstall manually from the DMG."@,
            },
            context: Some(context + ": "@ + classes::trimmed(raw)),
        }
    } else if error::disk_full(None, raw) {
        error::Failure {
            error: error::Fault::DiskFull,
            context: Some(context + ": "@ + classes::trimmed(raw)),
        }
    } else {
        error::Failure {
            error: error::Fault::Other(context + " - "@ + classes::trimmed(raw)),
            context: None,
        }
    }
}

/// What a file system error, met while doing `context`, means for the update.
pub fn classify_filesystem_error(raw: &str, context: &str) -> (r: UpdateFailure)
    ensures
        r@ == filesystem_failure(raw@, context@),
{
    let lower = chars::to_lower(raw);
    let words = classes::trim(raw);
    if chars::contains(lower.as_str(), "permission denied") || chars::contains(
        lower.as_str(),
        "operation not permitted",
    ) || chars::contains(lower.as_str(), "read-only file system") {
        return UpdateFailure {
            error: UpdateError::InstallDeclined {
                message:
                    "Unable to replace PaneFlow.app in its install location - reinstall manually from the DMG.".to_string(),
            },
            context: Some(chars::concat3(context, ": ", words.as_str())),
        };
    }
    if error::is_disk_full(None, raw) {
        return UpdateFailure {
            error: UpdateError::DiskFull,
            context: Some(chars::concat3(context, ": ", words.as_str())),
        };
    }
    UpdateFailure::bare(UpdateError::Other(chars::concat3(context, " - ", words.as_str())))
}

/// How a native tool can fail to run to its end.
#[derive(Clone, Debug, PartialEq, Eq)]
pub enum ProcError {
    Timeout,
    Spawn(String),
    Wait(String),
}

/// What it means that the tool run named `label` did not come to its end.
pub open spec fn tool_failure(err: ProcError, label: Seq<char>) -> error::Failure {
    match err {
        ProcError::Timeout => error::Failure {
            error: error::Fault::Timeout,
            context: Some(label + " timed out"@),
        },
        ProcError::Spawn(e) => error::Failure {
            error: error::system_fault(None, e@),
            context: Some("spawn "@ + label),
        },
        ProcError::Wait(e) => error::Failure {
            error: error::system_fault(None, e@),
            context: Some("wait for "@ + label),
        },
    }
}

/// What it means that the tool run named `label` did not come to its end.
pub fn native_command_failure(err: ProcError, label: &str) -> (r: UpdateFailure)
    ensures
        r@ == tool_failure(err, label@),
{
    match err {
        ProcError::Timeout => UpdateFailure {
            error: UpdateError::Timeout,
            context: Some(chars::concat(label, " timed out")),
        },
        ProcError::Spawn(e) => UpdateFailure {
            error: error::system_error(None, e),
            context: Some(chars::concat("spawn ", label)),
        },
        ProcError::Wait(e) => UpdateFailure {
            error: error::system_error(None, e),
            context: Some(chars::concat("wait for ", label)),
        },
    }
}

/// What the end of `hdiutil attach` means: it has to say success and the mount
/// point has to be there.
pub fn attach_outcome(
    success: bool,
    status: &str,
    stderr: &str,
    target_exists: bool,
    target: &str,
) -> (r: Result<(), UpdateError>)
    ensures
        match r {
            Ok(_) => success && target_exists,
            Err(e) => e@ == error::Fault::Other(
                if !success {
                    "hdiutil attach failed (status "@ + status@ + "): "@ + classes::trimmed(stderr@)
                } else {
                    "hdiutil attach claimed success but "@ + target@ + " does not exist"@
                },
            ) && !(success && target_exists),
        },
{
    if !success {
        let head = chars::concat3("hdiutil attach failed (status ", status, "): ");
        let words = classes::trim(stderr);
        return Err(UpdateError::Other(chars::concat(head.as_str(), words.as_str())));
    }
    if !target_exists {
        return Err(
            UpdateError::Other(
                chars::concat3(
                    "hdiutil attach claimed success but ",
                    target,
                    " does not exist",
                ),
            ),
        );
    }
    Ok(())
}

/// What a nonzero exit of `cp -R source dest` means.
pub fn copy_failure(stderr: &str, source: &str, dest: &str) -> (r: UpdateFailure)
    ensures
        r@ == filesystem_failure(stderr@, "copy "@ + source@ + " \u{2192} "@ + dest@),
{
    let head = chars::concat3("copy ", source, " \u{2192} ");
    let context = chars::concat(head.as_str(), dest);
    classify_filesystem_error(stderr, context.as_str())
}

/// A bundle may be replaced in the directory of all users' applications or in that of
/// the user's own, and nowhere else; what it is called does not matter.
pub proof fn bundles_are_replaced_in_two_places(home: Seq<char>, dir: Seq<char>, name: Seq<char>)
    requires
        home.len() > 0,
        home.last() != '/',
        dir.len() > 0,
        name.len() > 0,
        forall|i: int| 0 <= i < name.len() ==> name[i] != '/',
        name != seq!['.'],
    ensures
        expected_location(dir + seq!['/'] + name, home) <==> path::parse(dir) == path::parse(
            "/Applications"@,
        ) || path::parse(dir) == path::parse(home + "/Applications"@),
{
    reveal_strlit("Applications");
    reveal_strlit("/Applications");
    path::files_lie_in_their_parents(dir, name);
    path::joining_puts_one_slash(home, "Applications"@);
    assert(home + seq!['/'] + "Applications"@ =~= home + "/Applications"@);
}

/// A bundle runs from a quarantine if its path goes through one of the system's two
/// places for that.
pub proof fn quarantines_are_known_by_their_path(head: Seq<char>, tail: Seq<char>, p: Seq<char>)
    ensures
        translocated(head + "/AppTranslocation/"@ + tail),
        translocated(head + "/var/folders/"@ + tail),
        translocated(p) ==> chars::occurs(p, "/AppTranslocation/"@) || chars::occurs(
            p,
            "/var/folders/"@,
        ),
{
    chars::occurrences_are_inner_texts(
        head + "/AppTranslocation/"@ + tail,
        "/AppTranslocation/"@,
    );
    chars::occurrences_are_inner_texts(head + "/var/folders/"@ + tail, "/var/folders/"@);
}

/// The advice names the bundle, and fits where it lies.
pub proof fn advice_fits_the_place(bundle: Seq<char>)
    ensures
        translocated(bundle) ==> location_advice(bundle)
            == "PaneFlow is running translocated from a quarantine sandbox ("@ + bundle
            + "), so in-app updates are disabled. Move PaneFlow.app into /Applications (drag it there in Finder) and reopen it."@,
        !translocated(bundle) ==> location_advice(bundle)
            == "PaneFlow is installed at an unexpected location ("@ + bundle
            + "); reinstall from the DMG into /Applications or ~/Applications to enable in-app updates."@,
{
}

/// The team is the one that was built in, without white space around it; a blank one is
/// none.
pub proof fn blank_teams_are_none(raw: &str)
    ensures
        team_id(None) is None,
        team_id(Some(raw)) is Some ==> team_id(Some(raw))->Some_0.len() > 0 && team_id(Some(raw))
            == Some(classes::trimmed(raw@)),
        classes::blank(raw@) ==> team_id(Some(raw)) is None,
        !classes::blank(raw@) ==> team_id(Some(raw)) is Some,
{
    classes::trimming_takes_the_white_ends(raw@);
    let t = classes::trimmed(raw@);
    let (a, b) = choose|a: Seq<char>, b: Seq<char>|
        raw@ == #[trigger] (a + t + b) && (forall|i: int|
            0 <= i < a.len() ==> classes::whitespace(#[trigger] a[i])) && (forall|i: int|
            0 <= i < b.len() ==> classes::whitespace(#[trigger] b[i]));
    if t.len() > 0 {
        assert(raw@[a.len() as int] == t[0]);
    } else {
        assert forall|i: int| 0 <= i < raw@.len() implies classes::whitespace(
            #[trigger] raw@[i],
        ) by {
            if i < a.len() {
                assert(a[i] == raw@[i]);
            } else {
                assert(b[i - a.len()] == raw@[i]);
            }
        }
    }
}

/// A bundle passes three checks before it is used: its own signature, in depth; that the
/// signature is the team's; and the system's judgement.
pub proof fn bundles_pass_three_checks(id: Seq<char>)
    ensures
        bundle_checks(id).len() == 3,
        bundle_checks(id)[0] == (Run {
            tool: "codesign"@,
            args: seq!["--verify"@, "--strict"@, "--deep"@, "--verbose=2"@],
        }),
        bundle_checks(id)[1] == (Run {
            tool: "codesign"@,
            args: seq![
                "--verify"@,
                "-R=anchor apple generic and certificate leaf[subject.OU] = \""@ + id + "\""@,
            ],
        }),
        bundle_checks(id)[2] == (Run {
            tool: "spctl"@,
            args: seq!["--assess"@, "--type"@, "execute"@],
        }),
        no_team_id() is IntegrityMismatch,
{
}

/// The old and the new bundle lie beside the installed one, under its name with an
/// ending of their own.
pub proof fn staged_bundles_lie_beside(dir: Seq<char>, name: Seq<char>)
    requires
        dir.len() > 0,
        name.len() > 0,
        forall|i: int| 0 <= i < name.len() ==> name[i] != '/',
        name != seq!['.'] && name != seq!['.', '.'],
    ensures
        ({
            let install = dir + seq!['/'] + name;
            &&& staging(install) is Some
            &&& path::parse(staging(install)->Some_0.0) == (path::Parts {
                names: path::parse(dir).names.push(name + ".old"@),
                ..path::parse(dir)
            })
            &&& path::parse(staging(install)->Some_0.1) == (path::Parts {
                names: path::parse(dir).names.push(name + ".new"@),
                ..path::parse(dir)
            })
        }),
{
    reveal_strlit(".old");
    reveal_strlit(".new");
    path::files_lie_in_their_parents(dir, name);
    path::lemma_parse_is_proper(dir);
    assert forall|j: int| 0 <= j < (name + ".old"@).len() implies (name + ".old"@)[j] != '/' by {
        if j < name.len() {
            assert((name + ".old"@)[j] == name[j]);
        }
    }
    assert forall|j: int| 0 <= j < (name + ".new"@).len() implies (name + ".new"@)[j] != '/' by {
        if j < name.len() {
            assert((name + ".new"@)[j] == name[j]);
        }
    }
    assert((name + ".old"@).len() > 1 && (name + ".new"@).len() > 1);
    path::joined_names_read_back(path::parse(dir), name + ".old"@);
    path::joined_names_read_back(path::parse(dir), name + ".new"@);
}

/// Writing was refused if one of the system's three ways to say so is in its words, in
/// capitals or not.
pub proof fn refusals_are_known_by_words(raw: Seq<char>, head: Seq<char>, tail: Seq<char>)
    ensures
        chars::lower(raw) == head + "permission denied"@ + tail ==> write_refused(raw),
        chars::lower(raw) == head + "operation not permitted"@ + tail ==> write_refused(raw),
        chars::lower(raw) == head + "read-only file system"@ + tail ==> write_refused(raw),
        write_refused(raw) ==> chars::occurs(chars::lower(raw), "permission denied"@)
            || chars::occurs(chars::lower(raw), "operation not permitted"@) || chars::occurs(
            chars::lower(raw),
            "read-only file system"@,
        ),
{
    let l = chars::lower(raw);
    chars::occurrences_are_inner_texts(l, "permission denied"@);
    chars::occurrences_are_inner_texts(l, "operation not permitted"@);
    chars::occurrences_are_inner_texts(l, "read-only file system"@);
}

/// A failure of the file system is told as a refusal, as a full disk or in its own words,
/// in this order. Either way what was tried is told, and what the system said, without
/// white space around it.
pub proof fn failures_of_the_disk_are_told_apart(raw: Seq<char>, context: Seq<char>)
    ensures
        ({
            let f = filesystem_failure(raw, context);
            let full = chars::occurs(chars::lower(raw), "no space left on device"@);
            &&& write_refused(raw) ==> f.error == (error::Fault::InstallDeclined {
                message:
                    "Unable to replace PaneFlow.app in its install location - reinstall manually from the DMG."@,
            })
            &&& !write_refused(raw) && full ==> f.error == error::Fault::DiskFull
            &&& write_refused(raw) || full ==> f.context == Some(
                context + ": "@ + classes::trimmed(raw),
            )
            &&& !write_refused(raw) && !full ==> f.error == error::Fault::Other(
                context + " - "@ + classes::trimmed(raw),
            ) && f.context is None
        }),
{
}

/// A tool that does not come back has timed out; one that cannot be started or waited for
/// fails with what the system said.
pub proof fn failures_of_tools_are_told_apart(words: String, label: Seq<char>)
    ensures
        tool_failure(ProcError::Timeout, label) == (error::Failure {
            error: error::Fault::Timeout,
            context: Some(label + " timed out"@),
        }),
        tool_failure(ProcError::Spawn(words), label).context == Some("spawn "@ + label),
        tool_failure(ProcError::Wait(words), label).context == Some("wait for "@ + label),
        tool_failure(ProcError::Spawn(words), label).error == tool_failure(
            ProcError::Wait(words),
            label,
        ).error,
        chars::occurs(chars::lower(words@), "no space left on device"@) ==> tool_failure(
            ProcError::Spawn(words),
            label,
        ).error == error::Fault::DiskFull,
        !chars::occurs(chars::lower(words@), "no space left on device"@) ==> tool_failure(
            ProcError::Spawn(words),
            label,
        ).error == error::Fault::Other(words@),
{
}

/// How long is waited, and how much is read.
pub proof fn waits_are_bounded()
    ensures
        DMG_HTTP_CONNECT_TIMEOUT == 30,
        DMG_HTTP_BODY_TIMEOUT == 15 * 60,
        NATIVE_INSTALLER_TIMEOUT == 10 * 60,
        NATIVE_DETACH_TIMEOUT == 60,
        NATIVE_STDOUT_CAP == 64 * 1024,
        MAX_DMG_BYTES == 500 * 1024 * 1024,
{
}

/// A build without a team cannot verify anything, and says so.
pub proof fn builds_without_a_team_say_so()
    ensures
        no_team_id().words() == "expected "@ + "valid macOS code signature"@ + ", got "@
            + "no Apple Team ID embedded in this build - refusing to install an unverifiable update"@,
{
}

} // verus!
