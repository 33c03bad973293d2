//! What becomes of a terminal whose engine does not start.

use vstd::prelude::*;

use crate::text::chars;
use crate::text::number;

verus! {

/// How far the start of a terminal came.
#[derive(Clone, Copy, Debug, PartialEq, Eq, Structural)]
pub enum TerminalBackendFailurePhase {
    Initialization,
    OpenPty,
    Spawn,
    PostSpawn,
}

/// The reason that a failed start is reported with.
#[derive(Clone, Copy, Debug, PartialEq, Eq, Structural)]
pub enum TerminalBackendFailureReason {
    GhosttyInitializationFailed,
    GhosttyOpenPtyFailed,
    GhosttySpawnFailed,
    GhosttyPostSpawnFailed,
}

/// What is known of a failed start.
#[derive(Clone, Copy, Debug, PartialEq, Eq, Structural)]
pub struct TerminalBackendFailureDiagnostics {
    pub phase: TerminalBackendFailurePhase,
    pub reason_code: TerminalBackendFailureReason,
    /// The error number of the operating system, if there is one.
    pub os_error: Option<i32>,
}

/// How the start of the engine failed; each with the error number of the
/// operating system, if there is one.
#[derive(Clone, Copy, Debug, PartialEq, Eq, Structural)]
pub enum GhosttyStartError {
    Initialization { os_error: Option<i32> },
    OpenPty { os_error: Option<i32> },
    Spawn { os_error: Option<i32> },
    /// A child was there already.
    PostSpawn { child_pid: u32, os_error: Option<i32> },
}

/// Where a failed start leaves the pane.
#[derive(Clone, Copy, Debug, PartialEq, Eq, Structural)]
pub struct GhosttyStartFailure {
    /// The child, if there was one already.
    pub child_pid: Option<u32>,
    pub diagnostics: TerminalBackendFailureDiagnostics,
}

/// The phase, the reason and the child of a failed start.
pub fn classify_ghostty_start_error(error: GhosttyStartError) -> (r: GhosttyStartFailure)
    ensures
        r == (match error {
            GhosttyStartError::Initialization { os_error } => GhosttyStartFailure {
                child_pid: None,
                diagnostics: TerminalBackendFailureDiagnostics {
                    phase: TerminalBackendFailurePhase::Initialization,
                    reason_code: TerminalBackendFailureReason::GhosttyInitializationFailed,
                    os_error,
                },
            },
            GhosttyStartError::OpenPty { os_error } => GhosttyStartFailure {
                child_pid: None,
                diagnostics: TerminalBackendFailureDiagnostics {
                    phase: TerminalBackendFailurePhase::OpenPty,
                    reason_code: TerminalBackendFailureReason::GhosttyOpenPtyFailed,
                    os_error,
                },
            },
            GhosttyStartError::Spawn { os_error } => GhosttyStartFailure {
                child_pid: None,
                diagnostics: TerminalBackendFailureDiagnostics {
                    phase: TerminalBackendFailurePhase::Spawn,
                    reason_code: TerminalBackendFailureReason::GhosttySpawnFailed,
                    os_error,
                },
            },
            GhosttyStartError::PostSpawn { child_pid, os_error } => GhosttyStartFailure {
                child_pid: Some(child_pid),
                diagnostics: TerminalBackendFailureDiagnostics {
                    phase: TerminalBackendFailurePhase::PostSpawn,
                    reason_code: TerminalBackendFailureReason::GhosttyPostSpawnFailed,
                    os_error,
                },
            },
        }),
{
    let (phase, reason_code, child_pid, os_error) = match error {
        GhosttyStartError::Initialization { os_error } => (
            TerminalBackendFailurePhase::Initialization,
            TerminalBackendFailureReason::GhosttyInitializationFailed,
            None,
            os_error,
        ),
        GhosttyStartError::OpenPty { os_error } => (
            TerminalBackendFailurePhase::OpenPty,
            TerminalBackendFailureReason::GhosttyOpenPtyFailed,
            None,
            os_error,
        ),
        GhosttyStartError::Spawn { os_error } => (
            TerminalBackendFailurePhase::Spawn,
            TerminalBackendFailureReason::GhosttySpawnFailed,
            None,
            os_error,
        ),
        GhosttyStartError::PostSpawn { child_pid, os_error } => (
            TerminalBackendFailurePhase::PostSpawn,
            TerminalBackendFailureReason::GhosttyPostSpawnFailed,
            Some(child_pid),
            os_error,
        ),
    };
    GhosttyStartFailure {
        child_pid,
        diagnostics: TerminalBackendFailureDiagnostics { phase, reason_code, os_error },
    }
}

/// How loud a failed start is logged.
#[derive(Clone, Copy, Debug, PartialEq, Eq, Structural)]
pub enum FailureLevel {
    Error,
    Debug,
}

/// Claims the one report of a process: `true` for the first claim on a flag,
/// `false` for every later one.
pub fn claim_backend_failure_report(reported: &mut bool) -> (r: bool)
    ensures
        r == !*old(reported),
        *final(reported),
{
    let first = !*reported;
    *reported = true;
    first
}

/// How loud a failed start is logged, given whether one was reported before.
pub open spec fn level_after(reported: bool) -> FailureLevel {
    if reported {
        FailureLevel::Debug
    } else {
        FailureLevel::Error
    }
}

/// However many panes of a process fail, one failure is logged as an error: the
/// first. `flags` is what the flag of the process reads before each report and
/// after the last, and `levels` how loud each was logged.
pub proof fn one_failure_is_an_error(flags: Seq<bool>, levels: Seq<FailureLevel>, i: int)
    requires
        flags.len() == levels.len() + 1,
        !flags[0],
        forall|j: int|
            0 <= j < levels.len() ==> logged(flags[j], #[trigger] levels[j], flags[j + 1]),
        0 <= i < levels.len(),
    ensures
        levels[i] == FailureLevel::Error <==> i == 0,
{
    if i > 0 {
        assert(logged(flags[i - 1], levels[i - 1], flags[i - 1 + 1]));
    }
    assert(logged(flags[i], levels[i], flags[i + 1]));
}

/// Whether a failed start is logged as loud as it has to be, when the flag of
/// the process reads `before` and then `after`: a report is never taken back.
pub open spec fn logged(before: bool, level: FailureLevel, after: bool) -> bool {
    level == level_after(before) && after
}

/// How loud this failed start is logged: the first of a process as an error,
/// every later one for debugging only.
pub fn backend_failure_level(reported: &mut bool) -> (r: FailureLevel)
    ensures
        logged(*old(reported), r, *final(reported)),
{
    if claim_backend_failure_report(reported) {
        FailureLevel::Error
    } else {
        FailureLevel::Debug
    }
}

/// An optional error number in words.
pub open spec fn error_number(os_error: Option<i32>) -> Seq<char> {
    match os_error {
        Some(n) => "Some("@ + number::signed_decimal(n as int) + ")"@,
        None => "None"@,
    }
}

/// What a pane shows whose engine did not start.
pub open spec fn failure_notice(
    phase: Seq<char>,
    reason_code: Seq<char>,
    os_error: Option<i32>,
) -> Seq<char> {
    "\x1b[1;31mError\x1b[0m: failed to start the terminal.\r\n\r\nCommon causes:\r\n   - PTY pool exhausted\r\n   - Shell binary not found ($SHELL / default_shell)\r\n   - Permission denied on /dev/ptmx\r\n\r\n\x1b[2mfailure_phase="@
        + phase + " reason_code="@ + reason_code + " os_error="@ + error_number(os_error)
        + "\x1b[0m\r\n"@
}

/// What a pane shows whose engine did not start, with the names of the phase
/// and the reason.
pub fn spawn_error_message(phase: &str, reason_code: &str, os_error: Option<i32>) -> (r: String)
    ensures
        r@ == failure_notice(phase@, reason_code@, os_error),
{
    let code = match os_error {
        Some(n) => {
            let digits = number::to_signed_decimal(n);
            chars::concat3("Some(", digits.as_str(), ")")
        },
        None => "None".to_string(),
    };
    let head = chars::concat3(
        "\x1b[1;31mError\x1b[0m: failed to start the terminal.\r\n\r\nCommon causes:\r\n   - PTY pool exhausted\r\n   - Shell binary not found ($SHELL / default_shell)\r\n   - Permission denied on /dev/ptmx\r\n\r\n\x1b[2mfailure_phase=",
        phase,
        " reason_code=",
    );
    let middle = chars::concat3(head.as_str(), reason_code, " os_error=");
    chars::concat3(middle.as_str(), code.as_str(), "\x1b[0m\r\n")
}

/// The first failure is told as an error and those after it are not, and every one of
/// them leaves the report claimed.
pub proof fn first_failures_are_errors(before: bool, level: FailureLevel, after: bool)
    ensures
        logged(before, level, after) ==> after,
        logged(before, level, after) ==> (level == FailureLevel::Error <==> !before),
        logged(false, FailureLevel::Error, true),
        logged(true, FailureLevel::Debug, true),
        !logged(false, FailureLevel::Debug, true),
        !logged(true, FailureLevel::Error, true),
{
}

/// The number of the system's error stands in the notice if there is one.
pub proof fn notices_name_the_error(phase: Seq<char>, reason_code: Seq<char>, n: i32)
    ensures
        error_number(None) == "None"@,
        n >= 0 ==> error_number(Some(n)) == "Some("@ + number::decimal(n as nat) + ")"@,
        n < 0 ==> error_number(Some(n)) == "Some("@ + (seq!['-'] + number::decimal((-n) as nat))
            + ")"@,
        exists|head: Seq<char>|
            failure_notice(phase, reason_code, Some(n)) == #[trigger] (head + phase
                + " reason_code="@ + reason_code + " os_error="@ + error_number(Some(n))
                + "\x1b[0m\r\n"@),
        exists|head: Seq<char>|
            failure_notice(phase, reason_code, None) == #[trigger] (head + phase + " reason_code="@
                + reason_code + " os_error="@ + error_number(None) + "\x1b[0m\r\n"@),
{
    let head =
        "\x1b[1;31mError\x1b[0m: failed to start the terminal.\r\n\r\nCommon causes:\r\n   - PTY pool exhausted\r\n   - Shell binary not found ($SHELL / default_shell)\r\n   - Permission denied on /dev/ptmx\r\n\r\n\x1b[2mfailure_phase="@;
    assert(failure_notice(phase, reason_code, Some(n)) =~= head + phase + " reason_code="@
        + reason_code + " os_error="@ + error_number(Some(n)) + "\x1b[0m\r\n"@);
    assert(failure_notice(phase, reason_code, None) =~= head + phase + " reason_code="@
        + reason_code + " os_error="@ + error_number(None) + "\x1b[0m\r\n"@);
}

} // verus!
