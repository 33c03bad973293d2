//! Shells: which one is launched, and the small scripts that let it report its
//! working directory and its commands.

use vstd::prelude::*;

use crate::path;
use crate::terminal::types;
use crate::text::chars;
use crate::text::split;

verus! {

/// The zsh integration, read as `.zshenv`: it puts the user's own directory of
/// dotfiles back, reports the working directory, marks prompts and commands, and
/// keeps the application's directory first in the search path.
pub const ZSH_OSC7: &'static str = r#"# PaneFlow shell integration - OSC 7 CWD reporting
if [[ -n "${PANEFLOW_ORIG_ZDOTDIR+x}" ]]; then
    ZDOTDIR="${PANEFLOW_ORIG_ZDOTDIR}"
    unset PANEFLOW_ORIG_ZDOTDIR
else
    unset ZDOTDIR
fi
[[ -f "${ZDOTDIR:-$HOME}/.zshenv" ]] && source "${ZDOTDIR:-$HOME}/.zshenv"
__paneflow_osc7() { printf '\e]7;file://%s%s\a' "${HOST}" "${PWD}"; }
__paneflow_path_prepend() {
    [[ -z "${PANEFLOW_BIN_DIR-}" ]] && return
    # Strip every existing occurrence then prepend, keeping our dir first
    # regardless of what `.zshrc`/`.zprofile` did. Uses zsh's `path` tied
    # array so the change propagates to `$PATH` automatically.
    path=("${PANEFLOW_BIN_DIR}" "${(@)path:#${PANEFLOW_BIN_DIR}}")
}
autoload -Uz add-zsh-hook
if [[ -o interactive ]]; then
    __paneflow_osc133_precmd() {
        local ret=$?
        if [[ -n "${__paneflow_cmd_ran-}" ]]; then
            printf '\e]133;D;%s\a' "${ret}"
            unset __paneflow_cmd_ran
        fi
        printf '\e]133;A\a'
    }
    __paneflow_osc133_preexec() {
        __paneflow_cmd_ran=1
        printf '\e]133;C\a'
    }
    add-zsh-hook precmd __paneflow_osc133_precmd
    add-zsh-hook preexec __paneflow_osc133_preexec
fi
add-zsh-hook chpwd __paneflow_osc7
add-zsh-hook precmd __paneflow_path_prepend
__paneflow_osc7
__paneflow_path_prepend
"#;

/// The bash integration, read as the rc file: it reads the user's own first, and
/// hooks itself in front of the user's prompt command.
pub const BASH_OSC7: &'static str = r#"# PaneFlow shell integration - OSC 7 CWD reporting
[[ -f ~/.bashrc ]] && source ~/.bashrc
__paneflow_osc7() { printf '\e]7;file://%s%s\a' "${HOSTNAME}" "${PWD}"; }
__paneflow_path_prepend() {
    [[ -z "${PANEFLOW_BIN_DIR-}" ]] && return
    local p=":${PATH}:"
    p="${p//:${PANEFLOW_BIN_DIR}:/:}"
    p="${p#:}"; p="${p%:}"
    PATH="${PANEFLOW_BIN_DIR}:${p}"
    export PATH
}
__paneflow_osc133_precmd() {
    local ret=$?
    if [[ "${HISTCMD-0}" != "${__paneflow_histcmd-}" ]]; then
        [[ -n "${__paneflow_histcmd-}" ]] && printf '\e]133;D;%s\a' "${ret}"
        __paneflow_histcmd="${HISTCMD-0}"
    fi
    printf '\e]133;A\a'
}
PS0=$'\e]133;C\a'"${PS0-}"
PROMPT_COMMAND="__paneflow_osc133_precmd;__paneflow_osc7;__paneflow_path_prepend${PROMPT_COMMAND:+;$PROMPT_COMMAND}"
__paneflow_path_prepend
"#;

/// The fish integration, sourced after the user's configuration.
pub const FISH_OSC7: &'static str = r#"# PaneFlow shell integration - OSC 7 CWD reporting
function __paneflow_osc7 --on-variable PWD
    printf '\e]7;file://%s%s\a' (hostname) "$PWD"
end
__paneflow_osc7
if set -q PANEFLOW_BIN_DIR; and test -n "$PANEFLOW_BIN_DIR"
    fish_add_path -gp $PANEFLOW_BIN_DIR
end
if status is-interactive
    function __paneflow_osc133_prompt --on-event fish_prompt
        printf '\e]133;A\a'
    end
    function __paneflow_osc133_preexec --on-event fish_preexec
        printf '\e]133;C\a'
    end
    function __paneflow_osc133_postexec --on-event fish_postexec
        printf '\e]133;D;%s\a' $status
    end
end
"#;

/// The PowerShell integration, dot-sourced after the user's profile: it wraps
/// the prompt that is there.
pub const PWSH_OSC7: &'static str = r#"# PaneFlow shell integration - OSC 7 CWD reporting (US-012)
# Non-destructive: wraps the existing `prompt` function so the user's
# prompt still renders. Loaded via `pwsh -NoExit -Command ". <this>"`.
# Dot-sourcing happens AFTER $PROFILE, so any user PATH mutations there
# have already run -- a one-shot prepend is sufficient. The `prompt`
# wrapper additionally re-asserts the prepend on every prompt for users
# who modify $env:PATH at runtime.

function global:__paneflow_path_prepend {
    if ([string]::IsNullOrEmpty($env:PANEFLOW_BIN_DIR)) { return }
    $sep = [System.IO.Path]::PathSeparator
    $entries = $env:PATH -split [regex]::Escape($sep) | Where-Object { $_ -ne $env:PANEFLOW_BIN_DIR }
    $env:PATH = (@($env:PANEFLOW_BIN_DIR) + $entries) -join $sep
}

function global:__paneflow_cwd_uri {
    $providerPath = (Get-Location).ProviderPath
    if ([string]::IsNullOrEmpty($providerPath)) { return $null }
    try {
        return ([System.Uri]$providerPath).AbsoluteUri
    } catch {
        return $null
    }
}

# PSReadLine owns the pre-exec boundary on PowerShell. Wrap its existing
# entry point after the user's profile has loaded so custom key handlers and
# prompt frameworks stay intact. The accepted line is returned unchanged.
if (-not $global:__paneflow_readline_wrapped -and (Test-Path function:PSConsoleHostReadLine)) {
    $global:__paneflow_prev_readline = $function:PSConsoleHostReadLine
    function global:PSConsoleHostReadLine {
        $__paneflow_line = & $global:__paneflow_prev_readline
        if (-not [string]::IsNullOrWhiteSpace([string]$__paneflow_line)) {
            [Console]::Write("$([char]27)]133;C$([char]7)")
        }
        $__paneflow_line
    }
    $global:__paneflow_readline_wrapped = $true
}

# Capture the CURRENT prompt as a ScriptBlock VALUE (snapshot) via
# `$function:prompt`, NOT `Get-Item function:prompt`. A FunctionInfo from
# Get-Item is a LIVE handle: its `.ScriptBlock` re-resolves to whatever
# `prompt` is at call time, which after we redefine `prompt` below is OUR
# wrapper -- so `& $prev.ScriptBlock` calls the wrapper again, recursing
# forever ("call depth overflow") and the prompt never renders. This bites
# hardest with Starship / oh-my-posh, which also redefine `prompt`. The
# $global:__paneflow_prompt_wrapped guard keeps a re-source from capturing
# our own wrapper as the "previous" prompt.
if (-not $global:__paneflow_prompt_wrapped) {
    $global:__paneflow_prev_prompt = $function:prompt
    function global:prompt {
        $__paneflow_ok = $?
        $__paneflow_last_exit = $global:LASTEXITCODE
        $__paneflow_history = (Get-History -Count 1).Id
        # Call the wrapped prompt FIRST, while $?/$LASTEXITCODE still reflect
        # the user's last command -- Starship / oh-my-posh read them to render
        # the exit-status segment. Our OSC 7 + PATH bookkeeping runs after.
        $global:LASTEXITCODE = $__paneflow_last_exit
        $__paneflow_out = if ($global:__paneflow_prev_prompt) { & $global:__paneflow_prev_prompt } else { "PS $($executionContext.SessionState.Path.CurrentLocation)> " }
        if ($null -ne $global:__paneflow_previous_history -and $__paneflow_history -ne $global:__paneflow_previous_history) {
            $__paneflow_code = if ($__paneflow_ok) { 0 } elseif ($null -ne $__paneflow_last_exit) { $__paneflow_last_exit } else { 1 }
            [Console]::Write("$([char]27)]133;D;$__paneflow_code$([char]7)")
        }
        $global:__paneflow_previous_history = $__paneflow_history
        [Console]::Write("$([char]27)]133;A$([char]7)")
        # OSC 7 with BEL terminator (matches zsh/bash/fish emitters). Use
        # [char]27 instead of `e: Windows PowerShell 5.1 treats `e as a
        # literal "e", which leaks "e]7;..." into the terminal.
        $__paneflow_cwd_uri = __paneflow_cwd_uri
        if ($__paneflow_cwd_uri) {
            [Console]::Write("$([char]27)]7;$__paneflow_cwd_uri$([char]7)")
        }
        __paneflow_path_prepend
        $__paneflow_out
    }
    $global:__paneflow_prompt_wrapped = $true
}
__paneflow_path_prepend
"#;

/// What kind of work a terminal is opened for.
#[derive(Clone, Copy, Debug, PartialEq, Eq, Structural)]
pub enum TerminalSurfaceProfile {
    Normal,
    Agent,
}

/// Where a configured shell is looked for.
#[derive(Clone, Debug, PartialEq, Eq)]
pub enum ShellLookup {
    /// At this path.
    At(String),
    /// By its name, on the search path and in the usual directories.
    ByName,
    /// Nowhere: the home directory that it names is unknown.
    Nowhere,
}

/// Whether `c` occurs in `s`.
pub open spec fn has_char(s: Seq<char>, c: char) -> bool {
    exists|i: int| 0 <= i < s.len() && s[i] == c
}

/// Where a configured shell is looked for: below the home directory when it
/// begins with `~/`, at its path when it has a slash, else by its name.
pub fn shell_lookup(configured: &str, home: Option<&str>) -> (r: ShellLookup)
    ensures
        if "~/"@.is_prefix_of(configured@) {
            match home {
                Some(h) => r matches ShellLookup::At(p) && p@ == path::join_text(
                    h@,
                    configured@.skip(2),
                ),
                None => r == ShellLookup::Nowhere,
            }
        } else if has_char(configured@, '/') {
            r matches ShellLookup::At(p) && p@ == configured@
        } else {
            r == ShellLookup::ByName
        },
{
    proof {
        reveal_strlit("~/");
        assert("~/"@.len() == 2);
    }
    match chars::strip_prefix(configured, "~/") {
        Some(rest) => {
            assert(configured@.take(2) =~= "~/"@);
            assert(rest@ =~= configured@.skip(2));
            match home {
                Some(h) => ShellLookup::At(path::join(h, rest.as_str())),
                None => ShellLookup::Nowhere,
            }
        },
        None => {
            let v = chars::to_chars(configured);
            let slash: usize = chars::find_char(&v, 0, '/');
            if slash < v.len() {
                assert(configured@[slash as int] == '/');
                ShellLookup::At(configured.to_string())
            } else {
                ShellLookup::ByName
            }
        },
    }
}

/// The directories that a shell is looked for in when the search path misses
/// it, in order.
pub open spec fn well_known_dirs() -> Seq<Seq<char>> {
    seq!["/opt/homebrew/bin"@, "/usr/local/bin"@, "/usr/bin"@, "/bin"@]
}

/// The paths of a shell in the usual directories, in order.
pub fn well_known_shell_candidates(name: &str) -> (r: Vec<String>)
    ensures
        r@.len() == 4,
        forall|i: int|
            0 <= i < 4 ==> (#[trigger] r@[i])@ == path::join_text(well_known_dirs()[i], name@),
{
    vec![
        path::join("/opt/homebrew/bin", name),
        path::join("/usr/local/bin", name),
        path::join("/usr/bin", name),
        path::join("/bin", name),
    ]
}

/// The first of the usual directories that has the shell: `present` says of
/// each of [`well_known_shell_candidates`] whether it is a file.
pub fn well_known_shell_dir_lookup(name: &str, present: &Vec<bool>) -> (r: Option<String>)
    requires
        present@.len() == 4,
    ensures
        match r {
            Some(p) => exists|i: int|
                0 <= i < 4 && #[trigger] present@[i] && p@ == path::join_text(
                    well_known_dirs()[i],
                    name@,
                ) && forall|j: int| 0 <= j < i ==> !present@[j],
            None => forall|i: int| 0 <= i < 4 ==> !present@[i],
        },
{
    let candidates = well_known_shell_candidates(name);
    let mut i: usize = 0;
    while i < 4
        invariant
            i <= 4,
            present@.len() == 4,
            candidates@.len() == 4,
            forall|k: int|
                0 <= k < 4 ==> (#[trigger] candidates@[k])@ == path::join_text(
                    well_known_dirs()[k],
                    name@,
                ),
            forall|j: int| 0 <= j < i ==> !present@[j],
        decreases 4 - i,
    {
        if present[i] {
            return Some(candidates[i].clone());
        }
        i = i + 1;
    }
    None
}

/// Whether a path with these properties can be launched: a file with an
/// executable bit.
pub fn is_launchable(is_file: bool, mode: u32) -> (r: bool)
    ensures
        r == (is_file && mode & 0o111 != 0),
{
    is_file && mode & 0o111 != 0
}

/// The shell after `SHELL` has been looked for: that one when it can be
/// launched, else the system's `sh`.
pub fn resolve_unix_default_shell_fallback(
    from_env: Option<String>,
    system_sh: Option<String>,
) -> (r: String)
    ensures
        r@ == match (from_env, system_sh) {
            (Some(s), _) => s@,
            (None, Some(s)) => s@,
            (None, None) => "/bin/sh"@,
        },
{
    match from_env {
        Some(s) => s,
        None => match system_sh {
            Some(s) => s,
            None => "/bin/sh".to_string(),
        },
    }
}

/// The shell to launch: the configured one when it can be launched, else what
/// [`resolve_unix_default_shell_fallback`] gives.
pub fn resolve_default_shell(
    configured: Option<String>,
    from_env: Option<String>,
    system_sh: Option<String>,
) -> (r: String)
    ensures
        r@ == match (configured, from_env, system_sh) {
            (Some(s), _, _) => s@,
            (None, Some(s), _) => s@,
            (None, None, Some(s)) => s@,
            (None, None, None) => "/bin/sh"@,
        },
{
    match configured {
        Some(s) => s,
        None => resolve_unix_default_shell_fallback(from_env, system_sh),
    }
}

/// A command that clears the terminal before `command` runs, in the syntax of
/// the shell; for a shell of unknown syntax the command alone.
pub open spec fn cleared(command: Seq<char>, shell: Seq<char>) -> Seq<char> {
    let name = types::shell_basename(shell);
    if name == "pwsh"@ {
        "Clear-Host; "@ + command
    } else if types::posix_name(name) {
        "clear && "@ + command
    } else {
        command
    }
}

/// A command that clears the terminal before `command` runs in `shell`.
pub fn clear_then_for_shell(command: &str, shell: &str) -> (r: String)
    ensures
        r@ == cleared(command@, shell@),
{
    let name = types::basename_of(shell);
    if chars::same(name.as_str(), "pwsh") {
        return chars::concat("Clear-Host; ", command);
    }
    if types::is_posix_name(name.as_str()) {
        return chars::concat("clear && ", command);
    }
    command.to_string()
}

/// Whether a character means something inside double quotes in fish.
pub open spec fn fish_special(c: char) -> bool {
    c == '\\' || c == '"' || c == '$'
}

/// A text as it stands inside double quotes in fish.
pub open spec fn fish_escaped(s: Seq<char>) -> Seq<char>
    decreases s.len(),
{
    if s.len() == 0 {
        seq![]
    } else if fish_special(s[0]) {
        seq!['\\', s[0]] + fish_escaped(s.skip(1))
    } else {
        seq![s[0]] + fish_escaped(s.skip(1))
    }
}

/// What fish reads inside double quotes.
pub open spec fn fish_read(t: Seq<char>) -> Seq<char>
    decreases t.len(),
{
    if t.len() == 0 {
        seq![]
    } else if t[0] == '\\' && t.len() > 1 && fish_special(t[1]) {
        seq![t[1]] + fish_read(t.skip(2))
    } else {
        seq![t[0]] + fish_read(t.skip(1))
    }
}

/// The argument `arg` in double quotes, for fish.
pub fn quote_fish_arg(arg: &str) -> (r: String)
    ensures
        r@ == seq!['"'] + fish_escaped(arg@) + seq!['"'],
{
    let v = chars::to_chars(arg);
    let mut quoted = String::new();
    quoted.push('"');
    let mut i: usize = 0;
    assert(v@.skip(0) =~= v@);
    assert(quoted@ + fish_escaped(v@.skip(0)) =~= seq!['"'] + fish_escaped(arg@));
    while i < v.len()
        invariant
            v@ == arg@,
            i <= v@.len(),
            quoted@ + fish_escaped(v@.skip(i as int)) == seq!['"'] + fish_escaped(arg@),
        decreases v@.len() - i,
    {
        let c = v[i];
        let ghost before = quoted@;
        proof {
            let rest = v@.skip(i as int);
            assert(rest[0] == c);
            assert(rest.skip(1) =~= v@.skip(i + 1));
        }
        if c == '\\' || c == '"' || c == '$' {
            quoted.push('\\');
            quoted.push(c);
            assert(quoted@ + fish_escaped(v@.skip(i + 1)) =~= before + (seq!['\\', c]
                + fish_escaped(v@.skip(i + 1))));
        } else {
            quoted.push(c);
            assert(quoted@ + fish_escaped(v@.skip(i + 1)) =~= before + (seq![c] + fish_escaped(
                v@.skip(i + 1),
            )));
        }
        i = i + 1;
    }
    assert(fish_escaped(v@.skip(i as int)) =~= Seq::<char>::empty());
    assert(quoted@ =~= seq!['"'] + fish_escaped(arg@));
    quoted.push('"');
    assert(quoted@ =~= seq!['"'] + fish_escaped(arg@) + seq!['"']);
    quoted
}

/// Fish reads a quoted argument as the text that it was made from.
pub proof fn fish_reads_what_was_quoted(s: Seq<char>)
    ensures
        fish_read(fish_escaped(s)) == s,
    decreases s.len(),
{
    if s.len() > 0 {
        fish_reads_what_was_quoted(s.skip(1));
        let rest = fish_escaped(s.skip(1));
        let t = fish_escaped(s);
        if fish_special(s[0]) {
            assert(t.skip(2) =~= rest);
        } else {
            assert(t.skip(1) =~= rest);
        }
        assert(s =~= seq![s[0]] + s.skip(1));
    }
}

/// A text as it stands inside single quotes in PowerShell.
pub open spec fn pwsh_escaped(s: Seq<char>) -> Seq<char>
    decreases s.len(),
{
    if s.len() == 0 {
        seq![]
    } else if s[0] == '\'' {
        seq!['\'', '\''] + pwsh_escaped(s.skip(1))
    } else {
        seq![s[0]] + pwsh_escaped(s.skip(1))
    }
}

/// What PowerShell reads inside single quotes.
pub open spec fn pwsh_read(t: Seq<char>) -> Seq<char>
    decreases t.len(),
{
    if t.len() == 0 {
        seq![]
    } else if t[0] == '\'' && t.len() > 1 && t[1] == '\'' {
        seq!['\''] + pwsh_read(t.skip(2))
    } else {
        seq![t[0]] + pwsh_read(t.skip(1))
    }
}

/// The text `s` as it stands inside single quotes in PowerShell.
pub fn escape_pwsh(s: &str) -> (r: String)
    ensures
        r@ == pwsh_escaped(s@),
{
    let v = chars::to_chars(s);
    let mut out = String::new();
    let mut i: usize = 0;
    assert(v@.skip(0) =~= v@);
    assert(out@ + pwsh_escaped(v@.skip(0)) =~= pwsh_escaped(s@));
    while i < v.len()
        invariant
            v@ == s@,
            i <= v@.len(),
            out@ + pwsh_escaped(v@.skip(i as int)) == pwsh_escaped(s@),
        decreases v@.len() - i,
    {
        let c = v[i];
        let ghost before = out@;
        proof {
            let rest = v@.skip(i as int);
            assert(rest[0] == c);
            assert(rest.skip(1) =~= v@.skip(i + 1));
        }
        if c == '\'' {
            out.push('\'');
            out.push('\'');
            assert(out@ + pwsh_escaped(v@.skip(i + 1)) =~= before + (seq!['\'', '\'']
                + pwsh_escaped(v@.skip(i + 1))));
        } else {
            out.push(c);
            assert(out@ + pwsh_escaped(v@.skip(i + 1)) =~= before + (seq![c] + pwsh_escaped(
                v@.skip(i + 1),
            )));
        }
        i = i + 1;
    }
    assert(pwsh_escaped(v@.skip(i as int)) =~= Seq::<char>::empty());
    assert(out@ =~= pwsh_escaped(s@));
    out
}

/// PowerShell reads an escaped text as the text that it was made from.
pub proof fn pwsh_reads_what_was_escaped(s: Seq<char>)
    ensures
        pwsh_read(pwsh_escaped(s)) == s,
    decreases s.len(),
{
    if s.len() > 0 {
        pwsh_reads_what_was_escaped(s.skip(1));
        let rest = pwsh_escaped(s.skip(1));
        let t = pwsh_escaped(s);
        if s[0] == '\'' {
            assert(t.skip(2) =~= rest);
        } else {
            assert(t.skip(1) =~= rest);
        }
        assert(s =~= seq![s[0]] + s.skip(1));
    }
}

/// The arguments that start PowerShell with a command: an agent's terminal
/// leaves the user's profile out.
pub open spec fn pwsh_args(profile: TerminalSurfaceProfile, init_command: Seq<char>) -> Seq<
    Seq<char>,
> {
    if profile == TerminalSurfaceProfile::Agent {
        seq!["-NoProfile"@, "-NoExit"@, "-Command"@, init_command]
    } else {
        seq!["-NoExit"@, "-Command"@, init_command]
    }
}

/// The arguments that start PowerShell with `init_command`.
pub fn powershell_startup_args(profile: TerminalSurfaceProfile, init_command: String) -> (r: Vec<
    String,
>)
    ensures
        split::texts(r@) == pwsh_args(profile, init_command@),
{
    let ghost command = init_command@;
    let mut args: Vec<String> = Vec::new();
    if profile == TerminalSurfaceProfile::Agent {
        args.push("-NoProfile".to_string());
    }
    args.push("-NoExit".to_string());
    args.push("-Command".to_string());
    args.push(init_command);
    assert(split::texts(args@) =~= pwsh_args(profile, command));
    args
}

/// What an integration writes and how it is switched on.
#[derive(Clone, Debug, PartialEq, Eq)]
pub struct IntegrationPlan {
    /// The directory of the script.
    pub dir: String,
    /// The script's path.
    pub file: String,
    /// What the script holds.
    pub script: &'static str,
    /// Arguments for the shell.
    pub args: Vec<String>,
    /// Variables for the shell, by name and value.
    pub env: Vec<(String, String)>,
}

/// An [`IntegrationPlan`] as a mathematical value.
pub struct Plan {
    pub dir: Seq<char>,
    pub file: Seq<char>,
    pub script: Seq<char>,
    pub args: Seq<Seq<char>>,
    pub env: Seq<(Seq<char>, Seq<char>)>,
}

/// The texts of a list of pairs of strings.
pub open spec fn pairs(v: Seq<(String, String)>) -> Seq<(Seq<char>, Seq<char>)> {
    v.map_values(|p: (String, String)| (p.0@, p.1@))
}

impl View for IntegrationPlan {
    type V = Plan;

    open spec fn view(&self) -> Plan {
        Plan {
            dir: self.dir@,
            file: self.file@,
            script: self.script@,
            args: split::texts(self.args@),
            env: pairs(self.env@),
        }
    }
}

/// The name by which a shell's integration is found.
pub open spec fn integration_key(shell: Seq<char>) -> Seq<char> {
    chars::lower(
        match path::parse(shell).file_name() {
            Some(name) => name,
            None => shell,
        },
    )
}

/// The plan for the shell named `key`, below the directory `base`.
pub open spec fn planned(
    key: Seq<char>,
    base: Seq<char>,
    zdotdir: Option<Seq<char>>,
    profile: TerminalSurfaceProfile,
) -> Option<Plan> {
    let dir = path::join_text(base, key);
    if key == "zsh"@ {
        Some(
            Plan {
                dir,
                file: path::join_text(dir, ".zshenv"@),
                script: ZSH_OSC7@,
                args: seq![],
                env: match zdotdir {
                    Some(orig) => seq![
                        ("PANEFLOW_ORIG_ZDOTDIR"@, orig),
                        ("ZDOTDIR"@, dir),
                    ],
                    None => seq![("ZDOTDIR"@, dir)],
                },
            },
        )
    } else if key == "bash"@ {
        let file = path::join_text(dir, "bashrc"@);
        Some(
            Plan { dir, file, script: BASH_OSC7@, args: seq!["--rcfile"@, file], env: seq![] },
        )
    } else if key == "fish"@ {
        let file = path::join_text(dir, "osc7.fish"@);
        Some(
            Plan {
                dir,
                file,
                script: FISH_OSC7@,
                args: seq![
                    "--init-command"@,
                    "source "@ + (seq!['"'] + fish_escaped(file) + seq!['"']),
                ],
                env: seq![],
            },
        )
    } else if key == "pwsh"@ {
        let file = path::join_text(dir, "osc7.ps1"@);
        Some(
            Plan {
                dir,
                file,
                script: PWSH_OSC7@,
                args: pwsh_args(profile, ". '"@ + pwsh_escaped(file) + "'"@),
                env: seq![],
            },
        )
    } else {
        None
    }
}

/// What the integration of `shell` writes below `base` and how it is switched
/// on; `None` for a shell without one. `zdotdir` is the user's own directory
/// of zsh dotfiles, where it is set.
pub fn integration_plan(
    shell: &str,
    base: &str,
    zdotdir: Option<&str>,
    profile: TerminalSurfaceProfile,
) -> (r: Option<IntegrationPlan>)
    ensures
        ({
            let expected = planned(
                integration_key(shell@),
                base@,
                match zdotdir {
                    Some(z) => Some(z@),
                    None => None,
                },
                profile,
            );
            match r {
                Some(plan) => expected == Some(plan@),
                None => expected is None,
            }
        }),
{
    let parts = path::parts(shell);
    let key = match parts.file_name() {
        Some(name) => chars::to_lower(name),
        None => chars::to_lower(shell),
    };
    let dir = path::join(base, key.as_str());
    if chars::same(key.as_str(), "zsh") {
        let file = path::join(dir.as_str(), ".zshenv");
        let mut env: Vec<(String, String)> = Vec::new();
        match zdotdir {
            Some(orig) => {
                env.push(("PANEFLOW_ORIG_ZDOTDIR".to_string(), orig.to_string()));
            },
            None => {},
        }
        env.push(("ZDOTDIR".to_string(), dir.clone()));
        let args: Vec<String> = Vec::new();
        let plan = IntegrationPlan { dir, file, script: ZSH_OSC7, args, env };
        proof {
            assert(split::texts(plan.args@) =~= seq![]);
            match zdotdir {
                Some(orig) => {
                    assert(plan@.env =~= seq![
                        ("PANEFLOW_ORIG_ZDOTDIR"@, orig@),
                        ("ZDOTDIR"@, plan.dir@),
                    ]);
                },
                None => {
                    assert(plan@.env =~= seq![("ZDOTDIR"@, plan.dir@)]);
                },
            }
        }
        return Some(plan);
    }
    let env: Vec<(String, String)> = Vec::new();
    assert(pairs(env@) =~= seq![]);
    if chars::same(key.as_str(), "bash") {
        let file = path::join(dir.as_str(), "bashrc");
        let args = vec!["--rcfile".to_string(), file.clone()];
        assert(split::texts(args@) =~= seq!["--rcfile"@, file@]);
        return Some(IntegrationPlan { dir, file, script: BASH_OSC7, args, env });
    }
    if chars::same(key.as_str(), "fish") {
        let file = path::join(dir.as_str(), "osc7.fish");
        let quoted = quote_fish_arg(file.as_str());
        let args = vec!["--init-command".to_string(), chars::concat("source ", quoted.as_str())];
        assert(split::texts(args@) =~= seq!["--init-command"@, "source "@ + quoted@]);
        return Some(IntegrationPlan { dir, file, script: FISH_OSC7, args, env });
    }
    if chars::same(key.as_str(), "pwsh") {
        let file = path::join(dir.as_str(), "osc7.ps1");
        let escaped = escape_pwsh(file.as_str());
        let command = chars::concat3(". '", escaped.as_str(), "'");
        let args = powershell_startup_args(profile, command);
        return Some(IntegrationPlan { dir, file, script: PWSH_OSC7, args, env });
    }
    None
}

/// What a shell is started with once its script has been written, or has not:
/// then with nothing, so that it starts as it would without integration.
pub fn activate(plan: Option<IntegrationPlan>, written: bool) -> (r: (
    Vec<String>,
    Vec<(String, String)>,
))
    ensures
        match plan {
            Some(p) => if written {
                split::texts(r.0@) == p@.args && pairs(r.1@) == p@.env
            } else {
                r.0@.len() == 0 && r.1@.len() == 0
            },
            None => r.0@.len() == 0 && r.1@.len() == 0,
        },
{
    match plan {
        Some(p) => {
            if written {
                return (p.args, p.env);
            }
        },
        None => {},
    }
    (Vec::new(), Vec::new())
}

/// A shell is looked for in four directories, the ones of the user's own programs
/// before those of the system.
pub proof fn shells_are_sought_in_four_places()
    ensures
        well_known_dirs().len() == 4,
        well_known_dirs()[0] == "/opt/homebrew/bin"@,
        well_known_dirs()[1] == "/usr/local/bin"@,
        well_known_dirs()[2] == "/usr/bin"@,
        well_known_dirs()[3] == "/bin"@,
{
}

/// A command runs on a cleared screen: what is put before it is the shell's own way of
/// clearing, the command itself is never changed, and to a shell that is not known
/// nothing is added.
pub proof fn commands_run_on_a_cleared_screen(command: Seq<char>, shell: Seq<char>)
    ensures
        ({
            let name = types::shell_basename(shell);
            &&& name == "pwsh"@ ==> cleared(command, shell) == "Clear-Host; "@ + command
            &&& name == "sh"@ || name == "bash"@ || name == "zsh"@ || name == "fish"@ || name
                == "dash"@ || name == "ksh"@ || name == "ash"@ || name == "mksh"@ ==> cleared(
                command,
                shell,
            ) == "clear && "@ + command
            &&& !types::posix_name(name) && name != "pwsh"@ ==> cleared(command, shell) == command
            &&& command.is_suffix_of(cleared(command, shell))
        }),
{
    types::posix_shells_are_the_eight(types::shell_basename(shell));
    assert(("Clear-Host; "@ + command).subrange("Clear-Host; "@.len() as int, ("Clear-Host; "@
        + command).len() as int) =~= command);
    assert(("clear && "@ + command).subrange("clear && "@.len() as int, ("clear && "@
        + command).len() as int) =~= command);
    assert(command.subrange(0, command.len() as int) =~= command);
}

/// Quoting for fish goes character by character: a backslash is put before each
/// backslash, quotation mark and dollar sign, and nothing else is changed.
pub proof fn fish_escapes_three_signs(a: Seq<char>, c: char, b: Seq<char>)
    ensures
        c == '\\' || c == '"' || c == '$' ==> fish_escaped(a.push(c) + b) == fish_escaped(a) + seq![
            '\\',
            c,
        ] + fish_escaped(b),
        c != '\\' && c != '"' && c != '$' ==> fish_escaped(a.push(c) + b) == fish_escaped(a) + seq![
            c,
        ] + fish_escaped(b),
        fish_escaped(seq![]).len() == 0,
    decreases a.len(),
{
    let s = a.push(c) + b;
    if a.len() == 0 {
        assert(s.skip(1) =~= b);
        assert(fish_escaped(a) =~= seq![]);
        if fish_special(c) {
            assert(fish_escaped(s) =~= fish_escaped(a) + seq!['\\', c] + fish_escaped(b));
        } else {
            assert(fish_escaped(s) =~= fish_escaped(a) + seq![c] + fish_escaped(b));
        }
    } else {
        let rest = a.skip(1);
        fish_escapes_three_signs(rest, c, b);
        assert(s.skip(1) =~= rest.push(c) + b);
        assert(s[0] == a[0]);
        if fish_special(c) {
            assert(fish_escaped(s) =~= fish_escaped(a) + seq!['\\', c] + fish_escaped(b));
        } else {
            assert(fish_escaped(s) =~= fish_escaped(a) + seq![c] + fish_escaped(b));
        }
    }
}

/// Quoting for PowerShell goes character by character: an apostrophe is doubled, and
/// nothing else is changed.
pub proof fn pwsh_doubles_apostrophes(a: Seq<char>, c: char, b: Seq<char>)
    ensures
        c == '\'' ==> pwsh_escaped(a.push(c) + b) == pwsh_escaped(a) + seq!['\'', '\'']
            + pwsh_escaped(b),
        c != '\'' ==> pwsh_escaped(a.push(c) + b) == pwsh_escaped(a) + seq![c] + pwsh_escaped(b),
        pwsh_escaped(seq![]).len() == 0,
    decreases a.len(),
{
    let s = a.push(c) + b;
    if a.len() == 0 {
        assert(s.skip(1) =~= b);
        assert(pwsh_escaped(a) =~= seq![]);
    } else {
        let rest = a.skip(1);
        pwsh_doubles_apostrophes(rest, c, b);
        assert(s.skip(1) =~= rest.push(c) + b);
        assert(s[0] == a[0]);
    }
    if c == '\'' {
        assert(pwsh_escaped(s) =~= pwsh_escaped(a) + seq!['\'', '\''] + pwsh_escaped(b));
    } else {
        assert(pwsh_escaped(s) =~= pwsh_escaped(a) + seq![c] + pwsh_escaped(b));
    }
}

/// An agent's PowerShell starts without the user's profile; otherwise the arguments
/// are the same: stay open, and run the command.
pub proof fn agents_start_without_a_profile(init_command: Seq<char>)
    ensures
        pwsh_args(TerminalSurfaceProfile::Normal, init_command) == seq![
            "-NoExit"@,
            "-Command"@,
            init_command,
        ],
        pwsh_args(TerminalSurfaceProfile::Agent, init_command) == seq!["-NoProfile"@] + pwsh_args(
            TerminalSurfaceProfile::Normal,
            init_command,
        ),
{
    assert(pwsh_args(TerminalSurfaceProfile::Agent, init_command) =~= seq!["-NoProfile"@]
        + pwsh_args(TerminalSurfaceProfile::Normal, init_command));
}

/// Which integration a shell gets goes by its file name, in small letters, wherever it
/// is installed.
pub proof fn integration_goes_by_name(dir: Seq<char>, name: Seq<char>)
    requires
        dir.len() > 0,
        name.len() > 0,
        forall|i: int| 0 <= i < name.len() ==> name[i] != '/',
        name != seq!['.'] && name != seq!['.', '.'],
    ensures
        integration_key(dir + seq!['/'] + name) == chars::lower(name),
        integration_key(name) == chars::lower(name),
{
    path::files_lie_in_their_parents(dir, name);
    path::paths_are_read_name_by_name(dir, name);
}

/// A shell reads its own script: zsh is led to the directory of it and told where its
/// own files lie, bash is given the file to read, fish and PowerShell are told to read
/// it, quoted. No shell is told anything in both ways, and each script lies in a
/// directory of the shell's name.
pub proof fn shells_read_their_own_script(
    base: Seq<char>,
    zdotdir: Option<Seq<char>>,
    orig: Seq<char>,
    profile: TerminalSurfaceProfile,
)
    requires
        base.len() > 0,
        base.last() != '/',
    ensures
        ({
            let dir = base + "/zsh"@;
            &&& planned("zsh"@, base, None, profile) == Some(
                Plan {
                    dir,
                    file: dir + "/.zshenv"@,
                    script: ZSH_OSC7@,
                    args: seq![],
                    env: seq![("ZDOTDIR"@, dir)],
                },
            )
            &&& planned("zsh"@, base, Some(orig), profile) == Some(
                Plan {
                    dir,
                    file: dir + "/.zshenv"@,
                    script: ZSH_OSC7@,
                    args: seq![],
                    env: seq![("PANEFLOW_ORIG_ZDOTDIR"@, orig), ("ZDOTDIR"@, dir)],
                },
            )
        }),
        ({
            let dir = base + "/bash"@;
            planned("bash"@, base, zdotdir, profile) == Some(
                Plan {
                    dir,
                    file: dir + "/bashrc"@,
                    script: BASH_OSC7@,
                    args: seq!["--rcfile"@, dir + "/bashrc"@],
                    env: seq![],
                },
            )
        }),
        ({
            let dir = base + "/fish"@;
            let file = dir + "/osc7.fish"@;
            planned("fish"@, base, zdotdir, profile) == Some(
                Plan {
                    dir,
                    file,
                    script: FISH_OSC7@,
                    args: seq!["--init-command"@, "source \""@ + fish_escaped(file) + "\""@],
                    env: seq![],
                },
            )
        }),
        ({
            let dir = base + "/pwsh"@;
            let file = dir + "/osc7.ps1"@;
            planned("pwsh"@, base, zdotdir, profile) == Some(
                Plan {
                    dir,
                    file,
                    script: PWSH_OSC7@,
                    args: pwsh_args(profile, ". '"@ + pwsh_escaped(file) + "'"@),
                    env: seq![],
                },
            )
        }),
{
    reveal_strlit("zsh");
    reveal_strlit("bash");
    reveal_strlit("fish");
    reveal_strlit("pwsh");
    reveal_strlit("/zsh");
    reveal_strlit("/bash");
    reveal_strlit("/fish");
    reveal_strlit("/pwsh");
    reveal_strlit(".zshenv");
    reveal_strlit("/.zshenv");
    reveal_strlit("bashrc");
    reveal_strlit("/bashrc");
    reveal_strlit("osc7.fish");
    reveal_strlit("/osc7.fish");
    reveal_strlit("osc7.ps1");
    reveal_strlit("/osc7.ps1");
    reveal_strlit("source ");
    reveal_strlit("source \"");
    reveal_strlit("\"");
    assert("zsh"@.len() == 3 && "bash"@.len() == 4 && "fish"@.len() == 4 && "pwsh"@.len() == 4);
    assert("bash"@[0] == 'b' && "fish"@[0] == 'f' && "pwsh"@[0] == 'p');
    assert(base + seq!['/'] + "zsh"@ =~= base + "/zsh"@);
    assert(base + seq!['/'] + "bash"@ =~= base + "/bash"@);
    assert(base + seq!['/'] + "fish"@ =~= base + "/fish"@);
    assert(base + seq!['/'] + "pwsh"@ =~= base + "/pwsh"@);
    assert(base + "/zsh"@ + seq!['/'] + ".zshenv"@ =~= base + "/zsh"@ + "/.zshenv"@);
    assert(base + "/bash"@ + seq!['/'] + "bashrc"@ =~= base + "/bash"@ + "/bashrc"@);
    assert(base + "/fish"@ + seq!['/'] + "osc7.fish"@ =~= base + "/fish"@ + "/osc7.fish"@);
    assert(base + "/pwsh"@ + seq!['/'] + "osc7.ps1"@ =~= base + "/pwsh"@ + "/osc7.ps1"@);
    let file = base + "/fish"@ + "/osc7.fish"@;
    assert("source "@ + (seq!['"'] + fish_escaped(file) + seq!['"']) =~= "source \""@
        + fish_escaped(file) + "\""@);
}

/// Shells without a script get no integration.
pub proof fn other_shells_get_no_script(
    key: Seq<char>,
    base: Seq<char>,
    zdotdir: Option<Seq<char>>,
    profile: TerminalSurfaceProfile,
)
    ensures
        planned(key, base, zdotdir, profile) is None <==> key != "zsh"@ && key != "bash"@ && key
            != "fish"@ && key != "pwsh"@,
{
}

/// A text holds a character if and only if that stands somewhere in it.
pub proof fn characters_are_found_anywhere(a: Seq<char>, c: char, b: Seq<char>, d: char)
    ensures
        has_char(a.push(c) + b, c),
        c != d ==> (has_char(a.push(c) + b, d) <==> has_char(a, d) || has_char(b, d)),
        !has_char(seq![], d),
{
    let s = a.push(c) + b;
    assert(s[a.len() as int] == c);
    if has_char(a, d) {
        let i = choose|i: int| 0 <= i < a.len() && a[i] == d;
        assert(s[i] == d);
    }
    if has_char(b, d) {
        let i = choose|i: int| 0 <= i < b.len() && b[i] == d;
        assert(s[a.len() + 1 + i] == d);
    }
    if c != d && has_char(s, d) {
        let i = choose|i: int| 0 <= i < s.len() && s[i] == d;
        if i < a.len() {
            assert(a[i] == d);
        } else {
            assert(b[i - a.len() - 1] == d);
        }
    }
}

} // verus!
