use paneflow::terminal::shell::{
    activate, clear_then_for_shell, escape_pwsh, integration_plan, is_launchable,
    powershell_startup_args, quote_fish_arg, resolve_default_shell,
    resolve_unix_default_shell_fallback, shell_lookup, well_known_shell_candidates,
    well_known_shell_dir_lookup, ShellLookup, TerminalSurfaceProfile, BASH_OSC7, FISH_OSC7,
    PWSH_OSC7, ZSH_OSC7,
};
use paneflow::terminal::types::{basename_of, is_posix_name, ShellQuoting};

#[test]
fn tilde_default_shell_expands_to_home() {
    assert_eq!(
        shell_lookup("~/definitely-not-a-paneflow-shell", Some("/home/u")),
        ShellLookup::At("/home/u/definitely-not-a-paneflow-shell".to_string()),
        "a missing ~/path must not be treated as a relative directory named ~"
    );
    assert_eq!(
        shell_lookup("~/../../bin/sh", Some("/home/u")),
        ShellLookup::At("/home/u/../../bin/sh".to_string()),
    );
    assert_eq!(
        shell_lookup("/bin/sh", Some("/home/u")),
        ShellLookup::At("/bin/sh".to_string())
    );
    assert_eq!(shell_lookup("~/bin/sh", None), ShellLookup::Nowhere);
    assert_eq!(shell_lookup("zsh", None), ShellLookup::ByName);
}

#[test]
fn well_known_shell_lookup_finds_sh_and_rejects_bogus() {
    assert_eq!(
        well_known_shell_candidates("sh"),
        vec!["/opt/homebrew/bin/sh", "/usr/local/bin/sh", "/usr/bin/sh", "/bin/sh"]
    );
    let found = well_known_shell_dir_lookup("sh", &vec![false, false, true, true]);
    assert_eq!(
        found.as_deref(),
        Some("/usr/bin/sh"),
        "a bare `sh` must resolve from the well-known Unix dirs, got {found:?}"
    );
    assert!(
        well_known_shell_dir_lookup(
            "definitely-not-a-real-shell-xyz",
            &vec![false, false, false, false]
        )
        .is_none(),
        "a non-existent bare name must not resolve"
    );
}

#[test]
fn unix_fallback_rejects_stale_shell_env() {
    let shell = resolve_unix_default_shell_fallback(None, Some("/usr/bin/sh".to_string()));
    assert_eq!(shell, "/usr/bin/sh", "stale SHELL must fall back to sh");
    assert_eq!(
        basename_of(&resolve_unix_default_shell_fallback(None, None)),
        "sh"
    );
    assert_eq!(
        resolve_unix_default_shell_fallback(
            Some("/bin/zsh".to_string()),
            Some("/bin/sh".to_string())
        ),
        "/bin/zsh"
    );
}

#[test]
fn a_configured_shell_comes_first() {
    assert_eq!(
        resolve_default_shell(
            Some("/bin/fish".to_string()),
            Some("/bin/zsh".to_string()),
            None
        ),
        "/bin/fish"
    );
    assert_eq!(
        resolve_default_shell(None, Some("/bin/zsh".to_string()), None),
        "/bin/zsh"
    );
}

#[test]
fn a_shell_has_to_be_an_executable_file() {
    assert!(is_launchable(true, 0o755));
    assert!(is_launchable(true, 0o001));
    assert!(!is_launchable(true, 0o644));
    assert!(!is_launchable(false, 0o755));
}

#[test]
fn fish_init_command_quotes_spaces_and_metacharacters() {
    assert_eq!(
        quote_fish_arg("/Users/a/Application Support/paneflow/osc7.fish"),
        "\"/Users/a/Application Support/paneflow/osc7.fish\""
    );
    assert_eq!(
        quote_fish_arg("/tmp/$USER/osc7\"hook\".fish"),
        "\"/tmp/\\$USER/osc7\\\"hook\\\".fish\""
    );
}

#[test]
fn powershell_strings_double_their_quotes() {
    assert_eq!(escape_pwsh("/tmp/it's"), "/tmp/it''s");
    assert_eq!(escape_pwsh("plain"), "plain");
}

#[test]
fn clear_then_uses_powershell_51_compatible_syntax() {
    assert_eq!(clear_then_for_shell("codex", "pwsh"), "Clear-Host; codex");
    assert_eq!(
        clear_then_for_shell("kiro-cli chat", "pwsh"),
        "Clear-Host; kiro-cli chat"
    );
}

#[test]
fn clear_then_uses_posix_syntax_for_unix_shells() {
    assert_eq!(
        clear_then_for_shell("opencode", "/bin/zsh"),
        "clear && opencode"
    );
    assert_eq!(
        clear_then_for_shell("kiro-cli chat", "/bin/zsh"),
        "clear && kiro-cli chat"
    );
}

#[test]
fn clear_then_known_posix_shells_keep_clear() {
    for sh in ["/bin/bash", "/usr/bin/fish", "dash", "ksh", "/bin/sh"] {
        assert_eq!(clear_then_for_shell("x", sh), "clear && x", "shell {sh}");
    }
}

#[test]
fn clear_then_unknown_shell_launches_bare() {
    assert_eq!(clear_then_for_shell("opencode", "/usr/bin/nu"), "opencode");
    assert_eq!(clear_then_for_shell("codex", "elvish"), "codex");
}

#[test]
fn pwsh_osc7_snapshots_prompt_and_avoids_recursion() {
    let s = PWSH_OSC7;
    assert!(
        s.contains("$global:__paneflow_prev_prompt = $function:prompt"),
        "must snapshot the prompt by value via $function:prompt"
    );
    assert!(
        s.contains("& $global:__paneflow_prev_prompt"),
        "must invoke the captured scriptblock directly (not .ScriptBlock of a live handle)"
    );
    assert!(
        s.contains("__paneflow_prompt_wrapped"),
        "must guard against double-wrapping on re-source"
    );
}

#[test]
fn pwsh_osc7_uses_powershell_51_safe_escape_and_file_uri() {
    let s = PWSH_OSC7;
    assert!(
        s.contains("$([char]27)]7;"),
        "OSC 7 must emit ESC via [char]27 for Windows PowerShell 5.1"
    );
    assert!(
        s.contains("$([char]7)"),
        "OSC 7 must emit BEL via [char]7 for Windows PowerShell 5.1"
    );
    assert!(
        s.contains("([System.Uri]$providerPath).AbsoluteUri"),
        "PowerShell CWD reporting must produce a real file:// URI"
    );
    assert!(
        !s.contains("`e]7;"),
        "`e is PowerShell 7-only for ESC and must not be used in shared 5.1/7 script"
    );
}

#[test]
fn shell_integrations_emit_osc133_without_replacing_prompt_hooks() {
    assert!(ZSH_OSC7.contains("add-zsh-hook precmd __paneflow_osc133_precmd"));
    assert!(ZSH_OSC7.contains("add-zsh-hook preexec __paneflow_osc133_preexec"));
    assert!(BASH_OSC7.contains("PROMPT_COMMAND=\"__paneflow_osc133_precmd;"));
    assert!(BASH_OSC7.contains("PS0=$'\\e]133;C\\a'"));
    assert!(FISH_OSC7.contains("--on-event fish_postexec"));
    assert!(PWSH_OSC7.contains("function global:PSConsoleHostReadLine"));
    assert!(PWSH_OSC7.contains(")]133;C"));
    assert!(PWSH_OSC7.contains(")]133;D;"));
    assert!(PWSH_OSC7.contains(")]133;A"));
}

#[test]
fn powershell_agent_profile_skips_user_profile_noise() {
    assert_eq!(
        powershell_startup_args(TerminalSurfaceProfile::Agent, "init".into()),
        vec!["-NoProfile", "-NoExit", "-Command", "init"]
    );
    assert_eq!(
        powershell_startup_args(TerminalSurfaceProfile::Normal, "init".into()),
        vec!["-NoExit", "-Command", "init"]
    );
}

#[test]
fn each_known_shell_has_its_plan() {
    let normal = TerminalSurfaceProfile::Normal;
    let zsh = integration_plan("/bin/zsh", "/data", Some("/home/u/.zsh"), normal).unwrap();
    assert_eq!(zsh.file, "/data/zsh/.zshenv");
    assert_eq!(zsh.script, ZSH_OSC7);
    assert_eq!(
        zsh.env,
        vec![
            ("PANEFLOW_ORIG_ZDOTDIR".to_string(), "/home/u/.zsh".to_string()),
            ("ZDOTDIR".to_string(), "/data/zsh".to_string()),
        ]
    );
    let bash = integration_plan("bash", "/data", None, normal).unwrap();
    assert_eq!(bash.args, vec!["--rcfile", "/data/bash/bashrc"]);
    let fish = integration_plan("/usr/bin/fish", "/data", None, normal).unwrap();
    assert_eq!(
        fish.args,
        vec!["--init-command", "source \"/data/fish/osc7.fish\""]
    );
    let pwsh =
        integration_plan("pwsh", "/it's", None, TerminalSurfaceProfile::Agent).unwrap();
    assert_eq!(
        pwsh.args,
        vec!["-NoProfile", "-NoExit", "-Command", ". '/it''s/pwsh/osc7.ps1'"]
    );
    assert_eq!(integration_plan("/usr/bin/nu", "/data", None, normal), None);
}

#[test]
fn a_script_that_was_not_written_is_not_used() {
    let plan = integration_plan("bash", "/data", None, TerminalSurfaceProfile::Normal);
    let (args, env) = activate(plan.clone(), true);
    assert_eq!(args.len(), 2);
    assert!(env.is_empty());
    assert_eq!(activate(plan, false), (Vec::new(), Vec::new()));
    assert_eq!(activate(None, true), (Vec::new(), Vec::new()));
}

#[test]
fn quoting_goes_by_the_shell() {
    assert_eq!(ShellQuoting::for_shell("/usr/bin/PWSH"), ShellQuoting::PowerShell);
    assert_eq!(ShellQuoting::for_shell("powershell"), ShellQuoting::PowerShell);
    assert_eq!(ShellQuoting::for_shell("/bin/zsh"), ShellQuoting::Posix);
    assert_eq!(ShellQuoting::for_shell("elvish"), ShellQuoting::Posix);
    assert!(is_posix_name("mksh"));
    assert!(!is_posix_name("nu"));
}
