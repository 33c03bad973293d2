use paneflow::update::error::{is_disk_full, system_error, UpdateError, UpdateFailure, ENOSPC};
use paneflow::update::macos::dmg::{
    attach_outcome, bundle_file_name, check_bundle_location, classify_filesystem_error,
    copy_failure, dmg_cache_dir, dmg_path, is_expected_bundle_location, is_translocated_path,
    mount_point, native_command_failure, nonempty_team_id, rejected_by, require_apple_team_id,
    staging_dirs, team_id_requirement_arg, verification_plan, ProcError,
    DMG_HTTP_BODY_TIMEOUT, DMG_HTTP_CONNECT_TIMEOUT,
};
use paneflow::update::macos::install::{InstallAction, InstallFlow, InstallReply};
use paneflow::update::macos::swap::{Slot, SwapAction, SwapFlow, SwapReply};

#[test]
fn dmg_download_timeout_covers_hundred_mb_asset() {
    assert!(
        DMG_HTTP_BODY_TIMEOUT >= 15 * 60,
        "DMG body timeout must be >= 15 minutes, got {DMG_HTTP_BODY_TIMEOUT:?}"
    );
    assert_eq!(
        DMG_HTTP_CONNECT_TIMEOUT, 30,
        "connect/DNS must stay short so a hung peer cannot sit for the body budget"
    );
}

#[test]
fn staging_dirs_derives_sibling_paths() {
    let (old, new) = staging_dirs("/Applications/PaneFlow.app").unwrap();
    assert_eq!(old, "/Applications/PaneFlow.app.old");
    assert_eq!(new, "/Applications/PaneFlow.app.new");
}

#[test]
fn team_id_requirement_uses_attached_form() {
    let arg = team_id_requirement_arg("ABCD123456");
    assert!(
        arg.starts_with("-R="),
        "must be the attached form, got: {arg}"
    );
    assert!(
        arg.contains("certificate leaf[subject.OU] = \"ABCD123456\""),
        "requirement must pin the leaf OU to the Team ID, got: {arg}"
    );
}

#[test]
fn nonempty_team_id_treats_empty_as_missing() {
    assert_eq!(nonempty_team_id(None), None);
    assert_eq!(nonempty_team_id(Some("")), None);
    assert_eq!(nonempty_team_id(Some("   ")), None);
    assert_eq!(nonempty_team_id(Some("\n\t")), None);
    assert_eq!(
        nonempty_team_id(Some("ABCD123456")).as_deref(),
        Some("ABCD123456")
    );
    assert_eq!(
        nonempty_team_id(Some("  ABCD123456  ")).as_deref(),
        Some("ABCD123456")
    );
}

#[test]
fn missing_baked_team_id_fails_closed_without_codesign() {
    for raw in [None, Some(""), Some("   ")] {
        let classified = require_apple_team_id(raw).unwrap_err();
        assert!(
            matches!(classified, UpdateError::IntegrityMismatch { .. }),
            "missing Team ID must fail closed as IntegrityMismatch, got: {classified:?}"
        );
        if let UpdateError::IntegrityMismatch { got, .. } = classified {
            assert!(
                got.contains("no Apple Team ID embedded"),
                "fail-closed message must name the missing bake, got: {got}"
            );
        }
        assert_eq!(
            verification_plan(raw).unwrap_err(),
            require_apple_team_id(raw).unwrap_err()
        );
    }
    assert_eq!(
        require_apple_team_id(Some("ABCD123456")).unwrap(),
        "ABCD123456"
    );
}

#[test]
fn verification_runs_the_pinned_signature_check() {
    let plan = verification_plan(Some("ABCD123456")).unwrap();
    assert!(!plan.is_empty());
    let pin = team_id_requirement_arg("ABCD123456");
    assert!(plan.iter().any(|run| run.args.contains(&pin)));
    match rejected_by("codesign", "bad seal") {
        UpdateError::IntegrityMismatch { got, .. } => assert!(got.contains("bad seal")),
        other => panic!("expected a mismatch, got {other:?}"),
    }
}

#[test]
fn is_translocated_path_detects_quarantine_sandbox() {
    assert!(!is_translocated_path("/Applications/PaneFlow.app"));
    assert!(!is_translocated_path("/Users/x/Applications/PaneFlow.app"));
    assert!(is_translocated_path(
        "/private/var/folders/ab/cd/T/AppTranslocation/UUID/d/PaneFlow.app"
    ));
    assert!(is_translocated_path("/var/folders/ab/cd/T/PaneFlow.app"));
}

#[test]
fn bundle_file_name_derives_from_install_dir() {
    assert_eq!(
        bundle_file_name("/Applications/PaneFlow.app").unwrap(),
        "PaneFlow.app"
    );
    assert!(bundle_file_name("/").is_err());
}

#[test]
fn expected_bundle_location_accepts_applications_dirs() {
    let home = "/Users/alice";
    assert!(is_expected_bundle_location(
        "/Applications/PaneFlow.app",
        home
    ));
    assert!(is_expected_bundle_location(
        "/Users/alice/Applications/PaneFlow.app",
        home
    ));
}

#[test]
fn expected_bundle_location_rejects_arbitrary_paths() {
    let home = "/Users/alice";
    assert!(!is_expected_bundle_location(
        "/opt/third-party/PaneFlow.app",
        home
    ));
    assert!(!is_expected_bundle_location(
        "/Users/alice/Downloads/PaneFlow.app",
        home
    ));
    assert!(!is_expected_bundle_location(
        "/Users/bob/Applications/PaneFlow.app",
        home
    ));
}

#[test]
fn a_bundle_elsewhere_is_declined() {
    let home = "/Users/alice";
    assert_eq!(check_bundle_location("/Applications/PaneFlow.app", home), Ok(()));
    for place in [
        "/opt/third-party/PaneFlow.app",
        "/private/var/folders/ab/cd/T/AppTranslocation/UUID/d/PaneFlow.app",
    ] {
        assert!(
            matches!(
                check_bundle_location(place, home),
                Err(UpdateError::InstallDeclined { .. })
            ),
            "{place}"
        );
    }
}

#[test]
fn classify_permission_denied_as_install_declined() {
    let err = classify_filesystem_error("cp: /Applications: Permission denied", "copy step");
    assert!(matches!(err.error, UpdateError::InstallDeclined { .. }));
}

#[test]
fn classify_read_only_as_install_declined() {
    let err = classify_filesystem_error("Read-only file system", "copy step");
    assert!(matches!(err.error, UpdateError::InstallDeclined { .. }));
}

#[test]
fn classify_sip_operation_not_permitted_as_install_declined() {
    let err = classify_filesystem_error(
        "rename /Applications/PaneFlow.app: Operation not permitted (os error 1)",
        "swap step",
    );
    assert!(matches!(err.error, UpdateError::InstallDeclined { .. }));
}

#[test]
fn classify_unknown_error_falls_through_to_other() {
    let err = classify_filesystem_error("totally unexpected hdiutil garble", "mount step");
    assert!(matches!(err.error, UpdateError::Other(_)));
}

#[test]
fn copies_fail_with_the_words_of_the_tool() {
    let declined = copy_failure("cp: Permission denied", "/m/A.app", "/Applications/A.app.new");
    assert!(matches!(declined.error, UpdateError::InstallDeclined { .. }));
    let other = copy_failure("no space left", "/m/A.app", "/Applications/A.app.new");
    assert!(matches!(other.error, UpdateError::Other(_)));
}

#[test]
fn a_native_tool_that_hangs_is_a_timeout() {
    assert_eq!(
        native_command_failure(ProcError::Timeout, "hdiutil attach").error,
        UpdateError::Timeout
    );
    assert!(matches!(
        native_command_failure(ProcError::Spawn("no such file".to_string()), "hdiutil").error,
        UpdateError::Other(_)
    ));
}

#[test]
fn an_attach_counts_only_with_its_mount_point() {
    assert_eq!(
        attach_outcome(true, "exit status: 0", "", true, "/tmp/m"),
        Ok(())
    );
    assert!(attach_outcome(true, "exit status: 0", "", false, "/tmp/m").is_err());
    assert!(attach_outcome(false, "exit status: 1", "busy", true, "/tmp/m").is_err());
}

#[test]
fn downloads_go_to_the_cache_of_the_process() {
    let cache = dmg_cache_dir("/Users/alice", Some("/Users/alice/Library/Caches"), "paneflow");
    assert!(cache.starts_with("/Users/alice/Library/Caches/"));
    assert!(dmg_path(&cache, 42).starts_with(&cache));
    assert!(dmg_path(&cache, 42).contains("42"));
    assert_ne!(mount_point(1), mount_point(2));
}

/// The four places of a swap, each with what is there.
struct Disk {
    source: Option<&'static str>,
    live: Option<&'static str>,
    old: Option<&'static str>,
    new: Option<&'static str>,
    copy_fails: bool,
    verify_fails: bool,
    stuck: Option<(Slot, Slot)>,
    actions: usize,
}

impl Disk {
    fn new(
        source: Option<&'static str>,
        live: Option<&'static str>,
        old: Option<&'static str>,
    ) -> Disk {
        Disk {
            source,
            live,
            old,
            new: None,
            copy_fails: false,
            verify_fails: false,
            stuck: None,
            actions: 0,
        }
    }

    fn at(&mut self, slot: Slot) -> &mut Option<&'static str> {
        match slot {
            Slot::Source => &mut self.source,
            Slot::Live => &mut self.live,
            Slot::Old => &mut self.old,
            Slot::New => &mut self.new,
        }
    }

    fn perform(&mut self, action: SwapAction) -> SwapReply {
        self.actions += 1;
        match action {
            SwapAction::Look(slot) => SwapReply::Exists(self.at(slot).is_some()),
            SwapAction::Remove(slot) => {
                *self.at(slot) = None;
                SwapReply::Done
            }
            SwapAction::Rename { from, to } => {
                if self.stuck == Some((from, to)) {
                    return SwapReply::RenameFailed {
                        not_found: false,
                        message: "Permission denied".to_string(),
                    };
                }
                match self.at(from).take() {
                    Some(what) => {
                        *self.at(to) = Some(what);
                        SwapReply::Done
                    }
                    None => SwapReply::RenameFailed {
                        not_found: true,
                        message: "No such file or directory".to_string(),
                    },
                }
            }
            SwapAction::Copy => {
                self.new = self.source;
                if self.copy_fails {
                    SwapReply::Failed(copy_failure("no space left", "/m", "/a"))
                } else {
                    SwapReply::Done
                }
            }
            SwapAction::Verify => {
                if self.verify_fails {
                    SwapReply::Failed(UpdateFailure::bare(rejected_by("codesign", "bad seal")))
                } else {
                    SwapReply::Done
                }
            }
            SwapAction::StripQuarantine => SwapReply::Done,
            SwapAction::Finish => unreachable!(),
        }
    }

    fn copy_and_swap(&mut self) -> Result<(), UpdateFailure> {
        let mut flow = SwapFlow::start("/tmp/mount", "/Applications/PaneFlow.app")
            .map_err(UpdateFailure::bare)?;
        while flow.action() != SwapAction::Finish {
            let reply = self.perform(flow.action());
            flow.advance(reply);
        }
        flow.result().unwrap()
    }
}

#[test]
fn copy_and_swap_performs_atomic_rename() {
    let mut disk = Disk::new(Some("new"), Some("old-marker"), None);
    assert_eq!(disk.copy_and_swap(), Ok(()));
    assert_eq!(disk.live, Some("new"));
    assert_eq!(disk.old, None, "`.old` should have been removed");
    assert_eq!(disk.new, None);
    assert!(disk.actions <= 13);
}

#[test]
fn copy_and_swap_aborts_when_source_has_no_bundle() {
    let mut disk = Disk::new(None, None, None);
    let err = disk.copy_and_swap().unwrap_err();
    match err.error {
        UpdateError::Other(words) => assert!(words.contains("PaneFlow.app"), "got: {words}"),
        other => panic!("got: {other:?}"),
    }
}

#[test]
fn copy_and_swap_fresh_install_no_existing_bundle() {
    let mut disk = Disk::new(Some("new"), None, None);
    assert_eq!(disk.copy_and_swap(), Ok(()));
    assert_eq!(disk.live, Some("new"));
    assert_eq!(disk.old, None, "no .old should be created on a fresh install");
}

#[test]
fn recover_restores_live_bundle_when_install_dir_missing() {
    let mut disk = Disk::new(Some("new"), None, Some("prev"));
    disk.copy_fails = true;
    assert!(disk.copy_and_swap().is_err());
    assert_eq!(disk.live, Some("prev"));
    assert_eq!(disk.old, None, ".old must be consumed by recovery");
}

#[test]
fn recover_removes_stale_old_when_live_bundle_exists() {
    let mut disk = Disk::new(Some("new"), Some("live"), Some("stale"));
    disk.copy_fails = true;
    assert!(disk.copy_and_swap().is_err());
    assert_eq!(disk.live, Some("live"), "live bundle must remain untouched");
    assert_eq!(disk.old, None, "stale .old must be removed");
}

#[test]
fn copy_and_swap_cleans_stale_old_when_live_bundle_exists() {
    let mut disk = Disk::new(Some("new"), Some("live"), Some("stale"));
    assert_eq!(disk.copy_and_swap(), Ok(()));
    assert_eq!(disk.live, Some("new"));
    assert_eq!(disk.old, None);
}

#[test]
fn a_bundle_that_fails_verification_is_never_promoted() {
    let mut disk = Disk::new(Some("forged"), Some("live"), None);
    disk.verify_fails = true;
    let err = disk.copy_and_swap().unwrap_err();
    assert!(matches!(err.error, UpdateError::IntegrityMismatch { .. }));
    assert_eq!(disk.live, Some("live"));
    assert_eq!(disk.new, None);
}

#[test]
fn a_promotion_that_fails_puts_the_old_bundle_back() {
    let mut disk = Disk::new(Some("new"), Some("live"), None);
    disk.stuck = Some((Slot::New, Slot::Live));
    assert!(disk.copy_and_swap().is_err());
    assert_eq!(disk.live, Some("live"));
}

#[test]
fn a_bundle_that_cannot_move_aside_stays() {
    let mut disk = Disk::new(Some("new"), Some("live"), None);
    disk.stuck = Some((Slot::Live, Slot::Old));
    let err = disk.copy_and_swap().unwrap_err();
    assert!(matches!(err.error, UpdateError::InstallDeclined { .. }));
    assert_eq!(disk.live, Some("live"));
}

#[test]
fn an_install_dir_without_a_name_has_no_swap() {
    assert!(SwapFlow::start("/tmp/mount", "/").is_err());
    let flow = SwapFlow::start("/tmp/mount", "/Applications/PaneFlow.app").ok().unwrap();
    assert_eq!(flow.path_of(Slot::Source), "/tmp/mount/PaneFlow.app");
    assert_eq!(flow.path_of(Slot::Live), "/Applications/PaneFlow.app");
    assert_eq!(flow.path_of(Slot::Old), "/Applications/PaneFlow.app.old");
    assert_eq!(flow.path_of(Slot::New), "/Applications/PaneFlow.app.new");
}

/// Runs an install in which the action `failing` fails, and returns its result
/// with everything that was done.
fn install(failing: Option<InstallAction>) -> (Result<(), UpdateFailure>, Vec<InstallAction>) {
    let mut done = Vec::new();
    let mut flow = InstallFlow::start("/Applications/PaneFlow.app", "/cache", 7);
    while flow.action() != InstallAction::Finish {
        let action = flow.action();
        done.push(action);
        let reply = if Some(action) == failing {
            InstallReply::Failed(UpdateFailure::bare(UpdateError::Other(
                "no mountable file systems".to_string(),
            )))
        } else if action == InstallAction::LookForMountPoint {
            InstallReply::Exists(false)
        } else {
            InstallReply::Done
        };
        flow.advance(reply);
    }
    (flow.result().unwrap(), done)
}

#[test]
fn install_in_propagates_hdiutil_attach_error() {
    let (result, done) = install(Some(InstallAction::Attach));
    assert!(result.is_err(), "a failed attach must reach the caller");
    assert_eq!(
        done.iter().filter(|a| **a == InstallAction::Detach).count(),
        0,
        "detach must not run when attach itself failed"
    );
}

#[test]
fn detach_guard_fires_on_drop() {
    for failing in [None, Some(InstallAction::Verify), Some(InstallAction::Swap)] {
        let (result, done) = install(failing);
        assert_eq!(result.is_ok(), failing.is_none());
        assert_eq!(
            done.iter().filter(|a| **a == InstallAction::Detach).count(),
            1
        );
        assert!(done.contains(&InstallAction::RemoveImage));
    }
}

#[test]
fn an_unverified_image_is_not_swapped_in() {
    let (result, done) = install(Some(InstallAction::Verify));
    assert!(result.is_err());
    assert!(!done.contains(&InstallAction::Swap));
    let (_, done) = install(Some(InstallAction::Download));
    assert!(!done.contains(&InstallAction::Attach));
}

#[test]
fn an_install_names_its_files() {
    let flow = InstallFlow::start("/Applications/PaneFlow.app", "/cache", 7);
    assert_eq!(flow.cache_dir(), "/cache");
    assert_eq!(flow.image(), dmg_path("/cache", 7));
    assert_eq!(flow.mount(), mount_point(7));
    assert_eq!(
        flow.bundle(),
        Some(format!("{}/PaneFlow.app", mount_point(7)).as_str())
    );
}

#[test]
fn a_full_disk_is_told_as_such() {
    let copied = copy_failure(
        "cp: A.app.new: No space left on device\n",
        "/m/A.app",
        "/Applications/A.app.new",
    );
    assert_eq!(copied.error, UpdateError::DiskFull);
    assert_eq!(
        copied.context.as_deref(),
        Some("copy /m/A.app \u{2192} /Applications/A.app.new: cp: A.app.new: No space left on device")
    );
    assert_eq!(system_error(Some(ENOSPC), "write".to_string()), UpdateError::DiskFull);
    assert_eq!(
        system_error(Some(2), "not found".to_string()),
        UpdateError::Other("not found".to_string())
    );
    assert!(is_disk_full(None, "No Space left on device (os error 28)"));
    assert!(!is_disk_full(None, "no space"));
    let spawned = ProcError::Spawn("No space left on device (os error 28)".to_string());
    assert_eq!(native_command_failure(spawned, "cp").error, UpdateError::DiskFull);
}

#[test]
fn failures_have_words() {
    let timeout = UpdateFailure {
        error: UpdateError::Timeout,
        context: Some("mount".to_string()),
    };
    assert_eq!(timeout.words(), "mount: timed out");
    let mismatch = UpdateError::IntegrityMismatch {
        expected: "a".to_string(),
        got: "b".to_string(),
    };
    assert_eq!(UpdateFailure::bare(mismatch).words(), "expected a, got b");
    let failed = UpdateError::InstallFailed {
        log_path: "/l".to_string(),
    };
    assert_eq!(failed.words(), "install failed, see /l");
    let declined = UpdateError::InstallDeclined {
        message: "no".to_string(),
    };
    assert_eq!(declined.words(), "no");
    assert_eq!(UpdateError::DiskFull.words(), "no space left on device");
}
