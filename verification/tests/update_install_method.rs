use paneflow::update::install_method::{
    app_bundle_path, appimage_mount_point, classify, detect, detect_externally_managed,
    detect_package_manager_with_probes, forced_package_manager, os_release_id_like_suse,
    Environment, InstallMethod, PackageManager,
};

fn classified(path: &str, home: Option<&str>, appimage: Option<&str>) -> InstallMethod {
    classify(path, home, appimage, PackageManager::Other)
}

#[test]
fn system_package_usr_bin() {
    let r = classified("/usr/bin/paneflow", None, None);
    assert!(matches!(r, InstallMethod::SystemPackage { .. }));
}

#[test]
fn system_package_usr_local_bin() {
    let r = classified("/usr/local/bin/paneflow", None, None);
    assert!(matches!(r, InstallMethod::SystemPackage { .. }));
}

#[test]
fn appimage_with_env() {
    let r = classified(
        "/tmp/.mount_abc123/usr/bin/paneflow",
        None,
        Some("/home/u/Downloads/paneflow.AppImage"),
    );
    match r {
        InstallMethod::AppImage {
            mount_point,
            source_path,
        } => {
            assert_eq!(mount_point, "/tmp/.mount_abc123");
            assert_eq!(source_path, "/home/u/Downloads/paneflow.AppImage");
        }
        other => panic!("expected AppImage, got {other:?}"),
    }
}

#[test]
fn appimage_without_env_still_detected() {
    let r = classified("/tmp/.mount_abc123/usr/bin/paneflow", None, None);
    match r {
        InstallMethod::AppImage {
            mount_point,
            source_path,
        } => {
            assert_eq!(mount_point, "/tmp/.mount_abc123");
            assert_eq!(source_path, "");
        }
        other => panic!("expected AppImage, got {other:?}"),
    }
}

#[test]
fn tar_gz_under_home_app_dir() {
    let r = classified(
        "/home/u/.local/paneflow.app/bin/paneflow",
        Some("/home/u"),
        None,
    );
    match r {
        InstallMethod::TarGz { app_dir } => {
            assert_eq!(app_dir, "/home/u/.local/paneflow.app");
        }
        other => panic!("expected TarGz, got {other:?}"),
    }
}

#[test]
fn unknown_for_legacy_run_install() {
    let r = classified("/home/u/.local/bin/paneflow", Some("/home/u"), None);
    assert_eq!(r, InstallMethod::Unknown);
}

#[test]
fn unknown_for_random_path() {
    let r = classified("/opt/random/paneflow", Some("/home/u"), None);
    assert_eq!(r, InstallMethod::Unknown);
}

#[test]
fn app_bundle_in_slash_applications() {
    let r = classified(
        "/Applications/PaneFlow.app/Contents/MacOS/paneflow",
        Some("/Users/alice"),
        None,
    );
    match r {
        InstallMethod::AppBundle { bundle_path } => {
            assert_eq!(bundle_path, "/Applications/PaneFlow.app");
        }
        other => panic!("expected AppBundle, got {other:?}"),
    }
}

#[test]
fn app_bundle_in_home_applications() {
    let r = classified(
        "/Users/alice/Applications/PaneFlow.app/Contents/MacOS/paneflow",
        Some("/Users/alice"),
        None,
    );
    match r {
        InstallMethod::AppBundle { bundle_path } => {
            assert_eq!(bundle_path, "/Users/alice/Applications/PaneFlow.app");
        }
        other => panic!("expected AppBundle, got {other:?}"),
    }
}

#[test]
fn app_bundle_at_arbitrary_drag_install_location() {
    let r = classified(
        "/opt/third-party/PaneFlow.app/Contents/MacOS/paneflow",
        None,
        None,
    );
    assert!(matches!(r, InstallMethod::AppBundle { .. }));
}

#[test]
fn macos_binary_outside_bundle_is_unknown() {
    let r = classified("/Users/alice/bin/paneflow", Some("/Users/alice"), None);
    assert_eq!(r, InstallMethod::Unknown);
}

#[test]
fn app_bundle_parser_rejects_wrong_layout() {
    assert!(app_bundle_path("/Applications/PaneFlow.app/Contents/bin/paneflow").is_none());
    assert!(app_bundle_path("/Applications/PaneFlow.app/Payload/MacOS/paneflow").is_none());
    assert!(app_bundle_path("/Applications/PaneFlow/Contents/MacOS/paneflow").is_none());
    assert!(app_bundle_path("/Applications/.app/Contents/MacOS/paneflow").is_none());
    assert!(app_bundle_path("/paneflow").is_none());
}

#[test]
fn appimage_mount_parsing() {
    assert_eq!(
        appimage_mount_point("/tmp/.mount_abc/usr/bin/paneflow"),
        Some("/tmp/.mount_abc".to_string())
    );
    assert!(appimage_mount_point("/var/.mount_abc/paneflow").is_none());
    assert!(appimage_mount_point("/tmp/foo/paneflow").is_none());
    assert!(appimage_mount_point("/tmp/.mount_x").is_none());
}

#[test]
fn detect_package_manager_debian_marker_wins() {
    assert_eq!(
        detect_package_manager_with_probes(true, false, false, false),
        PackageManager::Apt
    );
}

#[test]
fn detect_package_manager_fedora_marker_returns_dnf() {
    assert_eq!(
        detect_package_manager_with_probes(false, true, false, false),
        PackageManager::Dnf
    );
}

#[test]
fn detect_package_manager_suse_marker_returns_zypper() {
    assert_eq!(
        detect_package_manager_with_probes(false, false, true, false),
        PackageManager::Zypper
    );
}

#[test]
fn os_release_id_like_suse_matches_id_and_id_like() {
    assert!(os_release_id_like_suse(
        "ID=opensuse-tumbleweed\nID_LIKE=\"suse rhel\"\n"
    ));
    assert!(os_release_id_like_suse("NAME=x\nID_LIKE=\"suse rhel\"\n"));
    assert!(!os_release_id_like_suse("ID=debian\nID_LIKE=\"ubuntu\"\n"));
    assert!(!os_release_id_like_suse(""));
}

#[test]
fn classify_system_package_detects_rpm_ostree_via_ostree_booted_marker() {
    assert_eq!(
        detect_package_manager_with_probes(false, true, false, true),
        PackageManager::RpmOstree
    );
}

#[test]
fn detect_package_manager_ostree_without_fedora_marker_still_rpm_ostree() {
    assert_eq!(
        detect_package_manager_with_probes(false, false, false, true),
        PackageManager::RpmOstree
    );
}

#[test]
fn detect_package_manager_no_markers_returns_other() {
    assert_eq!(
        detect_package_manager_with_probes(false, false, false, false),
        PackageManager::Other
    );
}

#[test]
fn detect_package_manager_debian_plus_ostree_is_externally_managed() {
    assert_eq!(
        detect_package_manager_with_probes(true, false, false, true),
        PackageManager::Other
    );
    assert_eq!(
        detect_package_manager_with_probes(true, false, false, false),
        PackageManager::Apt
    );
    assert_eq!(
        detect_package_manager_with_probes(false, true, false, true),
        PackageManager::RpmOstree
    );
}

fn plain_environment(executable: Option<&str>) -> Environment<'_> {
    Environment {
        forced: None,
        runtime_explanation: None,
        build_explanation: None,
        flatpak_id: None,
        snap: false,
        executable,
        home: Some("/home/u"),
        appimage: None,
        manager: PackageManager::Apt,
    }
}

#[test]
fn an_install_without_an_executable_is_unknown() {
    assert_eq!(detect(&plain_environment(None)), InstallMethod::Unknown);
}

#[test]
fn an_installed_package_keeps_its_manager() {
    assert_eq!(
        detect(&plain_environment(Some("/usr/bin/paneflow"))),
        InstallMethod::SystemPackage {
            manager: PackageManager::Apt
        }
    );
}

#[test]
fn a_sandbox_is_externally_managed() {
    assert!(detect_externally_managed(None, None, None, false).is_none());
    assert!(detect_externally_managed(None, None, Some("io.x.App"), false).is_some());
    assert!(detect_externally_managed(None, None, None, true).is_some());
    let mut env = plain_environment(Some("/usr/bin/paneflow"));
    env.runtime_explanation = Some("managed by nix");
    assert!(matches!(
        detect(&env),
        InstallMethod::ExternallyManaged { .. }
    ));
}

#[test]
fn a_forced_manager_goes_by_its_name() {
    assert_eq!(forced_package_manager("apt"), Some(PackageManager::Apt));
    assert_eq!(forced_package_manager("no-such-manager"), None);
}
