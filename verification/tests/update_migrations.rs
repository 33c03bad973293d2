use std::collections::BTreeMap;

use paneflow::update::install_method::{InstallMethod, PackageManager};
use paneflow::update::migrations::{
    coexistence_marker_path, coexistence_should_warn, detect_coexistent_install_with_probes,
    hicolor_sizes, should_migrate, startup_migration, tar_gz_binary, CoexistenceReport, FileKind,
    MigrationAction, MigrationFlow, MigrationReply, COEXISTENCE_MARKER_CONTENTS,
    COEXISTENCE_MARKER_FILENAME, MARKER_CONTENTS, MARKER_FILENAME,
};

const USER: &str = "/u/icons/hicolor";
const SYSTEM: &str = "/s/icons/hicolor";
const CACHE: &str = "/c/paneflow";

/// A tree of files in memory, some of them symlinks.
struct Layout {
    files: BTreeMap<String, Vec<u8>>,
    links: BTreeMap<String, String>,
    removal_fails: bool,
}

impl Layout {
    fn new() -> Layout {
        Layout {
            files: BTreeMap::new(),
            links: BTreeMap::new(),
            removal_fails: false,
        }
    }

    fn write(&mut self, path: String, bytes: &[u8]) {
        self.files.insert(path, bytes.to_vec());
    }

    fn write_png(&mut self, root: &str, size: u32, bytes: &[u8]) {
        self.write(png(root, size), bytes);
    }

    fn has(&self, path: &str) -> bool {
        let below = format!("{path}/");
        self.files.contains_key(path)
            || self.links.contains_key(path)
            || self.files.keys().any(|f| f.starts_with(&below))
            || self.links.keys().any(|f| f.starts_with(&below))
    }

    fn read(&self, path: &str) -> MigrationReply {
        match self.files.get(path) {
            Some(bytes) => MigrationReply::Bytes(bytes.clone()),
            None => MigrationReply::Failed("No such file or directory".to_string()),
        }
    }

    fn perform(&mut self, flow: &MigrationFlow) -> MigrationReply {
        match flow.action() {
            MigrationAction::LookForMarker => {
                MigrationReply::Exists(self.has(&flow.marker_path()))
            }
            MigrationAction::LookForUserDir => {
                MigrationReply::Exists(self.has(flow.user_icon_dir()))
            }
            MigrationAction::StatUserIcon => {
                let path = flow.user_icon().unwrap();
                MigrationReply::Kind(if self.links.contains_key(&path) {
                    FileKind::Symlink
                } else if self.files.contains_key(&path) {
                    FileKind::File
                } else {
                    FileKind::Missing
                })
            }
            MigrationAction::ReadUserIcon => self.read(&flow.user_icon().unwrap()),
            MigrationAction::ReadSystemIcon => self.read(&flow.system_icon().unwrap()),
            MigrationAction::RemoveUserIcon => {
                if self.removal_fails {
                    return MigrationReply::Failed("Permission denied".to_string());
                }
                self.files.remove(&flow.user_icon().unwrap());
                MigrationReply::Done
            }
            MigrationAction::LookForThemeCache => {
                MigrationReply::Exists(self.has(&flow.theme_cache_path()))
            }
            MigrationAction::LookForThemeIndex => {
                MigrationReply::Exists(self.has(&flow.theme_index_path()))
            }
            MigrationAction::RemoveThemeCache => {
                self.files.remove(&flow.theme_cache_path());
                MigrationReply::Done
            }
            MigrationAction::WriteMarker => {
                self.write(flow.marker_path(), MARKER_CONTENTS.as_bytes());
                MigrationReply::Done
            }
            MigrationAction::Finish => unreachable!(),
        }
    }

    fn migrate(&mut self, sizes: Vec<u32>) -> Result<(), String> {
        let mut flow = MigrationFlow::start(USER, SYSTEM, CACHE, sizes);
        while flow.action() != MigrationAction::Finish {
            let reply = self.perform(&flow);
            flow.advance(reply);
        }
        flow.result().unwrap()
    }

    fn marked(&self) -> bool {
        self.files.contains_key(&format!("{CACHE}/{MARKER_FILENAME}"))
    }
}

fn png(root: &str, size: u32) -> String {
    format!("{root}/{size}x{size}/apps/paneflow.png")
}

fn packaged(manager: PackageManager) -> InstallMethod {
    InstallMethod::SystemPackage { manager }
}

#[test]
fn migrate_preserves_identical_user_local_files() {
    let mut layout = Layout::new();
    layout.write_png(USER, 48, b"same-bytes");
    layout.write_png(SYSTEM, 48, b"same-bytes");

    layout.migrate(vec![48]).expect("migration should succeed");

    assert!(
        layout.has(&png(USER, 48)),
        "identical user-local file must be preserved"
    );
    assert!(
        layout.marked(),
        "marker file must be written after a successful run"
    );
}

#[test]
fn migrate_removes_differing_user_local_files() {
    let mut layout = Layout::new();
    layout.write_png(USER, 128, b"stale-user-bytes");
    layout.write_png(SYSTEM, 128, b"canonical-system-bytes");

    layout.migrate(vec![128]).expect("migration should succeed");

    assert!(
        !layout.has(&png(USER, 128)),
        "differing user-local file must be removed"
    );
    assert!(layout.marked());
}

#[test]
fn migrate_is_idempotent_via_marker() {
    let mut layout = Layout::new();
    layout.write(format!("{CACHE}/{MARKER_FILENAME}"), b"prior run");
    layout.write_png(USER, 256, b"would-be-deleted");
    layout.write_png(SYSTEM, 256, b"canonical");

    layout.migrate(vec![256]).expect("migration should succeed");

    assert!(
        layout.has(&png(USER, 256)),
        "marker must prevent a second migration run from touching the filesystem"
    );
}

#[test]
fn migrate_preserves_orphaned_user_cache_when_index_theme_present() {
    let mut layout = Layout::new();
    layout.write_png(USER, 32, b"stale-user");
    layout.write_png(SYSTEM, 32, b"canonical");
    layout.write(format!("{USER}/index.theme"), b"[Icon Theme]\n");
    layout.write(format!("{USER}/icon-theme.cache"), b"cache");

    layout.migrate(vec![32]).expect("migration should succeed");

    assert!(
        !layout.has(&png(USER, 32)),
        "differing PNG must still be removed"
    );
    assert!(
        layout.has(&format!("{USER}/icon-theme.cache")),
        "icon-theme.cache must survive when index.theme is present"
    );
}

#[test]
fn migrate_removes_orphaned_cache_when_index_theme_absent() {
    let mut layout = Layout::new();
    layout.write_png(USER, 32, b"stale-user");
    layout.write_png(SYSTEM, 32, b"canonical");
    layout.write(format!("{USER}/icon-theme.cache"), b"cache");

    layout.migrate(vec![32]).expect("migration should succeed");

    assert!(
        !layout.has(&format!("{USER}/icon-theme.cache")),
        "orphaned icon-theme.cache must be removed"
    );
}

#[test]
fn migrate_skips_silently_when_system_file_missing() {
    let mut layout = Layout::new();
    layout.write_png(USER, 16, b"user-only");

    layout
        .migrate(vec![16])
        .expect("migration should succeed even without system file");

    assert!(
        layout.has(&png(USER, 16)),
        "user-local file must be preserved when system file is missing"
    );
    assert!(layout.marked());
}

#[test]
fn migrate_refuses_to_follow_user_icon_symlinks() {
    let mut layout = Layout::new();
    layout.write_png(SYSTEM, 48, b"canonical");
    let target = "/elsewhere.txt".to_string();
    layout.write(target.clone(), b"definitely not an icon");
    layout.links.insert(png(USER, 48), target.clone());

    layout
        .migrate(vec![48])
        .expect("migration must not fail when encountering a symlink");

    assert!(
        layout.links.contains_key(&png(USER, 48)),
        "symlink entry must survive - migration refuses to remove it"
    );
    assert!(
        layout.has(&target),
        "symlink target outside hicolor tree must never be touched"
    );
}

#[test]
fn migrate_is_a_no_op_when_user_icon_dir_missing() {
    let mut layout = Layout::new();
    layout.write_png(SYSTEM, 48, b"canonical");

    layout
        .migrate(vec![48])
        .expect("missing user tree is not an error");

    assert!(
        layout.marked(),
        "marker still written - a fresh install doesn't need the migration to run ever again"
    );
}

#[test]
fn a_removal_that_fails_leaves_no_marker() {
    let mut layout = Layout::new();
    layout.write_png(USER, 48, b"stale");
    layout.write_png(SYSTEM, 48, b"canonical");
    layout.removal_fails = true;

    assert!(layout.migrate(vec![48]).is_err());
    assert!(!layout.marked());
}

#[test]
fn every_size_is_looked_at() {
    let mut layout = Layout::new();
    let sizes = hicolor_sizes();
    for size in &sizes {
        layout.write_png(USER, *size, b"stale");
        layout.write_png(SYSTEM, *size, b"canonical");
    }
    layout.migrate(sizes.clone()).unwrap();
    for size in &sizes {
        assert!(!layout.has(&png(USER, *size)), "{size}");
    }
}

#[test]
fn run_startup_migrations_is_a_no_op_for_non_system_package_installs() {
    for method in [
        InstallMethod::Unknown,
        packaged(PackageManager::RpmOstree),
        packaged(PackageManager::Other),
    ] {
        assert!(startup_migration(&method, Some("/home/alice")).is_none());
        assert!(!should_migrate(&method));
    }
}

#[test]
fn a_packaged_install_migrates_the_home_of_its_user() {
    let method = packaged(PackageManager::Apt);
    assert!(startup_migration(&method, None).is_none());
    let flow = startup_migration(&method, Some("/home/alice")).unwrap();
    assert_eq!(flow.user_icon_dir(), "/home/alice/.local/share/icons/hicolor");
    assert_eq!(flow.cache_dir(), "/home/alice/.cache/paneflow");
    assert_eq!(
        flow.marker_path(),
        format!("/home/alice/.cache/paneflow/{MARKER_FILENAME}")
    );
}

#[test]
fn detect_coexistence_reports_tar_gz_when_system_package_is_running_and_home_app_dir_exists() {
    let report = detect_coexistent_install_with_probes(
        &packaged(PackageManager::Dnf),
        Some("/home/alice"),
        true,
        true,
    );
    assert_eq!(
        report,
        Some(CoexistenceReport {
            running_path: "/usr/bin/paneflow".to_string(),
            other_path: "/home/alice/.local/paneflow.app/bin/paneflow".to_string(),
            other_method_label: "tar.gz",
        })
    );
}

#[test]
fn detect_coexistence_reports_system_package_when_tar_gz_is_running_and_usr_bin_exists() {
    let report = detect_coexistent_install_with_probes(
        &InstallMethod::TarGz {
            app_dir: "/home/bob/.local/paneflow.app".to_string(),
        },
        Some("/home/bob"),
        true,
        false,
    );
    assert_eq!(
        report,
        Some(CoexistenceReport {
            running_path: "/home/bob/.local/paneflow.app/bin/paneflow".to_string(),
            other_path: "/usr/bin/paneflow".to_string(),
            other_method_label: "system package",
        })
    );
}

#[test]
fn detect_coexistence_returns_none_for_appimage_and_other_methods() {
    let cases = [
        InstallMethod::Unknown,
        InstallMethod::AppImage {
            mount_point: "/tmp/.mount_abc".to_string(),
            source_path: "/home/u/Downloads/paneflow.AppImage".to_string(),
        },
        InstallMethod::AppBundle {
            bundle_path: "/Applications/PaneFlow.app".to_string(),
        },
        packaged(PackageManager::RpmOstree),
        packaged(PackageManager::Other),
    ];
    for method in cases {
        let report = detect_coexistent_install_with_probes(&method, Some("/home/u"), true, true);
        assert_eq!(report, None, "expected None for {method:?}");
    }
}

#[test]
fn detect_coexistence_returns_none_when_home_missing() {
    let report =
        detect_coexistent_install_with_probes(&packaged(PackageManager::Apt), None, true, true);
    assert_eq!(report, None);
}

#[test]
fn coexistence_toast_marker_short_circuits_push_on_second_call() {
    let method = packaged(PackageManager::Dnf);
    let first = coexistence_should_warn(&method, Some("/home/alice"), true, true, false);
    assert!(first.is_some(), "first call must surface the toast");

    let second = coexistence_should_warn(&method, Some("/home/alice"), true, true, true);
    assert_eq!(
        second, None,
        "marker must short-circuit the toast on second call"
    );
}

#[test]
fn coexistence_marker_path_uses_versioned_filename_under_cache_paneflow() {
    assert_eq!(
        coexistence_marker_path("/home/carol"),
        "/home/carol/.cache/paneflow/migration-v0.2.3-coexistence-warned",
    );
    assert!(coexistence_marker_path("/home/carol").ends_with(COEXISTENCE_MARKER_FILENAME));
    assert!(!COEXISTENCE_MARKER_CONTENTS.is_empty());
}

#[test]
fn the_unpacked_binary_lies_under_the_home() {
    assert_eq!(
        tar_gz_binary("/home/dora"),
        "/home/dora/.local/paneflow.app/bin/paneflow"
    );
}

#[test]
fn an_icon_goes_where_it_differs() {
    for (differs, next) in [
        (true, MigrationAction::RemoveUserIcon),
        (false, MigrationAction::WriteMarker),
    ] {
        let mut flow = MigrationFlow::start(USER, SYSTEM, CACHE, vec![48]);
        flow.advance(MigrationReply::Exists(false));
        flow.advance(MigrationReply::Exists(true));
        flow.advance(MigrationReply::Kind(FileKind::File));
        flow.advance(MigrationReply::Bytes(b"user".to_vec()));
        assert_eq!(flow.action(), MigrationAction::ReadSystemIcon);
        flow.compare_icons(differs);
        assert_eq!(flow.action(), next);
    }
}

#[test]
fn an_unpacked_archive_without_a_home_reports_nothing() {
    let running = InstallMethod::TarGz {
        app_dir: "/home/bob/.local/paneflow.app".to_string(),
    };
    assert_eq!(
        detect_coexistent_install_with_probes(&running, None, true, false),
        None
    );
    assert!(detect_coexistent_install_with_probes(&running, Some("/home/bob"), true, false).is_some());
}
