use paneflow::update::checker::{
    begin_check, conclude_check, evaluate_release, first_step, forced_update_version, host_arch, initial_status,
    is_allow_listed_host, is_allowed_update_url_impl, is_loopback_host, pick_asset,
    release_version, status_of_release, transient_update_error, update_feed_url, url_host, AssetFormat, CheckStep, GitHubAsset,
    GitHubRelease, UpdateStatus, DEFAULT_FEED_URL,
};
use paneflow::update::install_method::InstallMethod;
use paneflow::update::ip::{is_loopback_v4, is_loopback_v6};
use paneflow::update::{installed_binary_path, SelfUpdateStatus};
use paneflow::update::error::UpdateError;

fn make_asset(name: &str) -> GitHubAsset {
    GitHubAsset {
        name: name.to_string(),
        browser_download_url: format!(
            "https://github.com/arthjean/paneflow/releases/download/v0/{name}"
        ),
    }
}

fn app_bundle() -> InstallMethod {
    InstallMethod::AppBundle {
        bundle_path: "/Applications/PaneFlow.app".to_string(),
    }
}

fn picked<'a>(assets: &'a Vec<GitHubAsset>, arch: &str) -> Option<&'a str> {
    pick_asset(assets, arch, &app_bundle(), true).map(|a| a.name.as_str())
}

#[test]
fn url_host_extracts_authority() {
    assert_eq!(url_host("api.github.com/repos/x"), "api.github.com");
    assert_eq!(url_host("api.github.com:443/x"), "api.github.com");
    assert_eq!(url_host("127.0.0.1:8080/latest"), "127.0.0.1");
    assert_eq!(url_host("[::1]:9000/latest"), "::1");
    // What stands before an `@` is no part of the host.
    assert_eq!(url_host("api.github.com@evil.com/x"), "evil.com");
    assert_eq!(url_host("github.com"), "github.com");
}

#[test]
fn https_allowlisted_host_allowed_in_release() {
    assert!(is_allowed_update_url_impl(
        "https://api.github.com/repos/arthjean/paneflow/releases/latest",
        false
    ));
    assert!(is_allowed_update_url_impl(
        "HTTPS://API.GITHUB.COM/repos/arthjean/paneflow/releases/latest",
        false
    ));
    assert!(is_allowed_update_url_impl(
        "https://github.com/arthjean/paneflow/releases/download/v1/x.tar.gz",
        false
    ));
}

#[test]
fn https_offdomain_host_rejected() {
    assert!(!is_allowed_update_url_impl(
        "https://evil.com/latest",
        false
    ));
    assert!(!is_allowed_update_url_impl(
        "https://api.github.com.evil.com/latest",
        false
    ));
    assert!(!is_allowed_update_url_impl(
        "https://api.github.com@evil.com/latest",
        false
    ));
}

#[test]
fn plain_http_nonloopback_is_release_rejected_debug_allowed() {
    assert!(!is_allowed_update_url_impl("http://evil.com/latest", false));
    assert!(is_allowed_update_url_impl("http://evil.com/latest", true));
}

#[test]
fn loopback_http_allowed_in_all_builds() {
    for url in [
        "http://127.0.0.1:8080/latest",
        "http://localhost:9000/latest",
        "http://LOCALHOST:9000/latest",
        "http://127.0.0.1:1/latest",
    ] {
        assert!(
            is_allowed_update_url_impl(url, false),
            "loopback must be allowed: {url}"
        );
    }
}

#[test]
fn host_arch_returns_a_nonempty_arch() {
    assert!(!host_arch(false, "x86_64").is_empty());
    assert_eq!(host_arch(false, "x86_64"), "x86_64");
    assert_eq!(host_arch(true, "x86_64"), "aarch64");
}

#[test]
fn non_http_scheme_rejected() {
    assert!(!is_allowed_update_url_impl("ftp://api.github.com/x", true));
    assert!(!is_allowed_update_url_impl("file:///etc/passwd", true));
    assert!(!is_allowed_update_url_impl("api.github.com/x", true));
}

#[test]
fn pick_asset_drops_offdomain_download_url() {
    let assets = vec![GitHubAsset {
        name: "paneflow-0.3.9-x86_64-apple-darwin.dmg".to_string(),
        browser_download_url: "https://evil.example/paneflow-0.3.9-x86_64-apple-darwin.dmg"
            .to_string(),
    }];
    assert!(
        pick_asset(&assets, "x86_64", &app_bundle(), true).is_none(),
        "off-domain asset URL must be rejected"
    );
}

#[test]
fn multi_arch_release_picks_correct_arch() {
    let assets = vec![
        make_asset("paneflow-v0.2.0-aarch64-apple-darwin.dmg"),
        make_asset("paneflow-v0.2.0-x86_64-apple-darwin.dmg"),
    ];
    assert_eq!(
        picked(&assets, "x86_64"),
        Some("paneflow-v0.2.0-x86_64-apple-darwin.dmg")
    );
    assert_eq!(
        picked(&assets, "aarch64"),
        Some("paneflow-v0.2.0-aarch64-apple-darwin.dmg")
    );
}

#[test]
fn match_is_case_insensitive() {
    let assets = vec![make_asset("PaneFlow-v0.2.0-X86_64-APPLE-DARWIN.DMG")];
    assert!(picked(&assets, "x86_64").is_some(), "case-insensitive match failed");
}

#[test]
fn match_is_v_prefix_agnostic() {
    let legacy = vec![make_asset("paneflow-v0.2.10-x86_64-apple-darwin.dmg")];
    let current = vec![make_asset("paneflow-0.3.0-x86_64-apple-darwin.dmg")];
    assert_eq!(
        picked(&legacy, "x86_64"),
        Some("paneflow-v0.2.10-x86_64-apple-darwin.dmg"),
        "legacy v-prefixed asset must match",
    );
    assert_eq!(
        picked(&current, "x86_64"),
        Some("paneflow-0.3.0-x86_64-apple-darwin.dmg"),
        "current non-v-prefixed asset must match",
    );

    let mixed = vec![
        make_asset("paneflow-v0.2.10-x86_64-apple-darwin.dmg"),
        make_asset("paneflow-0.3.0-x86_64-apple-darwin.dmg"),
    ];
    assert!(
        picked(&mixed, "x86_64").is_some(),
        "mixed-format release must yield at least one match",
    );
}

#[test]
fn returns_none_when_no_matching_asset() {
    let assets = vec![
        make_asset("README.md"),
        make_asset("paneflow-v0.2.0-x86_64-apple-darwin.dmg.sig"),
    ];
    assert!(picked(&assets, "x86_64").is_none());
}

#[test]
fn app_bundle_picks_dmg_aarch64() {
    let assets = vec![
        make_asset("paneflow-0.2.0-aarch64-apple-darwin.dmg"),
        make_asset("paneflow-0.2.0-x86_64-apple-darwin.dmg"),
        make_asset("paneflow-0.2.0-aarch64.tar.gz"),
    ];
    assert_eq!(
        picked(&assets, "aarch64"),
        Some("paneflow-0.2.0-aarch64-apple-darwin.dmg")
    );
}

#[test]
fn app_bundle_picks_dmg_x86_64() {
    let assets = vec![
        make_asset("paneflow-0.2.0-aarch64-apple-darwin.dmg"),
        make_asset("paneflow-0.2.0-x86_64-apple-darwin.dmg"),
        make_asset("paneflow-0.2.0-x86_64.deb"),
    ];
    assert_eq!(
        picked(&assets, "x86_64"),
        Some("paneflow-0.2.0-x86_64-apple-darwin.dmg")
    );
}

#[test]
fn app_bundle_returns_none_when_release_has_no_dmg() {
    let assets = vec![
        make_asset("paneflow-0.2.0-x86_64.deb"),
        make_asset("paneflow-0.2.0-aarch64.tar.gz"),
        make_asset("paneflow-0.2.0-x86_64.AppImage"),
    ];
    assert!(
        picked(&assets, "aarch64").is_none(),
        "AppBundle user must NOT be handed a Linux asset"
    );
}

#[test]
fn dmg_match_is_case_insensitive() {
    let assets = vec![make_asset("PaneFlow-0.2.0-AArch64-Apple-Darwin.DMG")];
    assert!(picked(&assets, "aarch64").is_some(), "case-insensitive .dmg match failed");
}

#[test]
fn dmg_arch_mismatch_returns_none() {
    let assets = vec![make_asset("paneflow-0.2.0-aarch64-apple-darwin.dmg")];
    assert!(picked(&assets, "x86_64").is_none());
}

#[test]
fn update_available_skipped_when_no_asset_matches() {
    let assets = vec![make_asset("paneflow-0.2.12-x86_64-apple-darwin.dmg.sig")];
    assert!(picked(&assets, "x86_64").is_none(), "no .dmg asset should match");
}

#[test]
fn default_feed_is_disabled() {
    assert!(
        DEFAULT_FEED_URL.is_none(),
        "built-in feed must stay None until this fork has a public host"
    );
}

#[test]
fn spawn_check_without_override_is_disabled() {
    assert_eq!(initial_status(None, false, true), UpdateStatus::Disabled);
    assert!(matches!(
        begin_check(None, None, true),
        CheckStep::Done(UpdateStatus::Disabled)
    ));
}

#[test]
fn an_override_is_asked_only_where_it_may_be() {
    let feed = "https://api.github.com/repos/a/b/releases/latest";
    assert_eq!(update_feed_url(Some(feed), false).as_deref(), Some(feed));
    assert_eq!(update_feed_url(Some("https://evil.example/latest"), false), None);
    assert_eq!(initial_status(Some(feed), false, false), UpdateStatus::Checking);
    match begin_check(None, Some(feed), false) {
        CheckStep::Fetch(url) => assert_eq!(url, feed),
        CheckStep::Done(other) => panic!("expected a fetch, got {other:?}"),
    }
}

#[test]
fn a_forced_version_needs_a_version() {
    assert_eq!(forced_update_version("9.9.9").as_deref(), Some("9.9.9"));
    assert_eq!(forced_update_version("").as_deref(), None);
    match begin_check(Some("9.9.9"), None, false) {
        CheckStep::Done(UpdateStatus::Available { version, .. }) => assert_eq!(version, "9.9.9"),
        _ => panic!("expected an offer"),
    }
}

fn release(tag: &str, assets: Vec<GitHubAsset>) -> GitHubRelease {
    GitHubRelease {
        tag_name: tag.to_string(),
        html_url: "https://github.com/arthjean/paneflow/releases/tag/v0".to_string(),
        assets,
    }
}

#[test]
fn a_newer_release_is_offered_with_its_asset() {
    let dmg = "paneflow-0.4.0-aarch64-apple-darwin.dmg";
    let found = release("v0.4.0", vec![make_asset(dmg)]);
    match evaluate_release(&found, "0.3.9", "aarch64", &app_bundle(), false) {
        UpdateStatus::Available {
            version,
            url,
            asset_url,
            asset_format,
        } => {
            assert_eq!(version, "0.4.0");
            assert_eq!(url, found.html_url);
            assert_eq!(asset_url, Some(found.assets[0].browser_download_url.clone()));
            assert_eq!(asset_format, Some(AssetFormat::Dmg));
        }
        other => panic!("expected an offer, got {other:?}"),
    }
}

#[test]
fn a_newer_release_without_an_asset_is_offered_by_its_page() {
    let found = release("v0.4.0", vec![make_asset("README.md")]);
    match evaluate_release(&found, "0.3.9", "aarch64", &app_bundle(), false) {
        UpdateStatus::Available { asset_url, asset_format, .. } => {
            assert_eq!(asset_url, None);
            assert_eq!(asset_format, None);
        }
        other => panic!("expected an offer, got {other:?}"),
    }
}

#[test]
fn an_older_or_equal_release_is_no_update() {
    for tag in ["v0.3.9", "0.3.9", "v0.3.8", "v0.2.99"] {
        let found = release(tag, Vec::new());
        assert_eq!(
            evaluate_release(&found, "0.3.9", "aarch64", &app_bundle(), false),
            UpdateStatus::UpToDate,
            "{tag}"
        );
    }
}

#[test]
fn a_prerelease_comes_before_its_release() {
    let found = release("v1.0.0-rc.1", Vec::new());
    assert_eq!(
        evaluate_release(&found, "1.0.0", "aarch64", &app_bundle(), false),
        UpdateStatus::UpToDate
    );
    assert!(matches!(
        evaluate_release(&found, "0.9.0", "aarch64", &app_bundle(), false),
        UpdateStatus::Available { .. }
    ));
}

#[test]
fn a_tag_that_is_no_version_is_a_failure() {
    let found = release("nightly", Vec::new());
    assert_eq!(
        evaluate_release(&found, "0.3.9", "aarch64", &app_bundle(), false),
        UpdateStatus::Failed
    );
}

#[test]
fn server_faults_and_throttling_are_transient() {
    for status in [Some(500), Some(503), Some(599), None] {
        assert!(transient_update_error(status), "{status:?}");
    }
    for status in [Some(200), Some(404)] {
        assert!(!transient_update_error(status), "{status:?}");
    }
}

#[test]
fn loopback_names_and_addresses() {
    assert!(is_loopback_host("localhost"));
    assert!(is_loopback_host("127.9.8.7"));
    assert!(is_loopback_host("::1"));
    assert!(!is_loopback_host("128.0.0.1"));
    assert!(is_loopback_v4("127.0.0.1"));
    assert!(!is_loopback_v4("127.0.0"));
    assert!(!is_loopback_v4("127.0.0.256"));
    assert!(!is_loopback_v4("127.0.0.01"));
    assert!(is_loopback_v6("::1"));
    assert!(is_loopback_v6("0:0:0:0:0:0:0:1"));
    assert!(!is_loopback_v6("::2"));
    assert!(is_allow_listed_host("GitHub.com"));
    assert!(!is_allow_listed_host("github.com.evil.com"));
}

#[test]
fn asset_formats_name_their_files() {
    assert_eq!(AssetFormat::Dmg.filename_suffix(), ".dmg");
    assert_eq!(AssetFormat::Dmg.target_qualifier(), "-apple-darwin");
    assert_eq!(AssetFormat::from_install_method(&app_bundle()), AssetFormat::Dmg);
}

#[test]
fn only_a_running_update_is_busy() {
    assert!(!SelfUpdateStatus::default().is_busy());
    assert!(SelfUpdateStatus::Downloading.is_busy());
    assert!(!SelfUpdateStatus::ReadyToRestart.is_busy());
    assert!(!SelfUpdateStatus::Errored(UpdateError::Timeout).is_busy());
    assert_eq!(installed_binary_path(), "/Applications/PaneFlow.app/Contents/MacOS/paneflow");
}

#[test]
fn a_comparison_decides_the_status() {
    let found = release("v0.4.0", Vec::new());
    let status = |compared| status_of_release(&found, compared, "aarch64", &app_bundle(), false);
    assert_eq!(status(None), UpdateStatus::Failed);
    assert_eq!(status(Some(("0.4.0".to_string(), false))), UpdateStatus::UpToDate);
    assert!(matches!(
        status(Some(("0.4.0".to_string(), true))),
        UpdateStatus::Available { version, .. } if version == "0.4.0"
    ));
    assert_eq!(release_version("v0.4.0"), "0.4.0");
    assert_eq!(release_version("vv1"), "v1");
    assert_eq!(release_version("0.4.0"), "0.4.0");
    assert!(matches!(
        first_step(Some("1.0.0".to_string()), None, false),
        CheckStep::Done(UpdateStatus::Available { version, .. }) if version == "1.0.0"
    ));
    assert!(matches!(
        first_step(None, None, false),
        CheckStep::Done(UpdateStatus::Disabled)
    ));
}

#[test]
fn versions_are_read_to_the_letter() {
    for text in [
        "0.0.0",
        "1.2.3",
        "18446744073709551615.0.0",
        "1.0.0-rc.1",
        "1.0.0--",
        "1.0.0-0a.x-y",
        "1.0.0+001",
        "1.0.0-a+b-c.d",
    ] {
        assert_eq!(forced_update_version(text).as_deref(), Some(text));
    }
    for text in [
        "1",
        "1.2",
        "1.2.3.4",
        "01.2.3",
        "1.2.03",
        "18446744073709551616.0.0",
        "1.0.0-",
        "1.0.0-01",
        "1.0.0-a..b",
        "1.0.0+",
        "1.0.0+a+b",
        "1.0.0-\u{e9}",
        "1.0.0 ",
        "-1.0.0",
    ] {
        let read = forced_update_version(text);
        assert_eq!(read.as_deref(), if text == "1.0.0 " { Some("1.0.0") } else { None }, "{text}");
    }
}

#[test]
fn the_release_of_a_running_prerelease_is_offered() {
    let found = release("v1.0.0", Vec::new());
    assert!(matches!(
        evaluate_release(&found, "1.0.0-rc.1", "aarch64", &app_bundle(), false),
        UpdateStatus::Available { .. }
    ));
}

#[test]
fn a_fetch_that_came_to_nothing_is_a_failure() {
    assert_eq!(
        conclude_check(None, "0.3.9", "aarch64", &app_bundle(), false),
        UpdateStatus::Failed
    );
    let same = release("v0.3.9", Vec::new());
    assert_eq!(
        conclude_check(Some(&same), "0.3.9", "aarch64", &app_bundle(), false),
        UpdateStatus::UpToDate
    );
}
