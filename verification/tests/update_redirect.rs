use paneflow::update::redirect::{
    allowed_redirect_url, redirect_hop, resolve_redirect_location, RedirectHop, RedirectWalk,
    UpdateHttpError, MAX_UPDATE_REDIRECTS,
};

#[test]
fn github_asset_redirect_to_objects_is_allowed() {
    let next = allowed_redirect_url(
        "https://github.com/theaamgroup/paneflow/releases/download/v1/x.dmg",
        "https://objects.githubusercontent.com/github-production-release-asset/x",
        true,
    );
    assert_eq!(
        next.as_deref(),
        Some("https://objects.githubusercontent.com/github-production-release-asset/x")
    );
}

#[test]
fn github_asset_redirect_to_release_assets_cdn_is_allowed() {
    let next = allowed_redirect_url(
        "https://github.com/theaamgroup/paneflow/releases/download/v1/x.dmg",
        "https://release-assets.githubusercontent.com/github-production-release-asset/x",
        true,
    );
    assert!(
        next.is_some(),
        "GitHub's 2025+ asset CDN must stay on the hop allow-list"
    );
}

#[test]
fn redirect_off_list_https_is_rejected() {
    assert!(allowed_redirect_url(
        "https://github.com/theaamgroup/paneflow/releases/download/v1/x.dmg",
        "https://evil.example/x.dmg",
        true,
    )
    .is_none());
}

#[test]
fn redirect_to_file_scheme_is_rejected() {
    assert!(allowed_redirect_url("https://github.com/x", "file:///etc/passwd", true).is_none());
}

#[test]
fn protocol_relative_off_list_is_rejected() {
    assert!(allowed_redirect_url("https://github.com/x", "//evil.example/x", true).is_none());
}

#[test]
fn relative_location_stays_on_github() {
    let next = allowed_redirect_url(
        "https://github.com/theaamgroup/paneflow/releases/download/v1/x.dmg",
        "/theaamgroup/paneflow/releases/download/v1/y.dmg",
        true,
    )
    .unwrap();
    assert_eq!(
        next,
        "https://github.com/theaamgroup/paneflow/releases/download/v1/y.dmg"
    );
}

#[test]
fn loopback_http_redirect_stays_loopback() {
    let next = allowed_redirect_url("http://127.0.0.1:8080/latest", "/asset.dmg", true).unwrap();
    assert_eq!(next, "http://127.0.0.1:8080/asset.dmg");
    let strict = allowed_redirect_url("http://127.0.0.1:8080/latest", "/asset.dmg", false);
    assert_eq!(strict, Some(next));
}

#[test]
fn resolve_rejects_control_and_backslash() {
    assert!(
        resolve_redirect_location("https://github.com/x", "https://github.com/\nx").is_none()
    );
    assert!(resolve_redirect_location("https://github.com/x", "https:\\\\evil.com").is_none());
    assert!(resolve_redirect_location("https://github.com/x", "  ").is_none());
}

#[test]
fn a_location_without_a_slash_stays_in_the_directory() {
    assert_eq!(
        resolve_redirect_location("https://github.com/a/b?q=1", "c").as_deref(),
        Some("https://github.com/a/c")
    );
    assert_eq!(
        resolve_redirect_location("https://github.com", "c").as_deref(),
        Some("https://github.com/c")
    );
    assert_eq!(
        resolve_redirect_location("https://github.com/a/b", "//github.com/z").as_deref(),
        Some("https://github.com/z")
    );
}

#[test]
fn redirect_hop_treats_200_and_304_as_final() {
    assert_eq!(
        redirect_hop("https://github.com/x", 200, None, true).unwrap(),
        RedirectHop::Done
    );
    assert_eq!(
        redirect_hop("https://github.com/x", 304, Some("https://evil.example/x"), true).unwrap(),
        RedirectHop::Done
    );
}

#[test]
fn redirect_hop_302_without_location_is_policy() {
    let err = redirect_hop("https://github.com/x", 302, None, true).unwrap_err();
    assert!(matches!(err, UpdateHttpError::Policy(_)));
}

/// Walks from `start`, asking `fetch` for the status and the location of each
/// answer, and returns the status of the last one with all URLs asked for.
fn follow(
    start: &str,
    fetch: fn(&str) -> (u16, Option<&'static str>),
) -> (Result<u16, UpdateHttpError>, Vec<String>) {
    let mut asked = Vec::new();
    let mut walk = match RedirectWalk::start(start, true) {
        Ok(walk) => walk,
        Err(e) => return (Err(e), asked),
    };
    loop {
        asked.push(walk.url().to_string());
        let (status, location) = fetch(walk.url());
        match walk.answer(status, location) {
            Ok(RedirectHop::Done) => return (Ok(status), asked),
            Ok(RedirectHop::Next(next)) => assert_eq!(next, walk.url()),
            Err(e) => return (Err(e), asked),
        }
    }
}

#[test]
fn follow_does_not_fetch_disallowed_start_url() {
    let (result, asked) = follow("https://evil.example/x", |_| (200, None));
    assert!(matches!(result, Err(UpdateHttpError::Policy(_))));
    assert!(asked.is_empty(), "must not fetch an off-list start URL");
}

#[test]
fn follow_does_not_fetch_off_list_hop() {
    let (result, asked) =
        follow("https://github.com/x", |_| (302, Some("https://evil.example/x")));
    assert!(matches!(result, Err(UpdateHttpError::Policy(_))));
    assert_eq!(asked, ["https://github.com/x".to_string()]);
}

#[test]
fn follow_walks_allow_listed_hops_then_stops() {
    let (result, asked) = follow(
        "https://github.com/theaamgroup/paneflow/releases/download/v1/x.dmg",
        |url| {
            if url.contains("objects.githubusercontent.com") {
                (200, None)
            } else {
                (
                    302,
                    Some("https://objects.githubusercontent.com/github-production-release-asset/x"),
                )
            }
        },
    );
    assert_eq!(result, Ok(200));
    assert_eq!(
        asked,
        [
            "https://github.com/theaamgroup/paneflow/releases/download/v1/x.dmg".to_string(),
            "https://objects.githubusercontent.com/github-production-release-asset/x".to_string(),
        ]
    );
}

#[test]
fn follow_caps_redirect_loops() {
    let (result, asked) = follow("https://github.com/a", |_| (302, Some("/a")));
    assert!(matches!(result, Err(UpdateHttpError::Policy(msg)) if msg.contains("exceeded")));
    assert_eq!(asked.len() as u32, MAX_UPDATE_REDIRECTS + 1);
}

#[test]
fn a_query_is_no_part_of_the_authority() {
    assert_eq!(
        resolve_redirect_location("https://github.com?x=1", "/y").as_deref(),
        Some("https://github.com/y")
    );
    assert_eq!(
        resolve_redirect_location("https://github.com?x=a/b", "y").as_deref(),
        Some("https://github.com/y")
    );
    assert_eq!(
        resolve_redirect_location("https://github.com#top", "/y").as_deref(),
        Some("https://github.com/y")
    );
}
