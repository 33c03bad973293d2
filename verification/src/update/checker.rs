//! Release polling: which URLs may be fetched, which asset fits, and whether a
//! release is newer than what runs.

use vstd::prelude::*;

use crate::text::chars;
use crate::text::classes;
use crate::text::find;
use crate::text::split;
use crate::update::install_method::InstallMethod;
use crate::update::ip;
use crate::update::version;

verus! {

/// The built-in release feed: there is none until the project has a public
/// distribution host.
pub const DEFAULT_FEED_URL: Option<&'static str> = None;

/// Whether the update flow may talk to the host `h`: the release API, the
/// release pages, and the two hosts that asset downloads are redirected to.
pub open spec fn allow_listed(h: Seq<char>) -> bool {
    ||| chars::lower(h) == "api.github.com"@
    ||| chars::lower(h) == "github.com"@
    ||| chars::lower(h) == "objects.githubusercontent.com"@
    ||| chars::lower(h) == "release-assets.githubusercontent.com"@
}

/// Whether `h` names this machine: `localhost` or a loopback IP literal.
pub open spec fn loopback(h: Seq<char>) -> bool {
    chars::lower(h) == "localhost"@ || ip::loopback_v4(h) || ip::loopback_v6(h)
}

/// The index of the first character from `k` on that ends the authority of a
/// URL.
pub open spec fn authority_end(s: Seq<char>, k: int) -> int
    decreases s.len() - k,
{
    if k >= s.len() {
        s.len() as int
    } else if s[k] == '/' || s[k] == '?' || s[k] == '#' {
        k
    } else {
        authority_end(s, k + 1)
    }
}

/// The host that a URL, given without its scheme, is fetched from: what
/// follows the user info, without the port and without the brackets of an
/// IPv6 literal.
pub open spec fn host_of(after_scheme: Seq<char>) -> Seq<char> {
    let authority = after_scheme.take(authority_end(after_scheme, 0));
    let host_port = split::after_last(authority, '@');
    if host_port.len() > 0 && host_port[0] == '[' {
        let inner = host_port.skip(1);
        inner.take(split::next_index(inner, 0, ']'))
    } else {
        host_port.take(split::next_index(host_port, 0, ':'))
    }
}

/// Whether the update flow may fetch `url`: `https` from an allow-listed host
/// or from this machine, `http` from this machine, and `http` from anywhere
/// where `allow_insecure_http` says so.
pub open spec fn allowed_url(url: Seq<char>, allow_insecure_http: bool) -> bool {
    match find::cut(url, "://"@) {
        Some(p) => {
            let host = host_of(p.1);
            ||| chars::lower(p.0) == "https"@ && (loopback(host) || allow_listed(host))
            ||| chars::lower(p.0) == "http"@ && (loopback(host) || allow_insecure_http)
        },
        None => false,
    }
}

/// Where the authority of a URL, given without its scheme, ends.
pub(crate) fn find_authority_end(v: &Vec<char>) -> (r: usize)
    ensures
        r == authority_end(v@, 0),
        r <= v@.len(),
{
    let mut end: usize = 0;
    while end < v.len() && v[end] != '/' && v[end] != '?' && v[end] != '#'
        invariant
            end <= v@.len(),
            authority_end(v@, end as int) == authority_end(v@, 0),
        decreases v@.len() - end,
    {
        end = end + 1;
    }
    end
}

/// The host of a URL that is given without its scheme.
pub fn url_host(after_scheme: &str) -> (r: String)
    ensures
        r@ == host_of(after_scheme@),
{
    let v = chars::to_chars(after_scheme);
    let end: usize = find_authority_end(&v);
    let authority = chars::from_chars(&v, 0, end);
    assert(authority@ =~= after_scheme@.take(authority_end(after_scheme@, 0)));
    let host_port = split::rest_after_last(authority.as_str(), '@');
    let h = chars::to_chars(host_port.as_str());
    if h.len() > 0 && h[0] == '[' {
        let close: usize = split::find(&h, 1, ']');
        let r = chars::from_chars(&h, 1, close);
        proof {
            let inner = host_port@.skip(1);
            split::lemma_next_index_unique(inner, 0, ']', close - 1);
            assert(r@ =~= inner.take(close - 1));
        }
        r
    } else {
        let colon: usize = split::find(&h, 0, ':');
        let r = chars::from_chars(&h, 0, colon);
        assert(r@ =~= host_port@.take(colon as int));
        r
    }
}

fn lower_is(s: &str, expected: &str) -> (r: bool)
    ensures
        r == (chars::lower(s@) == expected@),
{
    let l = chars::to_lower(s);
    chars::same(l.as_str(), expected)
}

/// Whether `host` names this machine.
pub fn is_loopback_host(host: &str) -> (r: bool)
    ensures
        r == loopback(host@),
{
    lower_is(host, "localhost") || ip::is_loopback_v4(host) || ip::is_loopback_v6(host)
}

/// Whether the update flow may talk to `host`.
pub fn is_allow_listed_host(host: &str) -> (r: bool)
    ensures
        r == allow_listed(host@),
{
    lower_is(host, "api.github.com") || lower_is(host, "github.com") || lower_is(
        host,
        "objects.githubusercontent.com",
    ) || lower_is(host, "release-assets.githubusercontent.com")
}

/// Whether the update flow may fetch `url`.
pub fn is_allowed_update_url_impl(url: &str, allow_insecure_http: bool) -> (r: bool)
    ensures
        r == allowed_url(url@, allow_insecure_http),
{
    proof {
        reveal_strlit("://");
        reveal_strlit("https");
        reveal_strlit("http");
    }
    match find::split_once(url, "://") {
        Some((scheme, rest)) => {
            let host = url_host(rest.as_str());
            if lower_is(scheme.as_str(), "https") {
                assert("https"@.len() != "http"@.len());
                return is_loopback_host(host.as_str()) || is_allow_listed_host(host.as_str());
            }
            if lower_is(scheme.as_str(), "http") {
                return is_loopback_host(host.as_str()) || allow_insecure_http;
            }
            false
        },
        None => false,
    }
}

/// An optional text as a mathematical value.
pub open spec fn text_of(s: Option<String>) -> Option<Seq<char>> {
    match s {
        Some(t) => Some(t@),
        None => None,
    }
}

/// The release feed: the override where it may be fetched, else the built-in
/// one.
pub open spec fn feed_url(over: Option<&str>, allow_insecure_http: bool) -> Option<Seq<char>> {
    if over matches Some(url) && allowed_url(url@, allow_insecure_http) {
        Some(over->Some_0@)
    } else {
        match DEFAULT_FEED_URL {
            Some(url) => Some(url@),
            None => None,
        }
    }
}

/// The URL that the release description is fetched from. An override that may
/// not be fetched is ignored.
pub fn update_feed_url(over: Option<&str>, allow_insecure_http: bool) -> (r: Option<String>)
    ensures
        text_of(r) == feed_url(over, allow_insecure_http),
{
    match over {
        Some(url) => {
            if is_allowed_update_url_impl(url, allow_insecure_http) {
                return Some(url.to_string());
            }
        },
        None => {},
    }
    match DEFAULT_FEED_URL {
        Some(url) => Some(url.to_string()),
        None => None,
    }
}

/// The architecture of the host: a process that runs translated runs on Apple
/// silicon, whatever it was built for.
pub fn host_arch<'a>(translated: bool, built_for: &'a str) -> (r: &'a str)
    ensures
        r@ == (if translated {
            "aarch64"@
        } else {
            built_for@
        }),
{
    if translated {
        "aarch64"
    } else {
        built_for
    }
}

/// The format of a release asset.
#[derive(Clone, Copy, Debug, PartialEq, Eq, Structural)]
pub enum AssetFormat {
    Dmg,
}

impl AssetFormat {
    /// How the names of such assets end.
    pub fn filename_suffix(&self) -> (r: &'static str)
        ensures
            r@ == ".dmg"@,
    {
        match self {
            AssetFormat::Dmg => ".dmg",
        }
    }

    /// What stands between the architecture and the suffix.
    pub fn target_qualifier(&self) -> (r: &'static str)
        ensures
            r@ == "-apple-darwin"@,
    {
        match self {
            AssetFormat::Dmg => "-apple-darwin",
        }
    }

    /// The format that an install is updated from: there is only one.
    pub fn from_install_method(_method: &InstallMethod) -> (r: AssetFormat)
        ensures
            r == AssetFormat::Dmg,
    {
        AssetFormat::Dmg
    }
}

/// A file of a release.
#[derive(Clone, Debug, PartialEq, Eq)]
pub struct GitHubAsset {
    pub name: String,
    pub browser_download_url: String,
}

/// A release as its feed describes it.
#[derive(Clone, Debug, PartialEq, Eq)]
pub struct GitHubRelease {
    pub tag_name: String,
    pub html_url: String,
    pub assets: Vec<GitHubAsset>,
}

/// How the name of the asset for `arch` ends, in lower case.
pub open spec fn asset_ending(arch: Seq<char>) -> Seq<char> {
    chars::lower("-"@ + arch + "-apple-darwin"@ + ".dmg"@)
}

/// Whether an asset is built for `arch`; case makes no difference.
pub open spec fn fits(asset: GitHubAsset, arch: Seq<char>) -> bool {
    asset_ending(arch).is_suffix_of(chars::lower(asset.name@))
}

/// The index of the first asset from `k` on that is built for `arch`, or the
/// number of assets.
pub open spec fn first_fitting(assets: Seq<GitHubAsset>, arch: Seq<char>, k: int) -> int
    decreases assets.len() - k,
{
    if k >= assets.len() {
        assets.len() as int
    } else if fits(assets[k], arch) {
        k
    } else {
        first_fitting(assets, arch, k + 1)
    }
}

/// The index of the asset to download: the first that is built for `arch`,
/// unless it may not be fetched.
pub open spec fn picked(
    assets: Seq<GitHubAsset>,
    arch: Seq<char>,
    allow_insecure_http: bool,
) -> Option<int> {
    let i = first_fitting(assets, arch, 0);
    if i < assets.len() && allowed_url(assets[i].browser_download_url@, allow_insecure_http) {
        Some(i)
    } else {
        None
    }
}

/// The asset to download for `arch`. A first fitting asset that may not be
/// fetched is dropped, and no other takes its place.
pub fn pick_asset<'a>(
    assets: &'a Vec<GitHubAsset>,
    arch: &str,
    method: &InstallMethod,
    allow_insecure_http: bool,
) -> (r: Option<&'a GitHubAsset>)
    ensures
        match r {
            Some(a) => picked(assets@, arch@, allow_insecure_http) matches Some(i) && *a
                == assets@[i],
            None => picked(assets@, arch@, allow_insecure_http) is None,
        },
{
    let format = AssetFormat::from_install_method(method);
    let qualified = chars::concat3("-", arch, format.target_qualifier());
    let named = chars::concat(qualified.as_str(), format.filename_suffix());
    let expected = chars::to_lower(named.as_str());
    let mut i: usize = 0;
    while i < assets.len()
        invariant
            expected@ == asset_ending(arch@),
            i <= assets@.len(),
            first_fitting(assets@, arch@, i as int) == first_fitting(assets@, arch@, 0),
        decreases assets@.len() - i,
    {
        let name = chars::to_lower(assets[i].name.as_str());
        if chars::ends_with(name.as_str(), expected.as_str()) {
            if is_allowed_update_url_impl(
                assets[i].browser_download_url.as_str(),
                allow_insecure_http,
            ) {
                return Some(&assets[i]);
            }
            return None;
        }
        i = i + 1;
    }
    None
}

/// A picked asset is built for the host and comes from a place that updates
/// may come from.
pub proof fn picked_asset_fits_and_is_allowed(
    assets: Seq<GitHubAsset>,
    arch: Seq<char>,
    allow_insecure_http: bool,
)
    ensures
        picked(assets, arch, allow_insecure_http) matches Some(i) ==> 0 <= i < assets.len() && fits(
            assets[i],
            arch,
        ) && allowed_url(assets[i].browser_download_url@, allow_insecure_http),
{
    lemma_first_fitting(assets, arch, 0);
}

proof fn lemma_first_fitting(assets: Seq<GitHubAsset>, arch: Seq<char>, k: int)
    requires
        0 <= k <= assets.len(),
    ensures
        k <= first_fitting(assets, arch, k) <= assets.len(),
        first_fitting(assets, arch, k) < assets.len() ==> fits(
            assets[first_fitting(assets, arch, k)],
            arch,
        ),
    decreases assets.len() - k,
{
    if k < assets.len() && !fits(assets[k], arch) {
        lemma_first_fitting(assets, arch, k + 1);
    }
}

/// Without the permission for plain `http`, a URL that may be fetched is
/// `https` or leads to this machine, and its host is this machine or an
/// allow-listed one.
pub proof fn strict_urls_are_encrypted_or_local(url: Seq<char>)
    ensures
        allowed_url(url, false) ==> {
            &&& find::cut(url, "://"@) is Some
            &&& {
                let p = find::cut(url, "://"@)->Some_0;
                &&& loopback(host_of(p.1)) || allow_listed(host_of(p.1))
                &&& chars::lower(p.0) == "https"@ || loopback(host_of(p.1))
            }
        },
{
}

/// What the title bar shows of the update check.
#[derive(Clone, Debug, PartialEq, Eq)]
pub enum UpdateStatus {
    Checking,
    Available {
        version: String,
        /// The page of the release.
        url: String,
        /// The download for this host, if the release has one.
        asset_url: Option<String>,
        asset_format: Option<AssetFormat>,
    },
    UpToDate,
    Failed,
    /// There is no feed to ask.
    Disabled,
}

/// An [`UpdateStatus`] as a mathematical value.
pub enum Status {
    Checking,
    Available {
        version: Seq<char>,
        url: Seq<char>,
        asset_url: Option<Seq<char>>,
        asset_format: Option<AssetFormat>,
    },
    UpToDate,
    Failed,
    Disabled,
}

impl View for UpdateStatus {
    type V = Status;

    open spec fn view(&self) -> Status {
        match *self {
            UpdateStatus::Checking => Status::Checking,
            UpdateStatus::Available { version, url, asset_url, asset_format } => Status::Available {
                version: version@,
                url: url@,
                asset_url: text_of(asset_url),
                asset_format,
            },
            UpdateStatus::UpToDate => Status::UpToDate,
            UpdateStatus::Failed => Status::Failed,
            UpdateStatus::Disabled => Status::Disabled,
        }
    }
}

/// Whether a failed request is a hiccup that clears by itself: a transport
/// fault (no status), a timeout, rate limiting or a server error.
pub fn transient_update_error(status: Option<u16>) -> (r: bool)
    ensures
        r == match status {
            Some(code) => code == 408 || code == 429 || 500 <= code < 600,
            None => true,
        },
{
    match status {
        Some(code) => code == 408 || code == 429 || (500 <= code && code < 600),
        None => true,
    }
}

/// What the check does first.
pub enum CheckStep {
    /// Nothing is fetched.
    Done(UpdateStatus),
    /// The release description is fetched from this URL.
    Fetch(String),
}

/// The text without the `v`s at its start.
pub open spec fn without_leading_v(s: Seq<char>) -> Seq<char>
    decreases s.len(),
{
    if s.len() > 0 && s[0] == 'v' {
        without_leading_v(s.skip(1))
    } else {
        s
    }
}

/// The version that a developer asks to be offered.
pub open spec fn forced_version(text: Seq<char>) -> Option<Seq<char>> {
    let v = without_leading_v(classes::trimmed(text));
    if v.len() > 0 && version::is_version(v) {
        Some(v)
    } else {
        None
    }
}

/// The version that a developer asks to be offered.
pub fn forced_update_version(text: &str) -> (r: Option<String>)
    ensures
        text_of(r) == forced_version(text@),
{
    let t = classes::trim(text);
    let v = chars::to_chars(t.as_str());
    let mut i: usize = 0;
    assert(v@.skip(0) =~= v@);
    while i < v.len() && v[i] == 'v'
        invariant
            i <= v@.len(),
            without_leading_v(v@.skip(i as int)) == without_leading_v(v@),
        decreases v@.len() - i,
    {
        assert(v@.skip(i as int)[0] == v@[i as int]);
        assert(v@.skip(i as int).skip(1) =~= v@.skip(i + 1));
        i = i + 1;
    }
    assert(i < v@.len() ==> v@.skip(i as int)[0] == v@[i as int]);
    let bare = chars::from_chars(&v, i, v.len());
    assert(bare@ =~= v@.skip(i as int));
    if bare.as_str().is_empty() {
        return None;
    }
    version::parse(bare.as_str())
}

/// How a check begins, given the version that a developer asks to be offered:
/// a forced version needs no feed, and without a feed nothing is fetched.
pub fn first_step(
    forced: Option<String>,
    over: Option<&str>,
    allow_insecure_http: bool,
) -> (r: CheckStep)
    ensures
        match forced {
            Some(v) => r matches CheckStep::Done(status) && status@ == (Status::Available {
                version: v@,
                url: seq![],
                asset_url: None,
                asset_format: None,
            }),
            None => match feed_url(over, allow_insecure_http) {
                Some(url) => r matches CheckStep::Fetch(u) && u@ == url,
                None => r == CheckStep::Done(UpdateStatus::Disabled),
            },
        },
{
    match forced {
        Some(version) => {
            let url = String::new();
            assert(url@ =~= Seq::<char>::empty());
            CheckStep::Done(
                UpdateStatus::Available { version, url, asset_url: None, asset_format: None },
            )
        },
        None => match update_feed_url(over, allow_insecure_http) {
            Some(url) => CheckStep::Fetch(url),
            None => CheckStep::Done(UpdateStatus::Disabled),
        },
    }
}

/// How a check begins; `forced` is what a developer wrote to have a version
/// offered.
pub fn begin_check(
    forced: Option<&str>,
    over: Option<&str>,
    allow_insecure_http: bool,
) -> (r: CheckStep)
    ensures
        if forced matches Some(t) && forced_version(t@) is Some {
            r matches CheckStep::Done(status) && status@ == (Status::Available {
                version: forced_version(forced->Some_0@)->Some_0,
                url: seq![],
                asset_url: None,
                asset_format: None,
            })
        } else {
            match feed_url(over, allow_insecure_http) {
                Some(url) => r matches CheckStep::Fetch(u) && u@ == url,
                None => r == CheckStep::Done(UpdateStatus::Disabled),
            }
        },
{
    let version = match forced {
        Some(text) => forced_update_version(text),
        None => None,
    };
    first_step(version, over, allow_insecure_http)
}

/// What is shown before the check has an answer: no feed and no forced
/// version means that there is no check.
pub fn initial_status(
    over: Option<&str>,
    forced_is_set: bool,
    allow_insecure_http: bool,
) -> (r: UpdateStatus)
    ensures
        r == (if feed_url(over, allow_insecure_http) is None && !forced_is_set {
            UpdateStatus::Disabled
        } else {
            UpdateStatus::Checking
        }),
{
    if update_feed_url(over, allow_insecure_http).is_none() && !forced_is_set {
        UpdateStatus::Disabled
    } else {
        UpdateStatus::Checking
    }
}

/// The version text of a release tag: a leading `v` is no part of it.
pub open spec fn tag_version(tag: Seq<char>) -> Seq<char> {
    if tag.len() > 0 && tag[0] == 'v' {
        tag.skip(1)
    } else {
        tag
    }
}

/// The offer of a release under the version `remote`: with the asset that fits,
/// if there is one.
pub open spec fn offer(
    release: GitHubRelease,
    remote: Seq<char>,
    arch: Seq<char>,
    allow_insecure_http: bool,
) -> Status {
    let choice = picked(release.assets@, arch, allow_insecure_http);
    Status::Available {
        version: remote,
        url: release.html_url@,
        asset_url: match choice {
            Some(i) => Some(release.assets@[i].browser_download_url@),
            None => None,
        },
        asset_format: match choice {
            Some(i) => Some(AssetFormat::Dmg),
            None => None,
        },
    }
}

/// What a release means for the running version `current`.
pub open spec fn judged(
    release: GitHubRelease,
    current: Seq<char>,
    arch: Seq<char>,
    allow_insecure_http: bool,
) -> Status {
    let remote = tag_version(release.tag_name@);
    if !version::is_version(remote) || !version::is_version(current) {
        Status::Failed
    } else if version::newer(remote, current) {
        offer(release, remote, arch, allow_insecure_http)
    } else {
        Status::UpToDate
    }
}

/// The version text of a release tag: a leading `v` is no part of it.
pub fn release_version(tag: &str) -> (r: String)
    ensures
        r@ == tag_version(tag@),
{
    proof {
        reveal_strlit("v");
        assert("v"@ =~= seq!['v']);
    }
    let bare = match chars::strip_prefix(tag, "v") {
        Some(rest) => rest,
        None => tag.to_string(),
    };
    proof {
        if tag@.len() > 0 && tag@[0] == 'v' {
            assert(tag@.take(1) =~= "v"@);
            assert("v"@.is_prefix_of(tag@));
        } else if "v"@.is_prefix_of(tag@) {
            assert(tag@[0] == "v"@[0]);
        }
    }
    assert(bare@ =~= tag_version(tag@));
    bare
}

/// What `release` means, given its version and whether that is newer than the
/// running one; `None` when one of the two is no version.
pub fn status_of_release(
    release: &GitHubRelease,
    compared: Option<(String, bool)>,
    arch: &str,
    method: &InstallMethod,
    allow_insecure_http: bool,
) -> (r: UpdateStatus)
    ensures
        match compared {
            None => r == UpdateStatus::Failed,
            Some((_, false)) => r == UpdateStatus::UpToDate,
            Some((remote, true)) => r@ == offer(*release, remote@, arch@, allow_insecure_http),
        },
{
    let remote = match compared {
        None => {
            return UpdateStatus::Failed;
        },
        Some((remote, newer)) => {
            if !newer {
                return UpdateStatus::UpToDate;
            }
            remote
        },
    };
    let (asset_url, asset_format) = match pick_asset(
        &release.assets,
        arch,
        method,
        allow_insecure_http,
    ) {
        Some(asset) => (
            Some(asset.browser_download_url.clone()),
            Some(AssetFormat::from_install_method(method)),
        ),
        None => (None, None),
    };
    UpdateStatus::Available {
        version: remote,
        url: release.html_url.clone(),
        asset_url,
        asset_format,
    }
}

/// What `release` means for the running version `current`: a newer release is
/// offered with the asset that fits, if there is one. The version that runs is
/// never offered, nor is one with lower numbers, nor a pre-release of it; one
/// with higher numbers always is, and so is the release of a pre-release that
/// runs.
pub fn evaluate_release(
    release: &GitHubRelease,
    current: &str,
    arch: &str,
    method: &InstallMethod,
    allow_insecure_http: bool,
) -> (r: UpdateStatus)
    ensures
        r@ == judged(*release, current@, arch@, allow_insecure_http),
        ({
            let remote = tag_version(release.tag_name@);
            version::is_version(remote) && version::is_version(current@) ==> {
                &&& remote == current@ ==> r == UpdateStatus::UpToDate
                &&& version::numbers_above(current@, remote) ==> r == UpdateStatus::UpToDate
                &&& version::numbers_above(remote, current@) ==> r is Available
                &&& version::same_numbers(remote, current@) && version::has_prerelease(remote)
                    && !version::has_prerelease(current@) ==> r == UpdateStatus::UpToDate
                &&& version::same_numbers(remote, current@) && !version::has_prerelease(remote)
                    && version::has_prerelease(current@) ==> r is Available
            }
        }),
{
    let bare = release_version(release.tag_name.as_str());
    let compared = match (version::parse(bare.as_str()), version::parse(current)) {
        (Some(remote), Some(local)) => {
            let newer = version::is_newer(remote.as_str(), local.as_str());
            Some((remote, newer))
        },
        _ => None,
    };
    status_of_release(release, compared, arch, method, allow_insecure_http)
}

/// What a check comes to, given the release that was fetched: a fetch that was
/// refused or failed, or an answer that is no release, means that it failed.
pub fn conclude_check(
    fetched: Option<&GitHubRelease>,
    current: &str,
    arch: &str,
    method: &InstallMethod,
    allow_insecure_http: bool,
) -> (r: UpdateStatus)
    ensures
        match fetched {
            Some(release) => r@ == judged(*release, current@, arch@, allow_insecure_http),
            None => r == UpdateStatus::Failed,
        },
{
    match fetched {
        Some(release) => evaluate_release(release, current, arch, method, allow_insecure_http),
        None => UpdateStatus::Failed,
    }
}

/// A download that is offered comes with its format, fits the host and may be
/// fetched.
pub proof fn offered_downloads_are_allowed(
    release: GitHubRelease,
    current: Seq<char>,
    arch: Seq<char>,
    allow_insecure_http: bool,
)
    ensures
        judged(release, current, arch, allow_insecure_http) matches Status::Available {
            asset_url,
            asset_format,
            ..
        } ==> {
            &&& (asset_url is Some <==> asset_format is Some)
            &&& asset_url matches Some(url) ==> allowed_url(url, allow_insecure_http)
        },
{
    lemma_first_fitting(release.assets@, arch, 0);
}

/// The authority of a URL without its scheme ends at the first slash, question
/// mark or hash.
pub proof fn lemma_authority_end(s: Seq<char>, k: int, e: int)
    requires
        0 <= k <= e <= s.len(),
        forall|i: int| k <= i < e ==> s[i] != '/' && s[i] != '?' && s[i] != '#',
        e < s.len() ==> s[e] == '/' || s[e] == '?' || s[e] == '#',
    ensures
        authority_end(s, k) == e,
    decreases e - k,
{
    if k < e {
        lemma_authority_end(s, k + 1, e);
    }
}

/// The host of a URL stands between the user and the port: what comes before the last
/// `@`, behind the first `:` and from the path, the query or the fragment on does not
/// count.
pub proof fn hosts_stand_before_port_and_path(
    user: Seq<char>,
    host: Seq<char>,
    port: Seq<char>,
    rest: Seq<char>,
)
    requires
        user.len() > 0 ==> user.last() == '@',
        forall|i: int|
            0 <= i < user.len() ==> #[trigger] user[i] != '/' && user[i] != '?' && user[i] != '#',
        forall|i: int|
            0 <= i < host.len() ==> #[trigger] host[i] != '/' && host[i] != '?' && host[i] != '#'
                && host[i] != '@' && host[i] != ':',
        host.len() > 0 ==> host[0] != '[',
        port.len() > 0 ==> port[0] == ':',
        forall|i: int|
            0 <= i < port.len() ==> #[trigger] port[i] != '/' && port[i] != '?' && port[i] != '#'
                && port[i] != '@',
        rest.len() > 0 ==> rest[0] == '/' || rest[0] == '?' || rest[0] == '#',
    ensures
        host_of(user + host + port + rest) == host,
{
    let s = user + host + port + rest;
    let n = (user.len() + host.len() + port.len()) as int;
    assert forall|i: int| 0 <= i < n implies s[i] != '/' && s[i] != '?' && s[i] != '#' by {
        if i < user.len() {
            assert(s[i] == user[i]);
        } else if i < user.len() + host.len() {
            assert(s[i] == host[i - user.len()]);
        } else {
            assert(s[i] == port[i - user.len() - host.len()]);
        }
    }
    if rest.len() > 0 {
        assert(s[n] == rest[0]);
    }
    lemma_authority_end(s, 0, n);
    let authority = s.take(n);
    let place = host + port;
    assert forall|i: int| 0 <= i < place.len() implies place[i] != '@' by {
        if i < host.len() {
            assert(place[i] == host[i]);
        } else {
            assert(place[i] == port[i - host.len()]);
        }
    }
    if user.len() == 0 {
        assert(authority =~= place);
        split::the_last_piece_is_kept(seq![], place, '@');
    } else {
        split::the_last_piece_is_kept(user.drop_last(), place, '@');
        assert(authority =~= user.drop_last() + seq!['@'] + place);
    }
    let h = host.len() as int;
    if port.len() > 0 {
        assert(place[h] == port[0]);
    }
    assert forall|i: int| 0 <= i < h implies place[i] != ':' by {
        assert(place[i] == host[i]);
    }
    split::lemma_next_index_unique(place, 0, ':', h);
    assert(place.take(h) =~= host);
    if place.len() > 0 && host.len() == 0 {
        assert(place[0] == port[0]);
    } else if host.len() > 0 {
        assert(place[0] == host[0]);
    }
}

/// A host in brackets is what stands between them.
pub proof fn bracketed_hosts_are_taken_out(
    user: Seq<char>,
    host: Seq<char>,
    port: Seq<char>,
    rest: Seq<char>,
)
    requires
        user.len() > 0 ==> user.last() == '@',
        forall|i: int|
            0 <= i < user.len() ==> #[trigger] user[i] != '/' && user[i] != '?' && user[i] != '#',
        forall|i: int|
            0 <= i < host.len() ==> #[trigger] host[i] != '/' && host[i] != '?' && host[i] != '#'
                && host[i] != '@' && host[i] != ']',
        forall|i: int|
            0 <= i < port.len() ==> #[trigger] port[i] != '/' && port[i] != '?' && port[i] != '#'
                && port[i] != '@',
        rest.len() > 0 ==> rest[0] == '/' || rest[0] == '?' || rest[0] == '#',
    ensures
        host_of(user + (seq!['['] + host + seq![']']) + port + rest) == host,
{
    let mid = seq!['['] + host + seq![']'];
    let s = user + mid + port + rest;
    let n = (user.len() + mid.len() + port.len()) as int;
    assert forall|i: int| 0 <= i < mid.len() implies #[trigger] mid[i] != '/' && mid[i] != '?'
        && mid[i] != '#' && mid[i] != '@' by {
        if 0 < i <= host.len() {
            assert(mid[i] == host[i - 1]);
        }
    }
    assert forall|i: int| 0 <= i < n implies s[i] != '/' && s[i] != '?' && s[i] != '#' by {
        if i < user.len() {
            assert(s[i] == user[i]);
        } else if i < user.len() + mid.len() {
            assert(s[i] == mid[i - user.len()]);
        } else {
            assert(s[i] == port[i - user.len() - mid.len()]);
        }
    }
    if rest.len() > 0 {
        assert(s[n] == rest[0]);
    }
    lemma_authority_end(s, 0, n);
    let authority = s.take(n);
    let place = mid + port;
    assert forall|i: int| 0 <= i < place.len() implies place[i] != '@' by {
        if i < mid.len() {
            assert(place[i] == mid[i]);
        } else {
            assert(place[i] == port[i - mid.len()]);
        }
    }
    if user.len() == 0 {
        assert(authority =~= place);
        split::the_last_piece_is_kept(seq![], place, '@');
    } else {
        split::the_last_piece_is_kept(user.drop_last(), place, '@');
        assert(authority =~= user.drop_last() + seq!['@'] + place);
    }
    assert(place[0] == '[');
    let inner = place.skip(1);
    let h = host.len() as int;
    assert(inner[h] == ']');
    assert forall|i: int| 0 <= i < h implies inner[i] != ']' by {
        assert(inner[i] == host[i]);
    }
    split::lemma_next_index_unique(inner, 0, ']', h);
    assert(inner.take(h) =~= host);
}

/// A URL may be fetched over an encrypted connection from the four hosts of the releases
/// and from the machine itself, over an open one from the machine itself, and from any
/// host if open connections are allowed. No other scheme will do, nor will a text that
/// is no URL.
pub proof fn urls_are_judged_by_scheme_and_host(
    scheme: Seq<char>,
    after: Seq<char>,
    allow_insecure_http: bool,
)
    requires
        forall|i: int| 0 <= i < scheme.len() ==> scheme[i] != ':',
    ensures
        ({
            let h = host_of(after);
            let name = chars::lower(h);
            let local = name == "localhost"@ || ip::loopback_v4(h) || ip::loopback_v6(h);
            let listed = name == "api.github.com"@ || name == "github.com"@ || name
                == "objects.githubusercontent.com"@ || name
                == "release-assets.githubusercontent.com"@;
            let url = scheme + "://"@ + after;
            &&& chars::lower(scheme) == "https"@ ==> (allowed_url(url, allow_insecure_http) <==> local
                || listed)
            &&& chars::lower(scheme) == "http"@ ==> (allowed_url(url, allow_insecure_http) <==> local
                || allow_insecure_http)
            &&& chars::lower(scheme) != "https"@ && chars::lower(scheme) != "http"@
                ==> !allowed_url(url, allow_insecure_http)
        }),
{
    reveal_strlit("://");
    find::first_occurrence_is_cut(scheme, "://"@, after);
    reveal_strlit("https");
    reveal_strlit("http");
    assert("https"@.len() == 5 && "http"@.len() == 4);
}

/// What is no URL may not be fetched.
pub proof fn other_texts_are_no_urls(url: Seq<char>, allow_insecure_http: bool)
    requires
        !chars::occurs(url, "://"@),
    ensures
        !allowed_url(url, allow_insecure_http),
{
    reveal_strlit("://");
    find::cutting_loses_nothing(url, "://"@);
}

/// Updates are looked for at the place that was given, if that may be fetched, and
/// nowhere otherwise.
pub proof fn feeds_are_given_and_allowed(url: &str, allow_insecure_http: bool)
    ensures
        allowed_url(url@, allow_insecure_http) ==> feed_url(Some(url), allow_insecure_http) == Some(
            url@,
        ),
        !allowed_url(url@, allow_insecure_http) ==> feed_url(Some(url), allow_insecure_http) is None,
        feed_url(None, allow_insecure_http) is None,
{
}

/// A download fits if its name ends in the architecture and the name of the system, as
/// a disk image, in capitals or not.
pub proof fn downloads_fit_by_name(asset: GitHubAsset, arch: Seq<char>, head: Seq<char>)
    ensures
        chars::lower(asset.name@) == head + chars::lower("-"@ + arch + "-apple-darwin.dmg"@)
            ==> fits(asset, arch),
        fits(asset, arch) ==> chars::lower("-"@ + arch + "-apple-darwin.dmg"@).is_suffix_of(
            chars::lower(asset.name@),
        ),
{
    reveal_strlit("-apple-darwin");
    reveal_strlit(".dmg");
    reveal_strlit("-apple-darwin.dmg");
    assert("-"@ + arch + "-apple-darwin"@ + ".dmg"@ =~= "-"@ + arch + "-apple-darwin.dmg"@);
    let e = chars::lower("-"@ + arch + "-apple-darwin.dmg"@);
    let n = chars::lower(asset.name@);
    if n == head + e {
        assert(n.subrange(n.len() - e.len(), n.len() as int) =~= e);
    }
}

/// Of the downloads the first that fits is taken, if it may be fetched; if it may not,
/// none is.
pub proof fn the_first_fit_is_taken(
    assets: Seq<GitHubAsset>,
    arch: Seq<char>,
    allow_insecure_http: bool,
    i: int,
)
    requires
        0 <= i <= assets.len(),
        forall|j: int| 0 <= j < i ==> !fits(#[trigger] assets[j], arch),
        i < assets.len() ==> fits(assets[i], arch),
    ensures
        i == assets.len() ==> picked(assets, arch, allow_insecure_http) is None,
        i < assets.len() && allowed_url(assets[i].browser_download_url@, allow_insecure_http)
            ==> picked(assets, arch, allow_insecure_http) == Some(i),
        i < assets.len() && !allowed_url(assets[i].browser_download_url@, allow_insecure_http)
            ==> picked(assets, arch, allow_insecure_http) is None,
{
    lemma_first_fitting_unique(assets, arch, 0, i);
}

proof fn lemma_first_fitting_unique(assets: Seq<GitHubAsset>, arch: Seq<char>, k: int, i: int)
    requires
        0 <= k <= i <= assets.len(),
        forall|j: int| k <= j < i ==> !fits(#[trigger] assets[j], arch),
        i < assets.len() ==> fits(assets[i], arch),
    ensures
        first_fitting(assets, arch, k) == i,
    decreases i - k,
{
    if k < i {
        lemma_first_fitting_unique(assets, arch, k + 1, i);
    }
}

/// A version that is forced may have white space around it and any number of `v` before
/// it; what is left has to be a version.
pub proof fn forced_versions_are_versions(text: Seq<char>, vs: Seq<char>, v: Seq<char>)
    requires
        classes::trimmed(text) == vs + v,
        forall|i: int| 0 <= i < vs.len() ==> vs[i] == 'v',
        v.len() > 0 ==> v[0] != 'v',
    ensures
        v.len() > 0 && version::is_version(v) ==> forced_version(text) == Some(v),
        v.len() == 0 || !version::is_version(v) ==> forced_version(text) is None,
{
    lemma_leading_v(vs, v);
}

proof fn lemma_leading_v(vs: Seq<char>, v: Seq<char>)
    requires
        forall|i: int| 0 <= i < vs.len() ==> vs[i] == 'v',
        v.len() > 0 ==> v[0] != 'v',
    ensures
        without_leading_v(vs + v) == v,
    decreases vs.len(),
{
    let s = vs + v;
    if vs.len() == 0 {
        assert(s =~= v);
    } else {
        assert(s[0] == vs[0]);
        assert(s.skip(1) =~= vs.skip(1) + v);
        lemma_leading_v(vs.skip(1), v);
    }
}

/// The version of a release is its tag without one `v` at the front.
pub proof fn tags_lose_one_v(v: Seq<char>)
    ensures
        tag_version(seq!['v'] + v) == v,
        v.len() == 0 || v[0] != 'v' ==> tag_version(v) == v,
{
    assert((seq!['v'] + v).skip(1) =~= v);
}

/// A newer release is offered with its version, its page and the download that was
/// picked; one that is not newer is no news, and one whose version cannot be read, on
/// either side, is a failure.
pub proof fn newer_releases_are_offered(
    release: GitHubRelease,
    current: Seq<char>,
    arch: Seq<char>,
    allow_insecure_http: bool,
)
    ensures
        ({
            let status = judged(release, current, arch, allow_insecure_http);
            let remote = tag_version(release.tag_name@);
            let readable = version::is_version(remote) && version::is_version(current);
            let choice = picked(release.assets@, arch, allow_insecure_http);
            &&& status is Failed <==> !readable
            &&& status is UpToDate <==> readable && !version::newer(remote, current)
            &&& status is Available <==> readable && version::newer(remote, current)
            &&& status matches Status::Available { version, url, asset_url, asset_format } ==> {
                &&& version == remote
                &&& url == release.html_url@
                &&& choice matches Some(i) ==> asset_url == Some(
                    release.assets@[i].browser_download_url@,
                )
                &&& choice is None ==> asset_url is None
                &&& asset_format is Some <==> asset_url is Some
            }
        }),
{
}

/// A host behind a bracket that is never closed goes to the end.
pub proof fn open_brackets_hold_the_rest(host: Seq<char>, rest: Seq<char>)
    requires
        forall|i: int|
            0 <= i < host.len() ==> #[trigger] host[i] != '/' && host[i] != '?' && host[i] != '#'
                && host[i] != '@' && host[i] != ']',
        rest.len() > 0 ==> rest[0] == '/' || rest[0] == '?' || rest[0] == '#',
    ensures
        host_of(seq!['['] + host + rest) == host,
{
    let s = seq!['['] + host + rest;
    let n = (1 + host.len()) as int;
    assert forall|i: int| 0 <= i < n implies s[i] != '/' && s[i] != '?' && s[i] != '#' by {
        if i > 0 {
            assert(s[i] == host[i - 1]);
        }
    }
    if rest.len() > 0 {
        assert(s[n] == rest[0]);
    }
    lemma_authority_end(s, 0, n);
    let place = s.take(n);
    assert forall|i: int| 0 <= i < place.len() implies place[i] != '@' by {
        if i > 0 {
            assert(place[i] == host[i - 1]);
        }
    }
    split::the_last_piece_is_kept(seq![], place, '@');
    let inner = place.skip(1);
    assert(inner =~= host);
    split::lemma_next_index_unique(inner, 0, ']', inner.len() as int);
    assert(inner.take(inner.len() as int) =~= host);
}

} // verus!
