//! How the running binary was installed.
//!
//! Which way an update takes, or whether there is one at all, follows from
//! where the binary lies and from what the environment says about it.

use vstd::prelude::*;

use crate::path;
use crate::path::PathParts;
use crate::text::chars;
use crate::text::classes;
use crate::text::find;
use crate::text::split;

verus! {

/// The package manager behind a system-wide install.
#[derive(Debug, Clone, Copy, PartialEq, Eq, Structural)]
pub enum PackageManager {
    Apt,
    Dnf,
    Zypper,
    /// Immutable Fedora variants, where only `rpm-ostree` can change `/usr`.
    RpmOstree,
    /// None of the above, or one that cannot be driven from here.
    Other,
}

/// How the running binary was installed on the host.
#[derive(Debug, Clone, PartialEq, Eq)]
pub enum InstallMethod {
    /// Put into a system directory by a package manager.
    SystemPackage { manager: PackageManager },
    /// Launched from a mounted AppImage.
    AppImage { mount_point: String, source_path: String },
    /// Unpacked under `$HOME/.local/paneflow.app`.
    TarGz { app_dir: String },
    /// Inside a macOS `.app` bundle.
    AppBundle { bundle_path: String },
    /// Owned by a packager or a store, which updates it.
    ExternallyManaged { explanation: String },
    /// Nothing known: a manual copy or a development build.
    Unknown,
}

/// An [`InstallMethod`] as a mathematical value.
pub enum Method {
    SystemPackage { manager: PackageManager },
    AppImage { mount_point: Seq<char>, source_path: Seq<char> },
    TarGz { app_dir: Seq<char> },
    AppBundle { bundle_path: Seq<char> },
    ExternallyManaged { explanation: Seq<char> },
    Unknown,
}

impl View for InstallMethod {
    type V = Method;

    open spec fn view(&self) -> Method {
        match *self {
            InstallMethod::SystemPackage { manager } => Method::SystemPackage { manager },
            InstallMethod::AppImage { mount_point, source_path } => Method::AppImage {
                mount_point: mount_point@,
                source_path: source_path@,
            },
            InstallMethod::TarGz { app_dir } => Method::TarGz { app_dir: app_dir@ },
            InstallMethod::AppBundle { bundle_path } => Method::AppBundle {
                bundle_path: bundle_path@,
            },
            InstallMethod::ExternallyManaged { explanation } => Method::ExternallyManaged {
                explanation: explanation@,
            },
            InstallMethod::Unknown => Method::Unknown,
        }
    }
}

/// What the host says about the running binary.
pub struct Environment<'a> {
    /// A method that a developer asks for.
    pub forced: Option<&'a str>,
    /// The packager's explanation, from the environment.
    pub runtime_explanation: Option<&'a str>,
    /// The packager's explanation, from the build.
    pub build_explanation: Option<&'a str>,
    pub flatpak_id: Option<&'a str>,
    /// Whether the process runs as a Snap.
    pub snap: bool,
    /// The running binary, with all symlinks resolved.
    pub executable: Option<&'a str>,
    pub home: Option<&'a str>,
    /// The AppImage file that the process was launched from.
    pub appimage: Option<&'a str>,
    /// The package manager that the system's marker files point at.
    pub manager: PackageManager,
}

/// The text of an optional string.
pub open spec fn text_of(s: Option<&str>) -> Option<Seq<char>> {
    match s {
        Some(t) => Some(t@),
        None => None,
    }
}

/// The package manager that the marker files of a system point at. A system
/// that boots from ostree cannot be changed by `apt` or `dnf`, whatever other
/// markers it has.
pub open spec fn manager_of(debian: bool, fedora: bool, suse: bool, ostree: bool) -> PackageManager {
    if debian {
        if ostree {
            PackageManager::Other
        } else {
            PackageManager::Apt
        }
    } else if ostree {
        PackageManager::RpmOstree
    } else if fedora {
        PackageManager::Dnf
    } else if suse {
        PackageManager::Zypper
    } else {
        PackageManager::Other
    }
}

/// The package manager that the marker files of a system point at.
pub fn detect_package_manager_with_probes(
    debian_marker: bool,
    fedora_marker: bool,
    suse_marker: bool,
    ostree_booted: bool,
) -> (r: PackageManager)
    ensures
        r == manager_of(debian_marker, fedora_marker, suse_marker, ostree_booted),
{
    if debian_marker && ostree_booted {
        return PackageManager::Other;
    }
    if debian_marker {
        return PackageManager::Apt;
    }
    if ostree_booted {
        return PackageManager::RpmOstree;
    }
    if fedora_marker {
        return PackageManager::Dnf;
    }
    if suse_marker {
        return PackageManager::Zypper;
    }
    PackageManager::Other
}

/// A system that boots from ostree is never sent to a package manager that
/// would write to its read-only `/usr`.
pub proof fn ostree_systems_keep_their_deployment(debian: bool, fedora: bool, suse: bool)
    ensures
        manager_of(debian, fedora, suse, true) == PackageManager::Other || manager_of(
            debian,
            fedora,
            suse,
            true,
        ) == PackageManager::RpmOstree,
{
}

/// Whether `s[i..j]` is a word of `s`: no white space in it, and white space
/// or an end of the text on both sides.
pub open spec fn word(s: Seq<char>, i: int, j: int) -> bool {
    &&& 0 <= i < j <= s.len()
    &&& forall|k: int| i <= k < j ==> !classes::whitespace(#[trigger] s[k])
    &&& i == 0 || classes::whitespace(s[i - 1])
    &&& j == s.len() || classes::whitespace(s[j])
}

/// Whether `name` is the identifier of a SUSE system.
pub open spec fn suse_name(name: Seq<char>) -> bool {
    name == "opensuse"@ || name == "suse"@ || name == "sles"@
}

/// Whether one of the words of `s` is the identifier of a SUSE system.
pub open spec fn names_suse(s: Seq<char>) -> bool {
    exists|i: int, j: int| #[trigger] word(s, i, j) && suse_name(s.subrange(i, j))
}

/// The text without the quotation marks at its start.
pub open spec fn without_opening_quotes(s: Seq<char>) -> Seq<char>
    decreases s.len(),
{
    if s.len() > 0 && s[0] == '"' {
        without_opening_quotes(s.skip(1))
    } else {
        s
    }
}

/// The text without the quotation marks at its end.
pub open spec fn without_closing_quotes(s: Seq<char>) -> Seq<char>
    decreases s.len(),
{
    if s.len() > 0 && s.last() == '"' {
        without_closing_quotes(s.drop_last())
    } else {
        s
    }
}

/// Line `i` of a text cut at its line feeds: a carriage return before a line
/// feed is no part of the line.
pub open spec fn line(pieces: Seq<Seq<char>>, i: int) -> Seq<char> {
    let p = pieces[i];
    if i < pieces.len() - 1 && p.len() > 0 && p.last() == '\r' {
        p.drop_last()
    } else {
        p
    }
}

/// Whether a line of an `os-release` file says that the system is a SUSE one.
pub open spec fn suse_line(l: Seq<char>) -> bool {
    match find::cut(l, "="@) {
        Some(p) => (p.0 == "ID"@ || p.0 == "ID_LIKE"@) && names_suse(
            without_opening_quotes(without_closing_quotes(p.1)),
        ),
        None => false,
    }
}

/// Whether an `os-release` file says that the system is a SUSE one.
pub open spec fn suse_release(contents: Seq<char>) -> bool {
    let pieces = split::pieces(contents, '\n');
    exists|i: int| 0 <= i < pieces.len() && #[trigger] suse_line(line(pieces, i))
}

fn has_suse_name(s: &str) -> (r: bool)
    ensures
        r == names_suse(s@),
{
    let v = chars::to_chars(s);
    let mut i: usize = 0;
    while i < v.len()
        invariant
            v@ == s@,
            i <= v@.len(),
            i == 0 || i == v@.len() || classes::whitespace(v@[i - 1]),
            forall|a: int, b: int|
                a < i && #[trigger] word(s@, a, b) ==> !suse_name(s@.subrange(a, b)),
        decreases v@.len() - i,
    {
        let mut j: usize = i;
        while j < v.len() && !classes::is_whitespace(v[j])
            invariant
                v@ == s@,
                i <= j <= v@.len(),
                forall|k: int| i <= k < j ==> !classes::whitespace(#[trigger] v@[k]),
            decreases v@.len() - j,
        {
            j = j + 1;
        }
        if i < j {
            let w = chars::from_chars(&v, i, j);
            assert(w@ =~= s@.subrange(i as int, j as int));
            assert(word(s@, i as int, j as int));
            if chars::same(w.as_str(), "opensuse") || chars::same(w.as_str(), "suse")
                || chars::same(w.as_str(), "sles") {
                return true;
            }
        }
        proof {
            assert forall|a: int, b: int| a < j + 1 && #[trigger] word(s@, a, b) implies !suse_name(
                s@.subrange(a, b),
            ) by {
                if a >= i {
                    if a == i {
                        if b < j {
                            assert(!classes::whitespace(v@[b]));
                        }
                        if b > j {
                            assert(!classes::whitespace(s@[j as int]));
                        }
                        if i == j {
                            assert(!classes::whitespace(s@[a]));
                        }
                    } else if a <= j {
                        assert(!classes::whitespace(v@[a - 1]));
                    }
                }
            }
        }
        i = if j < v.len() {
            j + 1
        } else {
            j
        };
    }
    false
}

fn trim_quotes(s: &str) -> (r: String)
    ensures
        r@ == without_opening_quotes(without_closing_quotes(s@)),
{
    let v = chars::to_chars(s);
    let mut end: usize = v.len();
    assert(v@.take(end as int) =~= v@);
    while end > 0 && v[end - 1] == '"'
        invariant
            end <= v@.len(),
            without_closing_quotes(v@.take(end as int)) == without_closing_quotes(v@),
        decreases end,
    {
        assert(v@.take(end as int).drop_last() =~= v@.take(end - 1));
        end = end - 1;
    }
    let ghost kept = v@.take(end as int);
    assert(end > 0 ==> kept.last() == v@[end - 1]);
    let mut start: usize = 0;
    assert(kept.skip(0) =~= kept);
    while start < end && v[start] == '"'
        invariant
            start <= end <= v@.len(),
            kept == v@.take(end as int),
            without_opening_quotes(kept.skip(start as int)) == without_opening_quotes(kept),
        decreases end - start,
    {
        assert(kept.skip(start as int)[0] == v@[start as int]);
        assert(kept.skip(start as int).skip(1) =~= kept.skip(start + 1));
        start = start + 1;
    }
    assert(start < end ==> kept.skip(start as int)[0] == v@[start as int]);
    let r = chars::from_chars(&v, start, end);
    assert(r@ =~= kept.skip(start as int));
    r
}

fn is_suse_line(l: &str) -> (r: bool)
    ensures
        r == suse_line(l@),
{
    proof {
        reveal_strlit("=");
    }
    match find::split_once(l, "=") {
        Some((key, value)) => {
            if !chars::same(key.as_str(), "ID") && !chars::same(key.as_str(), "ID_LIKE") {
                return false;
            }
            let bare = trim_quotes(value.as_str());
            has_suse_name(bare.as_str())
        },
        None => false,
    }
}

/// Whether the contents of an `os-release` file say that the system is a SUSE
/// one.
pub fn os_release_id_like_suse(contents: &str) -> (r: bool)
    ensures
        r == suse_release(contents@),
{
    let lines = split::split(contents, '\n');
    let ghost all = split::texts(lines@);
    let mut i: usize = 0;
    while i < lines.len()
        invariant
            all == split::texts(lines@),
            all.len() == lines@.len(),
            all == split::pieces(contents@, '\n'),
            i <= lines@.len(),
            forall|j: int| 0 <= j < i ==> !suse_line(#[trigger] line(all, j)),
        decreases lines@.len() - i,
    {
        assert(all[i as int] == lines@[i as int]@);
        let v = chars::to_chars(lines[i].as_str());
        let text = if i < lines.len() - 1 && v.len() > 0 && v[v.len() - 1] == '\r' {
            chars::from_chars(&v, 0, v.len() - 1)
        } else {
            chars::from_chars(&v, 0, v.len())
        };
        assert(text@ =~= line(all, i as int));
        if is_suse_line(text.as_str()) {
            return true;
        }
        i = i + 1;
    }
    false
}

/// The bundle that a binary lies in: `<bundle>.app/Contents/MacOS/<binary>`.
pub open spec fn bundle_of(p: path::Parts) -> Option<path::Parts> {
    let n = p.names.len();
    if n >= 4 && p.names[n - 2] == "MacOS"@ && p.names[n - 3] == "Contents"@
        && ".app"@.is_suffix_of(p.names[n - 4]) && p.names[n - 4] != ".app"@ {
        Some(path::Parts { absolute: p.absolute, names: p.names.take(n - 3) })
    } else {
        None
    }
}

/// The path of the `.app` bundle that the binary at `p` lies in.
pub fn app_bundle_path(p: &str) -> (r: Option<String>)
    ensures
        match r {
            Some(b) => bundle_of(path::parse(p@)) matches Some(parts) && b@ == path::render(parts),
            None => bundle_of(path::parse(p@)) is None,
        },
{
    proof {
        reveal_strlit("MacOS");
        reveal_strlit("Contents");
        reveal_strlit(".app");
        assert("MacOS"@[0] == 'M' && "MacOS"@.len() == 5);
        assert("Contents"@[0] == 'C' && "Contents"@.len() == 8);
        assert(".app"@.len() == 4);
    }
    let parts = path::parts(p);
    let ghost names = parts@.names;
    let n: usize = parts.names.len();
    assert(names.len() == n);
    if n < 4 {
        return None;
    }
    proof {
        assert(names[n - 2] == parts.names@[n - 2]@);
        assert(names[n - 3] == parts.names@[n - 3]@);
        assert(names[n - 4] == parts.names@[n - 4]@);
    }
    if !chars::same(parts.names[n - 2].as_str(), "MacOS") || !chars::same(
        parts.names[n - 3].as_str(),
        "Contents",
    ) {
        return None;
    }
    let name = parts.names[n - 4].as_str();
    if !chars::ends_with(name, ".app") || chars::same(name, ".app") {
        return None;
    }
    match parts.parent() {
        Some(macos_dir) => match macos_dir.parent() {
            Some(contents_dir) => match contents_dir.parent() {
                Some(bundle) => {
                    assert(bundle@.names =~= names.take(n - 3));
                    Some(bundle.to_text())
                },
                None => None,
            },
            None => None,
        },
        None => None,
    }
}

/// The directory that a mounted AppImage shows up under, for a path inside it:
/// `/tmp/.mount_<id>`.
pub open spec fn mount_of(p: path::Parts) -> Option<Seq<char>> {
    if p.absolute && p.names.len() >= 3 && p.names[0] == "tmp"@ && ".mount_"@.is_prefix_of(
        p.names[1],
    ) {
        Some("/tmp/"@ + p.names[1])
    } else {
        None
    }
}

/// The mount directory of the AppImage that `p` lies in.
pub fn appimage_mount_point(p: &str) -> (r: Option<String>)
    ensures
        match r {
            Some(m) => mount_of(path::parse(p@)) == Some(m@),
            None => mount_of(path::parse(p@)) is None,
        },
{
    let parts = path::parts(p);
    assert(parts@.names.len() == parts.names@.len());
    if !parts.absolute || parts.names.len() < 3 {
        return None;
    }
    assert(parts@.names[0] == parts.names@[0]@);
    assert(parts@.names[1] == parts.names@[1]@);
    if !chars::same(parts.names[0].as_str(), "tmp") || !chars::starts_with(
        parts.names[1].as_str(),
        ".mount_",
    ) {
        return None;
    }
    Some(chars::concat("/tmp/", parts.names[1].as_str()))
}

/// Where the tar.gz installer unpacks to.
pub open spec fn app_dir_in(home: Seq<char>) -> Seq<char> {
    path::join_text(path::join_text(home, ".local"@), "paneflow.app"@)
}

/// The install method that the location of the binary stands for. A bundle
/// comes first; the two system directories next; a named or mounted AppImage
/// before the directory under `$HOME`.
pub open spec fn classified(
    canonical: Seq<char>,
    home: Option<Seq<char>>,
    appimage: Option<Seq<char>>,
    manager: PackageManager,
) -> Method {
    let p = path::parse(canonical);
    let mount = mount_of(p);
    match bundle_of(p) {
        Some(bundle) => Method::AppBundle { bundle_path: path::render(bundle) },
        None => if p == path::parse("/usr/bin/paneflow"@) || p == path::parse(
            "/usr/local/bin/paneflow"@,
        ) {
            Method::SystemPackage { manager }
        } else if appimage matches Some(source) && source.len() > 0 || mount is Some {
            Method::AppImage {
                mount_point: match mount {
                    Some(m) => m,
                    None => match p.parent() {
                        Some(parent) => path::render(parent),
                        None => seq![],
                    },
                },
                source_path: match appimage {
                    Some(source) => source,
                    None => seq![],
                },
            }
        } else if home matches Some(h) && p.starts_with(path::parse(app_dir_in(h))) {
            Method::TarGz { app_dir: app_dir_in(home->Some_0) }
        } else {
            Method::Unknown
        },
    }
}

/// The install method that the location of the binary stands for.
pub fn classify(
    canonical: &str,
    home: Option<&str>,
    appimage: Option<&str>,
    manager: PackageManager,
) -> (r: InstallMethod)
    ensures
        r@ == classified(canonical@, text_of(home), text_of(appimage), manager),
{
    match app_bundle_path(canonical) {
        Some(bundle_path) => {
            return InstallMethod::AppBundle { bundle_path };
        },
        None => {},
    }
    if path::same_path(canonical, "/usr/bin/paneflow") || path::same_path(
        canonical,
        "/usr/local/bin/paneflow",
    ) {
        return InstallMethod::SystemPackage { manager };
    }
    let source_path: String = match appimage {
        Some(s) => s.to_string(),
        None => String::new(),
    };
    let mount = appimage_mount_point(canonical);
    assert(text_of(appimage) is None ==> source_path@ =~= Seq::<char>::empty());
    if !source_path.as_str().is_empty() || mount.is_some() {
        let mount_point = match mount {
            Some(m) => m,
            None => match path::parts(canonical).parent() {
                Some(parent) => parent.to_text(),
                None => {
                    let none = String::new();
                    assert(none@ =~= Seq::<char>::empty());
                    none
                },
            },
        };
        return InstallMethod::AppImage { mount_point, source_path };
    }
    match home {
        Some(h) => {
            let local = path::join(h, ".local");
            let app_dir = path::join(local.as_str(), "paneflow.app");
            let inside: PathParts = path::parts(canonical);
            if inside.starts_with(&path::parts(app_dir.as_str())) {
                return InstallMethod::TarGz { app_dir };
            }
        },
        None => {},
    }
    InstallMethod::Unknown
}

/// What a sandbox or a packager says about updates, the packager first.
pub open spec fn managed(
    runtime_explanation: Option<Seq<char>>,
    build_explanation: Option<Seq<char>>,
    flatpak_id: Option<Seq<char>>,
    snap: bool,
) -> Option<Method> {
    if runtime_explanation matches Some(t) && classes::trimmed(t).len() > 0 {
        Some(
            Method::ExternallyManaged {
                explanation: classes::trimmed(runtime_explanation->Some_0),
            },
        )
    } else if build_explanation matches Some(t) && classes::trimmed(t).len() > 0 {
        Some(
            Method::ExternallyManaged { explanation: classes::trimmed(build_explanation->Some_0) },
        )
    } else if flatpak_id matches Some(t) && classes::trimmed(t).len() > 0 {
        Some(
            Method::ExternallyManaged {
                explanation: "PaneFlow is installed as a Flatpak. Run `flatpak update "@
                    + classes::trimmed(flatpak_id->Some_0) + "` to upgrade."@,
            },
        )
    } else if snap {
        Some(
            Method::ExternallyManaged {
                explanation:
                    "PaneFlow is installed as a Snap. Run `sudo snap refresh paneflow` to upgrade."@,
            },
        )
    } else {
        None
    }
}

fn trimmed_text(s: Option<&str>) -> (r: Option<String>)
    ensures
        match r {
            Some(t) => s matches Some(u) && t@ == classes::trimmed(u@) && t@.len() > 0,
            None => s matches Some(u) ==> classes::trimmed(u@).len() == 0,
        },
{
    match s {
        Some(u) => {
            let t = classes::trim(u);
            if t.as_str().is_empty() {
                None
            } else {
                Some(t)
            }
        },
        None => None,
    }
}

/// What a sandbox or a packager says about updates: `Some` when a third party
/// owns this install.
pub fn detect_externally_managed(
    runtime_explanation: Option<&str>,
    build_explanation: Option<&str>,
    flatpak_id: Option<&str>,
    snap: bool,
) -> (r: Option<InstallMethod>)
    ensures
        ({
            let expected = managed(
                text_of(runtime_explanation),
                text_of(build_explanation),
                text_of(flatpak_id),
                snap,
            );
            match r {
                Some(m) => expected == Some(m@),
                None => expected is None,
            }
        }),
{
    match trimmed_text(runtime_explanation) {
        Some(explanation) => {
            return Some(InstallMethod::ExternallyManaged { explanation });
        },
        None => {},
    }
    match trimmed_text(build_explanation) {
        Some(explanation) => {
            return Some(InstallMethod::ExternallyManaged { explanation });
        },
        None => {},
    }
    match trimmed_text(flatpak_id) {
        Some(id) => {
            let explanation = chars::concat3(
                "PaneFlow is installed as a Flatpak. Run `flatpak update ",
                id.as_str(),
                "` to upgrade.",
            );
            return Some(InstallMethod::ExternallyManaged { explanation });
        },
        None => {},
    }
    if snap {
        return Some(
            InstallMethod::ExternallyManaged {
                explanation:
                    "PaneFlow is installed as a Snap. Run `sudo snap refresh paneflow` to upgrade.".to_string(),
            },
        );
    }
    None
}

/// The package manager that a developer asks for by name.
pub open spec fn forced_manager(name: Seq<char>) -> Option<PackageManager> {
    let n = chars::lower(classes::trimmed(name));
    if n == "dnf"@ {
        Some(PackageManager::Dnf)
    } else if n == "apt"@ {
        Some(PackageManager::Apt)
    } else if n == "zypper"@ || n == "opensuse"@ {
        Some(PackageManager::Zypper)
    } else if n == "rpm-ostree"@ || n == "ostree"@ {
        Some(PackageManager::RpmOstree)
    } else {
        None
    }
}

/// The package manager that a developer asks for by name.
pub fn forced_package_manager(name: &str) -> (r: Option<PackageManager>)
    ensures
        r == forced_manager(name@),
{
    let t = classes::trim(name);
    let n = chars::to_lower(t.as_str());
    if chars::same(n.as_str(), "dnf") {
        Some(PackageManager::Dnf)
    } else if chars::same(n.as_str(), "apt") {
        Some(PackageManager::Apt)
    } else if chars::same(n.as_str(), "zypper") || chars::same(n.as_str(), "opensuse") {
        Some(PackageManager::Zypper)
    } else if chars::same(n.as_str(), "rpm-ostree") || chars::same(n.as_str(), "ostree") {
        Some(PackageManager::RpmOstree)
    } else {
        None
    }
}

/// The install method of the running binary: what a developer asks for, then
/// what a packager says, then what the location stands for.
pub open spec fn detected(env: Environment) -> Method {
    if env.forced matches Some(name) && forced_manager(name@) is Some {
        Method::SystemPackage { manager: forced_manager(env.forced->Some_0@)->Some_0 }
    } else {
        match managed(
            text_of(env.runtime_explanation),
            text_of(env.build_explanation),
            text_of(env.flatpak_id),
            env.snap,
        ) {
            Some(m) => m,
            None => match env.executable {
                Some(exe) => classified(
                    exe@,
                    text_of(env.home),
                    text_of(env.appimage),
                    env.manager,
                ),
                None => Method::Unknown,
            },
        }
    }
}

/// The install method of the running binary.
pub fn detect(env: &Environment) -> (r: InstallMethod)
    ensures
        r@ == detected(*env),
{
    match env.forced {
        Some(name) => match forced_package_manager(name) {
            Some(manager) => {
                return InstallMethod::SystemPackage { manager };
            },
            None => {},
        },
        None => {},
    }
    match detect_externally_managed(
        env.runtime_explanation,
        env.build_explanation,
        env.flatpak_id,
        env.snap,
    ) {
        Some(m) => {
            return m;
        },
        None => {},
    }
    match env.executable {
        Some(exe) => classify(exe, env.home, env.appimage, env.manager),
        None => InstallMethod::Unknown,
    }
}

/// Which package manager looks after the binary: an image-based system has its own, the
/// markers of the distributions name theirs, Debian's before Fedora's and Fedora's before
/// SUSE's, and a system without any marker has none that is known. A Debian marker on an
/// image-based system says nothing.
pub proof fn markers_name_the_manager(debian: bool, fedora: bool, suse: bool, ostree: bool)
    ensures
        manager_of(true, fedora, suse, false) == PackageManager::Apt,
        manager_of(true, fedora, suse, true) == PackageManager::Other,
        manager_of(false, fedora, suse, true) == PackageManager::RpmOstree,
        manager_of(false, true, suse, false) == PackageManager::Dnf,
        manager_of(false, false, true, false) == PackageManager::Zypper,
        manager_of(false, false, false, false) == PackageManager::Other,
{
}

/// Quotation marks go from both ends of a value, all of them and nothing else.
pub proof fn quotes_go_from_both_ends(open: Seq<char>, s: Seq<char>, close: Seq<char>)
    requires
        forall|i: int| 0 <= i < open.len() ==> open[i] == '"',
        forall|i: int| 0 <= i < close.len() ==> close[i] == '"',
        s.len() > 0,
        s[0] != '"',
        s.last() != '"',
    ensures
        without_opening_quotes(without_closing_quotes(open + s + close)) == s,
{
    lemma_closing_quotes(open + s, close);
    lemma_opening_quotes(open, s);
}

proof fn lemma_closing_quotes(s: Seq<char>, close: Seq<char>)
    requires
        forall|i: int| 0 <= i < close.len() ==> close[i] == '"',
        s.len() > 0,
        s.last() != '"',
    ensures
        without_closing_quotes(s + close) == s,
    decreases close.len(),
{
    if close.len() == 0 {
        assert(s + close =~= s);
    } else {
        assert((s + close).drop_last() =~= s + close.drop_last());
        lemma_closing_quotes(s, close.drop_last());
    }
}

proof fn lemma_opening_quotes(open: Seq<char>, s: Seq<char>)
    requires
        forall|i: int| 0 <= i < open.len() ==> open[i] == '"',
        s.len() > 0,
        s[0] != '"',
    ensures
        without_opening_quotes(open + s) == s,
    decreases open.len(),
{
    if open.len() == 0 {
        assert(open + s =~= s);
    } else {
        assert((open + s).skip(1) =~= open.skip(1) + s);
        lemma_opening_quotes(open.skip(1), s);
    }
}

/// A value names the distribution if one of its three names stands in it as a word: it is
/// the whole value, or there is white space wherever it touches something else.
pub proof fn suse_is_named_by_a_word(head: Seq<char>, name: Seq<char>, tail: Seq<char>)
    requires
        name == "opensuse"@ || name == "suse"@ || name == "sles"@,
    ensures
        (head.len() == 0 || classes::whitespace(head.last())) && (tail.len() == 0
            || classes::whitespace(tail[0])) ==> names_suse(head + name + tail),
        !names_suse(seq![]),
{
    reveal_strlit("opensuse");
    reveal_strlit("suse");
    reveal_strlit("sles");
    let s = head + name + tail;
    let (i, j) = (head.len() as int, (head.len() + name.len()) as int);
    if (head.len() == 0 || classes::whitespace(head.last())) && (tail.len() == 0
        || classes::whitespace(tail[0])) {
        assert forall|k: int| i <= k < j implies !classes::whitespace(#[trigger] s[k]) by {
            assert(s[k] == name[k - i]);
        }
        if i > 0 {
            assert(s[i - 1] == head.last());
        }
        if j < s.len() {
            assert(s[j] == tail[0]);
        }
        assert(word(s, i, j));
        assert(s.subrange(i, j) =~= name);
    }
}

/// A value that names the distribution holds one of its three names.
pub proof fn nothing_else_names_suse(s: Seq<char>)
    requires
        names_suse(s),
    ensures
        chars::occurs(s, "opensuse"@) || chars::occurs(s, "suse"@) || chars::occurs(s, "sles"@),
{
    let (i, j) = choose|i: int, j: int| #[trigger] word(s, i, j) && suse_name(s.subrange(i, j));
    let name = s.subrange(i, j);
    assert(s.subrange(i, i + name.len()) =~= name);
    assert(chars::occurs_at(s, name, i));
}

/// The distribution is told by a line that sets its identifier or those it is like; no
/// other key counts, and a line that sets nothing does not either.
pub proof fn two_keys_tell_the_distribution(key: Seq<char>, value: Seq<char>, l: Seq<char>)
    requires
        forall|i: int| 0 <= i < key.len() ==> key[i] != '=',
        forall|i: int| 0 <= i < l.len() ==> l[i] != '=',
    ensures
        suse_line(key + "="@ + value) <==> (key == "ID"@ || key == "ID_LIKE"@) && names_suse(
            without_opening_quotes(without_closing_quotes(value)),
        ),
        !suse_line(l),
{
    reveal_strlit("=");
    find::first_occurrence_is_cut(key, "="@, value);
    find::cutting_loses_nothing(l, "="@);
    if find::cut(l, "="@) is Some {
        find::lemma_first_at(l, "="@, 0);
        let i = find::first_at(l, "="@, 0);
        assert(l.subrange(i, i + 1)[0] == l[i]);
    }
}

/// A release file is told by any of its lines, whichever it is; a carriage return before
/// the line break does not count.
pub proof fn any_line_tells_the_distribution(head: Seq<char>, l: Seq<char>, tail: Seq<char>)
    requires
        forall|i: int| 0 <= i < l.len() ==> l[i] != '\n',
        suse_line(l),
        l.last() != '\r',
    ensures
        suse_release(l),
        suse_release(head + seq!['\n'] + l),
        suse_release(l + seq!['\n'] + tail),
        suse_release(l + seq!['\r', '\n'] + tail),
{
    reveal_strlit("=");
    if l.len() == 0 {
        find::cutting_loses_nothing(l, "="@);
    }
    split::pieces_end_at_separators(l, tail, '\n');
    let p = split::pieces(l, '\n');
    assert(suse_line(line(p, 0)));
    split::a_piece_is_added_at_the_end(head, l, '\n');
    let q = split::pieces(head + seq!['\n'] + l, '\n');
    assert(q.last() == l);
    assert(suse_line(line(q, q.len() - 1)));
    let r = split::pieces(l + seq!['\n'] + tail, '\n');
    assert(r[0] == l);
    assert(suse_line(line(r, 0)));
    let m = l.push('\r');
    assert forall|i: int| 0 <= i < m.len() implies m[i] != '\n' by {
        if i < l.len() {
            assert(m[i] == l[i]);
        }
    }
    split::pieces_end_at_separators(m, tail, '\n');
    split::lemma_first_piece(tail, 0, '\n');
    assert(m + seq!['\n'] + tail =~= l + seq!['\r', '\n'] + tail);
    let u = split::pieces(m + seq!['\n'] + tail, '\n');
    assert(u[0] == m);
    assert(m.drop_last() =~= l);
    assert(suse_line(line(u, 0)));
}

/// A binary lies in an application bundle if its directory is `Contents/MacOS` in a
/// directory whose name ends in `.app` and is longer than that; that directory is the
/// bundle.
pub proof fn bundles_hold_their_binary(
    absolute: bool,
    dirs: Seq<Seq<char>>,
    app: Seq<char>,
    outer: Seq<char>,
    inner: Seq<char>,
    exe: Seq<char>,
)
    ensures
        ({
            let p = path::Parts { absolute, names: dirs + seq![app, outer, inner, exe] };
            let right = outer == "Contents"@ && inner == "MacOS"@ && ".app"@.is_suffix_of(app)
                && app.len() > 4;
            &&& right ==> bundle_of(p) == Some(path::Parts { absolute, names: dirs + seq![app] })
            &&& !right ==> bundle_of(p) is None
        }),
{
    reveal_strlit(".app");
    let p = path::Parts { absolute, names: dirs + seq![app, outer, inner, exe] };
    let n = p.names.len();
    assert(p.names[n - 4] == app && p.names[n - 3] == outer && p.names[n - 2] == inner);
    assert(p.names.take(n - 3) =~= dirs + seq![app]);
    if app.len() == 4 && ".app"@.is_suffix_of(app) {
        assert(app.subrange(0, 4) =~= app);
    }
}

/// A path of fewer than four names lies in no bundle.
pub proof fn short_paths_lie_in_no_bundle(p: path::Parts)
    requires
        p.names.len() < 4,
    ensures
        bundle_of(p) is None,
{
}

/// A binary runs from a mounted image if it lies below a directory `.mount_..` of the
/// temporary one; that is where the image is mounted.
pub proof fn images_are_mounted_below_tmp(p: path::Parts, name: Seq<char>, rest: Seq<Seq<char>>)
    ensures
        p.absolute && rest.len() > 0 && p.names == seq!["tmp"@, ".mount_"@ + name] + rest
            ==> mount_of(p) == Some("/tmp/.mount_"@ + name),
        mount_of(p) is Some ==> p.absolute && p.names.len() >= 3 && p.names[0] == "tmp"@
            && ".mount_"@.is_prefix_of(p.names[1]),
{
    reveal_strlit("/tmp/");
    reveal_strlit(".mount_");
    reveal_strlit("/tmp/.mount_");
    if p.absolute && rest.len() > 0 && p.names == seq!["tmp"@, ".mount_"@ + name] + rest {
        assert(p.names[1] == ".mount_"@ + name);
        assert((".mount_"@ + name).subrange(0, ".mount_"@.len() as int) =~= ".mount_"@);
        assert("/tmp/"@ + (".mount_"@ + name) =~= "/tmp/.mount_"@ + name);
    }
}

/// Where a binary lies says how it was installed. A bundle comes first; then the two
/// places of system packages; then an image, which is also told by the environment; then
/// the directory below the user's home. Anything else is not known.
pub proof fn places_tell_the_method(
    canonical: Seq<char>,
    home: Option<Seq<char>>,
    appimage: Option<Seq<char>>,
    manager: PackageManager,
)
    ensures
        ({
            let p = path::parse(canonical);
            let method = classified(canonical, home, appimage, manager);
            let bundled = bundle_of(p) is Some;
            let packaged = p == path::parse("/usr/bin/paneflow"@) || p == path::parse(
                "/usr/local/bin/paneflow"@,
            );
            let image = mount_of(p) is Some || (appimage matches Some(a) && a.len() > 0);
            let at_home = home matches Some(h) && p.starts_with(path::parse(app_dir_in(h)));
            &&& bundled ==> method == (Method::AppBundle {
                bundle_path: path::render(bundle_of(p)->Some_0),
            })
            &&& !bundled && packaged ==> method == (Method::SystemPackage { manager })
            &&& !bundled && !packaged && image ==> {
                &&& method matches Method::AppImage { mount_point, source_path }
                &&& mount_of(p) is Some ==> mount_point == mount_of(p)->Some_0
                &&& mount_of(p) is None && p.names.len() > 0 ==> mount_point == path::render(
                    path::Parts { absolute: p.absolute, names: p.names.drop_last() },
                )
                &&& appimage is Some ==> source_path == appimage->Some_0
                &&& appimage is None ==> source_path.len() == 0
            }
            &&& !bundled && !packaged && !image && at_home ==> method == (Method::TarGz {
                app_dir: app_dir_in(home->Some_0),
            })
            &&& !bundled && !packaged && !image && !at_home ==> method == Method::Unknown
        }),
{
}

/// The directory below the user's home.
pub proof fn the_archive_lies_below_home(home: Seq<char>)
    requires
        home.len() > 0,
        home.last() != '/',
    ensures
        app_dir_in(home) == home + "/.local/paneflow.app"@,
{
    reveal_strlit(".local");
    reveal_strlit("paneflow.app");
    reveal_strlit("/.local/paneflow.app");
    path::joining_puts_one_slash(home, ".local"@);
    let local = home + seq!['/'] + ".local"@;
    assert(local.last() == 'l');
    path::joining_puts_one_slash(local, "paneflow.app"@);
    assert(local + seq!['/'] + "paneflow.app"@ =~= home + "/.local/paneflow.app"@);
}

/// What keeps the application up to date from outside says so. The words of the
/// environment come before those of the build, and both before what a sandbox is known
/// to say; blank words say nothing.
pub proof fn managers_explain_themselves(
    runtime: Option<Seq<char>>,
    build: Option<Seq<char>>,
    flatpak_id: Option<Seq<char>>,
    snap: bool,
)
    ensures
        ({
            let said = |s: Option<Seq<char>>| s is Some && classes::trimmed(s->Some_0).len() > 0;
            let told = managed(runtime, build, flatpak_id, snap);
            &&& said(runtime) ==> told == Some(
                Method::ExternallyManaged { explanation: classes::trimmed(runtime->Some_0) },
            )
            &&& !said(runtime) && said(build) ==> told == Some(
                Method::ExternallyManaged { explanation: classes::trimmed(build->Some_0) },
            )
            &&& !said(runtime) && !said(build) && said(flatpak_id) ==> told == Some(
                Method::ExternallyManaged {
                    explanation: "PaneFlow is installed as a Flatpak. Run `flatpak update "@
                        + classes::trimmed(flatpak_id->Some_0) + "` to upgrade."@,
                },
            )
            &&& !said(runtime) && !said(build) && !said(flatpak_id) && snap ==> told == Some(
                Method::ExternallyManaged {
                    explanation:
                        "PaneFlow is installed as a Snap. Run `sudo snap refresh paneflow` to upgrade."@,
                },
            )
            &&& !said(runtime) && !said(build) && !said(flatpak_id) && !snap ==> told is None
        }),
{
}

/// A package manager can be named outright, in capitals or not; another name says
/// nothing.
pub proof fn managers_are_named_outright(name: Seq<char>)
    ensures
        ({
            let n = chars::lower(classes::trimmed(name));
            let named = forced_manager(name);
            &&& named == Some(PackageManager::Dnf) <==> n == "dnf"@
            &&& named == Some(PackageManager::Apt) <==> n == "apt"@
            &&& named == Some(PackageManager::Zypper) <==> n == "zypper"@ || n == "opensuse"@
            &&& named == Some(PackageManager::RpmOstree) <==> n == "rpm-ostree"@ || n == "ostree"@
            &&& named != Some(PackageManager::Other)
        }),
{
    reveal_strlit("dnf");
    reveal_strlit("apt");
    reveal_strlit("zypper");
    reveal_strlit("opensuse");
    reveal_strlit("rpm-ostree");
    reveal_strlit("ostree");
    assert("dnf"@.len() == 3 && "dnf"@[0] == 'd' && "apt"@.len() == 3 && "apt"@[0] == 'a');
    assert("zypper"@.len() == 6 && "zypper"@[0] == 'z' && "opensuse"@.len() == 8);
    assert("rpm-ostree"@.len() == 10 && "ostree"@.len() == 6 && "ostree"@[0] == 'o');
}

/// A manager that is named outright comes first, one that explains itself second, and
/// where the binary lies third; without a binary nothing is known.
pub proof fn outright_names_come_first(env: Environment)
    ensures
        ({
            let told = managed(
                text_of(env.runtime_explanation),
                text_of(env.build_explanation),
                text_of(env.flatpak_id),
                env.snap,
            );
            let named = env.forced is Some && forced_manager(env.forced->Some_0@) is Some;
            &&& named ==> detected(env) == (Method::SystemPackage {
                manager: forced_manager(env.forced->Some_0@)->Some_0,
            })
            &&& !named && told is Some ==> detected(env) == told->Some_0
            &&& !named && told is None && env.executable is Some ==> detected(env) == classified(
                env.executable->Some_0@,
                text_of(env.home),
                text_of(env.appimage),
                env.manager,
            )
            &&& !named && told is None && env.executable is None ==> detected(env)
                == Method::Unknown
        }),
{
}

/// A value of one word names the distribution if the word is one of its three names; part of
/// a word does not count.
pub proof fn parts_of_words_do_not_name_suse(s: Seq<char>)
    requires
        forall|i: int| 0 <= i < s.len() ==> !classes::whitespace(#[trigger] s[i]),
    ensures
        names_suse(s) <==> s == "opensuse"@ || s == "suse"@ || s == "sles"@,
{
    reveal_strlit("opensuse");
    reveal_strlit("suse");
    reveal_strlit("sles");
    if names_suse(s) {
        let (i, j) = choose|i: int, j: int| #[trigger] word(s, i, j) && suse_name(s.subrange(i, j));
        assert(i == 0 && j == s.len());
        assert(s.subrange(i, j) =~= s);
    }
    if s == "opensuse"@ || s == "suse"@ || s == "sles"@ {
        let none = Seq::<char>::empty();
        suse_is_named_by_a_word(none, s, none);
        assert(none + s + none =~= s);
    }
}

/// A value of nothing but quotation marks is empty.
pub proof fn bare_quotes_are_empty(s: Seq<char>)
    requires
        forall|i: int| 0 <= i < s.len() ==> s[i] == '"',
    ensures
        without_opening_quotes(without_closing_quotes(s)).len() == 0,
    decreases s.len(),
{
    if s.len() > 0 {
        bare_quotes_are_empty(s.drop_last());
    }
}

/// A line loses the carriage return before its line break; without a line break, at the end
/// of the file, it is kept.
pub proof fn lines_lose_their_carriage_return(pieces: Seq<Seq<char>>, i: int, l: Seq<char>)
    requires
        0 <= i < pieces.len(),
    ensures
        i < pieces.len() - 1 && pieces[i] == l.push('\r') ==> line(pieces, i) == l,
        i < pieces.len() - 1 && pieces[i].len() > 0 && pieces[i].last() != '\r' ==> line(pieces, i)
            == pieces[i],
        pieces[i].len() == 0 ==> line(pieces, i).len() == 0,
        i == pieces.len() - 1 ==> line(pieces, i) == pieces[i],
{
    assert(l.push('\r').drop_last() =~= l);
}

} // verus!
