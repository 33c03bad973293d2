//! Fail-closed redirects.
//!
//! A server that updates may be fetched from can still answer with a redirect
//! to anywhere. So no redirect is followed blindly: the target of each hop is
//! held against the same rule as the first URL, and the number of hops is
//! bounded.

use vstd::prelude::*;

use crate::text::chars;
use crate::text::classes;
use crate::text::find;
use crate::text::number;
use crate::text::split;
use crate::update::checker;

verus! {

/// How many redirects are followed.
pub const MAX_UPDATE_REDIRECTS: u32 = 10;

/// Why a request was given up.
#[derive(Clone, Debug, PartialEq, Eq)]
pub enum UpdateHttpError {
    /// A URL or a redirect that the rules do not admit, in words.
    Policy(String),
}

/// What an answer means.
#[derive(Clone, Debug, PartialEq, Eq)]
pub enum RedirectHop {
    /// It is the answer to the request.
    Done,
    /// The request goes on at this URL.
    Next(String),
}

/// The statuses that send a request to another URL.
pub open spec fn redirects(status: u16) -> bool {
    status == 301 || status == 302 || status == 303 || status == 307 || status == 308
}

/// Whether a character has no place in the target of a redirect.
pub open spec fn refused_char(c: char) -> bool {
    chars::is_control(c) || classes::whitespace(c) || c == '\\'
}

/// The part of `s` before its first `?` or `#`.
pub open spec fn before_query(s: Seq<char>) -> Seq<char> {
    let q = s.take(split::next_index(s, 0, '?'));
    q.take(split::next_index(q, 0, '#'))
}

/// The directory of the path that follows the authority in `rest`, the URL
/// without its scheme: up to the last slash before the query.
pub open spec fn directory(rest: Seq<char>) -> Seq<char> {
    let path = before_query(rest.skip(checker::authority_end(rest, 0)));
    if path.len() == 0 {
        seq!['/']
    } else {
        path.take(split::last_index(path, '/') + 1)
    }
}

/// The URL that `location` stands for in an answer from `current`.
pub open spec fn resolved(current: Seq<char>, location: Seq<char>) -> Option<Seq<char>> {
    let l = classes::trimmed(location);
    if l.len() == 0 || exists|i: int| 0 <= i < l.len() && refused_char(#[trigger] l[i]) {
        None
    } else if chars::occurs(l, "://"@) {
        Some(l)
    } else {
        match find::cut(current, "://"@) {
            None => None,
            Some(p) => {
                let base = p.0 + "://"@;
                let authority = p.1.take(checker::authority_end(p.1, 0));
                if "//"@.is_prefix_of(l) {
                    Some(base + l.skip(2))
                } else if l[0] == '/' {
                    Some(base + authority + l)
                } else {
                    Some(base + authority + directory(p.1) + l)
                }
            },
        }
    }
}

/// The URL that a redirect leads to, if it may be fetched.
pub open spec fn allowed_target(
    current: Seq<char>,
    location: Seq<char>,
    allow_insecure_http: bool,
) -> Option<Seq<char>> {
    match resolved(current, location) {
        Some(next) => if checker::allowed_url(next, allow_insecure_http) {
            Some(next)
        } else {
            None
        },
        None => None,
    }
}

fn has_refused_char(v: &Vec<char>) -> (r: bool)
    ensures
        r == exists|i: int| 0 <= i < v@.len() && refused_char(#[trigger] v@[i]),
{
    let mut i: usize = 0;
    while i < v.len()
        invariant
            i <= v@.len(),
            forall|j: int| 0 <= j < i ==> !refused_char(#[trigger] v@[j]),
        decreases v@.len() - i,
    {
        let c = v[i];
        let n: u32 = c as u32;
        if n < 0x20 || (0x7f <= n && n < 0xa0) || classes::is_whitespace(c) || c == '\\' {
            assert(refused_char(v@[i as int]));
            return true;
        }
        i = i + 1;
    }
    false
}

fn directory_of(rest: &Vec<char>) -> (r: String)
    ensures
        r@ == directory(rest@),
{
    let start: usize = checker::find_authority_end(rest);
    let tail = chars::from_chars(rest, start, rest.len());
    assert(tail@ =~= rest@.skip(start as int));
    let v = chars::to_chars(tail.as_str());
    let mark: usize = split::find(&v, 0, '?');
    let unasked = chars::from_chars(&v, 0, mark);
    assert(unasked@ =~= v@.take(mark as int));
    let w = chars::to_chars(unasked.as_str());
    let hash: usize = split::find(&w, 0, '#');
    let ghost path = w@.take(hash as int);
    assert(path == before_query(tail@));
    if hash == 0 {
        assert("/"@ =~= seq!['/']) by {
            reveal_strlit("/");
        }
        return "/".to_string();
    }
    let mut n: usize = hash;
    assert(path.take(n as int) =~= path);
    while n > 0 && w[n - 1] != '/'
        invariant
            n <= hash <= w@.len(),
            path == w@.take(hash as int),
            split::last_index(path.take(n as int), '/') == split::last_index(path, '/'),
        decreases n,
    {
        assert(path.take(n as int).drop_last() =~= path.take(n - 1));
        assert(path.take(n as int).last() == w@[n - 1]);
        n = n - 1;
    }
    assert(n > 0 ==> path.take(n as int).last() == w@[n - 1]);
    let r = chars::from_chars(&w, 0, n);
    assert(r@ =~= path.take(n as int));
    r
}

/// The URL that `location` stands for in an answer from `current`. What is
/// empty or holds white space, control characters or backslashes stands for
/// none.
pub fn resolve_redirect_location(current: &str, location: &str) -> (r: Option<String>)
    ensures
        checker::text_of(r) == resolved(current@, location@),
{
    proof {
        reveal_strlit("://");
        reveal_strlit("//");
        reveal_strlit("/");
        assert("/"@ =~= seq!['/']);
        assert("//"@.len() == 2);
    }
    let l = classes::trim(location);
    if l.as_str().is_empty() {
        return None;
    }
    let v = chars::to_chars(l.as_str());
    if has_refused_char(&v) {
        return None;
    }
    if chars::contains(l.as_str(), "://") {
        return Some(l);
    }
    match find::split_once(current, "://") {
        None => None,
        Some((scheme, rest)) => {
            let base = chars::concat(scheme.as_str(), "://");
            match chars::strip_prefix(l.as_str(), "//") {
                Some(target) => {
                    return Some(chars::concat(base.as_str(), target.as_str()));
                },
                None => {},
            }
            let rv = chars::to_chars(rest.as_str());
            let end: usize = checker::find_authority_end(&rv);
            let authority = chars::from_chars(&rv, 0, end);
            assert(authority@ =~= rest@.take(end as int));
            if v[0] == '/' {
                return Some(chars::concat3(base.as_str(), authority.as_str(), l.as_str()));
            }
            let dir = directory_of(&rv);
            let site = chars::concat3(base.as_str(), authority.as_str(), dir.as_str());
            Some(chars::concat(site.as_str(), l.as_str()))
        },
    }
}

/// The URL that a redirect leads to, if it may be fetched.
pub fn allowed_redirect_url(current_url: &str, location: &str, allow_insecure_http: bool) -> (r:
    Option<String>)
    ensures
        checker::text_of(r) == allowed_target(current_url@, location@, allow_insecure_http),
{
    match resolve_redirect_location(current_url, location) {
        Some(next) => {
            if checker::is_allowed_update_url_impl(next.as_str(), allow_insecure_http) {
                Some(next)
            } else {
                None
            }
        },
        None => None,
    }
}

/// What an answer means, or the words for why it is refused.
pub open spec fn hop(
    current: Seq<char>,
    status: u16,
    location: Option<Seq<char>>,
    allow_insecure_http: bool,
) -> Result<Option<Seq<char>>, Seq<char>> {
    if !redirects(status) {
        Ok(None)
    } else {
        match location {
            Some(l) => if l.len() == 0 {
                Err(no_location(current, status))
            } else {
                match allowed_target(current, l, allow_insecure_http) {
                    Some(next) => Ok(Some(next)),
                    None => Err(
                        "update redirect from "@ + current + " left the allow-list ("@ + l + ")"@,
                    ),
                }
            },
            None => Err(no_location(current, status)),
        }
    }
}

/// The words for a redirect that leads nowhere.
pub open spec fn no_location(current: Seq<char>, status: u16) -> Seq<char> {
    "update redirect from "@ + current + " had HTTP "@ + number::decimal(status as nat)
        + " with no Location"@
}

/// The result of [`redirect_hop`] as a mathematical value.
pub open spec fn hop_of(r: Result<RedirectHop, UpdateHttpError>) -> Result<
    Option<Seq<char>>,
    Seq<char>,
> {
    match r {
        Ok(RedirectHop::Done) => Ok(None),
        Ok(RedirectHop::Next(url)) => Ok(Some(url@)),
        Err(UpdateHttpError::Policy(message)) => Err(message@),
    }
}

fn refuse_without_location(current_url: &str, status: u16) -> (r: UpdateHttpError)
    ensures
        r matches UpdateHttpError::Policy(m) && m@ == no_location(current_url@, status),
{
    let head = chars::concat3("update redirect from ", current_url, " had HTTP ");
    let code = number::to_decimal(status as u64);
    UpdateHttpError::Policy(chars::concat3(head.as_str(), code.as_str(), " with no Location"))
}

/// What an answer from `current_url` with `status` and its `Location` means.
pub fn redirect_hop(
    current_url: &str,
    status: u16,
    location: Option<&str>,
    allow_insecure_http: bool,
) -> (r: Result<RedirectHop, UpdateHttpError>)
    ensures
        hop_of(r) == hop(
            current_url@,
            status,
            match location {
                Some(l) => Some(l@),
                None => None,
            },
            allow_insecure_http,
        ),
{
    if !(status == 301 || status == 302 || status == 303 || status == 307 || status == 308) {
        return Ok(RedirectHop::Done);
    }
    match location {
        Some(l) => {
            if l.is_empty() {
                return Err(refuse_without_location(current_url, status));
            }
            match allowed_redirect_url(current_url, l, allow_insecure_http) {
                Some(next) => Ok(RedirectHop::Next(next)),
                None => {
                    let head = chars::concat3(
                        "update redirect from ",
                        current_url,
                        " left the allow-list (",
                    );
                    Err(UpdateHttpError::Policy(chars::concat3(head.as_str(), l, ")")))
                },
            }
        },
        None => Err(refuse_without_location(current_url, status)),
    }
}

/// A request on its way through redirects, as a mathematical value.
pub struct Walk {
    pub start_url: Seq<char>,
    pub url: Seq<char>,
    pub followed: nat,
    pub allow_insecure_http: bool,
}

impl Walk {
    /// The request goes to a URL that may be fetched, and not too many
    /// redirects led there.
    pub open spec fn inv(self) -> bool {
        &&& checker::allowed_url(self.url, self.allow_insecure_http)
        &&& self.followed <= MAX_UPDATE_REDIRECTS
    }

    /// A request that begins at `url`.
    pub open spec fn begun(url: Seq<char>, allow_insecure_http: bool) -> Walk {
        Walk { start_url: url, url, followed: 0, allow_insecure_http }
    }

    /// The words for a request with too many redirects.
    pub open spec fn too_many(self) -> Seq<char> {
        "update redirect from "@ + self.start_url + " exceeded "@ + number::decimal(
            MAX_UPDATE_REDIRECTS as nat,
        ) + " hops"@
    }

    /// What an answer to the request means for it.
    pub open spec fn answered(self, status: u16, location: Option<Seq<char>>) -> Result<
        Option<Seq<char>>,
        Seq<char>,
    > {
        match hop(self.url, status, location, self.allow_insecure_http) {
            Ok(Some(next)) => if self.followed >= MAX_UPDATE_REDIRECTS {
                Err(self.too_many())
            } else {
                Ok(Some(next))
            },
            other => other,
        }
    }

    /// The request after an answer: at the next URL, or where it was.
    pub open spec fn after(self, status: u16, location: Option<Seq<char>>) -> Walk {
        match self.answered(status, location) {
            Ok(Some(next)) => Walk { url: next, followed: self.followed + 1, ..self },
            _ => self,
        }
    }
}

/// A request on its way through redirects. Whoever drives it fetches
/// [`RedirectWalk::url`] without following redirects, hands in the answer, and
/// fetches again while it is told so.
pub struct RedirectWalk {
    start_url: String,
    url: String,
    followed: u32,
    allow_insecure_http: bool,
}

impl View for RedirectWalk {
    type V = Walk;

    closed spec fn view(&self) -> Walk {
        Walk {
            start_url: self.start_url@,
            url: self.url@,
            followed: self.followed as nat,
            allow_insecure_http: self.allow_insecure_http,
        }
    }
}

impl RedirectWalk {
    /// Begins at `start_url`, if it may be fetched.
    pub fn start(start_url: &str, allow_insecure_http: bool) -> (r: Result<
        RedirectWalk,
        UpdateHttpError,
    >)
        ensures
            match r {
                Ok(walk) => checker::allowed_url(start_url@, allow_insecure_http) && walk@
                    == Walk::begun(start_url@, allow_insecure_http) && walk@.inv(),
                Err(UpdateHttpError::Policy(m)) => !checker::allowed_url(
                    start_url@,
                    allow_insecure_http,
                ) && m@ == "update URL is not on the allow-list: "@ + start_url@,
            },
    {
        if !checker::is_allowed_update_url_impl(start_url, allow_insecure_http) {
            return Err(
                UpdateHttpError::Policy(
                    chars::concat("update URL is not on the allow-list: ", start_url),
                ),
            );
        }
        Ok(
            RedirectWalk {
                start_url: start_url.to_string(),
                url: start_url.to_string(),
                followed: 0,
                allow_insecure_http,
            },
        )
    }

    /// The URL to fetch now.
    pub fn url(&self) -> (r: &str)
        ensures
            r@ == self@.url,
    {
        self.url.as_str()
    }

    /// Takes the answer to the last fetch: the end of the request, another URL
    /// to fetch, or a refusal.
    pub fn answer(&mut self, status: u16, location: Option<&str>) -> (r: Result<
        RedirectHop,
        UpdateHttpError,
    >)
        requires
            old(self)@.inv(),
        ensures
            final(self)@.inv(),
            ({
                let l = match location {
                    Some(l) => Some(l@),
                    None => None,
                };
                &&& hop_of(r) == old(self)@.answered(status, l)
                &&& final(self)@ == old(self)@.after(status, l)
            }),
    {
        match redirect_hop(self.url.as_str(), status, location, self.allow_insecure_http) {
            Ok(RedirectHop::Done) => Ok(RedirectHop::Done),
            Ok(RedirectHop::Next(next)) => {
                if self.followed >= MAX_UPDATE_REDIRECTS {
                    let head = chars::concat3(
                        "update redirect from ",
                        self.start_url.as_str(),
                        " exceeded ",
                    );
                    let limit = number::to_decimal(MAX_UPDATE_REDIRECTS as u64);
                    return Err(
                        UpdateHttpError::Policy(
                            chars::concat3(head.as_str(), limit.as_str(), " hops"),
                        ),
                    );
                }
                self.followed = self.followed + 1;
                self.url = next.clone();
                Ok(RedirectHop::Next(next))
            },
            Err(e) => Err(e),
        }
    }
}

/// Whether `walks` are the states of one request: each but the first is where
/// an answer sent the one before it.
pub open spec fn is_trace(walks: Seq<Walk>, answers: Seq<(u16, Option<Seq<char>>)>) -> bool {
    &&& walks.len() == answers.len() + 1
    &&& forall|i: int|
        0 <= i < answers.len() ==> {
            &&& (#[trigger] walks[i].answered(answers[i].0, answers[i].1)) matches Ok(Some(_))
            &&& walks[i + 1] == walks[i].after(answers[i].0, answers[i].1)
        }
}

/// Whatever the servers answer, every URL of a request that begins at a URL
/// that may be fetched may be fetched too, and one more URL than redirects may
/// be followed is fetched at most.
pub proof fn requests_stay_on_the_allow_list(
    url: Seq<char>,
    allow_insecure_http: bool,
    walks: Seq<Walk>,
    answers: Seq<(u16, Option<Seq<char>>)>,
)
    requires
        checker::allowed_url(url, allow_insecure_http),
        is_trace(walks, answers),
        walks[0] == Walk::begun(url, allow_insecure_http),
    ensures
        walks.len() <= MAX_UPDATE_REDIRECTS + 1,
        forall|i: int|
            0 <= i < walks.len() ==> checker::allowed_url(
                (#[trigger] walks[i]).url,
                allow_insecure_http,
            ),
{
    assert forall|i: int| 0 <= i < walks.len() implies (#[trigger] walks[i]).followed == i
        && walks[i].inv() && walks[i].allow_insecure_http == allow_insecure_http by {
        lemma_trace(url, allow_insecure_http, walks, answers, i);
    }
    let last = walks.len() - 1;
    assert(walks[last].followed == last);
}

proof fn lemma_trace(
    url: Seq<char>,
    allow_insecure_http: bool,
    walks: Seq<Walk>,
    answers: Seq<(u16, Option<Seq<char>>)>,
    i: int,
)
    requires
        checker::allowed_url(url, allow_insecure_http),
        is_trace(walks, answers),
        walks[0] == Walk::begun(url, allow_insecure_http),
        0 <= i < walks.len(),
    ensures
        walks[i].followed == i,
        walks[i].inv(),
        walks[i].allow_insecure_http == allow_insecure_http,
    decreases i,
{
    if i > 0 {
        lemma_trace(url, allow_insecure_http, walks, answers, i - 1);
        let a = answers[i - 1];
        assert(walks[i - 1].answered(a.0, a.1) matches Ok(Some(_)));
        assert(walks[i - 1 + 1] == walks[i - 1].after(a.0, a.1));
    }
}

/// An answer sends the request on if and only if its status is one of the five
/// that do so, it names a place, and that place may be fetched; the request then
/// goes there. With any other status it is the end of the request, whatever
/// place it names. A redirect that names no place, or one that may not be
/// fetched, is refused.
pub proof fn the_five_redirects_are_followed(
    current: Seq<char>,
    status: u16,
    location: Option<Seq<char>>,
    allow_insecure_http: bool,
)
    ensures
        ({
            let hopped = hop(current, status, location, allow_insecure_http);
            let five = status == 301u16 || status == 302u16 || status == 303u16 || status == 307u16
                || status == 308u16;
            &&& !five ==> hopped == Ok::<Option<Seq<char>>, Seq<char>>(None)
            &&& five && (location matches Some(l) ==> l.len() == 0) ==> hopped is Err
            &&& five && location is Some && location->Some_0.len() > 0 ==> {
                let target = resolved(current, location->Some_0);
                if target is Some && checker::allowed_url(
                    target->Some_0,
                    allow_insecure_http,
                ) {
                    hopped == Ok::<Option<Seq<char>>, Seq<char>>(Some(target->Some_0))
                } else {
                    hopped is Err
                }
            }
        }),
{
}

/// A place with a scheme of its own is where the request goes, wherever it came
/// from, without the white space around it.
pub proof fn absolute_places_stand_alone(current: Seq<char>, location: Seq<char>, l: Seq<char>)
    requires
        l == classes::trimmed(location),
        chars::occurs(l, "://"@),
        forall|i: int| 0 <= i < l.len() ==> !classes::whitespace(#[trigger] l[i]) && l[i] != '\\'
            && !chars::is_control(l[i]),
    ensures
        resolved(current, location) == Some(l),
{
    reveal_strlit("://");
    let i = choose|i: int| chars::occurs_at(l, "://"@, i);
    assert(l.len() >= 3);
    assert forall|j: int| 0 <= j < l.len() implies !refused_char(#[trigger] l[j]) by {}
}

/// A place that holds a backslash, a control character or white space within is
/// no place, and neither is one of nothing but white space.
pub proof fn doubtful_places_are_refused(current: Seq<char>, location: Seq<char>, i: int)
    requires
        classes::trimmed(location).len() == 0 || (0 <= i < classes::trimmed(location).len() && ({
            let c = classes::trimmed(location)[i];
            c == '\\' || classes::whitespace(c) || chars::is_control(c)
        })),
    ensures
        resolved(current, location) is None,
{
    let l = classes::trimmed(location);
    if l.len() > 0 {
        assert(refused_char(l[i]));
    }
}

/// A path stays on the site: of the URL that it is resolved against, the scheme
/// and the site are kept, up to the first slash, question mark or hash. The URL
/// is `scheme`, `://`, `site` and `rest`.
pub proof fn paths_stay_on_the_site(
    scheme: Seq<char>,
    site: Seq<char>,
    rest: Seq<char>,
    path: Seq<char>,
)
    requires
        forall|i: int| 0 <= i < scheme.len() ==> scheme[i] != ':',
        !chars::occurs(path, "://"@),
        forall|i: int| 0 <= i < site.len() ==> site[i] != '/' && site[i] != '?' && site[i] != '#',
        rest.len() > 0 ==> rest[0] == '/' || rest[0] == '?' || rest[0] == '#',
        path.len() > 0,
        path[0] == '/',
        path.len() > 1 ==> path[1] != '/',
        classes::trimmed(path) == path,
        forall|i: int|
            0 <= i < path.len() ==> !classes::whitespace(#[trigger] path[i]) && path[i] != '\\'
                && !chars::is_control(path[i]),
    ensures
        resolved(scheme + "://"@ + site + rest, path) == Some(scheme + "://"@ + site + path),
{
    let current = scheme + "://"@ + site + rest;
    assert forall|i: int| 0 <= i < path.len() implies !refused_char(#[trigger] path[i]) by {}
    lemma_cut_at_scheme(scheme, site + rest);
    assert(current =~= scheme + "://"@ + (site + rest));
    lemma_authority(site, rest);
    assert((site + rest).take(site.len() as int) =~= site);
    assert(!("//"@.is_prefix_of(path))) by {
        reveal_strlit("//");
        if "//"@.is_prefix_of(path) {
            assert(path[1] == "//"@[1]);
        }
    }
    assert(scheme + "://"@ + site + path =~= (scheme + "://"@) + site + path);
}

/// A place that is no path goes beside the last part of the path of the URL that
/// it is resolved against; the query of that URL does not count. The URL is
/// `scheme`, `://`, `site`, `dir`, which ends in a slash, `name` and `query`.
pub proof fn names_stay_in_the_directory(
    scheme: Seq<char>,
    site: Seq<char>,
    dir: Seq<char>,
    name: Seq<char>,
    query: Seq<char>,
    place: Seq<char>,
)
    requires
        forall|i: int| 0 <= i < scheme.len() ==> scheme[i] != ':',
        !chars::occurs(place, "://"@),
        forall|i: int| 0 <= i < site.len() ==> site[i] != '/' && site[i] != '?' && site[i] != '#',
        dir.len() > 0,
        dir[0] == '/',
        dir.last() == '/',
        forall|i: int| 0 <= i < dir.len() ==> dir[i] != '?' && dir[i] != '#',
        forall|i: int| 0 <= i < name.len() ==> name[i] != '/' && name[i] != '?' && name[i] != '#',
        query.len() > 0 ==> query[0] == '?' || query[0] == '#',
        place.len() > 0,
        place[0] != '/',
        classes::trimmed(place) == place,
        forall|i: int|
            0 <= i < place.len() ==> !classes::whitespace(#[trigger] place[i]) && place[i] != '\\'
                && !chars::is_control(place[i]),
    ensures
        resolved(scheme + "://"@ + site + dir + name + query, place) == Some(
            scheme + "://"@ + site + dir + place,
        ),
{
    let rest = dir + name + query;
    let current = scheme + "://"@ + site + dir + name + query;
    assert forall|i: int| 0 <= i < place.len() implies !refused_char(#[trigger] place[i]) by {}
    lemma_cut_at_scheme(scheme, site + rest);
    assert(current =~= scheme + "://"@ + (site + rest));
    lemma_authority(site, rest);
    let after = site + rest;
    assert(after.take(site.len() as int) =~= site);
    assert(after.skip(site.len() as int) =~= rest);
    assert(!("//"@.is_prefix_of(place))) by {
        reveal_strlit("//");
        if "//"@.is_prefix_of(place) {
            assert(place[0] == "//"@[0]);
        }
    }
    let path = dir + name;
    lemma_before_query(path, query);
    assert(rest =~= path + query);
    assert(split::last_index(path, '/') == dir.len() - 1) by {
        split::lemma_last_index(path, '/');
        let n = split::last_index(path, '/');
        assert(path[dir.len() - 1] == '/');
        if n >= dir.len() {
            assert(path[n] == name[n - dir.len()]);
        }
    }
    assert(path.take(dir.len() as int) =~= dir);
    assert(directory(after) == dir);
    assert((scheme + "://"@) + site + dir + place =~= scheme + "://"@ + site + dir + place);
}

proof fn lemma_before_query(path: Seq<char>, query: Seq<char>)
    requires
        forall|i: int| 0 <= i < path.len() ==> path[i] != '?' && path[i] != '#',
        query.len() > 0 ==> query[0] == '?' || query[0] == '#',
    ensures
        before_query(path + query) == path,
{
    let s = path + query;
    let q = split::next_index(s, 0, '?');
    split::lemma_next_index(s, 0, '?');
    if q < path.len() {
        assert(s[q] == path[q]);
    }
    let t = s.take(q);
    let n = path.len() as int;
    assert forall|j: int| 0 <= j < n implies t[j] != '#' by {
        assert(t[j] == path[j]);
    }
    if q > n {
        assert(s[n] == query[0]);
        assert(t[n] == query[0]);
    }
    split::lemma_next_index_unique(t, 0, '#', n);
    assert(t.take(n) =~= path);
}

proof fn lemma_authority(site: Seq<char>, rest: Seq<char>)
    requires
        forall|i: int| 0 <= i < site.len() ==> site[i] != '/' && site[i] != '?' && site[i] != '#',
        rest.len() > 0 ==> rest[0] == '/' || rest[0] == '?' || rest[0] == '#',
    ensures
        checker::authority_end(site + rest, 0) == site.len(),
{
    checker::lemma_authority_end(site + rest, 0, site.len() as int);
}

proof fn lemma_cut_at_scheme(scheme: Seq<char>, rest: Seq<char>)
    requires
        forall|i: int| 0 <= i < scheme.len() ==> scheme[i] != ':',
    ensures
        find::cut(scheme + "://"@ + rest, "://"@) == Some((scheme, rest)),
{
    reveal_strlit("://");
    find::first_occurrence_is_cut(scheme, "://"@, rest);
}

/// A request follows ten redirects and no more; each of them counts as one.
pub proof fn ten_redirects_are_followed(walk: Walk, status: u16, location: Option<Seq<char>>)
    requires
        hop(walk.url, status, location, walk.allow_insecure_http) matches Ok(Some(_)),
    ensures
        walk.followed < 10 ==> walk.answered(status, location) == hop(
            walk.url,
            status,
            location,
            walk.allow_insecure_http,
        ) && walk.after(status, location).followed == walk.followed + 1 && Ok::<
            Option<Seq<char>>,
            Seq<char>,
        >(Some(walk.after(status, location).url)) == walk.answered(status, location),
        walk.followed >= 10 ==> walk.answered(status, location) is Err && walk.after(
            status,
            location,
        ) == walk,
        walk.after(status, location).start_url == walk.start_url,
        walk.after(status, location).allow_insecure_http == walk.allow_insecure_http,
        Walk::begun(walk.url, walk.allow_insecure_http).followed == 0,
        Walk::begun(walk.url, walk.allow_insecure_http).url == walk.url,
{
}

/// An answer that does not send the request on leaves it where it is.
pub proof fn other_answers_end_the_request(walk: Walk, status: u16, location: Option<Seq<char>>)
    requires
        !(hop(walk.url, status, location, walk.allow_insecure_http) matches Ok(Some(_))),
    ensures
        walk.answered(status, location) == hop(
            walk.url,
            status,
            location,
            walk.allow_insecure_http,
        ),
        walk.after(status, location) == walk,
{
}

/// A refusal names the page that redirected, and why: that no place was given, with the
/// status, or the place that may not be fetched, as it was given.
pub proof fn refusals_name_the_page(
    current: Seq<char>,
    status: u16,
    place: Seq<char>,
    allow_insecure_http: bool,
)
    requires
        status == 301 || status == 302 || status == 303 || status == 307 || status == 308,
    ensures
        ({
            let missing = "update redirect from "@ + current + " had HTTP "@ + number::decimal(
                status as nat,
            ) + " with no Location"@;
            let left = "update redirect from "@ + current + " left the allow-list ("@ + place
                + ")"@;
            &&& hop(current, status, None, allow_insecure_http) == Err::<
                Option<Seq<char>>,
                Seq<char>,
            >(missing)
            &&& hop(current, status, Some(seq![]), allow_insecure_http) == Err::<
                Option<Seq<char>>,
                Seq<char>,
            >(missing)
            &&& place.len() > 0 ==> {
                let answer = hop(current, status, Some(place), allow_insecure_http);
                answer is Ok || answer == Err::<Option<Seq<char>>, Seq<char>>(left)
            }
        }),
{
}

/// A request that is sent on too often is told where it began and how often that may be.
pub proof fn endless_redirects_are_named(walk: Walk, status: u16, location: Option<Seq<char>>)
    requires
        hop(walk.url, status, location, walk.allow_insecure_http) matches Ok(Some(_)),
        walk.followed >= 10,
    ensures
        walk.answered(status, location) == Err::<Option<Seq<char>>, Seq<char>>(
            "update redirect from "@ + walk.start_url + " exceeded "@ + number::decimal(10)
                + " hops"@,
        ),
{
}

/// A place that names a site alone keeps the scheme of the page, and nothing else of it.
pub proof fn sites_keep_the_scheme(scheme: Seq<char>, after: Seq<char>, site: Seq<char>)
    requires
        forall|i: int| 0 <= i < scheme.len() ==> scheme[i] != ':',
        !chars::occurs("//"@ + site, "://"@),
        classes::trimmed("//"@ + site) == "//"@ + site,
        forall|i: int|
            0 <= i < site.len() ==> !classes::whitespace(#[trigger] site[i]) && site[i] != '\\'
                && !chars::is_control(site[i]),
    ensures
        resolved(scheme + "://"@ + after, "//"@ + site) == Some(scheme + "://"@ + site),
{
    reveal_strlit("//");
    let place = "//"@ + site;
    assert forall|i: int| 0 <= i < place.len() implies !refused_char(#[trigger] place[i]) by {
        if i >= 2 {
            assert(place[i] == site[i - 2]);
        }
    }
    lemma_cut_at_scheme(scheme, after);
    assert("//"@.is_prefix_of(place)) by {
        assert(place.subrange(0, 2) =~= "//"@);
    }
    assert(place.skip(2) =~= site);
}

/// On a page without a path a name goes below the root of the site.
pub proof fn names_go_below_the_root(
    scheme: Seq<char>,
    site: Seq<char>,
    query: Seq<char>,
    place: Seq<char>,
)
    requires
        forall|i: int| 0 <= i < scheme.len() ==> scheme[i] != ':',
        !chars::occurs(place, "://"@),
        forall|i: int| 0 <= i < site.len() ==> site[i] != '/' && site[i] != '?' && site[i] != '#',
        query.len() > 0 ==> query[0] == '?' || query[0] == '#',
        place.len() > 0,
        place[0] != '/',
        classes::trimmed(place) == place,
        forall|i: int|
            0 <= i < place.len() ==> !classes::whitespace(#[trigger] place[i]) && place[i] != '\\'
                && !chars::is_control(place[i]),
    ensures
        resolved(scheme + "://"@ + site + query, place) == Some(
            scheme + "://"@ + site + seq!['/'] + place,
        ),
{
    let current = scheme + "://"@ + site + query;
    assert forall|i: int| 0 <= i < place.len() implies !refused_char(#[trigger] place[i]) by {}
    lemma_cut_at_scheme(scheme, site + query);
    assert(current =~= scheme + "://"@ + (site + query));
    lemma_authority(site, query);
    let after = site + query;
    assert(after.take(site.len() as int) =~= site);
    assert(after.skip(site.len() as int) =~= query);
    assert(!("//"@.is_prefix_of(place))) by {
        reveal_strlit("//");
        if "//"@.is_prefix_of(place) {
            assert(place[0] == "//"@[0]);
        }
    }
    lemma_before_query(seq![], query);
    assert(Seq::<char>::empty() + query =~= query);
}

/// A place without a scheme leads nowhere from a page that has none.
pub proof fn pages_without_a_scheme_lead_nowhere(current: Seq<char>, location: Seq<char>)
    requires
        !chars::occurs(current, "://"@),
        !chars::occurs(classes::trimmed(location), "://"@),
    ensures
        resolved(current, location) is None,
{
    reveal_strlit("://");
    find::cutting_loses_nothing(current, "://"@);
}

} // verus!
