//! Unix paths as texts.
//!
//! Two paths are the same when they have the same components: repeated
//! slashes, a slash at the end and `.` components make no difference, except
//! for a `.` at the start of a relative path.

use vstd::prelude::*;

use crate::text::chars;
use crate::text::split;

verus! {

/// A path as a mathematical value.
pub struct Parts {
    pub absolute: bool,
    pub names: Seq<Seq<char>>,
}

/// The pieces of a path that are components of it.
pub open spec fn kept(absolute: bool, pieces: Seq<Seq<char>>) -> Seq<Seq<char>>
    decreases pieces.len(),
{
    if pieces.len() == 0 {
        seq![]
    } else {
        let init = kept(absolute, pieces.drop_last());
        let p = pieces.last();
        if p.len() == 0 || (p == seq!['.'] && (absolute || pieces.len() > 1)) {
            init
        } else {
            init.push(p)
        }
    }
}

/// The components of the path `s`.
pub open spec fn parse(s: Seq<char>) -> Parts {
    let absolute = s.len() > 0 && s[0] == '/';
    Parts { absolute, names: kept(absolute, split::pieces(s, '/')) }
}

/// The names joined by slashes.
pub open spec fn joined(names: Seq<Seq<char>>) -> Seq<char>
    decreases names.len(),
{
    if names.len() == 0 {
        seq![]
    } else if names.len() == 1 {
        names[0]
    } else {
        joined(names.drop_last()) + seq!['/'] + names.last()
    }
}

/// The path with the given components, as a text.
pub open spec fn render(p: Parts) -> Seq<char> {
    if p.absolute {
        seq!['/'] + joined(p.names)
    } else {
        joined(p.names)
    }
}

/// Whether a component is the name of a file or directory, not a `.` or `..`.
pub open spec fn is_name(c: Seq<char>) -> bool {
    c != seq!['.'] && c != seq!['.', '.']
}

impl Parts {
    /// The last component, when it names a file or a directory.
    pub open spec fn file_name(self) -> Option<Seq<char>> {
        if self.names.len() > 0 && is_name(self.names.last()) {
            Some(self.names.last())
        } else {
            None
        }
    }

    /// The path without its last component, when it has one.
    pub open spec fn parent(self) -> Option<Parts> {
        if self.names.len() > 0 {
            Some(Parts { absolute: self.absolute, names: self.names.drop_last() })
        } else {
            None
        }
    }

    /// Whether `prefix` leads to this path component by component.
    pub open spec fn starts_with(self, prefix: Parts) -> bool {
        if !prefix.absolute && prefix.names.len() == 0 {
            true
        } else {
            self.absolute == prefix.absolute && prefix.names.is_prefix_of(self.names)
        }
    }
}

/// The path `base` followed by `name`; an absolute `name` stands alone.
pub open spec fn join_text(base: Seq<char>, name: Seq<char>) -> Seq<char> {
    if name.len() > 0 && name[0] == '/' {
        name
    } else if base.len() == 0 || base.last() == '/' {
        base + name
    } else {
        base + seq!['/'] + name
    }
}

/// Whether components can be those of a path: none is empty or holds a slash,
/// and a `.` stands only at the start of a relative path.
pub open spec fn proper(p: Parts) -> bool {
    forall|i: int| 0 <= i < p.names.len() ==> is_component(p.absolute, i, #[trigger] p.names[i])
}

/// Whether `c` can be component `i` of a path.
pub open spec fn is_component(absolute: bool, i: int, c: Seq<char>) -> bool {
    &&& c.len() > 0
    &&& no_slash(c)
    &&& c == seq!['.'] ==> i == 0 && !absolute
}

/// Whether a text holds no slash.
pub open spec fn no_slash(s: Seq<char>) -> bool {
    forall|j: int| 0 <= j < s.len() ==> s[j] != '/'
}

proof fn lemma_pieces_hold_no_slash(s: Seq<char>, k: int)
    requires
        0 <= k <= s.len(),
    ensures
        split::pieces_from(s, k, '/').len() > 0,
        forall|i: int|
            0 <= i < split::pieces_from(s, k, '/').len() ==> no_slash(
                #[trigger] split::pieces_from(s, k, '/')[i],
            ),
    decreases s.len() - k,
{
    split::lemma_next_index(s, k, '/');
    let end = split::next_index(s, k, '/');
    let all = split::pieces_from(s, k, '/');
    if end < s.len() {
        let rest = split::pieces_from(s, end + 1, '/');
        lemma_pieces_hold_no_slash(s, end + 1);
        assert forall|i: int| 0 <= i < all.len() implies no_slash(#[trigger] all[i]) by {
            if i > 0 {
                assert(all[i] == rest[i - 1]);
            }
        }
    }
}

proof fn lemma_kept_are_proper(absolute: bool, pieces: Seq<Seq<char>>)
    requires
        forall|i: int| 0 <= i < pieces.len() ==> no_slash(#[trigger] pieces[i]),
    ensures
        proper(Parts { absolute, names: kept(absolute, pieces) }),
        kept(absolute, pieces).len() <= pieces.len(),
    decreases pieces.len(),
{
    if pieces.len() > 0 {
        let init = pieces.drop_last();
        lemma_kept_are_proper(absolute, init);
        let before = Parts { absolute, names: kept(absolute, init) };
        let p = Parts { absolute, names: kept(absolute, pieces) };
        assert forall|i: int| 0 <= i < p.names.len() implies is_component(
                p.absolute,
                i,
                #[trigger] p.names[i],
            ) by {
            if i < before.names.len() {
                assert(p.names[i] == before.names[i]);
            }
        }
    }
}

/// What is read from a text can be the components of a path.
pub proof fn lemma_parse_is_proper(s: Seq<char>)
    ensures
        proper(parse(s)),
{
    let absolute = s.len() > 0 && s[0] == '/';
    lemma_pieces_hold_no_slash(s, 0);
    lemma_kept_are_proper(absolute, split::pieces(s, '/'));
}

proof fn lemma_pieces_of_joined(head: Seq<char>, names: Seq<Seq<char>>)
    requires
        names.len() > 0,
        forall|i: int| 0 <= i < names.len() ==> no_slash(#[trigger] names[i]),
    ensures
        split::pieces_from(head + joined(names), head.len() as int, '/') == names,
    decreases names.len(),
{
    let s = head + joined(names);
    let k = head.len() as int;
    if names.len() == 1 {
        split::lemma_next_index_unique(s, k, '/', s.len() as int);
        assert(s.skip(k) =~= names[0]);
        assert(split::pieces_from(s, k, '/') =~= names);
    } else {
        lemma_joined_begins(names);
        let rest = names.drop_first();
        let end = k + names[0].len();
        let longer = head + names[0] + seq!['/'];
        assert(s =~= longer + joined(rest));
        assert(s[end] == '/');
        assert forall|j: int| k <= j < end implies s[j] != '/' by {
            assert(s[j] == names[0][j - k]);
        }
        split::lemma_next_index_unique(s, k, '/', end);
        assert forall|i: int| 0 <= i < rest.len() implies no_slash(#[trigger] rest[i]) by {
            assert(rest[i] == names[i + 1]);
        }
        lemma_pieces_of_joined(longer, rest);
        assert(s.subrange(k, end) =~= names[0]);
        assert(split::pieces_from(s, k, '/') =~= seq![names[0]] + rest);
        assert(seq![names[0]] + rest =~= names);
    }
}

proof fn lemma_joined_begins(names: Seq<Seq<char>>)
    requires
        names.len() > 1,
    ensures
        joined(names) == names[0] + seq!['/'] + joined(names.drop_first()),
    decreases names.len(),
{
    let rest = names.drop_first();
    if names.len() == 2 {
        assert(joined(names.drop_last()) == names[0]);
        assert(joined(names) =~= names[0] + seq!['/'] + joined(rest));
    } else {
        lemma_joined_begins(names.drop_last());
        assert(names.drop_last().drop_first() =~= rest.drop_last());
        assert(joined(names) =~= names[0] + seq!['/'] + joined(rest));
    }
}

proof fn lemma_proper_are_kept(p: Parts)
    requires
        proper(p),
    ensures
        p.absolute ==> kept(true, seq![Seq::<char>::empty()] + p.names) == p.names,
        !p.absolute ==> kept(false, p.names) == p.names,
    decreases p.names.len(),
{
    let e = seq![Seq::<char>::empty()];
    if p.names.len() == 0 {
        reveal_with_fuel(kept, 2);
        assert((e + p.names).drop_last() =~= seq![]);
        assert(kept(true, e + p.names) =~= p.names);
        assert(kept(false, p.names) =~= p.names);
    } else {
        let init = Parts { names: p.names.drop_last(), ..p };
        lemma_prefix_is_proper(p);
        lemma_proper_are_kept(init);
        let last = p.names[p.names.len() - 1];
        assert(last.len() > 0);
        assert((e + p.names).drop_last() =~= e + init.names);
        assert((e + p.names).last() == last);
        assert(init.names.push(last) =~= p.names);
    }
}

/// The components before the last one can be those of a path too.
pub proof fn lemma_prefix_is_proper(p: Parts)
    requires
        proper(p),
        p.names.len() > 0,
    ensures
        proper(Parts { names: p.names.drop_last(), ..p }),
{
    let init = Parts { names: p.names.drop_last(), ..p };
    assert forall|i: int| 0 <= i < init.names.len() implies is_component(
                init.absolute,
                i,
                #[trigger] init.names[i],
            ) by {
        assert(init.names[i] == p.names[i]);
    }
}

/// Components that can be those of a path are read back from its text.
pub proof fn rendered_paths_read_back(p: Parts)
    requires
        proper(p),
    ensures
        parse(render(p)) == p,
{
    let s = render(p);
    let e = Seq::<char>::empty();
    lemma_proper_are_kept(p);
    if p.names.len() == 0 {
        reveal_with_fuel(split::pieces_from, 2);
        reveal_with_fuel(split::next_index, 2);
        reveal_with_fuel(kept, 3);
        if p.absolute {
            assert(s =~= seq!['/']);
            assert(s.subrange(0, 0) =~= e);
            assert(s.skip(1) =~= e);
            assert(split::pieces(s, '/') =~= seq![e, e]);
            assert(seq![e, e].drop_last() =~= seq![e]);
        } else {
            assert(s =~= e);
            assert(s.skip(0) =~= e);
            assert(split::pieces(s, '/') =~= seq![e]);
        }
        assert(seq![e].drop_last() =~= seq![]);
        assert(parse(s).names =~= p.names);
    } else if p.absolute {
        split::lemma_next_index_unique(s, 0, '/', 0);
        assert(s.subrange(0, 0) =~= e);
        lemma_pieces_of_joined(seq!['/'], p.names);
        assert(split::pieces(s, '/') =~= seq![e] + p.names);
    } else {
        assert(e + joined(p.names) =~= s);
        lemma_pieces_of_joined(e, p.names);
        assert(p.names[0].len() > 0 && p.names[p.names.len() - 1].len() > 0);
        lemma_joined_first(p.names);
        assert(s[0] == p.names[0][0]);
    }
}

proof fn lemma_joined_first(names: Seq<Seq<char>>)
    requires
        names.len() > 0,
        names[0].len() > 0,
        names.last().len() > 0,
    ensures
        joined(names).len() > 0,
        joined(names)[0] == names[0][0],
        joined(names).last() == names.last().last(),
{
    if names.len() > 1 {
        lemma_joined_begins(names);
        let s = names[0] + seq!['/'] + joined(names.drop_first());
        assert(s[0] == names[0][0]);
        let t = joined(names.drop_last()) + seq!['/'] + names.last();
        assert(t.last() == names.last().last());
    }
}

/// A name that is joined to a directory is read back as the last component, and
/// the directory as what comes before it.
pub proof fn joined_names_read_back(dir: Parts, name: Seq<char>)
    requires
        proper(dir),
        name.len() > 0,
        no_slash(name),
        name != seq!['.'],
    ensures
        parse(join_text(render(dir), name)) == (Parts { names: dir.names.push(name), ..dir }),
{
    let p = Parts { names: dir.names.push(name), ..dir };
    assert(proper(p)) by {
        assert forall|i: int| 0 <= i < p.names.len() implies is_component(
                p.absolute,
                i,
                #[trigger] p.names[i],
            ) by {
            if i < dir.names.len() {
                assert(p.names[i] == dir.names[i]);
            }
        }
    }
    rendered_paths_read_back(p);
    assert(p.names.drop_last() =~= dir.names);
    let base = render(dir);
    if dir.names.len() == 0 {
        assert(joined(dir.names) =~= seq![]);
        assert(joined(p.names) == name);
    } else {
        let last = dir.names[dir.names.len() - 1];
        assert(dir.names[0].len() > 0 && last.len() > 0);
        lemma_joined_first(dir.names);
        assert(base.last() == last.last());
        assert(last[last.len() - 1] != '/');
    }
    assert(join_text(base, name) =~= render(p));
}

/// A path as its components.
pub struct PathParts {
    pub absolute: bool,
    pub names: Vec<String>,
}

impl View for PathParts {
    type V = Parts;

    open spec fn view(&self) -> Parts {
        Parts { absolute: self.absolute, names: split::texts(self.names@) }
    }
}

fn is_dot(s: &str) -> (r: bool)
    ensures
        r == (s@ == seq!['.']),
{
    assert("."@ =~= seq!['.']) by {
        reveal_strlit(".");
    }
    chars::same(s, ".")
}

fn is_dot_dot(s: &str) -> (r: bool)
    ensures
        r == (s@ == seq!['.', '.']),
{
    assert(".."@ =~= seq!['.', '.']) by {
        reveal_strlit("..");
    }
    chars::same(s, "..")
}

/// Whether `s` begins with a slash.
pub fn is_absolute(s: &str) -> (r: bool)
    ensures
        r == (s@.len() > 0 && s@[0] == '/'),
{
    let v = chars::to_chars(s);
    v.len() > 0 && v[0] == '/'
}

/// The components of the path `s`.
pub fn parts(s: &str) -> (r: PathParts)
    ensures
        r@ == parse(s@),
{
    let absolute = is_absolute(s);
    let pieces = split::split(s, '/');
    let mut names: Vec<String> = Vec::new();
    let ghost all = split::texts(pieces@);
    let mut i: usize = 0;
    assert(split::texts(names@) =~= kept(absolute, all.take(0)));
    while i < pieces.len()
        invariant
            i <= pieces@.len(),
            all == split::texts(pieces@),
            split::texts(names@) == kept(absolute, all.take(i as int)),
        decreases pieces@.len() - i,
    {
        let p = &pieces[i];
        let ghost so_far = names@;
        proof {
            assert(all[i as int] == p@);
            assert(all.take(i + 1).drop_last() =~= all.take(i as int));
            assert(all.take(i + 1).last() == p@);
        }
        if p.as_str().is_empty() || (is_dot(p.as_str()) && (absolute || i > 0)) {
        } else {
            names.push(p.clone());
            assert(split::texts(names@) =~= split::texts(so_far).push(p@));
        }
        i = i + 1;
    }
    assert(all.take(i as int) =~= all);
    PathParts { absolute, names }
}

impl PathParts {
    /// The path as a text.
    pub fn to_text(&self) -> (r: String)
        ensures
            r@ == render(self@),
    {
        let mut r = String::new();
        if self.absolute {
            r.push('/');
        }
        let ghost head = r@;
        let ghost all = split::texts(self.names@);
        let mut i: usize = 0;
        assert(all.take(0) =~= seq![]);
        while i < self.names.len()
            invariant
                i <= self.names@.len(),
                all == split::texts(self.names@),
                r@ == head + joined(all.take(i as int)),
            decreases self.names@.len() - i,
        {
            proof {
                assert(all[i as int] == self.names@[i as int]@);
                assert(all.take(i + 1).drop_last() =~= all.take(i as int));
                assert(all.take(i + 1).last() == all[i as int]);
            }
            if i > 0 {
                r.push('/');
            }
            r.append(self.names[i].as_str());
            assert(r@ =~= head + joined(all.take(i + 1)));
            i = i + 1;
        }
        assert(all.take(i as int) =~= all);
        assert(r@ =~= render(self@));
        r
    }

    /// The last component, when it names a file or a directory.
    pub fn file_name(&self) -> (r: Option<&str>)
        ensures
            match r {
                Some(n) => self@.file_name() == Some(n@),
                None => self@.file_name() is None,
            },
    {
        if self.names.len() == 0 {
            return None;
        }
        let last = &self.names[self.names.len() - 1];
        assert(self@.names.last() == last@);
        if is_dot(last.as_str()) || is_dot_dot(last.as_str()) {
            None
        } else {
            Some(last.as_str())
        }
    }

    /// The path without its last component, when it has one.
    pub fn parent(&self) -> (r: Option<PathParts>)
        ensures
            match r {
                Some(p) => self@.parent() == Some(p@),
                None => self@.parent() is None,
            },
    {
        if self.names.len() == 0 {
            return None;
        }
        let n: usize = self.names.len() - 1;
        let mut names: Vec<String> = Vec::new();
        let mut i: usize = 0;
        while i < n
            invariant
                i <= n,
                n < self.names@.len(),
                split::texts(names@) == split::texts(self.names@).take(i as int),
            decreases n - i,
        {
            let ghost so_far = names@;
            names.push(self.names[i].clone());
            assert(split::texts(names@) =~= split::texts(so_far).push(self.names@[i as int]@));
            assert(split::texts(self.names@).take(i + 1) =~= split::texts(self.names@).take(
                i as int,
            ).push(self.names@[i as int]@));
            i = i + 1;
        }
        let p = PathParts { absolute: self.absolute, names };
        assert(p@.names =~= self@.names.drop_last());
        Some(p)
    }

    /// Whether `prefix` leads to this path component by component.
    pub fn starts_with(&self, prefix: &PathParts) -> (r: bool)
        ensures
            r == self@.starts_with(prefix@),
    {
        if !prefix.absolute && prefix.names.len() == 0 {
            return true;
        }
        if self.absolute != prefix.absolute || prefix.names.len() > self.names.len() {
            return false;
        }
        let mut i: usize = 0;
        while i < prefix.names.len()
            invariant
                i <= prefix.names@.len() <= self.names@.len(),
                self.absolute == prefix.absolute,
                prefix.absolute || prefix.names@.len() > 0,
                forall|j: int| 0 <= j < i ==> self@.names[j] == prefix@.names[j],
            decreases prefix.names@.len() - i,
        {
            assert(self@.names[i as int] == self.names@[i as int]@);
            assert(prefix@.names[i as int] == prefix.names@[i as int]@);
            if !chars::same(self.names[i].as_str(), prefix.names[i].as_str()) {
                return false;
            }
            i = i + 1;
        }
        assert(prefix@.names =~= self@.names.take(i as int));
        true
    }

    /// Whether the two paths have the same components.
    pub fn same(&self, other: &PathParts) -> (r: bool)
        ensures
            r == (self@ == other@),
    {
        let r = self.absolute == other.absolute && self.names.len() == other.names.len()
            && self.starts_with(other);
        proof {
            assert(self@.names.len() == self.names@.len());
            assert(other@.names.len() == other.names@.len());
            if r {
                assert(self@.names =~= other@.names);
            }
        }
        r
    }
}

/// Whether `a` and `b` are the same path.
pub fn same_path(a: &str, b: &str) -> (r: bool)
    ensures
        r == (parse(a@) == parse(b@)),
{
    parts(a).same(&parts(b))
}

/// The path `base` followed by `name`.
pub fn join(base: &str, name: &str) -> (r: String)
    ensures
        r@ == join_text(base@, name@),
{
    if is_absolute(name) {
        return name.to_string();
    }
    let v = chars::to_chars(base);
    if v.len() == 0 || v[v.len() - 1] == '/' {
        return chars::concat(base, name);
    }
    assert("/"@ =~= seq!['/']) by {
        reveal_strlit("/");
    }
    chars::concat3(base, "/", name)
}

/// A path is read name by name. What follows the last slash is one more component,
/// unless nothing follows it or a `.` does; a path begins at the root if and only if
/// a slash comes first.
pub proof fn paths_are_read_name_by_name(head: Seq<char>, name: Seq<char>)
    requires
        forall|i: int| 0 <= i < name.len() ==> name[i] != '/',
    ensures
        parse(seq![]) == (Parts { absolute: false, names: seq![] }),
        name.len() > 0 ==> parse(name) == (Parts { absolute: false, names: seq![name] }),
        parse(head + seq!['/'] + name).absolute == (head.len() == 0 || head[0] == '/'),
        head.len() == 0 && name.len() > 0 && name != seq!['.'] ==> parse(
            head + seq!['/'] + name,
        ).names == seq![name],
        head.len() > 0 && name.len() > 0 && name != seq!['.'] ==> parse(
            head + seq!['/'] + name,
        ).names == parse(head).names.push(name),
        head.len() > 0 && (name.len() == 0 || name == seq!['.']) ==> parse(
            head + seq!['/'] + name,
        ).names == parse(head).names,
        head.len() == 0 && (name.len() == 0 || name == seq!['.']) ==> parse(
            head + seq!['/'] + name,
        ).names.len() == 0,
{
    let e = Seq::<char>::empty();
    let none = Seq::<Seq<char>>::empty();
    let s = head + seq!['/'] + name;
    split::pieces_end_at_separators(e, e, '/');
    split::pieces_end_at_separators(name, e, '/');
    reveal_with_fuel(kept, 3);
    assert(seq![e].drop_last() =~= none);
    assert(seq![name].drop_last() =~= none);
    assert(parse(e).names =~= none);
    if name.len() > 0 {
        assert(parse(name).names =~= seq![name]);
    }
    split::a_piece_is_added_at_the_end(head, name, '/');
    let before = split::pieces(head, '/');
    lemma_pieces_hold_no_slash(head, 0);
    assert(before.push(name).drop_last() =~= before);
    if head.len() == 0 {
        assert(head =~= e);
        assert(before =~= seq![e]);
        assert(kept(true, before) =~= none);
        assert(s[0] == '/');
        if name.len() > 0 && name != seq!['.'] {
            assert(parse(s).names =~= seq![name]);
        }
    } else {
        assert(s[0] == head[0]);
    }
}

/// The last name of a path is its file name, unless it is a `.` or a `..`, and the
/// path without it is its parent.
pub proof fn files_lie_in_their_parents(head: Seq<char>, name: Seq<char>)
    requires
        head.len() > 0,
        name.len() > 0,
        forall|i: int| 0 <= i < name.len() ==> name[i] != '/',
        name != seq!['.'],
    ensures
        name != seq!['.', '.'] ==> parse(head + seq!['/'] + name).file_name() == Some(name),
        name == seq!['.', '.'] ==> parse(head + seq!['/'] + name).file_name() is None,
        parse(head + seq!['/'] + name).parent() == Some(parse(head)),
{
    paths_are_read_name_by_name(head, name);
    let p = parse(head + seq!['/'] + name);
    assert(p.names.drop_last() =~= parse(head).names);
}

/// A path without components has no file name and no parent.
pub proof fn roots_have_no_parent(absolute: bool)
    ensures
        (Parts { absolute, names: seq![] }).parent() is None,
        (Parts { absolute, names: seq![] }).file_name() is None,
{
}

/// A path starts with another if more names only follow: both begin at the root or
/// neither does, and the names of the one are those of the other and some more. Every
/// path starts with the empty one.
pub proof fn longer_paths_start_with_shorter(p: Parts, q: Parts)
    ensures
        q.absolute || q.names.len() > 0 ==> (p.starts_with(q) <==> p.absolute == q.absolute
            && exists|rest: Seq<Seq<char>>| p.names == #[trigger] (q.names + rest)),
        !q.absolute && q.names.len() == 0 ==> p.starts_with(q),
        p.starts_with(p),
{
    if q.names.is_prefix_of(p.names) {
        assert(p.names =~= q.names + p.names.skip(q.names.len() as int));
    }
    assert forall|rest: Seq<Seq<char>>| p.names == #[trigger] (q.names + rest) implies
        q.names.is_prefix_of(p.names) by {
        assert(p.names.take(q.names.len() as int) =~= q.names);
    }
}

/// Joining puts one slash between a path and a name where there is none. A name that
/// begins at the root stands for itself.
pub proof fn joining_puts_one_slash(base: Seq<char>, name: Seq<char>)
    ensures
        name.len() > 0 && name[0] == '/' ==> join_text(base, name) == name,
        name.len() == 0 || name[0] != '/' ==> {
            &&& base.len() == 0 ==> join_text(base, name) == name
            &&& base.len() > 0 && base.last() != '/' ==> join_text(base, name) == base + seq!['/']
                + name
            &&& join_text(base.push('/'), name) == base + seq!['/'] + name
        },
{
    if base.len() == 0 {
        assert(base + name =~= name);
    }
    assert(base.push('/') + name =~= base + seq!['/'] + name);
}

/// A path is written as its names with one slash between each two, behind one slash if it
/// begins at the root.
pub proof fn paths_are_written_name_by_name(names: Seq<Seq<char>>, name: Seq<char>)
    ensures
        render(Parts { absolute: true, names: seq![] }) == seq!['/'],
        render(Parts { absolute: false, names: seq![] }).len() == 0,
        render(Parts { absolute: false, names: seq![name] }) == name,
        names.len() > 0 ==> render(Parts { absolute: false, names: names.push(name) }) == render(
            Parts { absolute: false, names },
        ) + seq!['/'] + name,
        render(Parts { absolute: true, names }) == seq!['/'] + render(
            Parts { absolute: false, names },
        ),
{
    assert(seq!['/'] + Seq::<char>::empty() =~= seq!['/']);
    assert(names.push(name).drop_last() =~= names);
}

} // verus!
