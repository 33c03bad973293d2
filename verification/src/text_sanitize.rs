//! Cleaning text that comes from outside.
//!
//! [`strip_bidi_zero_width`] takes direction controls and zero-width
//! characters out of text that is echoed into the window chrome.
//! [`normalize_prompt_text`] prepares a prompt that is typed into a terminal.

use vstd::prelude::*;

use crate::text;
use crate::text::chars;
use crate::text::index;

verus! {

/// The largest prompt, in bytes, that is typed into a terminal.
pub const MAX_PROMPT_TEXT: usize = 65536;

/// Whether `c` is a zero-width or a direction control character.
pub open spec fn bidi_or_zero_width(c: char) -> bool {
    ||| '\u{200B}' <= c <= '\u{200F}'
    ||| c == '\u{061C}'
    ||| '\u{202A}' <= c <= '\u{202E}'
    ||| c == '\u{2060}'
    ||| '\u{2066}' <= c <= '\u{206F}'
    ||| c == '\u{FEFF}'
    ||| '\u{FFF9}' <= c <= '\u{FFFB}'
}

/// `s` without its zero-width and direction control characters.
pub open spec fn stripped(s: Seq<char>) -> Seq<char> {
    s.filter(|c: char| !bidi_or_zero_width(c))
}

/// `s` with every line break, be it `\n`, `\r` or `\r\n`, turned into `sub`.
pub open spec fn breaks_as(s: Seq<char>, sub: char) -> Seq<char>
    decreases s.len(),
{
    if s.len() == 0 {
        seq![]
    } else if s[0] == '\r' && s.len() > 1 && s[1] == '\n' {
        seq![sub] + breaks_as(s.skip(2), sub)
    } else if s[0] == '\r' || s[0] == '\n' {
        seq![sub] + breaks_as(s.skip(1), sub)
    } else {
        seq![s[0]] + breaks_as(s.skip(1), sub)
    }
}

/// `s` without the `\n` at its end.
pub open spec fn without_final_breaks(s: Seq<char>) -> Seq<char>
    decreases s.len(),
{
    if s.len() > 0 && s.last() == '\n' {
        without_final_breaks(s.drop_last())
    } else {
        s
    }
}

/// The longest beginning of `s` that takes at most `max` bytes.
pub open spec fn head_within(s: Seq<char>, max: int) -> Seq<char>
    decreases s.len(),
{
    if s.len() == 0 || text::width(s) <= max {
        s
    } else {
        head_within(s.drop_last(), max)
    }
}

/// A prompt with its line breaks as `\n`, none of them at its end.
pub open spec fn prompt_lines(s: Seq<char>) -> Seq<char> {
    without_final_breaks(breaks_as(s, '\n'))
}

/// Whether `c` is a zero-width or a direction control character.
pub fn is_bidi_or_zero_width(c: char) -> (r: bool)
    ensures
        r == bidi_or_zero_width(c),
{
    ('\u{200B}' <= c && c <= '\u{200F}') || c == '\u{061C}' || ('\u{202A}' <= c && c <= '\u{202E}')
        || c == '\u{2060}' || ('\u{2066}' <= c && c <= '\u{206F}') || c == '\u{FEFF}' || (
    '\u{FFF9}' <= c && c <= '\u{FFFB}')
}

/// Takes zero-width and direction control characters out of `text`.
pub fn strip_bidi_zero_width(text: String) -> (r: String)
    ensures
        r@ == stripped(text@),
{
    let ghost keep = |c: char| !bidi_or_zero_width(c);
    let v = chars::to_chars(text.as_str());
    let mut r = String::new();
    let mut i: usize = 0;
    assert(v@.take(0).filter(keep) =~= seq![]) by {
        reveal(Seq::filter);
    }
    while i < v.len()
        invariant
            i <= v@.len(),
            keep == (|c: char| !bidi_or_zero_width(c)),
            r@ == v@.take(i as int).filter(keep),
        decreases v@.len() - i,
    {
        proof {
            reveal(Seq::filter);
            assert(v@.take(i + 1).drop_last() =~= v@.take(i as int));
            assert(v@.take(i + 1).last() == v@[i as int]);
        }
        if !is_bidi_or_zero_width(v[i]) {
            r.push(v[i]);
        }
        i = i + 1;
    }
    assert(v@.take(i as int) =~= v@);
    r
}

/// `text` with every line break turned into `sub`.
pub fn replace_breaks(text: &str, sub: char) -> (r: String)
    ensures
        r@ == breaks_as(text@, sub),
{
    let v = chars::to_chars(text);
    let mut r = String::new();
    let mut i: usize = 0;
    assert(v@.skip(0) =~= v@);
    assert(r@ + breaks_as(v@, sub) =~= breaks_as(v@, sub));
    while i < v.len()
        invariant
            i <= v@.len(),
            r@ + breaks_as(v@.skip(i as int), sub) == breaks_as(v@, sub),
        decreases v@.len() - i,
    {
        let ghost rest = v@.skip(i as int);
        let ghost so_far = r@;
        assert(rest[0] == v@[i as int]);
        if v[i] == '\r' && i + 1 < v.len() && v[i + 1] == '\n' {
            r.push(sub);
            assert(rest.skip(2) =~= v@.skip(i + 2));
            assert(r@ + breaks_as(v@.skip(i + 2), sub) =~= so_far + breaks_as(rest, sub));
            i = i + 2;
        } else {
            let c: char = if v[i] == '\r' || v[i] == '\n' {
                sub
            } else {
                v[i]
            };
            r.push(c);
            assert(rest.skip(1) =~= v@.skip(i + 1));
            assert(rest.len() > 1 ==> rest[1] == v@[i + 1]);
            assert(r@ + breaks_as(v@.skip(i + 1), sub) =~= so_far + breaks_as(rest, sub));
            i = i + 1;
        }
    }
    assert(r@ + breaks_as(v@.skip(i as int), sub) =~= r@);
    r
}

/// A prompt as it is typed into a terminal: its lines, as far as they fit, and
/// no line break at the end.
pub open spec fn prepared(text: Seq<char>) -> Seq<char> {
    without_final_breaks(head_within(prompt_lines(text), MAX_PROMPT_TEXT as int))
}

/// Prepares a prompt that is typed into a terminal: line breaks become `\n`, a
/// prompt over [`MAX_PROMPT_TEXT`] bytes is cut between two characters, and no
/// line break is left at the end, where it could be taken for a submit. The
/// second value says whether the prompt was cut.
pub fn normalize_prompt_text(text: &str) -> (r: (String, bool))
    ensures
        r.0@ == prepared(text@),
        r.1 == (text::width(prompt_lines(text@)) > MAX_PROMPT_TEXT),
{
    let t = replace_breaks(text, '\n');
    let v = chars::to_chars(t.as_str());
    let n: usize = end_of_lines(&v, v.len());
    assert(v@.take(v@.len() as int) =~= v@);
    let ghost s = prompt_lines(text@);
    assert(s == v@.take(n as int));
    let mut k: usize = 0;
    let mut off: usize = 0;
    assert(s.take(0) =~= Seq::<char>::empty());
    while k < n && off + index::char_len(v[k]) <= MAX_PROMPT_TEXT
        invariant
            n <= v@.len(),
            s == v@.take(n as int),
            k <= n,
            off == text::offset_of(s, k as int),
            off <= MAX_PROMPT_TEXT,
        decreases n - k,
    {
        proof {
            text::lemma_offset_step(s, k as int);
            assert(s[k as int] == v@[k as int]);
        }
        off = off + index::char_len(v[k]);
        k = k + 1;
    }
    proof {
        if k < n {
            text::lemma_offset_step(s, k as int);
            assert(s[k as int] == v@[k as int]);
        }
        lemma_head_within(s, MAX_PROMPT_TEXT as int, k as int);
        text::lemma_offset_monotone(s, k as int, s.len() as int);
        assert(s.take(s.len() as int) =~= s);
        assert(v@.take(k as int) =~= s.take(k as int));
        if k < n {
            text::lemma_offset_monotone(s, k + 1, s.len() as int);
        }
    }
    let end: usize = end_of_lines(&v, k);
    let r = chars::from_chars(&v, 0, end);
    assert(r@ =~= v@.take(end as int));
    (r, k < n)
}

/// Where the first `n` characters of `v` end without the line breaks at their
/// end.
fn end_of_lines(v: &Vec<char>, n: usize) -> (r: usize)
    requires
        n <= v@.len(),
    ensures
        r <= n,
        v@.take(r as int) == without_final_breaks(v@.take(n as int)),
{
    let mut r: usize = n;
    while r > 0 && v[r - 1] == '\n'
        invariant
            r <= n <= v@.len(),
            without_final_breaks(v@.take(r as int)) == without_final_breaks(v@.take(n as int)),
        decreases r,
    {
        assert(v@.take(r as int).drop_last() =~= v@.take(r - 1));
        r = r - 1;
    }
    assert(r > 0 ==> v@.take(r as int).last() == v@[r - 1]);
    r
}

/// The beginning that fits, and no longer one, is [`head_within`].
pub proof fn lemma_head_within(s: Seq<char>, max: int, k: int)
    requires
        0 <= k <= s.len(),
        text::offset_of(s, k) <= max,
        k < s.len() ==> text::offset_of(s, k + 1) > max,
    ensures
        head_within(s, max) == s.take(k),
    decreases s.len(),
{
    assert(s.take(s.len() as int) =~= s);
    if k < s.len() {
        text::lemma_offset_monotone(s, k + 1, s.len() as int);
        let t = s.drop_last();
        assert(t.take(k) =~= s.take(k));
        if k < t.len() {
            assert(t.take(k + 1) =~= s.take(k + 1));
        }
        lemma_head_within(t, max, k);
    }
}

/// Stripped text holds no zero-width or direction control character.
pub proof fn stripped_text_is_clean(s: Seq<char>)
    ensures
        forall|i: int| 0 <= i < stripped(s).len() ==> !bidi_or_zero_width(#[trigger] stripped(s)[i]),
    decreases s.len(),
{
    reveal(Seq::filter);
    if s.len() > 0 {
        stripped_text_is_clean(s.drop_last());
        let keep = |c: char| !bidi_or_zero_width(c);
        assert(s.filter(keep) == if keep(s.last()) {
            s.drop_last().filter(keep).push(s.last())
        } else {
            s.drop_last().filter(keep)
        });
    }
}

/// Text without such characters is left as it is.
pub proof fn clean_text_is_kept(s: Seq<char>)
    requires
        forall|i: int| 0 <= i < s.len() ==> !bidi_or_zero_width(#[trigger] s[i]),
    ensures
        stripped(s) == s,
    decreases s.len(),
{
    reveal(Seq::filter);
    if s.len() > 0 {
        clean_text_is_kept(s.drop_last());
        assert(s.drop_last().push(s.last()) =~= s);
    }
}

/// Stripping twice does what stripping once does.
pub proof fn stripping_is_idempotent(s: Seq<char>)
    ensures
        stripped(stripped(s)) == stripped(s),
{
    stripped_text_is_clean(s);
    clean_text_is_kept(stripped(s));
}

/// Turning line breaks into `sub` leaves no other line break character.
pub proof fn breaks_are_gone(s: Seq<char>, sub: char)
    ensures
        forall|i: int|
            0 <= i < breaks_as(s, sub).len() ==> breaks_as(s, sub)[i] == sub || (breaks_as(s, sub)[i]
                != '\r' && #[trigger] breaks_as(s, sub)[i] != '\n'),
        breaks_as(s, sub).len() <= s.len(),
    decreases s.len(),
{
    if s.len() == 0 {
    } else if s[0] == '\r' && s.len() > 1 && s[1] == '\n' {
        breaks_are_gone(s.skip(2), sub);
    } else {
        breaks_are_gone(s.skip(1), sub);
    }
}

/// A prepared prompt fits the limit, holds no `\r` and does not end in a line
/// break. It is the beginning of the prompt's lines, and all of them unless they
/// are too long.
pub proof fn prepared_prompt_is_safe(s: Seq<char>)
    ensures
        text::width(prepared(s)) <= MAX_PROMPT_TEXT,
        forall|i: int| 0 <= i < prepared(s).len() ==> #[trigger] prepared(s)[i] != '\r',
        prepared(s).len() > 0 ==> prepared(s).last() != '\n',
        prepared(s).is_prefix_of(prompt_lines(s)),
        text::width(prompt_lines(s)) <= MAX_PROMPT_TEXT ==> prepared(s) == prompt_lines(s),
{
    let lines = prompt_lines(s);
    let head = head_within(lines, MAX_PROMPT_TEXT as int);
    breaks_are_gone(s, '\n');
    lemma_final_breaks(breaks_as(s, '\n'));
    lemma_head_is_prefix(lines, MAX_PROMPT_TEXT as int);
    lemma_final_breaks(head);
    assert(prepared(s) =~= head.take(prepared(s).len() as int));
    text::lemma_offset_monotone(head, prepared(s).len() as int, head.len() as int);
    assert(head.take(head.len() as int) =~= head);
    assert(prepared(s) =~= lines.take(prepared(s).len() as int));
}

proof fn lemma_final_breaks(s: Seq<char>)
    ensures
        without_final_breaks(s).is_prefix_of(s),
        without_final_breaks(s).len() > 0 ==> without_final_breaks(s).last() != '\n',
    decreases s.len(),
{
    if s.len() > 0 && s.last() == '\n' {
        lemma_final_breaks(s.drop_last());
    }
}

proof fn lemma_head_is_prefix(s: Seq<char>, max: int)
    requires
        max >= 0,
    ensures
        head_within(s, max).is_prefix_of(s),
        text::width(head_within(s, max)) <= max,
    decreases s.len(),
{
    if s.len() > 0 && text::width(s) > max {
        lemma_head_is_prefix(s.drop_last(), max);
    }
}

/// A text without `\r` has its line breaks replaced one for one: the result has
/// the same length, holds `sub` where the text holds `\n`, and the text's own
/// character everywhere else.
pub proof fn breaks_are_replaced_one_for_one(s: Seq<char>, sub: char)
    requires
        forall|i: int| 0 <= i < s.len() ==> s[i] != '\r',
    ensures
        breaks_as(s, sub).len() == s.len(),
        forall|i: int|
            0 <= i < s.len() ==> #[trigger] breaks_as(s, sub)[i] == (if s[i] == '\n' {
                sub
            } else {
                s[i]
            }),
    decreases s.len(),
{
    if s.len() > 0 {
        let rest = s.skip(1);
        breaks_are_replaced_one_for_one(rest, sub);
        assert forall|i: int| 0 <= i < s.len() implies #[trigger] breaks_as(s, sub)[i] == (if s[i]
            == '\n' {
            sub
        } else {
            s[i]
        }) by {
            if i > 0 {
                assert(rest[i - 1] == s[i]);
                assert(breaks_as(s, sub)[i] == breaks_as(rest, sub)[i - 1]);
            }
        }
    }
}

/// Line breaks of the three kinds all come to one `sub`: a `\r\n` in the text is
/// as good as a `\n`, and a `\r` that no `\n` follows is too. What stands before
/// and after is replaced on its own.
pub proof fn all_breaks_are_alike(a: Seq<char>, b: Seq<char>, sub: char)
    requires
        a.len() > 0 ==> a.last() != '\r',
    ensures
        breaks_as(a + seq!['\r', '\n'] + b, sub) == breaks_as(a, sub) + seq![sub] + breaks_as(
            b,
            sub,
        ),
        breaks_as(a + seq!['\n'] + b, sub) == breaks_as(a, sub) + seq![sub] + breaks_as(b, sub),
        b.len() > 0 && b[0] != '\n' ==> breaks_as(a + seq!['\r'] + b, sub) == breaks_as(a, sub)
            + seq![sub] + breaks_as(b, sub),
        breaks_as(a + seq!['\r'], sub) == breaks_as(a, sub) + seq![sub],
{
    lemma_breaks_apart(a, seq!['\r', '\n'] + b, sub);
    lemma_breaks_apart(a, seq!['\n'] + b, sub);
    assert((seq!['\r', '\n'] + b).skip(2) =~= b);
    assert((seq!['\n'] + b).skip(1) =~= b);
    assert((seq!['\r'] + b).skip(1) =~= b);
    assert(seq!['\r'].skip(1) =~= Seq::<char>::empty());
    assert(a + seq!['\r', '\n'] + b =~= a + (seq!['\r', '\n'] + b));
    assert(a + seq!['\n'] + b =~= a + (seq!['\n'] + b));
    assert(a + seq!['\r'] + b =~= a + (seq!['\r'] + b));
    assert(breaks_as(a, sub) + (seq![sub] + breaks_as(b, sub)) =~= breaks_as(a, sub) + seq![sub]
        + breaks_as(b, sub));
    if b.len() > 0 && b[0] != '\n' {
        assert((seq!['\r'] + b)[1] == b[0]);
        lemma_breaks_apart(a, seq!['\r'] + b, sub);
    }
    lemma_breaks_apart(a, seq!['\r'], sub);
    assert(breaks_as(seq!['\r'], sub) =~= seq![sub]) by {
        reveal_with_fuel(breaks_as, 2);
    }
}

proof fn lemma_breaks_apart(a: Seq<char>, b: Seq<char>, sub: char)
    requires
        a.len() > 0 ==> a.last() != '\r',
    ensures
        breaks_as(a + b, sub) == breaks_as(a, sub) + breaks_as(b, sub),
    decreases a.len(),
{
    if a.len() == 0 {
        assert(a + b =~= b);
        assert(breaks_as(a, sub) + breaks_as(b, sub) =~= breaks_as(b, sub));
    } else {
        let n = if a[0] == '\r' && a.len() > 1 && a[1] == '\n' {
            2int
        } else {
            1int
        };
        let rest = a.skip(n);
        if rest.len() > 0 {
            assert(rest.last() == a.last());
        }
        lemma_breaks_apart(rest, b, sub);
        assert((a + b).skip(n) =~= rest + b);
        if a.len() == 1 {
            assert(a.last() == a[0]);
        } else {
            assert((a + b)[1] == a[1]);
        }
        assert(breaks_as(a + b, sub) =~= breaks_as(a, sub) + breaks_as(b, sub));
    }
}

/// A prompt without `\r` that fits into 64 KiB and does not end in a line break
/// is typed as it is.
pub proof fn good_prompts_are_kept(s: Seq<char>)
    requires
        forall|i: int| 0 <= i < s.len() ==> s[i] != '\r',
        text::width(s) <= 65536,
        s.len() > 0 ==> s.last() != '\n',
    ensures
        prepared(s) == s,
{
    breaks_are_replaced_one_for_one(s, '\n');
    assert(breaks_as(s, '\n') =~= s);
}

/// Of a prompt that is too long, as much is typed as fits: with the next character
/// it would take more than 64 KiB, but for the line breaks at the end, which go.
pub proof fn long_prompts_are_cut_late(s: Seq<char>)
    requires
        forall|i: int| 0 <= i < s.len() ==> s[i] != '\r',
        s.len() > 0 ==> s.last() != '\n',
        text::width(s) > 65536,
    ensures
        prepared(s).is_prefix_of(s),
        exists|k: int|
            #![trigger s.take(k)]
            prepared(s).len() <= k < s.len() && text::width(s.take(k)) <= 65536 && text::width(
                s.take(k + 1),
            ) > 65536 && forall|j: int| prepared(s).len() <= j < k ==> s[j] == '\n',
{
    breaks_are_replaced_one_for_one(s, '\n');
    assert(breaks_as(s, '\n') =~= s);
    let head = head_within(s, 65536);
    lemma_head_is_longest(s, 65536);
    let k = head.len() as int;
    lemma_only_breaks_go(head);
    lemma_final_breaks(head);
    assert(s.take(k) =~= head);
    assert(prepared(s) == without_final_breaks(head));
    assert(prepared(s) =~= s.take(prepared(s).len() as int));
    assert forall|j: int| prepared(s).len() <= j < k implies s[j] == '\n' by {
        assert(head[j] == s[j]);
    }
}

proof fn lemma_head_is_longest(s: Seq<char>, max: int)
    requires
        max >= 0,
        text::width(s) > max,
    ensures
        ({
            let k = head_within(s, max).len() as int;
            &&& k < s.len()
            &&& head_within(s, max) == s.take(k)
            &&& text::width(s.take(k)) <= max
            &&& text::width(s.take(k + 1)) > max
        }),
    decreases s.len(),
{
    let t = s.drop_last();
    assert(s.take(s.len() as int) =~= s);
    assert(s.take(s.len() - 1) =~= t);
    if text::width(t) > max {
        lemma_head_is_longest(t, max);
        let k = head_within(s, max).len() as int;
        assert(t.take(k) =~= s.take(k));
        assert(t.take(k + 1) =~= s.take(k + 1));
    }
}

proof fn lemma_only_breaks_go(s: Seq<char>)
    ensures
        without_final_breaks(s).is_prefix_of(s),
        forall|j: int| without_final_breaks(s).len() <= j < s.len() ==> s[j] == '\n',
    decreases s.len(),
{
    if s.len() > 0 && s.last() == '\n' {
        let t = s.drop_last();
        lemma_only_breaks_go(t);
        assert forall|j: int| without_final_breaks(s).len() <= j < s.len() implies s[j] == '\n' by {
            if j < t.len() {
                assert(t[j] == s[j]);
            }
        }
    }
}

/// The line breaks at the end of a prompt go, all of them and nothing else.
pub proof fn final_breaks_go(s: Seq<char>)
    requires
        forall|i: int| 0 <= i < s.len() ==> s[i] != '\r',
        text::width(s) <= 65536,
    ensures
        prepared(s).is_prefix_of(s),
        forall|j: int| prepared(s).len() <= j < s.len() ==> s[j] == '\n',
        prepared(s).len() > 0 ==> prepared(s).last() != '\n',
{
    breaks_are_replaced_one_for_one(s, '\n');
    assert(breaks_as(s, '\n') =~= s);
    lemma_only_breaks_go(s);
    lemma_final_breaks(s);
    let t = without_final_breaks(s);
    text::lemma_offset_monotone(s, t.len() as int, s.len() as int);
    assert(t =~= s.take(t.len() as int));
    assert(s.take(s.len() as int) =~= s);
    assert(text::width(t) <= 65536);
    lemma_no_break_to_drop(t);
}

proof fn lemma_no_break_to_drop(t: Seq<char>)
    requires
        t.len() > 0 ==> t.last() != '\n',
    ensures
        without_final_breaks(t) == t,
{
}

/// What goes from text that is echoed into the window chrome: the zero-width
/// spaces and joiners, the byte order mark, the marks, embeddings, overrides and
/// isolates of bidirectional text, and the annotation marks. No ASCII character
/// goes, nor does any letter beyond.
pub proof fn what_is_stripped(c: char)
    ensures
        c == '\u{200B}' || c == '\u{200C}' || c == '\u{200D}' || c == '\u{2060}' || c == '\u{FEFF}'
            ==> bidi_or_zero_width(c),
        c == '\u{200E}' || c == '\u{200F}' || c == '\u{061C}' ==> bidi_or_zero_width(c),
        '\u{202A}' <= c <= '\u{202E}' ==> bidi_or_zero_width(c),
        '\u{2066}' <= c <= '\u{2069}' ==> bidi_or_zero_width(c),
        '\u{206A}' <= c <= '\u{206F}' ==> bidi_or_zero_width(c),
        '\u{FFF9}' <= c <= '\u{FFFB}' ==> bidi_or_zero_width(c),
        c < '\u{061C}' ==> !bidi_or_zero_width(c),
        '\u{061C}' < c < '\u{200B}' ==> !bidi_or_zero_width(c),
        '\u{200F}' < c < '\u{202A}' ==> !bidi_or_zero_width(c),
        '\u{202E}' < c < '\u{2060}' ==> !bidi_or_zero_width(c),
        '\u{2060}' < c < '\u{2066}' ==> !bidi_or_zero_width(c),
        '\u{206F}' < c < '\u{FEFF}' ==> !bidi_or_zero_width(c),
        '\u{FEFF}' < c < '\u{FFF9}' ==> !bidi_or_zero_width(c),
        '\u{FFFB}' < c ==> !bidi_or_zero_width(c),
{
}

/// Stripping takes out nothing else: with such a character added anywhere, a text
/// is stripped to the same, and with any other it is stripped to the two parts
/// with that character between them.
pub proof fn stripping_goes_by_characters(a: Seq<char>, c: char, b: Seq<char>)
    ensures
        bidi_or_zero_width(c) ==> stripped(a.push(c) + b) == stripped(a) + stripped(b),
        !bidi_or_zero_width(c) ==> stripped(a.push(c) + b) == stripped(a).push(c) + stripped(b),
{
    let keep = |c: char| !bidi_or_zero_width(c);
    Seq::filter_distributes_over_add(a.push(c), b, keep);
    assert(a.push(c).drop_last() =~= a);
    reveal(Seq::filter);
}

/// A prompt is measured without the line breaks at its end, which are not typed.
pub proof fn prompts_are_measured_without_final_breaks(s: Seq<char>)
    requires
        forall|i: int| 0 <= i < s.len() ==> s[i] != '\r',
    ensures
        prompt_lines(s).is_prefix_of(s),
        forall|j: int| prompt_lines(s).len() <= j < s.len() ==> s[j] == '\n',
        prompt_lines(s).len() > 0 ==> prompt_lines(s).last() != '\n',
        text::width(prompt_lines(s)) <= 65536 ==> prepared(s) == prompt_lines(s),
        MAX_PROMPT_TEXT == 65536,
{
    breaks_are_replaced_one_for_one(s, '\n');
    assert(breaks_as(s, '\n') =~= s);
    lemma_only_breaks_go(s);
    lemma_final_breaks(s);
    lemma_no_break_to_drop(prompt_lines(s));
}

} // verus!
