//! What the user and other programs send to a terminal.

use vstd::prelude::*;
use vstd::string::*;
use vstd::utf8::*;

use crate::terminal::types::Modes;
use crate::text::chars;
use crate::text::utf16;

verus! {

/// Whether a character of a clipboard payload is kept: tabs, line feeds and
/// everything that is not a control character.
pub open spec fn clipboard_char(c: char) -> bool {
    c == '\t' || c == '\n' || !chars::is_control(c)
}

/// A clipboard payload without its control characters.
pub open spec fn clipboard_text(s: Seq<char>) -> Seq<char> {
    s.filter(|c: char| clipboard_char(c))
}

/// A clipboard payload of a program without the characters that could commit
/// or change a command when it is pasted.
pub fn sanitize_osc52(text: &str) -> (r: String)
    ensures
        r@ == clipboard_text(text@),
{
    let v = chars::to_chars(text);
    let mut out = String::new();
    let mut i: usize = 0;
    let ghost keep = |c: char| clipboard_char(c);
    assert(v@.take(0).filter(keep) =~= Seq::<char>::empty());
    while i < v.len()
        invariant
            v@ == text@,
            i <= v@.len(),
            keep == |c: char| clipboard_char(c),
            out@ == v@.take(i as int).filter(keep),
        decreases v@.len() - i,
    {
        let c = v[i];
        let n: u32 = c as u32;
        proof {
            reveal(Seq::filter);
            assert(v@.take(i + 1).drop_last() =~= v@.take(i as int));
            assert(v@.take(i + 1).last() == c);
        }
        if c == '\t' || c == '\n' || !(n <= 0x1f || (0x7f <= n && n <= 0x9f)) {
            out.push(c);
        }
        i = i + 1;
    }
    assert(v@.take(i as int) =~= v@);
    out
}

/// A sanitized payload holds no control characters but tabs and line feeds,
/// and sanitizing it again changes nothing.
pub proof fn sanitized_payloads_are_clean(s: Seq<char>)
    ensures
        forall|i: int|
            0 <= i < clipboard_text(s).len() ==> clipboard_char(#[trigger] clipboard_text(s)[i]),
        clipboard_text(clipboard_text(s)) == clipboard_text(s),
{
    let keep = |c: char| clipboard_char(c);
    let t = clipboard_text(s);
    lemma_filtered(s);
    lemma_all_kept(t);
}

proof fn lemma_filtered(s: Seq<char>)
    ensures
        forall|i: int|
            0 <= i < clipboard_text(s).len() ==> clipboard_char(#[trigger] clipboard_text(s)[i]),
    decreases s.len(),
{
    reveal(Seq::filter);
    if s.len() > 0 {
        lemma_filtered(s.drop_last());
    }
}

proof fn lemma_all_kept(t: Seq<char>)
    requires
        forall|i: int| 0 <= i < t.len() ==> clipboard_char(#[trigger] t[i]),
    ensures
        clipboard_text(t) == t,
    decreases t.len(),
{
    reveal(Seq::filter);
    if t.len() > 0 {
        let init = t.drop_last();
        assert forall|i: int| 0 <= i < init.len() implies clipboard_char(#[trigger] init[i]) by {
            assert(init[i] == t[i]);
        }
        lemma_all_kept(init);
        assert(clipboard_char(t[t.len() - 1]));
        assert(t =~= init.push(t.last()));
    }
}

/// Whether a sequence holds what submits a line.
pub open spec fn submits(s: Seq<char>) -> bool {
    exists|i: int| 0 <= i < s.len() && (#[trigger] s[i] == '\r' || s[i] == '\n')
}

/// Whether sending `seq` would submit a line.
pub fn sequence_would_submit(seq: &str) -> (r: bool)
    ensures
        r == submits(seq@),
{
    let v = chars::to_chars(seq);
    let mut i: usize = 0;
    while i < v.len()
        invariant
            v@ == seq@,
            i <= v@.len(),
            forall|j: int| 0 <= j < i ==> v@[j] != '\r' && v@[j] != '\n',
        decreases v@.len() - i,
    {
        if v[i] == '\r' || v[i] == '\n' {
            assert(seq@[i as int] == '\r' || seq@[i as int] == '\n');
            return true;
        }
        i = i + 1;
    }
    false
}

/// The refusal of a keystroke that would submit a line.
pub open spec fn submit_refusal(keystroke: Seq<char>) -> Seq<char> {
    "keystroke '"@ + keystroke
        + "' would submit (CR/LF); use surface.send_text with submit=true (`paneflow send --submit`) instead"@
}

/// What a keystroke sends: its sequence, or else its character; nothing when
/// it has neither. One that would submit a line is refused.
pub open spec fn keystroke_result(
    keystroke: Seq<char>,
    sequence: Option<Seq<char>>,
    key_char: Option<Seq<char>>,
) -> Result<Option<Seq<u8>>, Seq<char>> {
    let chosen = match sequence {
        Some(s) => Some(s),
        None => key_char,
    };
    match chosen {
        Some(s) => if submits(s) {
            Err(submit_refusal(keystroke))
        } else {
            Ok(Some(encode_utf8(s)))
        },
        None => Ok(None),
    }
}

/// An optional text as a mathematical value.
pub open spec fn text_of(s: Option<&str>) -> Option<Seq<char>> {
    match s {
        Some(t) => Some(t@),
        None => None,
    }
}

/// The result of [`keystroke_output`] as a mathematical value.
pub open spec fn output_of(r: Result<Option<Vec<u8>>, String>) -> Result<
    Option<Seq<u8>>,
    Seq<char>,
> {
    match r {
        Ok(Some(bytes)) => Ok(Some(bytes@)),
        Ok(None) => Ok(None),
        Err(m) => Err(m@),
    }
}

/// What the keystroke named `keystroke` sends, given the escape sequence that
/// it stands for, if there is one, and its character.
pub fn keystroke_output(keystroke: &str, sequence: Option<&str>, key_char: Option<&str>) -> (r:
    Result<Option<Vec<u8>>, String>)
    ensures
        output_of(r) == keystroke_result(keystroke@, text_of(sequence), text_of(key_char)),
{
    let chosen = match sequence {
        Some(s) => Some(s),
        None => key_char,
    };
    match chosen {
        Some(s) => {
            if sequence_would_submit(s) {
                return Err(
                    chars::concat3(
                        "keystroke '",
                        keystroke,
                        "' would submit (CR/LF); use surface.send_text with submit=true (`paneflow send --submit`) instead",
                    ),
                );
            }
            Ok(Some(s.as_bytes_vec()))
        },
        None => Ok(None),
    }
}

proof fn lemma_scalar_bytes(c: u32)
    ensures
        forall|i: int|
            0 <= i < encode_scalar(c).len() && (#[trigger] encode_scalar(c)[i]) < 0x80 ==> c
                == encode_scalar(c)[i],
{
    assert(c <= 0x7f ==> (c & 0x7f) as u8 == c) by (bit_vector);
    assert(0xC0u8 | ((c >> 6) & 0x1F) as u8 >= 0x80) by (bit_vector);
    assert(0xE0u8 | ((c >> 12) & 0x0F) as u8 >= 0x80) by (bit_vector);
    assert(0xF0u8 | ((c >> 18) & 0x7) as u8 >= 0x80) by (bit_vector);
    assert(0x80u8 | (c & 0x3F) as u8 >= 0x80) by (bit_vector);
    assert(0x80u8 | ((c >> 6) & 0x3F) as u8 >= 0x80) by (bit_vector);
    assert(0x80u8 | ((c >> 12) & 0x3F) as u8 >= 0x80) by (bit_vector);
}

proof fn lemma_break_code(c: char)
    requires
        c as u32 == 13 || c as u32 == 10,
    ensures
        c == '\r' || c == '\n',
{
}

proof fn lemma_encoded_bytes(s: Seq<char>, i: int)
    requires
        0 <= i < encode_utf8(s).len(),
        encode_utf8(s)[i] == 13 || encode_utf8(s)[i] == 10,
    ensures
        submits(s),
    decreases s.len(),
{
    if s.len() > 0 {
        let first = encode_scalar(s[0] as u32);
        let rest = s.drop_first();
        if i < first.len() {
            lemma_scalar_bytes(s[0] as u32);
            assert(encode_scalar(s[0] as u32)[i] == encode_utf8(s)[i]);
            lemma_break_code(s[0]);
            assert(s[0] == '\r' || s[0] == '\n');
        } else {
            assert(encode_utf8(rest)[i - first.len()] == encode_utf8(s)[i]);
            lemma_encoded_bytes(rest, i - first.len());
            let k = choose|k: int|
                0 <= k < rest.len() && (#[trigger] rest[k] == '\r' || rest[k] == '\n');
            assert(s[k + 1] == rest[k]);
        }
    }
}

/// Whatever a keystroke stands for, what it sends holds no carriage return and
/// no line feed.
pub proof fn keystrokes_never_submit(
    keystroke: Seq<char>,
    sequence: Option<Seq<char>>,
    key_char: Option<Seq<char>>,
)
    ensures
        keystroke_result(keystroke, sequence, key_char) matches Ok(Some(bytes)) ==> forall|i: int|
            0 <= i < bytes.len() ==> #[trigger] bytes[i] != 13 && bytes[i] != 10,
{
    if let Ok(Some(bytes)) = keystroke_result(keystroke, sequence, key_char) {
        let s = match sequence {
            Some(s) => s,
            None => key_char->Some_0,
        };
        assert forall|i: int| 0 <= i < bytes.len() implies #[trigger] bytes[i] != 13 && bytes[i]
            != 10 by {
            if bytes[i] == 13 || bytes[i] == 10 {
                lemma_encoded_bytes(s, i);
            }
        }
    }
}

/// The bytes that run `command`: the command and a carriage return.
pub fn command_bytes(command: &str) -> (r: Vec<u8>)
    ensures
        r@ == encode_utf8(command@).push(13u8),
{
    let mut bytes = command.as_bytes_vec();
    bytes.push(13);
    bytes
}

/// The bytes of a text that is sent as it is.
pub fn text_bytes(text: &str) -> (r: Vec<u8>)
    ensures
        r@ == encode_utf8(text@),
{
    text.as_bytes_vec()
}

/// Whether the program has asked for bracketed paste.
pub fn bracketed_paste_enabled(modes: Modes) -> (r: bool)
    ensures
        r == (modes.bits() & 32 == 32),
{
    modes.contains(Modes::bracketed_paste())
}

/// A composition as a mathematical value.
pub struct Composition {
    pub marked: Seq<char>,
    /// The key that was pressed and waits for its text.
    pub pending: Option<Seq<char>>,
}

/// The text that is being composed, and the key that waits for its text.
pub struct ImeState {
    marked: String,
    pending: Option<String>,
}

impl View for ImeState {
    type V = Composition;

    closed spec fn view(&self) -> Composition {
        Composition {
            marked: self.marked@,
            pending: match self.pending {
                Some(k) => Some(k@),
                None => None,
            },
        }
    }
}

impl ImeState {
    /// No composition and no key.
    pub fn new() -> (r: ImeState)
        ensures
            r@ == (Composition { marked: seq![], pending: None }),
    {
        let r = ImeState { marked: String::new(), pending: None };
        assert(r@.marked =~= seq![]);
        r
    }

    /// A key was pressed whose text is still to come.
    pub fn hold_key(&mut self, key: String)
        ensures
            final(self)@ == (Composition { pending: Some(key@), ..old(self)@ }),
    {
        self.pending = Some(key);
    }

    /// The text of the composition changed. Its keys are no keys of their own.
    pub fn set_marked_text(&mut self, text: String)
        ensures
            final(self)@ == (Composition { marked: text@, pending: None }),
    {
        self.marked = text;
        self.pending = None;
    }

    /// The composition was called off.
    pub fn clear_marked_text(&mut self)
        ensures
            final(self)@ == (Composition { marked: seq![], ..old(self)@ }),
    {
        self.marked = String::new();
        assert(self@.marked =~= seq![]);
    }

    /// A text was committed: the key that it belongs to, if one waits for it
    /// and no composition was going on.
    pub fn commit_text(&mut self) -> (r: Option<String>)
        ensures
            final(self)@ == (Composition { marked: seq![], pending: None }),
            match r {
                Some(k) => old(self)@.marked.len() == 0 && old(self)@.pending == Some(k@),
                None => old(self)@.marked.len() > 0 || old(self)@.pending is None,
            },
    {
        let composing = !self.marked.as_str().is_empty();
        let mut pending: Option<String> = None;
        core::mem::swap(&mut pending, &mut self.pending);
        self.marked = String::new();
        assert(self@.marked =~= seq![]);
        if composing {
            None
        } else {
            pending
        }
    }

    /// The composed text as a range of UTF-16 units, while there is one.
    pub fn marked_text_range(&self) -> (r: Option<core::ops::Range<usize>>)
        ensures
            match r {
                Some(range) => self@.marked.len() > 0 && range.start == 0 && range.end
                    == utf16::units(self@.marked),
                None => self@.marked.len() == 0,
            },
    {
        if self.marked.as_str().is_empty() {
            None
        } else {
            Some(0..utf16::utf16_len(self.marked.as_str()))
        }
    }
}

/// Whether the release of a key is sent later on: only for a key whose press
/// the terminal took.
pub fn expects_release(key: Option<String>, accepted: bool) -> (r: Option<String>)
    ensures
        r == (if accepted {
            key
        } else {
            None
        }),
{
    if accepted {
        key
    } else {
        None
    }
}

/// Nanoseconds that a declared agent is believed in before its process is
/// seen.
pub const DECLARED_AGENT_GRACE: u64 = 10000000000;

/// What is known of the agent in a terminal.
#[derive(Clone, Debug, PartialEq, Eq)]
pub struct AgentState<A> {
    pub detected_agent: Option<A>,
    /// Whether its process was seen.
    pub agent_confirmed: bool,
    /// Until when a declaration stands without that.
    pub agent_declared_until: Option<u64>,
}

impl<A> AgentState<A> {
    /// Declares the agent that is about to run, before its process exists. A
    /// declaration is not a confirmation.
    pub fn declare_agent(&mut self, agent: A, now_ns: u64)
        ensures
            final(self).detected_agent == Some(agent),
            !final(self).agent_confirmed,
            final(self).agent_declared_until == (if now_ns + DECLARED_AGENT_GRACE <= u64::MAX {
                Some((now_ns + DECLARED_AGENT_GRACE) as u64)
            } else {
                None
            }),
    {
        self.detected_agent = Some(agent);
        self.agent_confirmed = false;
        self.agent_declared_until = now_ns.checked_add(DECLARED_AGENT_GRACE);
    }

    /// Declares the agent that a launch command names; a command that names
    /// none changes nothing.
    pub fn declare_agent_from_command(&mut self, named: Option<A>, now_ns: u64)
        ensures
            match named {
                Some(agent) => {
                    &&& final(self).detected_agent == Some(agent)
                    &&& !final(self).agent_confirmed
                    &&& final(self).agent_declared_until == (if now_ns + DECLARED_AGENT_GRACE
                        <= u64::MAX {
                        Some((now_ns + DECLARED_AGENT_GRACE) as u64)
                    } else {
                        None
                    })
                },
                None => *final(self) == *old(self),
            },
    {
        match named {
            Some(agent) => {
                self.declare_agent(agent, now_ns);
            },
            None => {},
        }
    }
}

/// What a program puts on the clipboard is taken over character by character: the
/// control characters go, but for the tab and the line feed, and all others stay.
pub proof fn clipboards_keep_what_can_be_seen(a: Seq<char>, c: char, b: Seq<char>)
    ensures
        ' ' <= c <= '~' || c >= '\u{A0}' || c == '\t' || c == '\n' ==> clipboard_text(a.push(c) + b)
            == clipboard_text(a).push(c) + clipboard_text(b),
        (c < ' ' && c != '\t' && c != '\n') || '\u{7F}' <= c <= '\u{9F}' ==> clipboard_text(
            a.push(c) + b,
        ) == clipboard_text(a) + clipboard_text(b),
        clipboard_text(seq![]).len() == 0,
{
    let keep = |c: char| clipboard_char(c);
    Seq::filter_distributes_over_add(a.push(c), b, keep);
    assert(a.push(c).drop_last() =~= a);
    reveal(Seq::filter);
}

/// A text submits if a carriage return or a line feed is in it, wherever that is.
pub proof fn breaks_submit(a: Seq<char>, c: char, b: Seq<char>)
    ensures
        c == '\r' || c == '\n' ==> submits(a.push(c) + b),
        c != '\r' && c != '\n' ==> (submits(a.push(c) + b) <==> submits(a) || submits(b)),
        !submits(seq![]),
{
    let s = a.push(c) + b;
    assert(s[a.len() as int] == c);
    if submits(a) {
        let i = choose|i: int| 0 <= i < a.len() && (#[trigger] a[i] == '\r' || a[i] == '\n');
        assert(s[i] == a[i]);
    }
    if submits(b) {
        let i = choose|i: int| 0 <= i < b.len() && (#[trigger] b[i] == '\r' || b[i] == '\n');
        assert(s[a.len() + 1 + i] == b[i]);
    }
    if submits(s) && c != '\r' && c != '\n' {
        let i = choose|i: int| 0 <= i < s.len() && (#[trigger] s[i] == '\r' || s[i] == '\n');
        if i < a.len() {
            assert(a[i] == s[i]);
        } else {
            assert(b[i - a.len() - 1] == s[i]);
        }
    }
}

/// A keystroke sends the sequence of its key, or where there is none the character
/// that it types, letter for letter; where there is neither it sends nothing. It is
/// refused, by name, if what it would send holds a carriage return or a line feed,
/// and only then.
pub proof fn keystrokes_send_their_sequence(
    keystroke: Seq<char>,
    sequence: Option<Seq<char>>,
    key_char: Option<Seq<char>>,
    text: Seq<char>,
)
    requires
        sequence == Some(text) || (sequence is None && key_char == Some(text)),
    ensures
        !text.contains('\r') && !text.contains('\n') ==> keystroke_result(
            keystroke,
            sequence,
            key_char,
        ) == Ok::<Option<Seq<u8>>, Seq<char>>(Some(encode_utf8(text))),
        text.contains('\r') || text.contains('\n') ==> keystroke_result(
            keystroke,
            sequence,
            key_char,
        ) == Err::<Option<Seq<u8>>, Seq<char>>(
            "keystroke '"@ + keystroke
                + "' would submit (CR/LF); use surface.send_text with submit=true (`paneflow send --submit`) instead"@,
        ),
        keystroke_result(keystroke, None, None) == Ok::<Option<Seq<u8>>, Seq<char>>(None),
{
}

/// An agent that was declared is believed in for ten seconds.
pub proof fn declared_agents_are_given_ten_seconds()
    ensures
        DECLARED_AGENT_GRACE == 10 * 1_000_000_000,
{
}

} // verus!
