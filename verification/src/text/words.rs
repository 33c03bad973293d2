//! Stepping through a text word by word.

use vstd::prelude::*;

use crate::text;
use crate::text::chars;
use crate::text::classes;
use crate::text::index;

verus! {

/// The index past the last character before `k` that is not white space.
pub open spec fn skip_space_back(s: Seq<char>, k: int) -> int
    decreases k,
{
    if k > 0 && classes::whitespace(s[k - 1]) {
        skip_space_back(s, k - 1)
    } else {
        k
    }
}

/// The start of the run of one class that ends at `k`: of word characters, or
/// of characters that are neither word characters nor white space.
pub open spec fn run_start(s: Seq<char>, k: int, word: bool) -> int
    decreases k,
{
    if k > 0 && !classes::whitespace(s[k - 1]) && classes::word_char(s[k - 1]) == word {
        run_start(s, k - 1, word)
    } else {
        k
    }
}

/// The start of the word before `k`.
pub open spec fn previous_word(s: Seq<char>, k: int) -> int {
    let i = skip_space_back(s, k);
    if i > 0 {
        run_start(s, i, classes::word_char(s[i - 1]))
    } else {
        i
    }
}

/// The index of the first character from `k` on that is not white space.
pub open spec fn skip_space(s: Seq<char>, k: int) -> int
    decreases s.len() - k,
{
    if k < s.len() && classes::whitespace(s[k]) {
        skip_space(s, k + 1)
    } else {
        k
    }
}

/// The end of the run of one class that starts at `k`.
pub open spec fn run_end(s: Seq<char>, k: int, word: bool) -> int
    decreases s.len() - k,
{
    if k < s.len() && !classes::whitespace(s[k]) && classes::word_char(s[k]) == word {
        run_end(s, k + 1, word)
    } else {
        k
    }
}

/// The end of the word after `k`.
pub open spec fn next_word(s: Seq<char>, k: int) -> int {
    let i = skip_space(s, k);
    if i < s.len() {
        run_end(s, i, classes::word_char(s[i]))
    } else {
        i
    }
}

/// `offset`, or the end of the text when it lies beyond.
pub open spec fn capped(s: Seq<char>, offset: int) -> int {
    if offset <= text::width(s) {
        offset
    } else {
        text::width(s) as int
    }
}

/// The byte offset at which the word before `offset` starts: white space is
/// skipped back, then a run of one class.
pub fn previous_word_boundary(s: &str, offset: usize) -> (r: usize)
    requires
        text::is_boundary(s@, capped(s@, offset as int)),
    ensures
        r == text::offset_of(s@, previous_word(s@, text::index_of(s@, capped(s@, offset as int)))),
        text::is_boundary(s@, r as int),
        r <= offset,
        r <= text::width(s@),
{
    let v = chars::to_chars(s);
    let total: usize = text::byte_len(s);
    let at: usize = if offset <= total {
        offset
    } else {
        total
    };
    let k: usize = index::index_reaching(&v, at);
    let mut i: usize = k;
    while i > 0 && classes::is_whitespace(v[i - 1])
        invariant
            i <= k <= v@.len(),
            skip_space_back(v@, i as int) == skip_space_back(v@, k as int),
        decreases i,
    {
        i = i - 1;
    }
    let ghost j = i as int;
    if i > 0 {
        let word = classes::is_word_char(v[i - 1]);
        while i > 0 && !classes::is_whitespace(v[i - 1]) && classes::is_word_char(v[i - 1]) == word
            invariant
                i <= j <= k <= v@.len(),
                run_start(v@, i as int, word) == run_start(v@, j, word),
            decreases i,
        {
            i = i - 1;
        }
    }
    proof {
        text::lemma_boundary(s@, at as int);
        text::lemma_offset_monotone(s@, i as int, k as int);
        text::lemma_index_of_offset(s@, i as int);
    }
    index::offset_at(&v, i)
}

/// The byte offset at which the word after `offset` ends: white space is
/// skipped, then a run of one class.
pub fn next_word_boundary(s: &str, offset: usize) -> (r: usize)
    requires
        text::is_boundary(s@, capped(s@, offset as int)),
    ensures
        r == text::offset_of(s@, next_word(s@, text::index_of(s@, capped(s@, offset as int)))),
        text::is_boundary(s@, r as int),
        capped(s@, offset as int) <= r <= text::width(s@),
{
    let v = chars::to_chars(s);
    let total: usize = text::byte_len(s);
    let at: usize = if offset <= total {
        offset
    } else {
        total
    };
    let k: usize = index::index_reaching(&v, at);
    let mut i: usize = k;
    while i < v.len() && classes::is_whitespace(v[i])
        invariant
            k <= i <= v@.len(),
            skip_space(v@, i as int) == skip_space(v@, k as int),
        decreases v@.len() - i,
    {
        i = i + 1;
    }
    let ghost j = i as int;
    if i < v.len() {
        let word = classes::is_word_char(v[i]);
        while i < v.len() && !classes::is_whitespace(v[i]) && classes::is_word_char(v[i]) == word
            invariant
                k <= j <= i <= v@.len(),
                run_end(v@, i as int, word) == run_end(v@, j, word),
            decreases v@.len() - i,
        {
            i = i + 1;
        }
    }
    proof {
        text::lemma_boundary(s@, at as int);
        text::lemma_offset_monotone(s@, k as int, i as int);
        text::lemma_index_of_offset(s@, i as int);
        text::lemma_offset_monotone(s@, i as int, s@.len() as int);
    }
    index::offset_at(&v, i)
}

proof fn lemma_space_back(s: Seq<char>, k: int)
    requires
        0 <= k <= s.len(),
    ensures
        0 <= skip_space_back(s, k) <= k,
        forall|j: int| skip_space_back(s, k) <= j < k ==> classes::whitespace(#[trigger] s[j]),
        skip_space_back(s, k) > 0 ==> !classes::whitespace(s[skip_space_back(s, k) - 1]),
    decreases k,
{
    if k > 0 && classes::whitespace(s[k - 1]) {
        lemma_space_back(s, k - 1);
    }
}

proof fn lemma_run_start(s: Seq<char>, k: int, word: bool)
    requires
        0 <= k <= s.len(),
    ensures
        0 <= run_start(s, k, word) <= k,
        forall|j: int|
            run_start(s, k, word) <= j < k ==> !classes::whitespace(#[trigger] s[j])
                && classes::word_char(s[j]) == word,
        run_start(s, k, word) > 0 ==> classes::whitespace(s[run_start(s, k, word) - 1])
            || classes::word_char(s[run_start(s, k, word) - 1]) != word,
    decreases k,
{
    if k > 0 && !classes::whitespace(s[k - 1]) && classes::word_char(s[k - 1]) == word {
        lemma_run_start(s, k - 1, word);
    }
}

proof fn lemma_space(s: Seq<char>, k: int)
    requires
        0 <= k <= s.len(),
    ensures
        k <= skip_space(s, k) <= s.len(),
        forall|j: int| k <= j < skip_space(s, k) ==> classes::whitespace(#[trigger] s[j]),
        skip_space(s, k) < s.len() ==> !classes::whitespace(s[skip_space(s, k)]),
    decreases s.len() - k,
{
    if k < s.len() && classes::whitespace(s[k]) {
        lemma_space(s, k + 1);
    }
}

proof fn lemma_run_end(s: Seq<char>, k: int, word: bool)
    requires
        0 <= k <= s.len(),
    ensures
        k <= run_end(s, k, word) <= s.len(),
        forall|j: int|
            k <= j < run_end(s, k, word) ==> !classes::whitespace(#[trigger] s[j])
                && classes::word_char(s[j]) == word,
        run_end(s, k, word) < s.len() ==> classes::whitespace(s[run_end(s, k, word)])
            || classes::word_char(s[run_end(s, k, word)]) != word,
    decreases s.len() - k,
{
    if k < s.len() && !classes::whitespace(s[k]) && classes::word_char(s[k]) == word {
        lemma_run_end(s, k + 1, word);
    }
}

/// A step back by a word passes white space, then a run of word characters or a
/// run of other signs, whole: it cannot be made longer, and it is empty only at
/// the start of the text. `i` is where the two meet.
pub proof fn a_word_is_passed_whole_backwards(s: Seq<char>, k: int)
    requires
        0 <= k <= s.len(),
    ensures
        exists|i: int|
            {
                let r = previous_word(s, k);
                &&& 0 <= r <= i <= k
                &&& forall|j: int| i <= j < k ==> classes::whitespace(#[trigger] s[j])
                &&& forall|j: int|
                    r <= j < i ==> !classes::whitespace(#[trigger] s[j]) && classes::word_char(s[j])
                        == classes::word_char(s[r])
                &&& r == i ==> i == 0
                &&& r > 0 ==> classes::whitespace(s[r - 1]) || classes::word_char(s[r - 1])
                    != classes::word_char(#[trigger] s[i - 1])
            },
{
    let i = skip_space_back(s, k);
    lemma_space_back(s, k);
    if i > 0 {
        lemma_run_start(s, i, classes::word_char(s[i - 1]));
    }
    let c = s[i - 1];
}

/// A step forward by a word passes white space, then a run of word characters or a
/// run of other signs, whole: it cannot be made longer, and it is empty only at
/// the end of the text. `i` is where the two meet.
pub proof fn a_word_is_passed_whole(s: Seq<char>, k: int)
    requires
        0 <= k <= s.len(),
    ensures
        exists|i: int|
            {
                let r = next_word(s, k);
                &&& k <= i <= r <= s.len()
                &&& forall|j: int| k <= j < i ==> classes::whitespace(#[trigger] s[j])
                &&& forall|j: int|
                    i <= j < r ==> !classes::whitespace(#[trigger] s[j]) && classes::word_char(s[j])
                        == classes::word_char(s[i])
                &&& r == i ==> i == s.len()
                &&& r < s.len() ==> classes::whitespace(s[r]) || classes::word_char(s[r])
                    != classes::word_char(#[trigger] s[i])
            },
{
    let i = skip_space(s, k);
    lemma_space(s, k);
    if i < s.len() {
        lemma_run_end(s, i, classes::word_char(s[i]));
    }
    let c = s[i];
}

/// A place past the end counts as the end, and any other as it is.
pub proof fn places_end_with_the_text(s: Seq<char>, offset: int)
    ensures
        offset <= text::width(s) ==> capped(s, offset) == offset,
        offset > text::width(s) ==> capped(s, offset) == text::width(s),
{
}

} // verus!
