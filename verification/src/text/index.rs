//! Moving between byte offsets and character indices.

use vstd::prelude::*;

use crate::text;

verus! {

/// How many characters of `s` it takes to reach byte offset `n`: all of them
/// when the text is shorter.
pub open spec fn covering(s: Seq<char>, n: int) -> int
    decreases s.len(),
{
    if s.len() == 0 || text::width(s.drop_last()) < n {
        s.len() as int
    } else {
        covering(s.drop_last(), n)
    }
}

/// Up to a boundary it takes exactly the characters before it.
pub proof fn lemma_covering_boundary(s: Seq<char>, n: int)
    requires
        text::is_boundary(s, n),
    ensures
        covering(s, n) == text::index_of(s, n),
    decreases s.len(),
{
    text::lemma_boundary(s, n);
    let k = text::index_of(s, n);
    if s.len() > 0 {
        let t = s.drop_last();
        assert(t =~= s.take(s.len() - 1));
        if text::width(t) < n {
            if k < s.len() {
                text::lemma_offset_monotone(s, k, s.len() - 1);
            }
        } else {
            if k == s.len() {
                text::lemma_offset_monotone(s, s.len() - 1, k);
            }
            assert(t.take(k) =~= s.take(k));
            assert(text::offset_of(t, k) == n);
            text::lemma_index_of_offset(t, k);
            lemma_covering_boundary(t, n);
        }
    }
}

/// The characters that reach `n` are the least that do.
pub proof fn lemma_covering_least(s: Seq<char>, n: int)
    ensures
        0 <= covering(s, n) <= s.len(),
        covering(s, n) == s.len() || text::offset_of(s, covering(s, n)) >= n,
        forall|j: int| 0 <= j < covering(s, n) ==> #[trigger] text::offset_of(s, j) < n,
    decreases s.len(),
{
    if s.len() > 0 {
        let t = s.drop_last();
        assert(t =~= s.take(s.len() - 1));
        if text::width(t) < n {
            assert forall|j: int| 0 <= j < s.len() implies #[trigger] text::offset_of(s, j) < n by {
                text::lemma_offset_monotone(s, j, s.len() - 1);
            }
        } else {
            lemma_covering_least(t, n);
            assert forall|j: int| 0 <= j <= t.len() implies #[trigger] text::offset_of(s, j)
                == text::offset_of(t, j) by {
                assert(t.take(j) =~= s.take(j));
            }
        }
    }
}

/// The least index that reaches `n` is [`covering`].
pub proof fn lemma_covering_unique(s: Seq<char>, n: int, k: int)
    requires
        0 <= k <= s.len(),
        k == s.len() || text::offset_of(s, k) >= n,
        forall|j: int| 0 <= j < k ==> #[trigger] text::offset_of(s, j) < n,
    ensures
        covering(s, n) == k,
{
    lemma_covering_least(s, n);
    let c = covering(s, n);
    if c < k {
        assert(text::offset_of(s, c) < n);
    } else if k < c {
        assert(text::offset_of(s, k) < n);
    }
}

/// The width of `c` in bytes.
pub fn char_len(c: char) -> (n: usize)
    ensures
        n == text::char_width(c),
        1 <= n <= 4,
{
    let u: u32 = c as u32;
    if u <= 0x7f {
        1
    } else if u <= 0x7ff {
        2
    } else if u <= 0xffff {
        3
    } else {
        4
    }
}

/// How many characters of `v` it takes to reach byte offset `n`.
pub fn index_reaching(v: &Vec<char>, n: usize) -> (k: usize)
    requires
        text::width(v@) <= usize::MAX,
    ensures
        k == covering(v@, n as int),
        text::is_boundary(v@, n as int) ==> k == text::index_of(v@, n as int),
        k <= v@.len(),
{
    let mut k: usize = 0;
    let mut off: usize = 0;
    assert(v@.take(0) =~= Seq::<char>::empty());
    while k < v.len() && off < n
        invariant
            k <= v@.len(),
            text::width(v@) <= usize::MAX,
            off == text::offset_of(v@, k as int),
            forall|j: int| 0 <= j < k ==> #[trigger] text::offset_of(v@, j) < n,
        decreases v@.len() - k,
    {
        proof {
            text::lemma_offset_step(v@, k as int);
            text::lemma_offset_monotone(v@, k + 1, v@.len() as int);
            assert(v@.take(v@.len() as int) =~= v@);
        }
        off = off + char_len(v[k]);
        k = k + 1;
    }
    proof {
        lemma_covering_unique(v@, n as int, k as int);
        if text::is_boundary(v@, n as int) {
            lemma_covering_boundary(v@, n as int);
        }
    }
    k
}

/// The byte offset of the character with index `k`.
pub fn offset_at(v: &Vec<char>, k: usize) -> (off: usize)
    requires
        k <= v@.len(),
        text::width(v@) <= usize::MAX,
    ensures
        off == text::offset_of(v@, k as int),
{
    let mut i: usize = 0;
    let mut off: usize = 0;
    assert(v@.take(0) =~= Seq::<char>::empty());
    while i < k
        invariant
            i <= k <= v@.len(),
            text::width(v@) <= usize::MAX,
            off == text::offset_of(v@, i as int),
        decreases k - i,
    {
        proof {
            text::lemma_offset_step(v@, i as int);
            text::lemma_offset_monotone(v@, i + 1, v@.len() as int);
        }
        off = off + char_len(v[i]);
        i = i + 1;
    }
    off
}

} // verus!
