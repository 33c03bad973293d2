//! Loopback addresses written as IP literals.

use vstd::prelude::*;
use crate::text::number;

use crate::text::chars;
use crate::text::split;

verus! {

/// The value of a text of decimal digits.
pub open spec fn value(s: Seq<char>) -> int
    decreases s.len(),
{
    if s.len() == 0 {
        0
    } else {
        value(s.drop_last()) * 10 + (s.last() as u32 - '0' as u32)
    }
}

/// Whether `s` is one part of a dotted address: up to three decimal digits
/// without a leading zero, at most 255.
pub open spec fn octet(s: Seq<char>) -> bool {
    &&& 1 <= s.len() <= 3
    &&& forall|i: int| 0 <= i < s.len() ==> '0' <= #[trigger] s[i] <= '9'
    &&& s.len() > 1 ==> s[0] != '0'
    &&& value(s) <= 255
}

/// Whether `s` is a dotted address in `127.0.0.0/8`.
pub open spec fn loopback_v4(s: Seq<char>) -> bool {
    let p = split::pieces(s, '.');
    p.len() == 4 && octet(p[0]) && octet(p[1]) && octet(p[2]) && octet(p[3]) && value(p[0]) == 127
}

/// Whether `s` is a group of an IPv6 address that stands for zero.
pub open spec fn zero_group(s: Seq<char>) -> bool {
    1 <= s.len() <= 4 && forall|i: int| 0 <= i < s.len() ==> #[trigger] s[i] == '0'
}

/// Whether `s` is a group of an IPv6 address that stands for one.
pub open spec fn one_group(s: Seq<char>) -> bool {
    &&& 1 <= s.len() <= 4
    &&& s.last() == '1'
    &&& forall|i: int| 0 <= i < s.len() - 1 ==> #[trigger] s[i] == '0'
}

/// Whether all of `groups[from..to]` stand for zero.
pub open spec fn zeros(groups: Seq<Seq<char>>, from: int, to: int) -> bool {
    forall|i: int| from <= i < to ==> zero_group(#[trigger] groups[i])
}

/// How many groups the address ends with from `from` on: zero groups, and at
/// last a one or the dotted `0.0.0.1`, which counts twice. Zero when the
/// address does not end so.
pub open spec fn ending(groups: Seq<Seq<char>>, from: int) -> int {
    let n = groups.len() - from;
    if n < 1 || !zeros(groups, from, groups.len() - 1) {
        0
    } else if one_group(groups.last()) {
        n
    } else if groups.last() == "0.0.0.1"@ {
        n + 1
    } else {
        0
    }
}

/// Whether a `::` stands before group `k`: an empty piece between two colons,
/// at the start of the text two of them.
pub open spec fn gap_before(groups: Seq<Seq<char>>, k: int) -> bool {
    &&& 2 <= k < groups.len()
    &&& groups[k - 1].len() == 0
    &&& k == 2 && groups[0].len() == 0 || zeros(groups, 0, k - 1)
}

/// How many groups stand before the `::` that stands before group `k`.
pub open spec fn groups_before_gap(groups: Seq<Seq<char>>, k: int) -> int {
    if k == 2 && groups[0].len() == 0 {
        0
    } else {
        k - 1
    }
}

/// Whether `s` writes the IPv6 address `::1`: in full with eight groups, or
/// with a `::` in the place of at least one zero group.
pub open spec fn loopback_v6(s: Seq<char>) -> bool {
    let g = split::pieces(s, ':');
    ||| ending(g, 0) == 8
    ||| exists|k: int| #[trigger]
        gap_before(g, k) && ending(g, k) > 0 && groups_before_gap(g, k) + ending(g, k) <= 7
}

fn is_octet(s: &str) -> (r: Option<u32>)
    ensures
        match r {
            Some(n) => octet(s@) && n == value(s@),
            None => !octet(s@),
        },
{
    let v = chars::to_chars(s);
    if v.len() < 1 || v.len() > 3 || (v.len() > 1 && v[0] == '0') {
        return None;
    }
    let mut n: u32 = 0;
    let mut i: usize = 0;
    assert(v@.take(0) =~= Seq::<char>::empty());
    while i < v.len()
        invariant
            v@ == s@,
            v@.len() <= 3,
            i <= v@.len(),
            n == value(v@.take(i as int)),
            i == 0 ==> n == 0,
            i <= 1 ==> n < 10,
            i <= 2 ==> n < 100,
            n < 1000,
            forall|j: int| 0 <= j < i ==> '0' <= #[trigger] v@[j] <= '9',
        decreases v@.len() - i,
    {
        if v[i] < '0' || v[i] > '9' {
            assert(!octet(s@)) by {
                assert(!('0' <= s@[i as int] <= '9'));
            }
            return None;
        }
        assert(v@.take(i + 1).drop_last() =~= v@.take(i as int));
        n = n * 10 + (v[i] as u32 - 48);
        i = i + 1;
    }
    assert(v@.take(i as int) =~= v@);
    if n > 255 {
        return None;
    }
    Some(n)
}

/// Whether `s` is a dotted address in `127.0.0.0/8`.
pub fn is_loopback_v4(s: &str) -> (r: bool)
    ensures
        r == loopback_v4(s@),
{
    let p = split::split(s, '.');
    if p.len() != 4 {
        assert(split::texts(p@).len() == p@.len());
        return false;
    }
    proof {
        assert(split::texts(p@)[0] == p@[0]@);
        assert(split::texts(p@)[1] == p@[1]@);
        assert(split::texts(p@)[2] == p@[2]@);
        assert(split::texts(p@)[3] == p@[3]@);
    }
    let first = is_octet(p[0].as_str());
    let others = is_octet(p[1].as_str()).is_some() && is_octet(p[2].as_str()).is_some() && is_octet(
        p[3].as_str(),
    ).is_some();
    match first {
        Some(n) => others && n == 127,
        None => false,
    }
}

fn is_zero_group(s: &str) -> (r: bool)
    ensures
        r == zero_group(s@),
{
    let v = chars::to_chars(s);
    if v.len() < 1 || v.len() > 4 {
        return false;
    }
    let mut i: usize = 0;
    while i < v.len()
        invariant
            v@ == s@,
            i <= v@.len(),
            forall|j: int| 0 <= j < i ==> #[trigger] v@[j] == '0',
        decreases v@.len() - i,
    {
        if v[i] != '0' {
            return false;
        }
        i = i + 1;
    }
    true
}

fn is_one_group(s: &str) -> (r: bool)
    ensures
        r == one_group(s@),
{
    let v = chars::to_chars(s);
    if v.len() < 1 || v.len() > 4 || v[v.len() - 1] != '1' {
        return false;
    }
    let mut i: usize = 0;
    while i < v.len() - 1
        invariant
            v@ == s@,
            1 <= v@.len() <= 4,
            i <= v@.len() - 1,
            forall|j: int| 0 <= j < i ==> #[trigger] v@[j] == '0',
        decreases v@.len() - i,
    {
        if v[i] != '0' {
            return false;
        }
        i = i + 1;
    }
    true
}

fn are_zeros(g: &Vec<String>, from: usize, to: usize) -> (r: bool)
    requires
        from <= to <= g@.len(),
    ensures
        r == zeros(split::texts(g@), from as int, to as int),
{
    let ghost t = split::texts(g@);
    let mut i: usize = from;
    while i < to
        invariant
            t == split::texts(g@),
            from <= i <= to <= g@.len(),
            zeros(t, from as int, i as int),
        decreases to - i,
    {
        assert(t[i as int] == g@[i as int]@);
        if !is_zero_group(g[i].as_str()) {
            return false;
        }
        i = i + 1;
    }
    true
}

fn ending_len(g: &Vec<String>, from: usize) -> (r: usize)
    requires
        from <= g@.len() < usize::MAX,
    ensures
        r == ending(split::texts(g@), from as int),
{
    let ghost t = split::texts(g@);
    if from == g.len() {
        return 0;
    }
    let last: usize = g.len() - 1;
    assert(t.last() == g@[last as int]@);
    if !are_zeros(g, from, last) {
        return 0;
    }
    if is_one_group(g[last].as_str()) {
        return g.len() - from;
    }
    if chars::same(g[last].as_str(), "0.0.0.1") {
        return g.len() - from + 1;
    }
    0
}

/// Whether `s` writes the IPv6 address `::1`.
pub fn is_loopback_v6(s: &str) -> (r: bool)
    ensures
        r == loopback_v6(s@),
{
    let g = split::split(s, ':');
    let ghost t = split::texts(g@);
    assert(t.len() == g@.len());
    if g.len() > 9 {
        proof {
            lemma_too_many(t);
        }
        return false;
    }
    if ending_len(&g, 0) == 8 {
        return true;
    }
    let mut k: usize = 2;
    while k < g.len()
        invariant
            t == split::texts(g@),
            t.len() == g@.len(),
            g@.len() <= 9,
            2 <= k,
            t == split::pieces(s@, ':'),
            forall|j: int|
                2 <= j < k ==> !(#[trigger] gap_before(t, j) && ending(t, j) > 0
                    && groups_before_gap(t, j) + ending(t, j) <= 7),
        decreases g@.len() - k,
    {
        assert(t[k - 1] == g@[k - 1]@);
        assert(t[0] == g@[0]@);
        let leads = k == 2 && g[0].as_str().is_empty();
        if g[k - 1].as_str().is_empty() && (leads || are_zeros(&g, 0, k - 1)) {
            let head: usize = if leads {
                0
            } else {
                k - 1
            };
            let tail: usize = ending_len(&g, k);
            assert(gap_before(t, k as int));
            if tail > 0 && head + tail <= 7 {
                return true;
            }
        }
        k = k + 1;
    }
    false
}

proof fn lemma_too_many(g: Seq<Seq<char>>)
    requires
        g.len() > 9,
    ensures
        ending(g, 0) != 8,
        forall|k: int|
            !(#[trigger] gap_before(g, k) && ending(g, k) > 0 && groups_before_gap(g, k) + ending(
                g,
                k,
            ) <= 7),
{
    assert forall|k: int|
        !(#[trigger] gap_before(g, k) && ending(g, k) > 0 && groups_before_gap(g, k) + ending(g, k)
            <= 7) by {
        if gap_before(g, k) && ending(g, k) > 0 {
            assert(ending(g, k) >= g.len() - k);
            assert(groups_before_gap(g, k) >= k - 2);
        }
    }
}

/// The digits of a number are read as that number.
pub proof fn written_numbers_are_read_back(n: nat)
    ensures
        value(number::decimal(n)) == n,
    decreases n,
{
    let s = number::decimal(n);
    if n >= 10 {
        written_numbers_are_read_back(n / 10);
        assert(s.drop_last() =~= number::decimal(n / 10));
        assert(s.last() as u32 - '0' as u32 == n % 10);
    } else {
        assert(s.drop_last() =~= seq![]);
        assert(s.last() as u32 - '0' as u32 == n);
        reveal_with_fuel(value, 2);
    }
}

/// The parts of an address are the numbers up to 255, as they are written, and nothing
/// else.
pub proof fn parts_count_to_255(n: nat, s: Seq<char>)
    ensures
        octet(number::decimal(n)) <==> n <= 255,
        octet(s) ==> 0 <= value(s) <= 255 && s == number::decimal(value(s) as nat),
{
    let t = number::decimal(n);
    written_numbers_are_read_back(n);
    number::lemma_only_digits(n);
    reveal_with_fuel(number::decimal, 4);
    if n <= 255 {
        assert(1 <= t.len() <= 3);
        if t.len() > 1 {
            assert(t[0] != '0');
        }
    }
    if octet(s) {
        reveal_with_fuel(value, 4);
        let a = s[0] as u32 - '0' as u32;
        if s.len() == 1 {
            assert(s.drop_last() =~= seq![]);
            assert(s =~= number::decimal(value(s) as nat));
        } else if s.len() == 2 {
            assert(s.drop_last().drop_last() =~= seq![]);
            let b = s[1] as u32 - '0' as u32;
            assert(value(s) == a * 10 + b);
            assert(number::decimal(a as nat) =~= seq![s[0]]);
            assert(s =~= number::decimal(value(s) as nat));
        } else {
            assert(s.drop_last().drop_last().drop_last() =~= seq![]);
            let b = s[1] as u32 - '0' as u32;
            let c = s[2] as u32 - '0' as u32;
            assert(value(s) == (a * 10 + b) * 10 + c);
            assert(number::decimal(a as nat) =~= seq![s[0]]);
            assert(number::decimal((a * 10 + b) as nat) =~= seq![s[0], s[1]]);
            assert(s =~= number::decimal(value(s) as nat));
        }
    }
}

/// Four numbers between dots.
pub open spec fn dotted(a: nat, b: nat, c: nat, d: nat) -> Seq<char> {
    number::decimal(a) + seq!['.'] + (number::decimal(b) + seq!['.'] + (number::decimal(c) + seq![
        '.',
    ] + number::decimal(d)))
}

/// The machine's own addresses are those of the net 127: four numbers up to 255 between
/// dots, of which the first is 127. Nothing else is one.
pub proof fn the_net_127_is_local(a: nat, b: nat, c: nat, d: nat, s: Seq<char>)
    ensures
        loopback_v4(dotted(a, b, c, d)) <==> a == 127 && b <= 255 && c <= 255 && d <= 255,
        loopback_v4(s) ==> exists|x: nat, y: nat, z: nat|
            x <= 255 && y <= 255 && z <= 255 && s == #[trigger] dotted(127, x, y, z),
{
    let t = dotted(a, b, c, d);
    let t1 = number::decimal(b) + seq!['.'] + (number::decimal(c) + seq!['.'] + number::decimal(d));
    let t2 = number::decimal(c) + seq!['.'] + number::decimal(d);
    let t3 = number::decimal(d);
    number::lemma_only_digits(a);
    number::lemma_only_digits(b);
    number::lemma_only_digits(c);
    number::lemma_only_digits(d);
    split::pieces_end_at_separators(number::decimal(a), t1, '.');
    split::pieces_end_at_separators(number::decimal(b), t2, '.');
    split::pieces_end_at_separators(number::decimal(c), t3, '.');
    split::pieces_end_at_separators(number::decimal(d), seq![], '.');
    let p = split::pieces(t, '.');
    assert(p =~= seq![
        number::decimal(a),
        number::decimal(b),
        number::decimal(c),
        number::decimal(d),
    ]);
    parts_count_to_255(a, p[0]);
    parts_count_to_255(b, p[1]);
    parts_count_to_255(c, p[2]);
    parts_count_to_255(d, p[3]);
    written_numbers_are_read_back(a);
    if loopback_v4(s) {
        let q = split::pieces(s, '.');
        split::lemma_first_piece(s, 0, '.');
        let k1 = (q[0].len() + 1) as int;
        split::lemma_first_piece(s, k1, '.');
        let k2 = k1 + q[1].len() + 1;
        assert(q.drop_first()[0] == q[1]);
        split::lemma_first_piece(s, k2, '.');
        let k3 = k2 + q[2].len() + 1;
        assert(q.drop_first().drop_first()[0] == q[2]);
        split::lemma_first_piece(s, k3, '.');
        assert(q.drop_first().drop_first().drop_first()[0] == q[3]);
        assert(s.skip(0) =~= s);
        parts_count_to_255(0, q[0]);
        parts_count_to_255(0, q[1]);
        parts_count_to_255(0, q[2]);
        parts_count_to_255(0, q[3]);
        assert(s =~= dotted(127, value(q[1]) as nat, value(q[2]) as nat, value(q[3]) as nat));
    }
}

/// The machine's own address of the longer kind is written in zeros but for its last
/// digit, which is a one: nothing else is one.
pub proof fn only_the_address_one_is_local(s: Seq<char>, i: int)
    requires
        loopback_v6(s),
    ensures
        ({
            let g = split::pieces(s, ':');
            &&& g.len() >= 3
            &&& 0 <= i < g.len() - 1 ==> forall|j: int| 0 <= j < g[i].len() ==> g[i][j] == '0'
            &&& g.last().len() > 0 && g.last().last() == '1'
            &&& g.last() == "0.0.0.1"@ || forall|j: int|
                0 <= j < g.last().len() - 1 ==> g.last()[j] == '0'
        }),
{
    reveal_strlit("0.0.0.1");
    let g = split::pieces(s, ':');
    split::lemma_first_piece(s, 0, ':');
    if ending(g, 0) == 8 {
        if 0 <= i < g.len() - 1 {
            assert(zero_group(g[i]));
        }
    } else {
        let k = choose|k: int| #[trigger]
            gap_before(g, k) && ending(g, k) > 0 && groups_before_gap(g, k) + ending(g, k) <= 7;
        assert(2 <= k < g.len());
        if k <= i < g.len() - 1 {
            assert(zero_group(g[i]));
        }
        if 0 <= i < k - 1 && !(k == 2 && g[0].len() == 0) {
            assert(zero_group(g[i]));
        }
    }
}

/// Written out in eight groups, or with the zeros left out, the address one is local.
pub proof fn the_address_one_is_local(a: Seq<char>, g: Seq<Seq<char>>, one: Seq<char>)
    requires
        split::pieces(a, ':') == g.push(one),
        1 <= one.len() <= 4,
        one.last() == '1',
        forall|i: int| 0 <= i < one.len() - 1 ==> one[i] == '0',
    ensures
        g.len() == 7 && (forall|i: int| 0 <= i < 7 ==> zero_group(#[trigger] g[i])) ==> loopback_v6(
            a,
        ),
        g.len() == 2 && g[0].len() == 0 && g[1].len() == 0 ==> loopback_v6(a),
        2 <= g.len() <= 7 && g.last().len() == 0 && (forall|i: int|
            0 <= i < g.len() - 1 ==> zero_group(#[trigger] g[i])) ==> loopback_v6(a),
{
    let h = split::pieces(a, ':');
    assert(h.last() == one);
    assert forall|i: int| 0 <= i < g.len() implies h[i] == g[i] by {}
    if g.len() == 7 && (forall|i: int| 0 <= i < 7 ==> zero_group(#[trigger] g[i])) {
        assert(ending(h, 0) == 8);
    }
    if g.len() == 2 && g[0].len() == 0 && g[1].len() == 0 {
        assert(gap_before(h, 2));
        assert(ending(h, 2) == 1);
    }
    if 2 <= g.len() <= 7 && g.last().len() == 0 && (forall|i: int|
        0 <= i < g.len() - 1 ==> zero_group(#[trigger] g[i])) {
        let k = g.len() as int;
        assert(gap_before(h, k));
        assert(ending(h, k) == 1);
        if g[0].len() == 0 {
            assert(zero_group(g[0]));
        }
    }
}

/// A group of zeros is one to four of them.
pub proof fn groups_have_four_digits(s: Seq<char>)
    ensures
        zero_group(s) ==> 1 <= s.len() <= 4,
        1 <= s.len() <= 4 && (forall|i: int| 0 <= i < s.len() ==> s[i] == '0') ==> zero_group(s),
        one_group(s) ==> 1 <= s.len() <= 4 && s.last() == '1',
{
}

/// Where zeros are left out at the start, up to six groups of them may follow, and where they
/// are left out between groups there are at most seven groups in all: what is left out stands
/// for at least one.
pub proof fn something_is_left_out(
    a: Seq<char>,
    zs: Seq<Seq<char>>,
    ws: Seq<Seq<char>>,
    one: Seq<char>,
)
    requires
        forall|i: int| 0 <= i < zs.len() ==> zero_group(#[trigger] zs[i]),
        forall|i: int| 0 <= i < ws.len() ==> zero_group(#[trigger] ws[i]),
        1 <= one.len() <= 4,
        one.last() == '1',
        forall|i: int| 0 <= i < one.len() - 1 ==> one[i] == '0',
    ensures
        zs.len() == 0 && split::pieces(a, ':') == seq![
            Seq::<char>::empty(),
            Seq::<char>::empty(),
        ] + ws + seq![one] ==> (loopback_v6(a) <==> ws.len() <= 6),
        zs.len() > 0 && split::pieces(a, ':') == zs + seq![Seq::<char>::empty()] + ws + seq![one]
            ==> (loopback_v6(a) <==> zs.len() + ws.len() + 1 <= 7),
{
    let e = Seq::<char>::empty();
    let g = split::pieces(a, ':');
    if zs.len() == 0 && g == seq![e, e] + ws + seq![one] {
        assert(g[0] == e && g[1] == e && g.last() == one);
        assert forall|i: int| 2 <= i < g.len() - 1 implies zero_group(#[trigger] g[i]) by {
            assert(g[i] == ws[i - 2]);
        }
        assert(gap_before(g, 2));
        assert(ending(g, 2) == ws.len() + 1);
        assert(!zero_group(g[0]));
        assert(ending(g, 0) == 0);
        assert forall|k: int| #[trigger] gap_before(g, k) implies k == 2 by {
            if k > 2 {
                assert(k - 1 < g.len() - 1);
                assert(zero_group(g[k - 1]));
            }
        }
    }
    if zs.len() > 0 && g == zs + seq![e] + ws + seq![one] {
        let n = zs.len() as int;
        assert(g[n] == e && g.last() == one);
        assert forall|i: int| 0 <= i < n implies zero_group(#[trigger] g[i]) by {
            assert(g[i] == zs[i]);
        }
        assert forall|i: int| n < i < g.len() - 1 implies zero_group(#[trigger] g[i]) by {
            assert(g[i] == ws[i - n - 1]);
        }
        assert(zero_group(g[0]));
        assert(gap_before(g, n + 1));
        assert(ending(g, n + 1) == ws.len() + 1);
        assert(!zero_group(g[n]));
        assert(ending(g, 0) == 0);
        assert forall|k: int| #[trigger] gap_before(g, k) implies k == n + 1 by {
            if k != n + 1 {
                assert(zero_group(g[k - 1]));
            }
        }
    }
}

} // verus!
