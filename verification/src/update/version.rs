//! Semantic versions, as texts.

use vstd::prelude::*;
use crate::text::number;

use crate::text::classes;
use crate::text::split;
use crate::update::ip;

verus! {

/// The part of a version before its build identifiers.
pub open spec fn without_build(text: Seq<char>) -> Seq<char> {
    text.take(split::next_index(text, 0, '+'))
}

/// The part of a version before its pre-release and build identifiers.
pub open spec fn release_part(text: Seq<char>) -> Seq<char> {
    let plain = without_build(text);
    plain.take(split::next_index(plain, 0, '-'))
}

/// Whether a version has pre-release identifiers.
pub open spec fn has_prerelease(text: Seq<char>) -> bool {
    release_part(text).len() < without_build(text).len()
}

/// The pre-release identifiers of a version that has some.
pub open spec fn prerelease(text: Seq<char>) -> Seq<char> {
    without_build(text).skip(1 + release_part(text).len() as int)
}

/// Whether a version has build identifiers.
pub open spec fn has_build(text: Seq<char>) -> bool {
    without_build(text).len() < text.len()
}

/// The build identifiers of a version that has some.
pub open spec fn build(text: Seq<char>) -> Seq<char> {
    text.skip(1 + without_build(text).len() as int)
}

/// Whether `s` holds decimal digits alone.
pub open spec fn digits(s: Seq<char>) -> bool {
    forall|i: int| 0 <= i < s.len() ==> '0' <= #[trigger] s[i] <= '9'
}

/// Whether `s` is a number of a version: decimal, without leading zeros, of at
/// most 64 bits.
pub open spec fn numeral(s: Seq<char>) -> bool {
    s.len() > 0 && digits(s) && (s.len() > 1 ==> s[0] != '0') && ip::value(s) <= u64::MAX
}

/// Whether `s` is an identifier: ASCII letters, digits and hyphens. Where
/// `strict`, one of digits alone has no leading zeros.
pub open spec fn identifier(s: Seq<char>, strict: bool) -> bool {
    &&& s.len() > 0
    &&& forall|i: int|
        0 <= i < s.len() ==> classes::ascii_alphanumeric(#[trigger] s[i]) || s[i] == '-'
    &&& strict && digits(s) && s.len() > 1 ==> s[0] != '0'
}

/// Whether `s` is a list of identifiers with dots between them.
pub open spec fn identifiers(s: Seq<char>, strict: bool) -> bool {
    forall|i: int|
        0 <= i < split::pieces(s, '.').len() ==> identifier(
            #[trigger] split::pieces(s, '.')[i],
            strict,
        )
}

/// Whether a text is a semantic version: three numbers with dots between them,
/// pre-release identifiers behind a hyphen and build identifiers behind a plus
/// sign, if there are any.
pub open spec fn is_version(text: Seq<char>) -> bool {
    let numbers = split::pieces(release_part(text), '.');
    &&& numbers.len() == 3
    &&& numeral(numbers[0]) && numeral(numbers[1]) && numeral(numbers[2])
    &&& has_prerelease(text) ==> identifiers(prerelease(text), true)
    &&& has_build(text) ==> identifiers(build(text), false)
}

/// Whether version `a` is greater than version `b`, as `semver::Version`
/// orders them.
pub uninterp spec fn newer(a: Seq<char>, b: Seq<char>) -> bool;

/// Number `i` of a version's `major.minor.patch`.
pub open spec fn number(text: Seq<char>, i: int) -> int {
    ip::value(split::pieces(release_part(text), '.')[i])
}

/// Whether two versions have the same numbers.
pub open spec fn same_numbers(a: Seq<char>, b: Seq<char>) -> bool {
    number(a, 0) == number(b, 0) && number(a, 1) == number(b, 1) && number(a, 2) == number(b, 2)
}

/// Whether the numbers of `a` come after those of `b`.
pub open spec fn numbers_above(a: Seq<char>, b: Seq<char>) -> bool {
    ||| number(a, 0) > number(b, 0)
    ||| number(a, 0) == number(b, 0) && number(a, 1) > number(b, 1)
    ||| number(a, 0) == number(b, 0) && number(a, 1) == number(b, 1) && number(a, 2) > number(b, 2)
}

/// `semver::Version::parse`, with the version written out again by its
/// `Display`. It accepts semantic versions and nothing else, each in its one
/// spelling, so what comes back is the text that went in.
#[verifier::external_body]
pub(crate) fn parse(text: &str) -> (r: Option<String>)
    ensures
        match r {
            Some(t) => is_version(text@) && t@ == text@,
            None => !is_version(text@),
        },
{
    match semver::Version::parse(text) {
        Ok(v) => Some(v.to_string()),
        Err(_) => None,
    }
}

/// The `>` of `semver::Version` on two texts that are versions. The three
/// numbers decide first, from left to right; where they are the same, a release
/// is greater than a pre-release; a version is not greater than itself; of two
/// versions at most one is greater. How pre-releases of one release, and builds
/// of one version, are ordered is left to the name.
#[verifier::external_body]
pub(crate) fn is_newer(a: &str, b: &str) -> (r: bool)
    requires
        is_version(a@),
        is_version(b@),
    ensures
        r == newer(a@, b@),
        numbers_above(a@, b@) ==> r,
        numbers_above(b@, a@) ==> !r,
        same_numbers(a@, b@) && !has_prerelease(a@) && has_prerelease(b@) ==> r,
        same_numbers(a@, b@) && has_prerelease(a@) && !has_prerelease(b@) ==> !r,
        a@ == b@ ==> !r,
        r ==> !newer(b@, a@),
{
    match (semver::Version::parse(a), semver::Version::parse(b)) {
        (Ok(x), Ok(y)) => x > y,
        _ => false,
    }
}

/// Three numbers between dots.
pub open spec fn three(a: nat, b: nat, c: nat) -> Seq<char> {
    number::decimal(a) + seq!['.'] + (number::decimal(b) + seq!['.'] + number::decimal(c))
}

/// Three numbers between dots are a version, and these are its numbers; it is a release,
/// with nothing added. So are three numbers with something behind a hyphen, which makes
/// it a version before the release, and with something behind a plus sign, which does
/// not.
pub proof fn three_numbers_are_a_version(a: u64, b: u64, c: u64, tail: Seq<char>)
    requires
        identifier(tail, true),
    ensures
        ({
            let plain = three(a as nat, b as nat, c as nat);
            let early = plain + seq!['-'] + tail;
            let built = plain + seq!['+'] + tail;
            &&& is_version(plain) && is_version(early) && is_version(built)
            &&& !has_prerelease(plain) && has_prerelease(early) && !has_prerelease(built)
            &&& number(plain, 0) == a && number(plain, 1) == b && number(plain, 2) == c
            &&& same_numbers(plain, early) && same_numbers(plain, built)
        }),
{
    let plain = three(a as nat, b as nat, c as nat);
    let early = plain + seq!['-'] + tail;
    let built = plain + seq!['+'] + tail;
    let n = plain.len() as int;
    lemma_three(a as nat, b as nat, c as nat);
    lemma_numeral(a);
    lemma_numeral(b);
    lemma_numeral(c);
    assert forall|i: int| 0 <= i < tail.len() implies tail[i] != '+' && tail[i] != '.' by {
        assert(classes::ascii_alphanumeric(tail[i]) || tail[i] == '-');
    }
    split::pieces_end_at_separators(tail, seq![], '.');
    assert(split::pieces(tail, '.')[0] == tail);
    split::lemma_next_index_unique(plain, 0, '+', n);
    assert(plain.take(n) =~= plain);
    split::lemma_next_index_unique(plain, 0, '-', n);
    assert forall|i: int| 0 <= i < early.len() implies early[i] != '+' by {
        if i < n {
            assert(early[i] == plain[i]);
        } else if i > n {
            assert(early[i] == tail[i - n - 1]);
        }
    }
    split::lemma_next_index_unique(early, 0, '+', early.len() as int);
    assert(early.take(early.len() as int) =~= early);
    assert forall|i: int| 0 <= i < n implies early[i] != '-' && built[i] != '+' by {
        assert(early[i] == plain[i] && built[i] == plain[i]);
    }
    assert(early[n] == '-' && built[n] == '+');
    split::lemma_next_index_unique(early, 0, '-', n);
    assert(early.take(n) =~= plain);
    assert(early.skip(1 + n) =~= tail);
    split::lemma_next_index_unique(built, 0, '+', n);
    assert(built.take(n) =~= plain);
    assert(built.skip(1 + n) =~= tail);
}

proof fn lemma_numeral(n: u64)
    ensures
        numeral(number::decimal(n as nat)),
{
    number::lemma_only_digits(n as nat);
    ip::written_numbers_are_read_back(n as nat);
    lemma_no_leading_zero(n as nat);
}

proof fn lemma_no_leading_zero(n: nat)
    ensures
        number::decimal(n).len() > 0,
        n > 0 ==> number::decimal(n)[0] != '0',
        n < 10 ==> number::decimal(n).len() == 1,
    decreases n,
{
    if n >= 10 {
        lemma_no_leading_zero(n / 10);
    }
}

proof fn lemma_three(a: nat, b: nat, c: nat)
    ensures
        split::pieces(three(a, b, c), '.') == seq![
            number::decimal(a),
            number::decimal(b),
            number::decimal(c),
        ],
        forall|i: int|
            0 <= i < three(a, b, c).len() ==> #[trigger] three(a, b, c)[i] != '-' && three(a, b, c)[i]
                != '+',
        ip::value(number::decimal(a)) == a,
        ip::value(number::decimal(b)) == b,
        ip::value(number::decimal(c)) == c,
{
    number::lemma_only_digits(a);
    number::lemma_only_digits(b);
    number::lemma_only_digits(c);
    ip::written_numbers_are_read_back(a);
    ip::written_numbers_are_read_back(b);
    ip::written_numbers_are_read_back(c);
    let s = number::decimal(b) + seq!['.'] + number::decimal(c);
    split::pieces_end_at_separators(number::decimal(a), s, '.');
    split::pieces_end_at_separators(number::decimal(b), number::decimal(c), '.');
    split::pieces_end_at_separators(number::decimal(c), seq![], '.');
    assert(split::pieces(three(a, b, c), '.') =~= seq![
        number::decimal(a),
        number::decimal(b),
        number::decimal(c),
    ]);
    let t = three(a, b, c);
    let (x, y) = (number::decimal(a).len() as int, number::decimal(b).len() as int);
    assert forall|i: int| 0 <= i < t.len() implies #[trigger] t[i] != '-' && t[i] != '+' by {
        if i < x {
            assert(t[i] == number::decimal(a)[i]);
        } else if x < i < x + 1 + y {
            assert(t[i] == number::decimal(b)[i - x - 1]);
        } else if i > x + 1 + y {
            assert(t[i] == number::decimal(c)[i - x - y - 2]);
        }
    }
}

/// Versions are compared by their first number, where those are the same by the second,
/// and then by the third.
pub proof fn earlier_numbers_weigh_more(a: Seq<char>, b: Seq<char>)
    ensures
        number(a, 0) > number(b, 0) ==> numbers_above(a, b),
        number(a, 0) == number(b, 0) && number(a, 1) > number(b, 1) ==> numbers_above(a, b),
        number(a, 0) == number(b, 0) && number(a, 1) == number(b, 1) ==> (numbers_above(a, b)
            <==> number(a, 2) > number(b, 2)),
        numbers_above(a, b) || numbers_above(b, a) || same_numbers(a, b),
        numbers_above(a, b) ==> !numbers_above(b, a) && !same_numbers(a, b),
{
}

} // verus!
