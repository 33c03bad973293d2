//! Decimal numbers as text.

use vstd::prelude::*;

verus! {

/// The digit with value `d`.
pub open spec fn digit(d: int) -> char {
    ('0' as u32 + d) as char
}

/// `n` in decimal digits.
pub open spec fn decimal(n: nat) -> Seq<char>
    decreases n,
{
    if n < 10 {
        seq![digit(n as int)]
    } else {
        decimal(n / 10).push(digit((n % 10) as int))
    }
}

/// The digit with value `d`.
fn digit_char(d: u64) -> (c: char)
    requires
        d < 10,
    ensures
        c == digit(d as int),
{
    (48u8 + d as u8) as char
}

/// `n` in decimal digits.
pub fn to_decimal(n: u64) -> (s: String)
    ensures
        s@ == decimal(n as nat),
    decreases n,
{
    if n < 10 {
        let mut s = String::new();
        s.push(digit_char(n));
        assert(s@ =~= seq![digit(n as int)]);
        s
    } else {
        let mut s = to_decimal(n / 10);
        s.push(digit_char(n % 10));
        s
    }
}

/// `n` in decimal digits, behind a minus sign when it is negative.
pub open spec fn signed_decimal(n: int) -> Seq<char> {
    if n < 0 {
        seq!['-'] + decimal((-n) as nat)
    } else {
        decimal(n as nat)
    }
}

/// `n` in decimal digits, behind a minus sign when it is negative.
pub fn to_signed_decimal(n: i32) -> (s: String)
    ensures
        s@ == signed_decimal(n as int),
{
    if n < 0 {
        let magnitude: i64 = -(n as i64);
        let digits = to_decimal(magnitude as u64);
        let mut s = String::new();
        s.push('-');
        s.append(digits.as_str());
        assert(s@ =~= signed_decimal(n as int));
        s
    } else {
        to_decimal(n as u64)
    }
}

/// A number has its last digit at the end, and what it is without that digit
/// before; a number below ten is one digit.
pub proof fn digits_are_written_in_order(n: nat, d: int)
    requires
        0 <= d < 10,
    ensures
        decimal(d as nat).len() == 1,
        decimal(d as nat)[0] as int == 48 + d,
        n > 0 ==> decimal((10 * n + d) as nat) == decimal(n) + decimal(d as nat),
{
    if n > 0 {
        assert((10 * n + d) / 10 == n && (10 * n + d) % 10 == d);
        assert(decimal((10 * n + d) as nat) =~= decimal(n) + decimal(d as nat));
    }
}

/// A negative number is its opposite behind a minus sign, and no other number has
/// one.
pub proof fn only_negative_numbers_have_a_sign(n: int)
    ensures
        n < 0 ==> signed_decimal(n) == seq!['-'] + signed_decimal(-n),
        n >= 0 ==> signed_decimal(n) == decimal(n as nat) && signed_decimal(n)[0] != '-',
{
    if n >= 0 {
        lemma_only_digits(n as nat);
    }
}

/// A number is written in digits, and in at least one.
pub proof fn lemma_only_digits(n: nat)
    ensures
        decimal(n).len() > 0,
        forall|i: int| 0 <= i < decimal(n).len() ==> '0' <= #[trigger] decimal(n)[i] <= '9',
    decreases n,
{
    if n >= 10 {
        lemma_only_digits(n / 10);
    }
}

} // verus!
