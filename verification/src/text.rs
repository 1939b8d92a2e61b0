//! Text helpers: string comparison, concatenation and decimal rendering.

use vstd::prelude::*;

verus! {

/// The decimal digit `d` (0 through 9) as a character.
pub open spec fn digit_char(d: int) -> char {
    seq!['0', '1', '2', '3', '4', '5', '6', '7', '8', '9'][d]
}

/// The decimal rendering of a natural number, most significant digit first,
/// with no leading zeros (zero itself is rendered as "0").
pub open spec fn decimal(n: nat) -> Seq<char>
    decreases n,
{
    if n < 10 {
        seq![digit_char(n as int)]
    } else {
        decimal(n / 10) + seq![digit_char((n % 10) as int)]
    }
}

/// The decimal rendering of a signed integer: a leading '-' for negative values.
pub open spec fn signed_decimal(x: int) -> Seq<char> {
    if x < 0 {
        seq!['-'] + decimal((-x) as nat)
    } else {
        decimal(x as nat)
    }
}

/// Compares two string slices for equality (std's `==` on `str`).
#[verifier::external_body]
pub(crate) fn str_equal(a: &str, b: &str) -> (r: bool)
    ensures
        r == (a@ == b@),
{
    a == b
}

/// The Unicode uppercase form of a string, as `str::to_uppercase` computes it.
pub uninterp spec fn uppercase_of(s: Seq<char>) -> Seq<char>;

/// Calls `str::to_uppercase`. Trusted: the result depends on the input alone
/// (std maps each character by the Unicode uppercase tables, independent of
/// locale); the mapping itself is named, not stated. One short fact is
/// stated: a newline appears in the result only if it was in the input, as
/// control characters have no case mapping and no case mapping yields one
/// (std documents that a character without an uppercase mapping maps to
/// itself, and the Unicode tables map only letters and a few symbols).
#[verifier::external_body]
pub(crate) fn to_uppercase(s: &str) -> (r: String)
    ensures
        r@ == uppercase_of(s@),
        !s@.contains('\n') ==> !r@.contains('\n'),
{
    s.to_uppercase()
}

/// A new owned string holding `a` followed by `b`.
pub fn concat_str(a: &str, b: &str) -> (r: String)
    ensures
        r@ == a@ + b@,
{
    let mut r = String::from_str(a);
    r.append(b);
    r
}

fn digit_str(d: u128) -> (r: &'static str)
    requires
        d < 10,
    ensures
        r@ == seq![digit_char(d as int)],
{
    proof {
        reveal_strlit("0");
        reveal_strlit("1");
        reveal_strlit("2");
        reveal_strlit("3");
        reveal_strlit("4");
        reveal_strlit("5");
        reveal_strlit("6");
        reveal_strlit("7");
        reveal_strlit("8");
        reveal_strlit("9");
    }
    if d == 0 {
        "0"
    } else if d == 1 {
        "1"
    } else if d == 2 {
        "2"
    } else if d == 3 {
        "3"
    } else if d == 4 {
        "4"
    } else if d == 5 {
        "5"
    } else if d == 6 {
        "6"
    } else if d == 7 {
        "7"
    } else if d == 8 {
        "8"
    } else {
        "9"
    }
}

/// Renders an unsigned integer in decimal, as `to_string` does.
pub fn u128_to_decimal(n: u128) -> (r: String)
    ensures
        r@ == decimal(n as nat),
{
    let mut v: u128 = n;
    let mut res = String::new();
    while v >= 10
        invariant
            decimal(n as nat) == decimal(v as nat) + res@,
        decreases v,
    {
        let d = digit_str(v % 10);
        res = concat_str(d, res.as_str());
        v = v / 10;
    }
    let d = digit_str(v);
    concat_str(d, res.as_str())
}

/// Renders a signed integer in decimal, as `to_string` does.
pub fn i64_to_decimal(x: i64) -> (r: String)
    ensures
        r@ == signed_decimal(x as int),
{
    if x < 0 {
        let magnitude: u128 = (0i128 - (x as i128)) as u128;
        let digits = u128_to_decimal(magnitude);
        proof {
            reveal_strlit("-");
        }
        concat_str("-", digits.as_str())
    } else {
        u128_to_decimal(x as u128)
    }
}

} // verus!
