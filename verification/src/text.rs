//! Small text helpers: decimal rendering of integers.

use vstd::prelude::*;

verus! {

/// The ASCII digit character for a value below ten.
pub open spec fn digit_char(d: nat) -> char {
    if d == 0 { '0' }
    else if d == 1 { '1' }
    else if d == 2 { '2' }
    else if d == 3 { '3' }
    else if d == 4 { '4' }
    else if d == 5 { '5' }
    else if d == 6 { '6' }
    else if d == 7 { '7' }
    else if d == 8 { '8' }
    else { '9' }
}

/// The decimal representation of a natural number, most significant digit first,
/// without leading zeros (zero itself is "0").
pub open spec fn decimal(n: nat) -> Seq<char>
    decreases n,
{
    if n < 10 {
        seq![digit_char(n)]
    } else {
        decimal(n / 10) + seq![digit_char(n % 10)]
    }
}

fn digit_str(d: u64) -> (s: &'static str)
    requires
        d < 10,
    ensures
        s@ == seq![digit_char(d as nat)],
{
    if d == 0 {
        proof { reveal_strlit("0"); }
        "0"
    } else if d == 1 {
        proof { reveal_strlit("1"); }
        "1"
    } else if d == 2 {
        proof { reveal_strlit("2"); }
        "2"
    } else if d == 3 {
        proof { reveal_strlit("3"); }
        "3"
    } else if d == 4 {
        proof { reveal_strlit("4"); }
        "4"
    } else if d == 5 {
        proof { reveal_strlit("5"); }
        "5"
    } else if d == 6 {
        proof { reveal_strlit("6"); }
        "6"
    } else if d == 7 {
        proof { reveal_strlit("7"); }
        "7"
    } else if d == 8 {
        proof { reveal_strlit("8"); }
        "8"
    } else {
        proof { reveal_strlit("9"); }
        "9"
    }
}

/// Renders `value` in decimal, as `format!("{value}")` does.
pub fn decimal_string(value: u64) -> (s: String)
    ensures
        s@ == decimal(value as nat),
    decreases value,
{
    if value < 10 {
        String::from_str(digit_str(value))
    } else {
        let mut s = decimal_string(value / 10);
        s.append(digit_str(value % 10));
        s
    }
}

/// Returns `prefix` followed by the decimal rendering of `value`.
pub fn prefixed_decimal(prefix: &str, value: u64) -> (s: String)
    ensures
        s@ == prefix@ + decimal(value as nat),
{
    let digits = decimal_string(value);
    let mut s = String::from_str(prefix);
    s.append(digits.as_str());
    s
}

} // verus!
