//! Decimal rendering of non-negative integers, used for identifiers and
//! volume/issue labels.

use vstd::prelude::*;

verus! {

/// The character for a single decimal digit.
pub open spec fn dec_digit(d: int) -> char {
    if d == 0 {
        '0'
    } else if d == 1 {
        '1'
    } else if d == 2 {
        '2'
    } else if d == 3 {
        '3'
    } else if d == 4 {
        '4'
    } else if d == 5 {
        '5'
    } else if d == 6 {
        '6'
    } else if d == 7 {
        '7'
    } else if d == 8 {
        '8'
    } else {
        '9'
    }
}

/// The decimal representation of a non-negative integer, most significant
/// digit first, with no leading zeros (except for zero itself).
pub open spec fn dec_rep(n: nat) -> Seq<char>
    decreases n,
{
    if n < 10 {
        seq![dec_digit(n as int)]
    } else {
        dec_rep(n / 10).push(dec_digit((n % 10) as int))
    }
}

fn digit_str(d: u64) -> (r: &'static str)
    requires
        d < 10,
    ensures
        r@ == seq![dec_digit(d as int)],
{
    let r: &'static str = match d {
        0 => "0",
        1 => "1",
        2 => "2",
        3 => "3",
        4 => "4",
        5 => "5",
        6 => "6",
        7 => "7",
        8 => "8",
        _ => "9",
    };
    proof {
        reveal_strlit("0");
        reveal_strlit("1");
        reveal_strlit("2");
        reveal_strlit("3");
        reveal_strlit("4");
        reveal_strlit("5");
        reveal_strlit("6");
        reveal_strlit("7");
        reveal_strlit("8");
        reveal_strlit("9");
        assert(r@ =~= seq![dec_digit(d as int)]);
    }
    r
}

/// Renders a `u64` in decimal.
pub fn u64_to_string(n: u64) -> (r: String)
    ensures
        r@ == dec_rep(n as nat),
{
    if n == 0 {
        return String::from_str(digit_str(0));
    }
    let mut m: u64 = n;
    let mut acc = String::new();
    while m > 0
        invariant
            n > 0,
            m > 0 ==> dec_rep(n as nat) == dec_rep(m as nat) + acc@,
            m == 0 ==> dec_rep(n as nat) == acc@,
        decreases m,
    {
        let d = m % 10;
        let next = m / 10;
        let digit = digit_str(d);
        let joined = String::from_str(digit).concat(acc.as_str());
        proof {
            if m >= 10 {
                assert(dec_rep(m as nat) == dec_rep((m as nat) / 10).push(dec_digit(
                    ((m as nat) % 10) as int,
                )));
                assert(dec_rep((m as nat) / 10).push(dec_digit(((m as nat) % 10) as int)) =~= dec_rep(
                    (m as nat) / 10,
                ) + seq![dec_digit(((m as nat) % 10) as int)]);
                assert(dec_rep(n as nat) =~= dec_rep(next as nat) + joined@);
            } else {
                assert(dec_rep(m as nat) =~= seq![dec_digit(m as int)]);
                assert(dec_rep(n as nat) =~= joined@);
            }
        }
        acc = joined;
        m = next;
    }
    acc
}

/// Renders a non-negative `i64` in decimal.
pub fn i64_to_string(n: i64) -> (r: String)
    requires
        n >= 0,
    ensures
        r@ == dec_rep(n as nat),
{
    u64_to_string(n as u64)
}

/// Renders a non-negative `i32` in decimal.
pub fn i32_to_string(n: i32) -> (r: String)
    requires
        n >= 0,
    ensures
        r@ == dec_rep(n as nat),
{
    u64_to_string(n as u64)
}

} // verus!
