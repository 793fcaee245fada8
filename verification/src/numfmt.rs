//! Decimal rendering of unsigned integers, used for dotted-quad addresses
//! and the epoch-seconds field of a log line.

use vstd::prelude::*;

verus! {

pub open spec fn digit_char(d: int) -> char {
    if d == 0 {
        '0'
    } else if d == 1 {
        '1'
    } else if d == 2 {
        '2'
    } else if d == 3 {
        '3'
    } else if d == 4 {
        '4'
    } else if d == 5 {
        '5'
    } else if d == 6 {
        '6'
    } else if d == 7 {
        '7'
    } else if d == 8 {
        '8'
    } else {
        '9'
    }
}

/// The decimal digits of `n`, most significant first, with no leading zero
/// except for `n == 0` itself.
pub open spec fn spec_dec(n: int) -> Seq<char>
    decreases n,
{
    if n < 10 {
        seq![digit_char(n)]
    } else {
        spec_dec(n / 10) + seq![digit_char(n % 10)]
    }
}

fn digit_str(d: u64) -> (s: &'static str)
    requires
        d < 10,
    ensures
        s@ == seq![digit_char(d as int)],
{
    proof {
        reveal_strlit("0");
        reveal_strlit("1");
        reveal_strlit("2");
        reveal_strlit("3");
        reveal_strlit("4");
        reveal_strlit("5");
        reveal_strlit("6");
        reveal_strlit("7");
        reveal_strlit("8");
        reveal_strlit("9");
    }
    match d {
        0 => "0",
        1 => "1",
        2 => "2",
        3 => "3",
        4 => "4",
        5 => "5",
        6 => "6",
        7 => "7",
        8 => "8",
        _ => "9",
    }
}

/// Renders `n` in decimal.
pub fn u64_to_dec(n: u64) -> (s: String)
    ensures
        s@ == spec_dec(n as int),
    decreases n,
{
    if n < 10 {
        digit_str(n).to_owned()
    } else {
        let mut s = u64_to_dec(n / 10);
        s.append(digit_str(n % 10));
        proof {
            assert(s@ =~= spec_dec(n as int));
        }
        s
    }
}

/// The dotted-quad text of the four bytes of an address.
pub open spec fn spec_quad(a: u8, b: u8, c: u8, d: u8) -> Seq<char> {
    spec_dec(a as int) + seq!['.'] + spec_dec(b as int) + seq!['.'] + spec_dec(c as int) + seq!['.']
        + spec_dec(d as int)
}

/// Renders four address bytes as dotted-quad text.
pub fn dotted_quad(a: u8, b: u8, c: u8, d: u8) -> (s: String)
    ensures
        s@ == spec_quad(a, b, c, d),
{
    let mut s = u64_to_dec(a as u64);
    let sb = u64_to_dec(b as u64);
    let sc = u64_to_dec(c as u64);
    let sd = u64_to_dec(d as u64);
    s.append(".");
    s.append(sb.as_str());
    s.append(".");
    s.append(sc.as_str());
    s.append(".");
    s.append(sd.as_str());
    proof {
        reveal_strlit(".");
        assert(s@ =~= spec_quad(a, b, c, d));
    }
    s
}

} // verus!
