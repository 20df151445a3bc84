//! Decimal rendering of the integers that appear in wire messages and
//! persisted documents, with an exact character-level specification.

use vstd::prelude::*;

verus! {

/// The character for one decimal digit.
pub open spec fn spec_digit(d: int) -> char {
    ((48 + d) as u8) as char
}

/// The decimal representation of a natural number, most significant digit
/// first, with no leading zeros (zero itself is "0").
pub open spec fn spec_dec(n: nat) -> Seq<char>
    decreases n,
{
    if n < 10 {
        seq![spec_digit(n as int)]
    } else {
        spec_dec(n / 10) + seq![spec_digit((n % 10) as int)]
    }
}

/// The decimal representation of a signed number: a minus sign before the
/// magnitude when negative.
pub open spec fn spec_dec_signed(n: int) -> Seq<char> {
    if n < 0 {
        seq!['-'] + spec_dec((-n) as nat)
    } else {
        spec_dec(n as nat)
    }
}

/// One digit as a string slice.
fn digit_str(d: u8) -> (s: &'static str)
    requires
        d < 10,
    ensures
        s@ == seq![spec_digit(d as int)],
{
    proof {
        reveal_strlit("0");
        reveal_strlit("1");
        reveal_strlit("2");
        reveal_strlit("3");
        reveal_strlit("4");
        reveal_strlit("5");
        reveal_strlit("6");
        reveal_strlit("7");
        reveal_strlit("8");
        reveal_strlit("9");
    }
    match d {
        0 => "0",
        1 => "1",
        2 => "2",
        3 => "3",
        4 => "4",
        5 => "5",
        6 => "6",
        7 => "7",
        8 => "8",
        _ => {
            assert(d == 9);
            "9"
        },
    }
}

/// Render an unsigned number in decimal.
pub fn fmt_u64(n: u64) -> (s: String)
    ensures
        s@ == spec_dec(n as nat),
    decreases n,
{
    if n < 10 {
        String::from_str(digit_str(n as u8))
    } else {
        let mut s = fmt_u64(n / 10);
        s.append(digit_str((n % 10) as u8));
        s
    }
}

/// Render a signed number in decimal.
pub fn fmt_i64(n: i64) -> (s: String)
    ensures
        s@ == spec_dec_signed(n as int),
{
    if n < 0 {
        let mut s = String::from_str("-");
        proof { reveal_strlit("-"); }
        assert(s@ =~= seq!['-']);
        let magnitude: u64 = if n == i64::MIN {
            9_223_372_036_854_775_808u64
        } else {
            (-n) as u64
        };
        s.append(fmt_u64(magnitude).as_str());
        s
    } else {
        fmt_u64(n as u64)
    }
}

/// Render a byte in decimal.
pub fn fmt_u8(n: u8) -> (s: String)
    ensures
        s@ == spec_dec(n as nat),
{
    fmt_u64(n as u64)
}

/// Render a 16-bit number in decimal.
pub fn fmt_u16(n: u16) -> (s: String)
    ensures
        s@ == spec_dec(n as nat),
{
    fmt_u64(n as u64)
}

/// The spelled-out boolean used in JSON bodies.
pub open spec fn spec_bool(b: bool) -> Seq<char> {
    if b {
        "true"@
    } else {
        "false"@
    }
}

/// Render a boolean as JSON spells it.
pub fn fmt_bool(b: bool) -> (s: &'static str)
    ensures
        s@ == spec_bool(b),
{
    if b {
        "true"
    } else {
        "false"
    }
}

} // verus!
