//! JSON string escaping for the event and document text the library
//! renders.

use vstd::prelude::*;

verus! {

/// The hexadecimal digit character of a value below sixteen.
pub open spec fn spec_hex_digit(d: int) -> char {
    if d < 10 {
        ((48 + d) as u8) as char
    } else {
        ((87 + d) as u8) as char
    }
}

/// How one character appears inside a JSON string literal.
pub open spec fn spec_esc_char(c: char) -> Seq<char> {
    if c == '"' {
        seq!['\u{5c}', '"']
    } else if c == '\u{5c}' {
        seq!['\u{5c}', '\u{5c}']
    } else if c == '\n' {
        seq!['\u{5c}', 'n']
    } else if c == '\r' {
        seq!['\u{5c}', 'r']
    } else if c == '\t' {
        seq!['\u{5c}', 't']
    } else if (c as u32) < 32 {
        seq!['\u{5c}', 'u', '0', '0',
            spec_hex_digit((c as u32) as int / 16),
            spec_hex_digit((c as u32) as int % 16)]
    } else {
        seq![c]
    }
}

/// A whole string escaped for a JSON literal.
pub open spec fn spec_json_escape(s: Seq<char>) -> Seq<char>
    decreases s.len(),
{
    if s.len() == 0 {
        Seq::empty()
    } else {
        spec_json_escape(s.drop_last()) + spec_esc_char(s.last())
    }
}

/// One hexadecimal digit as a string slice.
fn hex_digit_str(d: u32) -> (r: &'static str)
    requires
        d < 16,
    ensures
        r@ == seq![spec_hex_digit(d as int)],
{
    proof {
        reveal_strlit("0");
        reveal_strlit("1");
        reveal_strlit("2");
        reveal_strlit("3");
        reveal_strlit("4");
        reveal_strlit("5");
        reveal_strlit("6");
        reveal_strlit("7");
        reveal_strlit("8");
        reveal_strlit("9");
        reveal_strlit("a");
        reveal_strlit("b");
        reveal_strlit("c");
        reveal_strlit("d");
        reveal_strlit("e");
        reveal_strlit("f");
    }
    match d {
        0 => "0",
        1 => "1",
        2 => "2",
        3 => "3",
        4 => "4",
        5 => "5",
        6 => "6",
        7 => "7",
        8 => "8",
        9 => "9",
        10 => "a",
        11 => "b",
        12 => "c",
        13 => "d",
        14 => "e",
        _ => {
            assert(d == 15);
            "f"
        },
    }
}

/// Escape a string for inclusion in a JSON literal.
pub fn json_escape(s: &str) -> (r: String)
    ensures
        r@ == spec_json_escape(s@),
{
    let n = s.unicode_len();
    let mut out = String::new();
    let mut i: usize = 0;
    while i < n
        invariant
            i <= n,
            n == s@.len(),
            out@ == spec_json_escape(s@.subrange(0, i as int)),
        decreases n - i,
    {
        let ghost pre = s@.subrange(0, i as int);
        let ghost pre1 = s@.subrange(0, i + 1 as int);
        proof {
            assert(pre1.drop_last() =~= pre);
            assert(pre1.last() == s@[i as int]);
        }
        let c = s.get_char(i);
        if c == '"' {
            proof { reveal_strlit("\u{5c}\""); }
            out.append("\u{5c}\"");
            assert(out@ =~= spec_json_escape(pre1));
        } else if c == '\u{5c}' {
            proof { reveal_strlit("\u{5c}\u{5c}"); }
            out.append("\u{5c}\u{5c}");
            assert(out@ =~= spec_json_escape(pre1));
        } else if c == '\n' {
            proof { reveal_strlit("\u{5c}n"); }
            out.append("\u{5c}n");
            assert(out@ =~= spec_json_escape(pre1));
        } else if c == '\r' {
            proof { reveal_strlit("\u{5c}r"); }
            out.append("\u{5c}r");
            assert(out@ =~= spec_json_escape(pre1));
        } else if c == '\t' {
            proof { reveal_strlit("\u{5c}t"); }
            out.append("\u{5c}t");
            assert(out@ =~= spec_json_escape(pre1));
        } else if (c as u32) < 32 {
            proof { reveal_strlit("\u{5c}u00"); }
            out.append("\u{5c}u00");
            out.append(hex_digit_str((c as u32) / 16));
            out.append(hex_digit_str((c as u32) % 16));
            assert(out@ =~= spec_json_escape(pre1));
        } else {
            let piece = s.substring_char(i, i + 1);
            proof {
                assert(piece@ =~= seq![s@[i as int]]);
            }
            out.append(piece);
            assert(out@ =~= spec_json_escape(pre1));
        }
        i = i + 1;
    }
    proof {
        assert(s@.subrange(0, n as int) =~= s@);
    }
    out
}

} // verus!
