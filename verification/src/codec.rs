//! The document codec: JSON text for the stored records, with parsing
//! proved to invert rendering.  The scanner accepts exactly what the
//! renderer emits; reading and writing the files is the caller's
//! business.

use vstd::prelude::*;
use crate::fmt::{spec_dec, spec_digit};
use crate::text::{spec_esc_char, spec_hex_digit, spec_json_escape};

verus! {

/// Escaping processes the characters one by one from the front.
pub proof fn lemma_escape_front(s: Seq<char>)
    requires
        s.len() > 0,
    ensures
        spec_json_escape(s) == spec_esc_char(s[0]) + spec_json_escape(s.drop_first()),
    decreases s.len(),
{
    if s.len() == 1 {
        assert(s.drop_last() =~= Seq::<char>::empty());
        assert(s.drop_first() =~= Seq::<char>::empty());
        assert(spec_json_escape(Seq::<char>::empty()) =~= Seq::<char>::empty());
        assert(s.last() == s[0]);
        assert(spec_json_escape(s) =~= spec_esc_char(s[0]));
        assert(spec_esc_char(s[0]) + spec_json_escape(s.drop_first())
            =~= spec_esc_char(s[0]));
    } else {
        let m = s.drop_last();
        lemma_escape_front(m);
        assert(m[0] == s[0]);
        assert(m.drop_first() =~= s.drop_first().drop_last());
        assert(s.drop_first().len() > 0);
        lemma_escape_front(s.drop_first());
        assert(spec_json_escape(s)
            == spec_esc_char(s[0]) + spec_json_escape(m.drop_first())
                + spec_esc_char(s.last())) by {
            assert((spec_esc_char(s[0]) + spec_json_escape(m.drop_first()))
                + spec_esc_char(s.last())
                =~= spec_esc_char(s[0]) + (spec_json_escape(m.drop_first())
                    + spec_esc_char(s.last())));
        }
        assert(s.drop_first().drop_last() =~= m.drop_first());
        assert(spec_json_escape(s.drop_first())
            == spec_json_escape(m.drop_first()) + spec_esc_char(s.last())) by {
            assert(s.drop_first().last() == s.last());
        }
    }
}


/// A character below the ASCII bound survives the trip through its
/// code point.
proof fn lemma_char_reconstruct(c: char)
    requires
        (c as u32) < 128,
    ensures
        ((c as u32) as u8) as char == c,
{
}

/// The value of one hexadecimal digit character, or -1.
pub open spec fn spec_hex_val(c: char) -> int {
    let u = c as u32;
    if 48 <= u <= 57 {
        u - 48
    } else if 97 <= u <= 102 {
        u - 87
    } else {
        -1
    }
}

/// Hexadecimal digits read back as their values.
pub proof fn lemma_hex_digit_val(d: int)
    requires
        0 <= d < 16,
    ensures
        spec_hex_val(spec_hex_digit(d)) == d,
{
}

/// Scan a JSON string body up to its closing quote: the decoded
/// characters and how many characters were consumed, quote included.
pub open spec fn spec_scan_string(t: Seq<char>) -> Option<(Seq<char>, int)>
    decreases t.len(),
{
    if t.len() == 0 {
        None
    } else if t[0] == '"' {
        Some((Seq::empty(), 1))
    } else if t[0] == '\u{5c}' {
        if t.len() < 2 {
            None
        } else {
            let e = t[1];
            if e == '"' || e == '\u{5c}' || e == 'n' || e == 'r' || e == 't' {
                let decoded = if e == '"' {
                    '"'
                } else if e == '\u{5c}' {
                    '\u{5c}'
                } else if e == 'n' {
                    '\n'
                } else if e == 'r' {
                    '\r'
                } else {
                    '\t'
                };
                match spec_scan_string(t.skip(2)) {
                    None => None,
                    Some((rest, used)) => Some((seq![decoded] + rest, 2 + used)),
                }
            } else if e == 'u' {
                if t.len() < 6 || t[2] != '0' || t[3] != '0' {
                    None
                } else {
                    let h1 = spec_hex_val(t[4]);
                    let h2 = spec_hex_val(t[5]);
                    if h1 < 0 || h2 < 0 || h1 * 16 + h2 >= 32 {
                        None
                    } else {
                        let decoded = ((h1 * 16 + h2) as u8) as char;
                        match spec_scan_string(t.skip(6)) {
                            None => None,
                            Some((rest, used)) => Some((seq![decoded] + rest, 6 + used)),
                        }
                    }
                }
            } else {
                None
            }
        }
    } else {
        match spec_scan_string(t.skip(1)) {
            None => None,
            Some((rest, used)) => Some((seq![t[0]] + rest, 1 + used)),
        }
    }
}

/// Law: scanning inverts escaping.  An escaped string followed by its
/// closing quote scans back to the original characters, consuming
/// exactly the escaped text and the quote.
pub proof fn lemma_scan_escape(s: Seq<char>, rest: Seq<char>)
    ensures
        spec_scan_string(spec_json_escape(s) + seq!['"'] + rest)
            == Some((s, spec_json_escape(s).len() as int + 1)),
    decreases s.len(),
{
    if s.len() == 0 {
        assert(spec_json_escape(s) =~= Seq::<char>::empty());
        let t = spec_json_escape(s) + seq!['"'] + rest;
        assert(t[0] == '"');
    } else {
        lemma_escape_front(s);
        let c = s[0];
        let tail = s.drop_first();
        lemma_scan_escape(tail, rest);
        let t = spec_json_escape(s) + seq!['"'] + rest;
        let t2 = spec_json_escape(tail) + seq!['"'] + rest;
        let e = spec_esc_char(c);
        assert(t =~= e + t2);
        if c == '"' {
            assert(t[0] == '\u{5c}' && t[1] == '"');
            assert(t.skip(2) =~= t2);
            assert(seq!['"'] + tail =~= s);
        } else if c == '\u{5c}' {
            assert(t[0] == '\u{5c}' && t[1] == '\u{5c}');
            assert(t.skip(2) =~= t2);
            assert(seq!['\u{5c}'] + tail =~= s);
        } else if c == '\n' {
            assert(t[0] == '\u{5c}' && t[1] == 'n');
            assert(t.skip(2) =~= t2);
            assert(seq!['\n'] + tail =~= s);
        } else if c == '\r' {
            assert(t[0] == '\u{5c}' && t[1] == 'r');
            assert(t.skip(2) =~= t2);
            assert(seq!['\r'] + tail =~= s);
        } else if c == '\t' {
            assert(t[0] == '\u{5c}' && t[1] == 't');
            assert(t.skip(2) =~= t2);
            assert(seq!['\t'] + tail =~= s);
        } else if (c as u32) < 32 {
            assert(t[0] == '\u{5c}' && t[1] == 'u' && t[2] == '0' && t[3] == '0');
            let h1 = (c as u32) as int / 16;
            let h2 = (c as u32) as int % 16;
            lemma_hex_digit_val(h1);
            lemma_hex_digit_val(h2);
            assert(t[4] == spec_hex_digit(h1));
            assert(t[5] == spec_hex_digit(h2));
            assert(spec_hex_val(t[4]) == h1);
            assert(spec_hex_val(t[5]) == h2);
            assert(h1 * 16 + h2 == c as u32) by {
                assert((c as u32) as int / 16 * 16 + (c as u32) as int % 16
                    == (c as u32) as int);
            }
            assert((c as u32) < 32);
            assert(h1 * 16 + h2 == (c as u32) as int);
            assert((h1 * 16 + h2) as u8 == (c as u32) as u8);
            lemma_char_reconstruct(c);
            assert(t.skip(6) =~= t2);
            assert(seq![c] + tail =~= s);
        } else {
            assert(e =~= seq![c]);
            assert(t[0] == c);
            assert(c != '"' && c != '\u{5c}');
            assert(t.skip(1) =~= t2);
            assert(seq![c] + tail =~= s);
        }
    }
}

/// Whether a character is a decimal digit.
pub open spec fn spec_is_digit(c: char) -> bool {
    48 <= c as u32 <= 57
}

/// The value of a decimal digit string, most significant first.
pub open spec fn spec_digits_val(s: Seq<char>) -> int
    decreases s.len(),
{
    if s.len() == 0 {
        0
    } else {
        spec_digits_val(s.drop_last()) * 10 + (s.last() as u32 - 48)
    }
}

/// The decimal rendering of a number is all digits and reads back to
/// the number.
pub proof fn lemma_dec_digits(n: nat)
    ensures
        spec_digits_val(spec_dec(n)) == n,
        spec_dec(n).len() > 0,
        forall|i: int| 0 <= i < spec_dec(n).len()
            ==> spec_is_digit(#[trigger] spec_dec(n)[i]),
    decreases n,
{
    if n < 10 {
        assert(spec_dec(n) =~= seq![spec_digit(n as int)]);
        assert(spec_dec(n).drop_last() =~= Seq::<char>::empty());
        assert(spec_digits_val(Seq::<char>::empty()) == 0);
        assert(spec_digit(n as int) as u32 == 48 + n);
    } else {
        lemma_dec_digits(n / 10);
        let d = spec_digit((n % 10) as int);
        assert(spec_dec(n) =~= spec_dec(n / 10) + seq![d]);
        assert(spec_dec(n).drop_last() =~= spec_dec(n / 10));
        assert(spec_dec(n).last() == d);
        assert(d as u32 == 48 + n % 10);
        assert(spec_digits_val(spec_dec(n)) == (n / 10) * 10 + n % 10);
        assert forall|i: int| 0 <= i < spec_dec(n).len()
            implies spec_is_digit(#[trigger] spec_dec(n)[i]) by {
            if i < spec_dec(n / 10).len() {
                assert(spec_dec(n)[i] == spec_dec(n / 10)[i]);
            } else {
                assert(spec_dec(n)[i] == d);
            }
        }
    }
}

/// How many leading digits a text has.
pub open spec fn spec_digit_run(t: Seq<char>) -> int
    decreases t.len(),
{
    if t.len() == 0 || !spec_is_digit(t[0]) {
        0
    } else {
        1 + spec_digit_run(t.drop_first())
    }
}

/// A digit string followed by a non-digit has its own length as run.
pub proof fn lemma_digit_run(s: Seq<char>, rest: Seq<char>)
    requires
        forall|i: int| 0 <= i < s.len() ==> spec_is_digit(#[trigger] s[i]),
        rest.len() > 0,
        !spec_is_digit(rest[0]),
    ensures
        spec_digit_run(s + rest) == s.len(),
    decreases s.len(),
{
    let t = s + rest;
    if s.len() == 0 {
        assert(t =~= rest);
    } else {
        assert(spec_is_digit(t[0]));
        assert(t.drop_first() =~= s.drop_first() + rest);
        lemma_digit_run(s.drop_first(), rest);
    }
}

/// Parse the leading decimal number of a text: its value and how many
/// characters it took.
pub open spec fn spec_parse_number(t: Seq<char>) -> Option<(int, int)> {
    let run = spec_digit_run(t);
    if run == 0 {
        None
    } else {
        Some((spec_digits_val(t.take(run)), run))
    }
}

/// Law: parsing inverts decimal rendering when a non-digit follows.
pub proof fn lemma_parse_number(n: nat, rest: Seq<char>)
    requires
        rest.len() > 0,
        !spec_is_digit(rest[0]),
    ensures
        spec_parse_number(spec_dec(n) + rest) == Some((n as int, spec_dec(n).len() as int)),
{
    lemma_dec_digits(n);
    lemma_digit_run(spec_dec(n), rest);
    assert((spec_dec(n) + rest).take(spec_dec(n).len() as int) =~= spec_dec(n));
}

/// Consume an expected literal prefix.
pub open spec fn spec_expect(t: Seq<char>, lit: Seq<char>) -> Option<Seq<char>> {
    if t.len() >= lit.len() && t.take(lit.len() as int) == lit {
        Some(t.skip(lit.len() as int))
    } else {
        None
    }
}

/// Expecting a literal off the front of itself always succeeds.
pub proof fn lemma_expect(lit: Seq<char>, rest: Seq<char>)
    ensures
        spec_expect(lit + rest, lit) == Some(rest),
{
    assert((lit + rest).take(lit.len() as int) =~= lit);
    assert((lit + rest).skip(lit.len() as int) =~= rest);
}

/// A quoted JSON string literal.
pub open spec fn spec_jstr(s: Seq<char>) -> Seq<char> {
    seq!['"'] + spec_json_escape(s) + seq!['"']
}

/// A JSON string literal or null.
pub open spec fn spec_jstr_opt(s: Option<Seq<char>>) -> Seq<char> {
    match s {
        Some(v) => spec_jstr(v),
        None => "null"@,
    }
}

/// A JSON number or null.
pub open spec fn spec_jnum_opt(n: Option<int>) -> Seq<char> {
    match n {
        Some(v) => if v >= 0 { spec_dec(v as nat) } else { spec_dec(0) },
        None => "null"@,
    }
}

/// The spelled-out boolean.
pub open spec fn spec_jbool(b: bool) -> Seq<char> {
    if b {
        "true"@
    } else {
        "false"@
    }
}

/// The fields of one stored preset, as the document carries them.
pub struct PresetFields {
    /// Identity.
    pub id: Seq<char>,
    /// Display name.
    pub name: Seq<char>,
    /// Slot.
    pub wled_slot: int,
    /// Optional description.
    pub description: Option<Seq<char>>,
    /// Power state.
    pub on: bool,
    /// Brightness.
    pub brightness: int,
    /// Colour channels.
    pub color: [int; 3],
    /// Effect index.
    pub effect: int,
    /// Speed.
    pub speed: int,
    /// Intensity.
    pub intensity: int,
    /// Optional transition.
    pub transition: Option<int>,
    /// Creation timestamp.
    pub created_at: Seq<char>,
}

/// What a stored preset's fields are.
pub open spec fn preset_fields(p: crate::types::WledPreset) -> PresetFields {
    PresetFields {
        id: p.id@,
        name: p.name@,
        wled_slot: p.wled_slot as int,
        description: match p.description {
            Some(d) => Some(d@),
            None => None,
        },
        on: p.state.on,
        brightness: p.state.brightness as int,
        color: [p.state.color[0] as int, p.state.color[1] as int, p.state.color[2] as int],
        effect: p.state.effect as int,
        speed: p.state.speed as int,
        intensity: p.state.intensity as int,
        transition: match p.state.transition {
            Some(t) => Some(t as int),
            None => None,
        },
        created_at: p.created_at@,
    }
}

/// A non-negative field as a natural number; the fields of a stored
/// record are non-negative by construction.
pub open spec fn spec_nn(v: int) -> nat {
    if v >= 0 {
        v as nat
    } else {
        0
    }
}

/// The leading part of a preset document: identity through description.
pub open spec fn spec_preset_json_head(f: PresetFields) -> Seq<char> {
    "{\"id\":"@ + spec_jstr(f.id)
        + ",\"name\":"@ + spec_jstr(f.name)
        + ",\"wled_slot\":"@ + spec_dec(spec_nn(f.wled_slot))
        + ",\"description\":"@ + spec_jstr_opt(f.description)
}

/// The middle part: power through the second colour channel.
pub open spec fn spec_preset_json_state(f: PresetFields) -> Seq<char> {
    ",\"on\":"@ + spec_jbool(f.on)
        + ",\"brightness\":"@ + spec_dec(spec_nn(f.brightness))
        + ",\"color\":["@ + spec_dec(spec_nn(f.color[0]))
        + ","@ + spec_dec(spec_nn(f.color[1]))
}

/// The trailing part: the third colour channel through the closing
/// brace.
pub open spec fn spec_preset_json_tail(f: PresetFields) -> Seq<char> {
    ","@ + spec_dec(spec_nn(f.color[2]))
        + "],\"effect\":"@ + spec_dec(spec_nn(f.effect))
        + ",\"speed\":"@ + spec_dec(spec_nn(f.speed))
        + ",\"intensity\":"@ + spec_dec(spec_nn(f.intensity))
        + (",\"transition\":"@ + spec_jnum_opt(f.transition)
            + ",\"created_at\":"@ + spec_jstr(f.created_at) + "}"@)
}

/// The document text of one preset.
pub open spec fn spec_preset_json(f: PresetFields) -> Seq<char> {
    spec_preset_json_head(f) + spec_preset_json_state(f) + spec_preset_json_tail(f)
}

/// Parse a quoted string off the front: the opening quote, the body.
pub open spec fn spec_parse_jstr(t: Seq<char>) -> Option<(Seq<char>, Seq<char>)> {
    if t.len() >= 1 && t[0] == '"' {
        match spec_scan_string(t.skip(1)) {
            None => None,
            Some((content, used)) => Some((content, t.skip(1 + used))),
        }
    } else {
        None
    }
}

/// Parsing a rendered string literal gives the original back.
pub proof fn lemma_parse_jstr(s: Seq<char>, rest: Seq<char>)
    ensures
        spec_parse_jstr(spec_jstr(s) + rest) == Some((s, rest)),
{
    let t = spec_jstr(s) + rest;
    assert(t[0] == '"');
    assert(t.skip(1) =~= spec_json_escape(s) + seq!['"'] + rest);
    lemma_scan_escape(s, rest);
    assert(t.skip(1 + (spec_json_escape(s).len() as int + 1)) =~= rest) by {
        assert(t.len() == spec_json_escape(s).len() + 2 + rest.len());
    }
}

/// Parse a string or null off the front.
pub open spec fn spec_parse_jstr_opt(t: Seq<char>) -> Option<(Option<Seq<char>>, Seq<char>)> {
    if t.len() >= 4 && t.take(4) == "null"@ {
        Some((None, t.skip(4)))
    } else {
        match spec_parse_jstr(t) {
            None => None,
            Some((s, rest)) => Some((Some(s), rest)),
        }
    }
}

/// Parsing a rendered optional string gives the original back.
pub proof fn lemma_parse_jstr_opt(s: Option<Seq<char>>, rest: Seq<char>)
    ensures
        spec_parse_jstr_opt(spec_jstr_opt(s) + rest) == Some((s, rest)),
{
    reveal_strlit("null");
    match s {
        None => {
            let t = spec_jstr_opt(s) + rest;
            assert(t.take(4) =~= "null"@);
            assert(t.skip(4) =~= rest);
        },
        Some(v) => {
            let t = spec_jstr(v) + rest;
            assert(t[0] == '"');
            if t.len() >= 4 && t.take(4) == "null"@ {
                assert(t.take(4)[0] == 'n');
                assert(false);
            }
            lemma_parse_jstr(v, rest);
        },
    }
}

/// Parse a number or null off the front.
pub open spec fn spec_parse_jnum_opt(t: Seq<char>) -> Option<(Option<int>, Seq<char>)> {
    if t.len() >= 4 && t.take(4) == "null"@ {
        Some((None, t.skip(4)))
    } else {
        match spec_parse_number(t) {
            None => None,
            Some((n, used)) => Some((Some(n), t.skip(used))),
        }
    }
}

/// Parsing a rendered optional number gives the original back when a
/// non-digit follows.
pub proof fn lemma_parse_jnum_opt(n: Option<int>, rest: Seq<char>)
    requires
        n is Some ==> n->0 >= 0,
        rest.len() > 0,
        !spec_is_digit(rest[0]),
    ensures
        spec_parse_jnum_opt(spec_jnum_opt(n) + rest) == Some((n, rest)),
{
    reveal_strlit("null");
    match n {
        None => {
            let t = spec_jnum_opt(n) + rest;
            assert(t.take(4) =~= "null"@);
            assert(t.skip(4) =~= rest);
        },
        Some(v) => {
            let t = spec_dec(v as nat) + rest;
            lemma_parse_number(v as nat, rest);
            lemma_dec_digits(v as nat);
            if t.len() >= 4 && t.take(4) == "null"@ {
                assert(t.take(4)[0] == 'n');
                if spec_dec(v as nat).len() >= 1 {
                    assert(t[0] == spec_dec(v as nat)[0]);
                    assert(spec_is_digit(t[0]));
                }
                assert(false);
            }
            assert(t.skip(spec_dec(v as nat).len() as int) =~= rest);
        },
    }
}

/// Parse a boolean off the front.
pub open spec fn spec_parse_jbool(t: Seq<char>) -> Option<(bool, Seq<char>)> {
    if t.len() >= 4 && t.take(4) == "true"@ {
        Some((true, t.skip(4)))
    } else if t.len() >= 5 && t.take(5) == "false"@ {
        Some((false, t.skip(5)))
    } else {
        None
    }
}

/// Parsing a rendered boolean gives the original back.
pub proof fn lemma_parse_jbool(b: bool, rest: Seq<char>)
    ensures
        spec_parse_jbool(spec_jbool(b) + rest) == Some((b, rest)),
{
    reveal_strlit("true");
    reveal_strlit("false");
    let t = spec_jbool(b) + rest;
    if b {
        assert(t.take(4) =~= "true"@);
        assert(t.skip(4) =~= rest);
    } else {
        assert(t.take(5) =~= "false"@);
        assert(t.skip(5) =~= rest);
        if t.len() >= 4 && t.take(4) == "true"@ {
            assert(t.take(4)[0] == 't');
            assert(t[0] == 'f');
            assert(false);
        }
    }
}

/// Parse a whole preset document off the front of a text.
pub open spec fn spec_parse_preset(t: Seq<char>) -> Option<(PresetFields, Seq<char>)> {
    match spec_expect(t, "{\"id\":"@) {
        None => None,
        Some(t1) => match spec_parse_jstr(t1) {
            None => None,
            Some((id, t2)) => match spec_expect(t2, ",\"name\":"@) {
                None => None,
                Some(t3) => match spec_parse_jstr(t3) {
                    None => None,
                    Some((name, t4)) => match spec_expect(t4, ",\"wled_slot\":"@) {
                        None => None,
                        Some(t5) => match spec_parse_number(t5) {
                            None => None,
                            Some((slot, used5)) => {
                                let t6 = t5.skip(used5);
                                match spec_expect(t6, ",\"description\":"@) {
                                    None => None,
                                    Some(t7) => match spec_parse_jstr_opt(t7) {
                                        None => None,
                                        Some((description, t8)) => spec_parse_preset_state(
                                            t8, id, name, slot, description),
                                    },
                                }
                            },
                        },
                    },
                },
            },
        },
    }
}

/// Parse the render-state half of a preset document.
pub open spec fn spec_parse_preset_state(t: Seq<char>, id: Seq<char>, name: Seq<char>,
    slot: int, description: Option<Seq<char>>) -> Option<(PresetFields, Seq<char>)> {
    match spec_expect(t, ",\"on\":"@) {
        None => None,
        Some(t1) => match spec_parse_jbool(t1) {
            None => None,
            Some((on, t2)) => match spec_expect(t2, ",\"brightness\":"@) {
                None => None,
                Some(t3) => match spec_parse_number(t3) {
                    None => None,
                    Some((brightness, used3)) => {
                        let t4 = t3.skip(used3);
                        match spec_expect(t4, ",\"color\":["@) {
                            None => None,
                            Some(t5) => match spec_parse_number(t5) {
                                None => None,
                                Some((c0, used5)) => {
                                    let t6 = t5.skip(used5);
                                    match spec_expect(t6, ","@) {
                                        None => None,
                                        Some(t7) => match spec_parse_number(t7) {
                                            None => None,
                                            Some((c1, used7)) => {
                                                let t8 = t7.skip(used7);
                                                spec_parse_preset_tail(
                                                    t8, id, name, slot, description, on,
                                                    brightness, c0, c1)
                                            },
                                        },
                                    }
                                },
                            },
                        }
                    },
                },
            },
        },
    }
}

/// Parse the trailing fields of a preset document.
pub open spec fn spec_parse_preset_tail(t: Seq<char>, id: Seq<char>, name: Seq<char>,
    slot: int, description: Option<Seq<char>>, on: bool, brightness: int, c0: int,
    c1: int) -> Option<(PresetFields, Seq<char>)> {
    match spec_expect(t, ","@) {
        None => None,
        Some(t1) => match spec_parse_number(t1) {
            None => None,
            Some((c2, used1)) => {
                let t2 = t1.skip(used1);
                match spec_expect(t2, "],\"effect\":"@) {
                    None => None,
                    Some(t3) => match spec_parse_number(t3) {
                        None => None,
                        Some((effect, used3)) => {
                            let t4 = t3.skip(used3);
                            match spec_expect(t4, ",\"speed\":"@) {
                                None => None,
                                Some(t5) => match spec_parse_number(t5) {
                                    None => None,
                                    Some((speed, used5)) => {
                                        let t6 = t5.skip(used5);
                                        match spec_expect(t6, ",\"intensity\":"@) {
                                            None => None,
                                            Some(t7) => match spec_parse_number(t7) {
                                                None => None,
                                                Some((intensity, used7)) => {
                                                    let t8 = t7.skip(used7);
                                                    spec_parse_preset_finish(t8, id, name,
                                                        slot, description, on, brightness,
                                                        c0, c1, c2, effect, speed, intensity)
                                                },
                                            },
                                        }
                                    },
                                },
                            }
                        },
                    },
                }
            },
        },
    }
}


/// Parse the last fields of a preset document.
pub open spec fn spec_parse_preset_finish(t: Seq<char>, id: Seq<char>, name: Seq<char>,
    slot: int, description: Option<Seq<char>>, on: bool, brightness: int, c0: int,
    c1: int, c2: int, effect: int, speed: int, intensity: int)
    -> Option<(PresetFields, Seq<char>)> {
    match spec_expect(t, ",\"transition\":"@) {
        None => None,
        Some(t1) => match spec_parse_jnum_opt(t1) {
            None => None,
            Some((transition, t2)) => match spec_expect(t2, ",\"created_at\":"@) {
                None => None,
                Some(t3) => match spec_parse_jstr(t3) {
                    None => None,
                    Some((created_at, t4)) => match spec_expect(t4, "}"@) {
                        None => None,
                        Some(t5) => Some((
                            PresetFields {
                                id,
                                name,
                                wled_slot: slot,
                                description,
                                on,
                                brightness,
                                color: [c0, c1, c2],
                                effect,
                                speed,
                                intensity,
                                transition,
                                created_at,
                            },
                            t5,
                        )),
                    },
                },
            },
        },
    }
}

/// The last-fields renderer.
pub open spec fn spec_preset_json_finish(f: PresetFields) -> Seq<char> {
    ",\"transition\":"@ + spec_jnum_opt(f.transition)
        + ",\"created_at\":"@ + spec_jstr(f.created_at) + "}"@
}

/// The finish parser inverts the finish renderer.
proof fn lemma_preset_finish_round(f: PresetFields, rest: Seq<char>)
    requires
        f.transition is Some ==> f.transition->0 >= 0,
    ensures
        spec_parse_preset_finish(spec_preset_json_finish(f) + rest, f.id, f.name,
            f.wled_slot, f.description, f.on, f.brightness, f.color[0], f.color[1],
            f.color[2], f.effect, f.speed, f.intensity) == Some((f, rest)),
{
    reveal_strlit(",\"transition\":");
    reveal_strlit(",\"created_at\":");
    reveal_strlit("}");
    let s_created = spec_jstr(f.created_at) + ("}"@ + rest);
    let s_transition = spec_jnum_opt(f.transition) + (",\"created_at\":"@ + s_created);
    let t0 = ",\"transition\":"@ + s_transition;
    assert(spec_preset_json_finish(f) + rest =~= t0);
    lemma_expect(",\"transition\":"@, s_transition);
    proof_created_first_char(f, rest);
    lemma_parse_jnum_opt(f.transition, ",\"created_at\":"@ + s_created);
    lemma_expect(",\"created_at\":"@, s_created);
    lemma_parse_jstr(f.created_at, "}"@ + rest);
    lemma_expect("}"@, rest);
    assert([f.color[0], f.color[1], f.color[2]] =~= f.color);
}

/// The created-at marker begins with a separator, never a digit.
proof fn proof_created_first_char(f: PresetFields, rest: Seq<char>)
    ensures
        (",\"created_at\":"@ + (spec_jstr(f.created_at) + ("}"@ + rest))).len() > 0,
        !spec_is_digit((",\"created_at\":"@ + (spec_jstr(f.created_at) + ("}"@ + rest)))[0]),
{
    reveal_strlit(",\"created_at\":");
}

/// The tail parser inverts the tail renderer.
#[verifier::rlimit(100)]
#[verifier::spinoff_prover]
proof fn lemma_preset_tail_round(f: PresetFields, rest: Seq<char>)
    requires
        f.color[2] >= 0,
        f.effect >= 0,
        f.speed >= 0,
        f.intensity >= 0,
        f.transition is Some ==> f.transition->0 >= 0,
    ensures
        spec_parse_preset_tail(spec_preset_json_tail(f) + rest, f.id, f.name,
            f.wled_slot, f.description, f.on, f.brightness, f.color[0], f.color[1])
            == Some((f, rest)),
{
    reveal_strlit(",");
    reveal_strlit("],\"effect\":");
    reveal_strlit(",\"speed\":");
    reveal_strlit(",\"intensity\":");
    reveal_strlit(",\"transition\":");

    let fin = spec_preset_json_finish(f) + rest;
    let s_intensity = spec_dec(spec_nn(f.intensity)) + fin;
    let s_speed = spec_dec(spec_nn(f.speed)) + (",\"intensity\":"@ + s_intensity);
    let s_effect = spec_dec(spec_nn(f.effect)) + (",\"speed\":"@ + s_speed);
    let s_c2 = spec_dec(spec_nn(f.color[2])) + ("],\"effect\":"@ + s_effect);
    let t0 = ","@ + s_c2;
    assert(spec_preset_json_tail(f) + rest =~= t0) by {
        assert(spec_preset_json_finish(f)
            =~= ",\"transition\":"@ + spec_jnum_opt(f.transition)
                + ",\"created_at\":"@ + spec_jstr(f.created_at) + "}"@);
    }

    lemma_expect(","@, s_c2);
    lemma_parse_number(spec_nn(f.color[2]), "],\"effect\":"@ + s_effect);
    assert(s_c2.skip(spec_dec(spec_nn(f.color[2])).len() as int)
        =~= "],\"effect\":"@ + s_effect);
    lemma_expect("],\"effect\":"@, s_effect);
    lemma_parse_number(spec_nn(f.effect), ",\"speed\":"@ + s_speed);
    assert(s_effect.skip(spec_dec(spec_nn(f.effect)).len() as int)
        =~= ",\"speed\":"@ + s_speed);
    lemma_expect(",\"speed\":"@, s_speed);
    lemma_parse_number(spec_nn(f.speed), ",\"intensity\":"@ + s_intensity);
    assert(s_speed.skip(spec_dec(spec_nn(f.speed)).len() as int)
        =~= ",\"intensity\":"@ + s_intensity);
    lemma_expect(",\"intensity\":"@, s_intensity);
    assert(fin[0] == ',') by {
        reveal_strlit(",\"transition\":");
        assert(spec_preset_json_finish(f)[0] == ",\"transition\":"@[0]);
    }
    lemma_parse_number(spec_nn(f.intensity), fin);
    assert(s_intensity.skip(spec_dec(spec_nn(f.intensity)).len() as int) =~= fin);
    lemma_preset_finish_round(f, rest);
}

/// The state parser inverts the state renderer.
#[verifier::rlimit(100)]
proof fn lemma_preset_state_round(f: PresetFields, rest: Seq<char>)
    requires
        f.brightness >= 0,
        f.color[0] >= 0,
        f.color[1] >= 0,
        f.color[2] >= 0,
        f.effect >= 0,
        f.speed >= 0,
        f.intensity >= 0,
        f.transition is Some ==> f.transition->0 >= 0,
    ensures
        spec_parse_preset_state(
            spec_preset_json_state(f) + spec_preset_json_tail(f) + rest,
            f.id, f.name, f.wled_slot, f.description) == Some((f, rest)),
{
    reveal_strlit(",\"on\":");
    reveal_strlit(",\"brightness\":");
    reveal_strlit(",\"color\":[");
    reveal_strlit(",");

    let tail = spec_preset_json_tail(f) + rest;
    let s_c1 = spec_dec(spec_nn(f.color[1])) + tail;
    let s_c0 = spec_dec(spec_nn(f.color[0])) + (","@ + s_c1);
    let s_bri = spec_dec(spec_nn(f.brightness)) + (",\"color\":["@ + s_c0);
    let s_on = spec_jbool(f.on) + (",\"brightness\":"@ + s_bri);
    let t0 = ",\"on\":"@ + s_on;
    assert(spec_preset_json_state(f) + spec_preset_json_tail(f) + rest =~= t0);

    lemma_expect(",\"on\":"@, s_on);
    lemma_parse_jbool(f.on, ",\"brightness\":"@ + s_bri);
    lemma_expect(",\"brightness\":"@, s_bri);
    lemma_parse_number(spec_nn(f.brightness), ",\"color\":["@ + s_c0);
    assert(s_bri.skip(spec_dec(spec_nn(f.brightness)).len() as int)
        =~= ",\"color\":["@ + s_c0);
    lemma_expect(",\"color\":["@, s_c0);
    lemma_parse_number(spec_nn(f.color[0]), ","@ + s_c1);
    assert(s_c0.skip(spec_dec(spec_nn(f.color[0])).len() as int) =~= ","@ + s_c1);
    lemma_expect(","@, s_c1);
    proof_tail_first_char(f, rest);
    lemma_parse_number(spec_nn(f.color[1]), tail);
    assert(s_c1.skip(spec_dec(spec_nn(f.color[1])).len() as int) =~= tail);
    lemma_preset_tail_round(f, rest);
}

/// The tail text begins with a separator, never a digit.
proof fn proof_tail_first_char(f: PresetFields, rest: Seq<char>)
    ensures
        (spec_preset_json_tail(f) + rest).len() > 0,
        !spec_is_digit((spec_preset_json_tail(f) + rest)[0]),
{
    reveal_strlit(",");
    assert((spec_preset_json_tail(f) + rest)[0] == ',') by {
        assert(spec_preset_json_tail(f)[0] == ","@[0]);
    }
}

/// Law: loading inverts saving — parsing the rendered preset document
/// yields every field back, whatever the strings hold.
#[verifier::rlimit(100)]
pub proof fn lemma_preset_round_trip(p: crate::types::WledPreset, rest: Seq<char>)
    ensures
        spec_parse_preset(spec_preset_json(preset_fields(p)) + rest)
            == Some((preset_fields(p), rest)),
{
    let f = preset_fields(p);
    reveal_strlit("{\"id\":");
    reveal_strlit(",\"name\":");
    reveal_strlit(",\"wled_slot\":");
    reveal_strlit(",\"description\":");
    reveal_strlit(",\"on\":");

    let mid = spec_preset_json_state(f) + spec_preset_json_tail(f) + rest;
    let s_desc = spec_jstr_opt(f.description) + mid;
    let s_slot = spec_dec(spec_nn(f.wled_slot)) + (",\"description\":"@ + s_desc);
    let s_name = spec_jstr(f.name) + (",\"wled_slot\":"@ + s_slot);
    let s_id = spec_jstr(f.id) + (",\"name\":"@ + s_name);
    let t0 = "{\"id\":"@ + s_id;
    assert(spec_preset_json(f) + rest =~= t0);

    lemma_expect("{\"id\":"@, s_id);
    lemma_parse_jstr(f.id, ",\"name\":"@ + s_name);
    lemma_expect(",\"name\":"@, s_name);
    lemma_parse_jstr(f.name, ",\"wled_slot\":"@ + s_slot);
    lemma_expect(",\"wled_slot\":"@, s_slot);
    lemma_parse_number(spec_nn(f.wled_slot), ",\"description\":"@ + s_desc);
    assert(s_slot.skip(spec_dec(spec_nn(f.wled_slot)).len() as int)
        =~= ",\"description\":"@ + s_desc);
    lemma_expect(",\"description\":"@, s_desc);
    lemma_parse_jstr_opt(f.description, mid);
    lemma_preset_state_round(f, rest);
}

/// Render one preset as its document text.
#[verifier::rlimit(100)]
#[verifier::spinoff_prover]
pub fn preset_json(p: &crate::types::WledPreset) -> (r: String)
    ensures
        r@ == spec_preset_json(preset_fields(*p)),
{
    proof {
        reveal_strlit("\"");
        reveal_strlit("null");
    }
    let mut out = String::from_str("{\"id\":");
    append_jstr(&mut out, &p.id);
    out.append(",\"name\":");
    append_jstr(&mut out, &p.name);
    out.append(",\"wled_slot\":");
    out.append(crate::fmt::fmt_u8(p.wled_slot).as_str());
    out.append(",\"description\":");
    match &p.description {
        Some(d) => append_jstr(&mut out, d),
        None => out.append("null"),
    }
    out.append(",\"on\":");
    out.append(crate::fmt::fmt_bool(p.state.on));
    out.append(",\"brightness\":");
    out.append(crate::fmt::fmt_u8(p.state.brightness).as_str());
    out.append(",\"color\":[");
    out.append(crate::fmt::fmt_u8(p.state.color[0]).as_str());
    out.append(",");
    out.append(crate::fmt::fmt_u8(p.state.color[1]).as_str());
    out.append(",");
    out.append(crate::fmt::fmt_u8(p.state.color[2]).as_str());
    out.append("],\"effect\":");
    out.append(crate::fmt::fmt_u8(p.state.effect).as_str());
    out.append(",\"speed\":");
    out.append(crate::fmt::fmt_u8(p.state.speed).as_str());
    out.append(",\"intensity\":");
    out.append(crate::fmt::fmt_u8(p.state.intensity).as_str());
    out.append(",\"transition\":");
    match p.state.transition {
        Some(t) => out.append(crate::fmt::fmt_u8(t).as_str()),
        None => out.append("null"),
    }
    out.append(",\"created_at\":");
    append_jstr(&mut out, &p.created_at);
    out.append("}");
    proof {
        assert(out@ =~= spec_preset_json(preset_fields(*p)));
    }
    out
}

/// Append a quoted, escaped string literal.
fn append_jstr(out: &mut String, s: &String)
    ensures
        final(out)@ == old(out)@ + spec_jstr(s@),
{
    proof {
        reveal_strlit("\"");
    }
    out.append("\"");
    out.append(crate::text::json_escape(s.as_str()).as_str());
    out.append("\"");
    proof {
        assert(old(out)@ + "\""@ + spec_json_escape(s@) + "\""@
            =~= old(out)@ + spec_jstr(s@));
    }
}

/// A JSON array of string literals.
pub open spec fn spec_jstr_array(items: Seq<Seq<char>>) -> Seq<char> {
    "["@ + spec_jstr_items(items) + "]"@
}

/// The comma-joined string literals of an array body.
pub open spec fn spec_jstr_items(items: Seq<Seq<char>>) -> Seq<char>
    decreases items.len(),
{
    if items.len() == 0 {
        Seq::empty()
    } else if items.len() == 1 {
        spec_jstr(items[0])
    } else {
        spec_jstr(items[0]) + ","@ + spec_jstr_items(items.drop_first())
    }
}

/// Parse a JSON array of string literals; the fuel bounds how many
/// items it will read.
pub open spec fn spec_parse_jstr_array(t: Seq<char>, fuel: nat)
    -> Option<(Seq<Seq<char>>, Seq<char>)> {
    match spec_expect(t, "["@) {
        None => None,
        Some(t1) => if t1.len() >= 1 && t1[0] == ']' {
            Some((Seq::empty(), t1.skip(1)))
        } else {
            spec_parse_jstr_more(t1, fuel)
        },
    }
}

/// Parse the remaining items of a string array.
pub open spec fn spec_parse_jstr_more(t: Seq<char>, fuel: nat)
    -> Option<(Seq<Seq<char>>, Seq<char>)>
    decreases fuel,
{
    if fuel == 0 {
        None
    } else {
        match spec_parse_jstr(t) {
            None => None,
            Some((item, t2)) => if t2.len() >= 1 && t2[0] == ',' {
                match spec_parse_jstr_more(t2.skip(1), (fuel - 1) as nat) {
                    None => None,
                    Some((rest_items, t3)) => Some((seq![item] + rest_items, t3)),
                }
            } else if t2.len() >= 1 && t2[0] == ']' {
                Some((seq![item], t2.skip(1)))
            } else {
                None
            },
        }
    }
}

/// Parsing a rendered non-empty array body gives the items back.
#[verifier::rlimit(100)]
#[verifier::spinoff_prover]
proof fn lemma_parse_jstr_more(items: Seq<Seq<char>>, rest: Seq<char>, fuel: nat)
    requires
        items.len() >= 1,
        fuel >= items.len(),
    ensures
        spec_parse_jstr_more(spec_jstr_items(items) + "]"@ + rest, fuel)
            == Some((items, rest)),
    decreases items.len(),
{
    reveal_strlit(",");
    reveal_strlit("]");
    let t = spec_jstr_items(items) + "]"@ + rest;
    if items.len() == 1 {
        assert(t =~= spec_jstr(items[0]) + ("]"@ + rest));
        lemma_parse_jstr(items[0], "]"@ + rest);
        let t2 = "]"@ + rest;
        assert(t2[0] == ']');
        assert(t2.skip(1) =~= rest);
        assert(seq![items[0]] =~= items);
    } else {
        let tail_items = items.drop_first();
        let tail_text = spec_jstr_items(tail_items) + "]"@ + rest;
        assert(t =~= spec_jstr(items[0]) + (","@ + tail_text));
        lemma_parse_jstr(items[0], ","@ + tail_text);
        let t2 = ","@ + tail_text;
        assert(t2[0] == ',');
        assert(t2.skip(1) =~= tail_text);
        lemma_parse_jstr_more(tail_items, rest, (fuel - 1) as nat);
        assert(seq![items[0]] + tail_items =~= items);
    }
}

/// Law: parsing a rendered string array gives every item back.
#[verifier::rlimit(100)]
#[verifier::spinoff_prover]
pub proof fn lemma_parse_jstr_array(items: Seq<Seq<char>>, rest: Seq<char>, fuel: nat)
    requires
        fuel >= items.len(),
    ensures
        spec_parse_jstr_array(spec_jstr_array(items) + rest, fuel) == Some((items, rest)),
{
    reveal_strlit("[");
    reveal_strlit("]");
    let t = spec_jstr_array(items) + rest;
    assert(t =~= "["@ + (spec_jstr_items(items) + "]"@ + rest));
    lemma_expect("["@, spec_jstr_items(items) + "]"@ + rest);
    let t1 = spec_jstr_items(items) + "]"@ + rest;
    if items.len() == 0 {
        assert(spec_jstr_items(items) =~= Seq::<char>::empty());
        assert(t1[0] == ']');
        assert(t1.skip(1) =~= rest);
    } else {
        assert(t1[0] == '"') by {
            assert(spec_jstr(items[0])[0] == '"');
            assert(spec_jstr_items(items)[0] == spec_jstr(items[0])[0]);
        }
        lemma_parse_jstr_more(items, rest, fuel);
    }
}

/// The fields of one cue, as the document carries them.
pub struct CueFields {
    /// Milliseconds from audio start.
    pub time_ms: int,
    /// Label.
    pub label: Seq<char>,
    /// Target identifiers.
    pub targets: Seq<Seq<char>>,
    /// Preset name.
    pub preset_name: Seq<char>,
    /// Sync rate in thousandths.
    pub sync_rate_milli: int,
}

/// What a cue's fields are.
pub open spec fn cue_fields(c: crate::program::Cue) -> CueFields {
    CueFields {
        time_ms: c.time_ms as int,
        label: c.label@,
        targets: crate::config::member_keys_of(c.targets@),
        preset_name: c.preset_name@,
        sync_rate_milli: c.sync_rate_milli as int,
    }
}

/// The document text of one cue.
pub open spec fn spec_cue_json(c: CueFields) -> Seq<char> {
    "{\"time_ms\":"@ + spec_dec(spec_nn(c.time_ms))
        + ",\"label\":"@ + spec_jstr(c.label)
        + ",\"targets\":"@ + spec_jstr_array(c.targets)
        + (",\"preset_name\":"@ + spec_jstr(c.preset_name)
            + ",\"sync_rate_milli\":"@ + spec_dec(spec_nn(c.sync_rate_milli)) + "}"@)
}

/// Parse one cue document off the front.
pub open spec fn spec_parse_cue(t: Seq<char>, fuel: nat) -> Option<(CueFields, Seq<char>)> {
    match spec_expect(t, "{\"time_ms\":"@) {
        None => None,
        Some(t1) => match spec_parse_number(t1) {
            None => None,
            Some((time_ms, used1)) => {
                let t2 = t1.skip(used1);
                match spec_expect(t2, ",\"label\":"@) {
                    None => None,
                    Some(t3) => match spec_parse_jstr(t3) {
                        None => None,
                        Some((label, t4)) => match spec_expect(t4, ",\"targets\":"@) {
                            None => None,
                            Some(t5) => match spec_parse_jstr_array(t5, fuel) {
                                None => None,
                                Some((targets, t6)) => spec_parse_cue_tail(
                                    t6, time_ms, label, targets),
                            },
                        },
                    },
                }
            },
        },
    }
}

/// Parse the trailing fields of one cue document.
pub open spec fn spec_parse_cue_tail(t: Seq<char>, time_ms: int, label: Seq<char>,
    targets: Seq<Seq<char>>) -> Option<(CueFields, Seq<char>)> {
    match spec_expect(t, ",\"preset_name\":"@) {
        None => None,
        Some(t1) => match spec_parse_jstr(t1) {
            None => None,
            Some((preset_name, t2)) => match spec_expect(t2, ",\"sync_rate_milli\":"@) {
                None => None,
                Some(t3) => match spec_parse_number(t3) {
                    None => None,
                    Some((sync, used3)) => {
                        let t4 = t3.skip(used3);
                        match spec_expect(t4, "}"@) {
                            None => None,
                            Some(t5) => Some((
                                CueFields {
                                    time_ms,
                                    label,
                                    targets,
                                    preset_name,
                                    sync_rate_milli: sync,
                                },
                                t5,
                            )),
                        }
                    },
                },
            },
        },
    }
}

/// Parsing a rendered cue gives every field back.
#[verifier::rlimit(100)]
#[verifier::spinoff_prover]
pub proof fn lemma_parse_cue(c: CueFields, rest: Seq<char>, fuel: nat)
    requires
        fuel >= c.targets.len(),
        c.time_ms >= 0,
        c.sync_rate_milli >= 0,
    ensures
        spec_parse_cue(spec_cue_json(c) + rest, fuel) == Some((c, rest)),
{
    reveal_strlit("{\"time_ms\":");
    reveal_strlit(",\"label\":");
    reveal_strlit(",\"targets\":");
    reveal_strlit(",\"preset_name\":");
    reveal_strlit(",\"sync_rate_milli\":");
    reveal_strlit("}");

    let s_tail = ",\"preset_name\":"@ + spec_jstr(c.preset_name)
        + ",\"sync_rate_milli\":"@ + spec_dec(spec_nn(c.sync_rate_milli)) + "}"@ + rest;
    let s_targets = spec_jstr_array(c.targets) + s_tail;
    let s_label = spec_jstr(c.label) + (",\"targets\":"@ + s_targets);
    let s_time = spec_dec(spec_nn(c.time_ms)) + (",\"label\":"@ + s_label);
    let t0 = "{\"time_ms\":"@ + s_time;
    assert(spec_cue_json(c) + rest =~= t0);

    lemma_expect("{\"time_ms\":"@, s_time);
    lemma_parse_number(spec_nn(c.time_ms), ",\"label\":"@ + s_label);
    assert(s_time.skip(spec_dec(spec_nn(c.time_ms)).len() as int)
        =~= ",\"label\":"@ + s_label);
    lemma_expect(",\"label\":"@, s_label);
    lemma_parse_jstr(c.label, ",\"targets\":"@ + s_targets);
    lemma_expect(",\"targets\":"@, s_targets);
    lemma_parse_jstr_array(c.targets, s_tail, fuel);

    // The cue tail.
    let s_sync = spec_dec(spec_nn(c.sync_rate_milli)) + ("}"@ + rest);
    let s_pname = spec_jstr(c.preset_name) + (",\"sync_rate_milli\":"@ + s_sync);
    assert(s_tail =~= ",\"preset_name\":"@ + s_pname);
    lemma_expect(",\"preset_name\":"@, s_pname);
    lemma_parse_jstr(c.preset_name, ",\"sync_rate_milli\":"@ + s_sync);
    lemma_expect(",\"sync_rate_milli\":"@, s_sync);
    assert(("}"@ + rest)[0] == '}');
    lemma_parse_number(spec_nn(c.sync_rate_milli), "}"@ + rest);
    assert(s_sync.skip(spec_dec(spec_nn(c.sync_rate_milli)).len() as int) =~= "}"@ + rest);
    lemma_expect("}"@, rest);
}

/// The largest target list any cue of a list has; fuel enough for
/// every nested array.
pub open spec fn spec_max_targets(cues: Seq<CueFields>) -> nat
    decreases cues.len(),
{
    if cues.len() == 0 {
        0
    } else {
        let rest = spec_max_targets(cues.drop_first());
        if cues[0].targets.len() > rest {
            cues[0].targets.len()
        } else {
            rest
        }
    }
}

/// A JSON array of cue documents.
pub open spec fn spec_cues_json(cues: Seq<CueFields>) -> Seq<char> {
    "["@ + spec_cues_items(cues) + "]"@
}

/// The comma-joined cue documents of an array body.
pub open spec fn spec_cues_items(cues: Seq<CueFields>) -> Seq<char>
    decreases cues.len(),
{
    if cues.len() == 0 {
        Seq::empty()
    } else if cues.len() == 1 {
        spec_cue_json(cues[0])
    } else {
        spec_cue_json(cues[0]) + ","@ + spec_cues_items(cues.drop_first())
    }
}

/// Parse a JSON array of cues, with fuel for the items and for each
/// cue's own target array.
pub open spec fn spec_parse_cues(t: Seq<char>, fuel: nat, inner_fuel: nat)
    -> Option<(Seq<CueFields>, Seq<char>)> {
    match spec_expect(t, "["@) {
        None => None,
        Some(t1) => if t1.len() >= 1 && t1[0] == ']' {
            Some((Seq::empty(), t1.skip(1)))
        } else {
            spec_parse_cues_more(t1, fuel, inner_fuel)
        },
    }
}

/// Parse the remaining cues of an array.
pub open spec fn spec_parse_cues_more(t: Seq<char>, fuel: nat, inner_fuel: nat)
    -> Option<(Seq<CueFields>, Seq<char>)>
    decreases fuel,
{
    if fuel == 0 {
        None
    } else {
        match spec_parse_cue(t, inner_fuel) {
            None => None,
            Some((cue, t2)) => if t2.len() >= 1 && t2[0] == ',' {
                match spec_parse_cues_more(t2.skip(1), (fuel - 1) as nat, inner_fuel) {
                    None => None,
                    Some((rest_cues, t3)) => Some((seq![cue] + rest_cues, t3)),
                }
            } else if t2.len() >= 1 && t2[0] == ']' {
                Some((seq![cue], t2.skip(1)))
            } else {
                None
            },
        }
    }
}

/// All cue values in a list are within their fields' ranges.
pub open spec fn cues_in_range(cues: Seq<CueFields>) -> bool {
    forall|i: int| 0 <= i < cues.len()
        ==> (#[trigger] cues[i]).time_ms >= 0 && cues[i].sync_rate_milli >= 0
}

/// Parsing a rendered non-empty cue array body gives the cues back.
#[verifier::rlimit(100)]
#[verifier::spinoff_prover]
proof fn lemma_parse_cues_more(cues: Seq<CueFields>, rest: Seq<char>, fuel: nat,
    inner_fuel: nat)
    requires
        cues.len() >= 1,
        fuel >= cues.len(),
        inner_fuel >= spec_max_targets(cues),
        cues_in_range(cues),
    ensures
        spec_parse_cues_more(spec_cues_items(cues) + "]"@ + rest, fuel, inner_fuel)
            == Some((cues, rest)),
    decreases cues.len(),
{
    reveal_strlit(",");
    reveal_strlit("]");
    let t = spec_cues_items(cues) + "]"@ + rest;
    if cues.len() == 1 {
        assert(t =~= spec_cue_json(cues[0]) + ("]"@ + rest));
        assert(("]"@ + rest)[0] == ']');
        lemma_parse_cue(cues[0], "]"@ + rest, inner_fuel);
        assert(("]"@ + rest).skip(1) =~= rest);
        assert(seq![cues[0]] =~= cues);
    } else {
        let tail_cues = cues.drop_first();
        let tail_text = spec_cues_items(tail_cues) + "]"@ + rest;
        assert(t =~= spec_cue_json(cues[0]) + (","@ + tail_text));
        assert((","@ + tail_text)[0] == ',');
        lemma_parse_cue(cues[0], ","@ + tail_text, inner_fuel);
        assert((","@ + tail_text).skip(1) =~= tail_text);
        assert(spec_max_targets(tail_cues) <= spec_max_targets(cues));
        assert(cues_in_range(tail_cues)) by {
            assert(forall|i: int| 0 <= i < tail_cues.len()
                ==> tail_cues[i] == cues[i + 1]);
        }
        lemma_parse_cues_more(tail_cues, rest, (fuel - 1) as nat, inner_fuel);
        assert(seq![cues[0]] + tail_cues =~= cues);
    }
}

/// Law: parsing a rendered cue array gives every cue back.
#[verifier::rlimit(100)]
#[verifier::spinoff_prover]
pub proof fn lemma_parse_cues(cues: Seq<CueFields>, rest: Seq<char>, fuel: nat,
    inner_fuel: nat)
    requires
        fuel >= cues.len(),
        inner_fuel >= spec_max_targets(cues),
        cues_in_range(cues),
    ensures
        spec_parse_cues(spec_cues_json(cues) + rest, fuel, inner_fuel)
            == Some((cues, rest)),
{
    reveal_strlit("[");
    reveal_strlit("]");
    reveal_strlit("{\"time_ms\":");
    let t = spec_cues_json(cues) + rest;
    assert(t =~= "["@ + (spec_cues_items(cues) + "]"@ + rest));
    lemma_expect("["@, spec_cues_items(cues) + "]"@ + rest);
    let t1 = spec_cues_items(cues) + "]"@ + rest;
    if cues.len() == 0 {
        assert(spec_cues_items(cues) =~= Seq::<char>::empty());
        assert(t1[0] == ']');
        assert(t1.skip(1) =~= rest);
    } else {
        assert(t1[0] == '{') by {
            assert(spec_cue_json(cues[0])[0] == "{\"time_ms\":"@[0]);
            assert(spec_cues_items(cues)[0] == spec_cue_json(cues[0])[0]);
        }
        lemma_parse_cues_more(cues, rest, fuel, inner_fuel);
    }
}

/// The fields of one program, as the document carries them.
pub struct ProgramFields {
    /// Identity.
    pub id: Seq<char>,
    /// Song name.
    pub song_name: Seq<char>,
    /// Audio-host track.
    pub loopy_pro_track: Seq<char>,
    /// Original upload name.
    pub file_name: Seq<char>,
    /// Stored audio blob, when one exists.
    pub audio_file: Option<Seq<char>>,
    /// Tempo.
    pub bpm: int,
    /// Cues.
    pub cues: Seq<CueFields>,
    /// Creation timestamp.
    pub created_at: Seq<char>,
}

/// What a program's fields are.
pub open spec fn program_fields(p: crate::program::Program) -> ProgramFields {
    ProgramFields {
        id: p.id@,
        song_name: p.song_name@,
        loopy_pro_track: p.loopy_pro_track@,
        file_name: p.file_name@,
        audio_file: match p.audio_file {
            Some(a) => Some(a@),
            None => None,
        },
        bpm: p.bpm as int,
        cues: p.cues@.map_values(|c: crate::program::Cue| cue_fields(c)),
        created_at: p.created_at@,
    }
}

/// The leading part of a program document.
pub open spec fn spec_program_json_head(f: ProgramFields) -> Seq<char> {
    "{\"id\":"@ + spec_jstr(f.id)
        + ",\"song_name\":"@ + spec_jstr(f.song_name)
        + ",\"loopy_pro_track\":"@ + spec_jstr(f.loopy_pro_track)
        + ",\"file_name\":"@ + spec_jstr(f.file_name)
}

/// The trailing part of a program document.
pub open spec fn spec_program_json_tail(f: ProgramFields) -> Seq<char> {
    ",\"audio_file\":"@ + spec_jstr_opt(f.audio_file)
        + ",\"bpm\":"@ + spec_dec(spec_nn(f.bpm))
        + ",\"cues\":"@ + spec_cues_json(f.cues)
        + (",\"created_at\":"@ + spec_jstr(f.created_at) + "}"@)
}

/// The document text of one program.
pub open spec fn spec_program_json(f: ProgramFields) -> Seq<char> {
    spec_program_json_head(f) + spec_program_json_tail(f)
}

/// Parse a whole program document off the front of a text.
pub open spec fn spec_parse_program(t: Seq<char>, fuel: nat, inner_fuel: nat)
    -> Option<(ProgramFields, Seq<char>)> {
    match spec_expect(t, "{\"id\":"@) {
        None => None,
        Some(t1) => match spec_parse_jstr(t1) {
            None => None,
            Some((id, t2)) => match spec_expect(t2, ",\"song_name\":"@) {
                None => None,
                Some(t3) => match spec_parse_jstr(t3) {
                    None => None,
                    Some((song_name, t4)) => match spec_expect(t4, ",\"loopy_pro_track\":"@) {
                        None => None,
                        Some(t5) => match spec_parse_jstr(t5) {
                            None => None,
                            Some((track, t6)) => match spec_expect(t6, ",\"file_name\":"@) {
                                None => None,
                                Some(t7) => match spec_parse_jstr(t7) {
                                    None => None,
                                    Some((file_name, t8)) => spec_parse_program_tail(
                                        t8, id, song_name, track, file_name, fuel,
                                        inner_fuel),
                                },
                            },
                        },
                    },
                },
            },
        },
    }
}

/// Parse the trailing fields of a program document.
pub open spec fn spec_parse_program_tail(t: Seq<char>, id: Seq<char>,
    song_name: Seq<char>, track: Seq<char>, file_name: Seq<char>, fuel: nat,
    inner_fuel: nat) -> Option<(ProgramFields, Seq<char>)> {
    match spec_expect(t, ",\"audio_file\":"@) {
        None => None,
        Some(t1) => match spec_parse_jstr_opt(t1) {
            None => None,
            Some((audio_file, t2)) => match spec_expect(t2, ",\"bpm\":"@) {
                None => None,
                Some(t3) => match spec_parse_number(t3) {
                    None => None,
                    Some((bpm, used3)) => {
                        let t4 = t3.skip(used3);
                        match spec_expect(t4, ",\"cues\":"@) {
                            None => None,
                            Some(t5) => match spec_parse_cues(t5, fuel, inner_fuel) {
                                None => None,
                                Some((cues, t6)) => match spec_expect(t6,
                                    ",\"created_at\":"@) {
                                    None => None,
                                    Some(t7) => match spec_parse_jstr(t7) {
                                        None => None,
                                        Some((created_at, t8)) => match spec_expect(t8, "}"@) {
                                            None => None,
                                            Some(t9) => Some((
                                                ProgramFields {
                                                    id,
                                                    song_name,
                                                    loopy_pro_track: track,
                                                    file_name,
                                                    audio_file,
                                                    bpm,
                                                    cues,
                                                    created_at,
                                                },
                                                t9,
                                            )),
                                        },
                                    },
                                },
                            },
                        }
                    },
                },
            },
        },
    }
}

/// The program tail parser inverts the tail renderer.
#[verifier::rlimit(100)]
#[verifier::spinoff_prover]
proof fn lemma_program_tail_round(f: ProgramFields, rest: Seq<char>, fuel: nat,
    inner_fuel: nat)
    requires
        f.bpm >= 0,
        fuel >= f.cues.len(),
        inner_fuel >= spec_max_targets(f.cues),
        cues_in_range(f.cues),
    ensures
        spec_parse_program_tail(spec_program_json_tail(f) + rest, f.id, f.song_name,
            f.loopy_pro_track, f.file_name, fuel, inner_fuel) == Some((f, rest)),
{
    reveal_strlit(",\"audio_file\":");
    reveal_strlit(",\"bpm\":");
    reveal_strlit(",\"cues\":");
    reveal_strlit(",\"created_at\":");
    reveal_strlit("}");
    reveal_strlit("[");

    let s_created = spec_jstr(f.created_at) + ("}"@ + rest);
    let s_cues = spec_cues_json(f.cues) + (",\"created_at\":"@ + s_created);
    let s_bpm = spec_dec(spec_nn(f.bpm)) + (",\"cues\":"@ + s_cues);
    let s_audio = spec_jstr_opt(f.audio_file) + (",\"bpm\":"@ + s_bpm);
    let t0 = ",\"audio_file\":"@ + s_audio;
    assert(spec_program_json_tail(f) + rest =~= t0);

    lemma_expect(",\"audio_file\":"@, s_audio);
    lemma_parse_jstr_opt(f.audio_file, ",\"bpm\":"@ + s_bpm);
    lemma_expect(",\"bpm\":"@, s_bpm);
    assert((",\"cues\":"@ + s_cues)[0] == ',');
    lemma_parse_number(spec_nn(f.bpm), ",\"cues\":"@ + s_cues);
    assert(s_bpm.skip(spec_dec(spec_nn(f.bpm)).len() as int) =~= ",\"cues\":"@ + s_cues);
    lemma_expect(",\"cues\":"@, s_cues);
    lemma_parse_cues(f.cues, ",\"created_at\":"@ + s_created, fuel, inner_fuel);
    lemma_expect(",\"created_at\":"@, s_created);
    lemma_parse_jstr(f.created_at, "}"@ + rest);
    lemma_expect("}"@, rest);
}

/// Law: loading inverts saving — parsing the rendered program document
/// yields every field back, cue lists and target lists included.
#[verifier::rlimit(100)]
#[verifier::spinoff_prover]
pub proof fn lemma_program_round_trip(p: crate::program::Program, rest: Seq<char>)
    ensures
        spec_parse_program(
            spec_program_json(program_fields(p)) + rest,
            program_fields(p).cues.len() + 1,
            spec_max_targets(program_fields(p).cues) + 1,
        ) == Some((program_fields(p), rest)),
{
    let f = program_fields(p);
    reveal_strlit("{\"id\":");
    reveal_strlit(",\"song_name\":");
    reveal_strlit(",\"loopy_pro_track\":");
    reveal_strlit(",\"file_name\":");
    reveal_strlit(",\"audio_file\":");

    assert(cues_in_range(f.cues)) by {
        assert(forall|i: int| 0 <= i < f.cues.len()
            ==> f.cues[i] == cue_fields(p.cues@[i]));
    }

    let mid = spec_program_json_tail(f) + rest;
    let s_file = spec_jstr(f.file_name) + mid;
    let s_track = spec_jstr(f.loopy_pro_track) + (",\"file_name\":"@ + s_file);
    let s_song = spec_jstr(f.song_name) + (",\"loopy_pro_track\":"@ + s_track);
    let s_id = spec_jstr(f.id) + (",\"song_name\":"@ + s_song);
    let t0 = "{\"id\":"@ + s_id;
    assert(spec_program_json(f) + rest =~= t0);

    lemma_expect("{\"id\":"@, s_id);
    lemma_parse_jstr(f.id, ",\"song_name\":"@ + s_song);
    lemma_expect(",\"song_name\":"@, s_song);
    lemma_parse_jstr(f.song_name, ",\"loopy_pro_track\":"@ + s_track);
    lemma_expect(",\"loopy_pro_track\":"@, s_track);
    lemma_parse_jstr(f.loopy_pro_track, ",\"file_name\":"@ + s_file);
    lemma_expect(",\"file_name\":"@, s_file);
    lemma_parse_jstr(f.file_name, mid);
    lemma_program_tail_round(f, rest, f.cues.len() + 1,
        spec_max_targets(f.cues) + 1);
}

/// The fields of one configured board, as the document carries them.
pub struct BoardConfigFields {
    /// Identity.
    pub id: Seq<char>,
    /// Address.
    pub ip: Seq<char>,
    /// Universe, when configured.
    pub universe: Option<int>,
    /// LED count, when configured.
    pub led_count: Option<int>,
    /// Transition, when configured.
    pub transition: Option<int>,
}

/// What a board entry's fields are.
pub open spec fn board_config_fields(b: crate::config::BoardConfig) -> BoardConfigFields {
    BoardConfigFields {
        id: b.id@,
        ip: b.ip@,
        universe: match b.universe {
            Some(u) => Some(u as int),
            None => None,
        },
        led_count: match b.led_count {
            Some(n) => Some(n as int),
            None => None,
        },
        transition: match b.transition {
            Some(t) => Some(t as int),
            None => None,
        },
    }
}

/// The document text of one board entry.
pub open spec fn spec_board_json(f: BoardConfigFields) -> Seq<char> {
    "{\"id\":"@ + spec_jstr(f.id)
        + ",\"ip\":"@ + spec_jstr(f.ip)
        + ",\"universe\":"@ + spec_jnum_opt(f.universe)
        + (",\"led_count\":"@ + spec_jnum_opt(f.led_count)
            + ",\"transition\":"@ + spec_jnum_opt(f.transition) + "}"@)
}

/// Parse one board entry off the front of a text.
pub open spec fn spec_parse_board(t: Seq<char>) -> Option<(BoardConfigFields, Seq<char>)> {
    match spec_expect(t, "{\"id\":"@) {
        None => None,
        Some(t1) => match spec_parse_jstr(t1) {
            None => None,
            Some((id, t2)) => match spec_expect(t2, ",\"ip\":"@) {
                None => None,
                Some(t3) => match spec_parse_jstr(t3) {
                    None => None,
                    Some((ip, t4)) => match spec_expect(t4, ",\"universe\":"@) {
                        None => None,
                        Some(t5) => match spec_parse_jnum_opt(t5) {
                            None => None,
                            Some((universe, t6)) => match spec_expect(t6,
                                ",\"led_count\":"@) {
                                None => None,
                                Some(t7) => match spec_parse_jnum_opt(t7) {
                                    None => None,
                                    Some((led_count, t8)) => match spec_expect(t8,
                                        ",\"transition\":"@) {
                                        None => None,
                                        Some(t9) => match spec_parse_jnum_opt(t9) {
                                            None => None,
                                            Some((transition, t10)) => match spec_expect(
                                                t10, "}"@) {
                                                None => None,
                                                Some(t11) => Some((
                                                    BoardConfigFields {
                                                        id,
                                                        ip,
                                                        universe,
                                                        led_count,
                                                        transition,
                                                    },
                                                    t11,
                                                )),
                                            },
                                        },
                                    },
                                },
                            },
                        },
                    },
                },
            },
        },
    }
}

/// Law: loading inverts saving for a board entry — parsing the
/// rendered document yields every field back.
#[verifier::rlimit(100)]
#[verifier::spinoff_prover]
pub proof fn lemma_board_round_trip(b: crate::config::BoardConfig, rest: Seq<char>)
    ensures
        spec_parse_board(spec_board_json(board_config_fields(b)) + rest)
            == Some((board_config_fields(b), rest)),
{
    let f = board_config_fields(b);
    reveal_strlit("{\"id\":");
    reveal_strlit(",\"ip\":");
    reveal_strlit(",\"universe\":");
    reveal_strlit(",\"led_count\":");
    reveal_strlit(",\"transition\":");
    reveal_strlit("}");

    let s_trans = spec_jnum_opt(f.transition) + ("}"@ + rest);
    let s_leds = spec_jnum_opt(f.led_count) + (",\"transition\":"@ + s_trans);
    let s_uni = spec_jnum_opt(f.universe) + (",\"led_count\":"@ + s_leds);
    let s_ip = spec_jstr(f.ip) + (",\"universe\":"@ + s_uni);
    let s_id = spec_jstr(f.id) + (",\"ip\":"@ + s_ip);
    let t0 = "{\"id\":"@ + s_id;
    assert(spec_board_json(f) + rest =~= t0);

    lemma_expect("{\"id\":"@, s_id);
    lemma_parse_jstr(f.id, ",\"ip\":"@ + s_ip);
    lemma_expect(",\"ip\":"@, s_ip);
    lemma_parse_jstr(f.ip, ",\"universe\":"@ + s_uni);
    lemma_expect(",\"universe\":"@, s_uni);
    assert((",\"led_count\":"@ + s_leds)[0] == ',');
    lemma_parse_jnum_opt(f.universe, ",\"led_count\":"@ + s_leds);
    lemma_expect(",\"led_count\":"@, s_leds);
    assert((",\"transition\":"@ + s_trans)[0] == ',');
    lemma_parse_jnum_opt(f.led_count, ",\"transition\":"@ + s_trans);
    lemma_expect(",\"transition\":"@, s_trans);
    assert(("}"@ + rest)[0] == '}');
    lemma_parse_jnum_opt(f.transition, "}"@ + rest);
    lemma_expect("}"@, rest);
}

/// Appending one cue extends the joined body at its end.
proof fn lemma_cues_items_push(cues: Seq<CueFields>, c: CueFields)
    ensures
        cues.len() == 0 ==> spec_cues_items(cues.push(c)) == spec_cue_json(c),
        cues.len() >= 1 ==> spec_cues_items(cues.push(c))
            == spec_cues_items(cues) + ","@ + spec_cue_json(c),
    decreases cues.len(),
{
    let p = cues.push(c);
    if cues.len() == 0 {
        assert(p.len() == 1);
        assert(p[0] == c);
    } else {
        assert(p[0] == cues[0]);
        assert(p.drop_first() =~= cues.drop_first().push(c));
        lemma_cues_items_push(cues.drop_first(), c);
        if cues.len() == 1 {
            assert(spec_cues_items(p)
                =~= spec_cue_json(cues[0]) + ","@ + spec_cue_json(c));
        } else {
            assert(spec_cue_json(p[0]) + ","@
                + (spec_cues_items(cues.drop_first()) + ","@ + spec_cue_json(c))
                =~= (spec_cue_json(cues[0]) + ","@ + spec_cues_items(cues.drop_first()))
                    + ","@ + spec_cue_json(c));
        }
    }
}

/// Render one cue as its document text.
#[verifier::rlimit(100)]
#[verifier::spinoff_prover]
pub fn cue_json(c: &crate::program::Cue) -> (r: String)
    ensures
        r@ == spec_cue_json(cue_fields(*c)),
{
    proof {
        reveal_strlit("\"");
        reveal_strlit("[");
        reveal_strlit("]");
        reveal_strlit(",");
    }
    let mut out = String::from_str("{\"time_ms\":");
    out.append(crate::fmt::fmt_u64(c.time_ms).as_str());
    out.append(",\"label\":");
    append_jstr(&mut out, &c.label);
    out.append(",\"targets\":");
    out.append("[");
    let ghost keys = crate::config::member_keys_of(c.targets@);
    let mut i: usize = 0;
    while i < c.targets.len()
        invariant
            i <= c.targets@.len(),
            keys == crate::config::member_keys_of(c.targets@),
            out@ == spec_cue_json_prefix(cue_fields(*c))
                + spec_jstr_items(keys.take(i as int)),
        decreases c.targets@.len() - i,
    {
        if i > 0 {
            out.append(",");
        }
        append_jstr(&mut out, &c.targets[i]);
        proof {
            lemma_jstr_items_push(keys.take(i as int), keys[i as int]);
            assert(keys.take(i + 1 as int) =~= keys.take(i as int).push(keys[i as int]));
            assert(keys[i as int] == c.targets@[i as int]@);
        }
        i = i + 1;
    }
    proof {
        assert(keys.take(keys.len() as int) =~= keys);
    }
    out.append("]");
    out.append(",\"preset_name\":");
    append_jstr(&mut out, &c.preset_name);
    out.append(",\"sync_rate_milli\":");
    out.append(crate::fmt::fmt_u64(c.sync_rate_milli as u64).as_str());
    out.append("}");
    proof {
        assert(out@ =~= spec_cue_json(cue_fields(*c)));
    }
    out
}

/// The cue text up to and including the opening target bracket.
pub open spec fn spec_cue_json_prefix(c: CueFields) -> Seq<char> {
    "{\"time_ms\":"@ + spec_dec(spec_nn(c.time_ms))
        + ",\"label\":"@ + spec_jstr(c.label)
        + ",\"targets\":"@ + "["@
}

/// Appending one string extends the joined body at its end.
proof fn lemma_jstr_items_push(items: Seq<Seq<char>>, v: Seq<char>)
    ensures
        items.len() == 0 ==> spec_jstr_items(items.push(v)) == spec_jstr(v),
        items.len() >= 1 ==> spec_jstr_items(items.push(v))
            == spec_jstr_items(items) + ","@ + spec_jstr(v),
    decreases items.len(),
{
    let p = items.push(v);
    if items.len() == 0 {
        assert(p.len() == 1);
        assert(p[0] == v);
    } else {
        assert(p[0] == items[0]);
        assert(p.drop_first() =~= items.drop_first().push(v));
        lemma_jstr_items_push(items.drop_first(), v);
        if items.len() == 1 {
            assert(spec_jstr_items(p) =~= spec_jstr(items[0]) + ","@ + spec_jstr(v));
        } else {
            assert(spec_jstr(p[0]) + ","@
                + (spec_jstr_items(items.drop_first()) + ","@ + spec_jstr(v))
                =~= (spec_jstr(items[0]) + ","@ + spec_jstr_items(items.drop_first()))
                    + ","@ + spec_jstr(v));
        }
    }
}

/// Render one program as its document text.
#[verifier::rlimit(100)]
#[verifier::spinoff_prover]
pub fn program_json(p: &crate::program::Program) -> (r: String)
    ensures
        r@ == spec_program_json(program_fields(*p)),
{
    proof {
        reveal_strlit("\"");
        reveal_strlit("null");
        reveal_strlit("[");
        reveal_strlit(",");
    }
    let mut out = String::from_str("{\"id\":");
    append_jstr(&mut out, &p.id);
    out.append(",\"song_name\":");
    append_jstr(&mut out, &p.song_name);
    out.append(",\"loopy_pro_track\":");
    append_jstr(&mut out, &p.loopy_pro_track);
    out.append(",\"file_name\":");
    append_jstr(&mut out, &p.file_name);
    out.append(",\"audio_file\":");
    match &p.audio_file {
        Some(a) => append_jstr(&mut out, a),
        None => out.append("null"),
    }
    out.append(",\"bpm\":");
    out.append(crate::fmt::fmt_u64(p.bpm as u64).as_str());
    out.append(",\"cues\":");
    out.append("[");
    let ghost cue_views = program_fields(*p).cues;
    let mut i: usize = 0;
    while i < p.cues.len()
        invariant
            i <= p.cues@.len(),
            cue_views == program_fields(*p).cues,
            cue_views.len() == p.cues@.len(),
            forall|j: int| 0 <= j < cue_views.len()
                ==> cue_views[j] == cue_fields(p.cues@[j]),
            out@ == spec_program_json_prefix(program_fields(*p))
                + spec_cues_items(cue_views.take(i as int)),
        decreases p.cues@.len() - i,
    {
        if i > 0 {
            out.append(",");
        }
        out.append(cue_json(&p.cues[i]).as_str());
        proof {
            lemma_cues_items_push(cue_views.take(i as int), cue_views[i as int]);
            assert(cue_views.take(i + 1 as int)
                =~= cue_views.take(i as int).push(cue_views[i as int]));
        }
        i = i + 1;
    }
    proof {
        assert(cue_views.take(cue_views.len() as int) =~= cue_views);
    }
    out.append("]");
    out.append(",\"created_at\":");
    append_jstr(&mut out, &p.created_at);
    out.append("}");
    proof {
        assert(out@ =~= spec_program_json(program_fields(*p)));
    }
    out
}

/// The program text up to and including the opening cue bracket.
pub open spec fn spec_program_json_prefix(f: ProgramFields) -> Seq<char> {
    spec_program_json_head(f)
        + ",\"audio_file\":"@ + spec_jstr_opt(f.audio_file)
        + ",\"bpm\":"@ + spec_dec(spec_nn(f.bpm))
        + ",\"cues\":"@ + "["@
}

/// Render one board entry as its document text.
pub fn board_json(b: &crate::config::BoardConfig) -> (r: String)
    ensures
        r@ == spec_board_json(board_config_fields(*b)),
{
    proof {
        reveal_strlit("\"");
        reveal_strlit("null");
    }
    let mut out = String::from_str("{\"id\":");
    append_jstr(&mut out, &b.id);
    out.append(",\"ip\":");
    append_jstr(&mut out, &b.ip);
    out.append(",\"universe\":");
    match b.universe {
        Some(u) => out.append(crate::fmt::fmt_u16(u).as_str()),
        None => out.append("null"),
    }
    out.append(",\"led_count\":");
    match b.led_count {
        Some(n) => out.append(crate::fmt::fmt_u16(n).as_str()),
        None => out.append("null"),
    }
    out.append(",\"transition\":");
    match b.transition {
        Some(t) => out.append(crate::fmt::fmt_u8(t).as_str()),
        None => out.append("null"),
    }
    out.append("}");
    proof {
        assert(out@ =~= spec_board_json(board_config_fields(*b)));
    }
    out
}

/// A decimal number with an optional leading minus.
pub open spec fn spec_parse_signed(t: Seq<char>) -> Option<(int, int)> {
    if t.len() >= 1 && t[0] == '-' {
        match spec_parse_number(t.skip(1)) {
            None => None,
            Some((v, used)) => Some((-v, used + 1)),
        }
    } else {
        spec_parse_number(t)
    }
}

/// Law: parsing inverts signed decimal rendering when a non-digit
/// follows.
pub proof fn lemma_parse_signed(n: int, rest: Seq<char>)
    requires
        rest.len() > 0,
        !spec_is_digit(rest[0]),
    ensures
        spec_parse_signed(crate::fmt::spec_dec_signed(n) + rest)
            == Some((n, crate::fmt::spec_dec_signed(n).len() as int)),
{
    let t = crate::fmt::spec_dec_signed(n) + rest;
    if n < 0 {
        assert(t[0] == '-');
        assert(t.skip(1) =~= spec_dec((-n) as nat) + rest);
        lemma_parse_number((-n) as nat, rest);
        lemma_dec_digits((-n) as nat);
    } else {
        lemma_dec_digits(n as nat);
        assert(t[0] == spec_dec(n as nat)[0]);
        assert(spec_is_digit(t[0]));
        assert(t[0] != '-');
        lemma_parse_number(n as nat, rest);
    }
}

/// The fields of one configured group, as the document carries them.
pub struct GroupFields {
    /// Identity.
    pub id: Seq<char>,
    /// Ordered member ids.
    pub members: Seq<Seq<char>>,
    /// Fast-path universe, when configured.
    pub universe: Option<int>,
}

/// What a group entry's fields are.
pub open spec fn group_fields(g: crate::config::GroupConfig) -> GroupFields {
    GroupFields {
        id: g.id@,
        members: crate::config::member_keys_of(g.members@),
        universe: match g.universe {
            Some(u) => Some(u as int),
            None => None,
        },
    }
}

/// The fields of one effect preset.
pub struct EffectPresetFields {
    /// Name cues refer to.
    pub name: Seq<char>,
    /// Effect type, as spelled.
    pub effect_type: Seq<char>,
    /// Render colour.
    pub color: [int; 3],
}

/// What an effect preset's fields are.
pub open spec fn effect_preset_fields(p: crate::config::EffectPreset) -> EffectPresetFields {
    EffectPresetFields {
        name: p.name@,
        effect_type: p.effect_type@,
        color: [p.color[0] as int, p.color[1] as int, p.color[2] as int],
    }
}

/// The word a pattern type is stored under.
pub open spec fn spec_pattern_word(p: crate::pattern::PatternType) -> Seq<char> {
    match p {
        crate::pattern::PatternType::Wave => "wave"@,
        crate::pattern::PatternType::WaveReverse => "wave_reverse"@,
        crate::pattern::PatternType::Alternate => "alternate"@,
        crate::pattern::PatternType::OutsideIn => "outside_in"@,
        crate::pattern::PatternType::CenterOut => "center_out"@,
        crate::pattern::PatternType::PingPong => "ping_pong"@,
        crate::pattern::PatternType::Random => "random"@,
    }
}

/// The pattern type a stored word denotes.
pub open spec fn spec_pattern_of_word(w: Seq<char>) -> Option<crate::pattern::PatternType> {
    if w == "wave"@ {
        Some(crate::pattern::PatternType::Wave)
    } else if w == "wave_reverse"@ {
        Some(crate::pattern::PatternType::WaveReverse)
    } else if w == "alternate"@ {
        Some(crate::pattern::PatternType::Alternate)
    } else if w == "outside_in"@ {
        Some(crate::pattern::PatternType::OutsideIn)
    } else if w == "center_out"@ {
        Some(crate::pattern::PatternType::CenterOut)
    } else if w == "ping_pong"@ {
        Some(crate::pattern::PatternType::PingPong)
    } else {
        if w == "random"@ {
            Some(crate::pattern::PatternType::Random)
        } else {
            None
        }
    }
}

/// Law: every pattern word reads back to its type.
pub proof fn lemma_pattern_word_round(p: crate::pattern::PatternType)
    ensures
        spec_pattern_of_word(spec_pattern_word(p)) == Some(p),
{
    reveal_strlit("wave");
    reveal_strlit("wave_reverse");
    reveal_strlit("alternate");
    reveal_strlit("outside_in");
    reveal_strlit("center_out");
    reveal_strlit("ping_pong");
    reveal_strlit("random");
    assert("wave"@.len() == 4);
    assert("wave_reverse"@.len() == 12);
    assert("alternate"@.len() == 9);
    assert("outside_in"@.len() == 10);
    assert("center_out"@.len() == 10);
    assert("ping_pong"@.len() == 9);
    assert("random"@.len() == 6);
    assert("outside_in"@ != "center_out"@) by {
        assert("outside_in"@[0] == 'o' && "center_out"@[0] == 'c');
    }
    assert("alternate"@ != "ping_pong"@) by {
        assert("alternate"@[0] == 'a' && "ping_pong"@[0] == 'p');
    }
    match p {
        crate::pattern::PatternType::Wave => {
            assert(spec_pattern_of_word("wave"@) == Some(p));
        },
        crate::pattern::PatternType::WaveReverse => {
            assert("wave_reverse"@ != "wave"@);
            assert(spec_pattern_of_word("wave_reverse"@) == Some(p));
        },
        crate::pattern::PatternType::Alternate => {
            assert(spec_pattern_of_word("alternate"@) == Some(p));
        },
        crate::pattern::PatternType::OutsideIn => {
            assert(spec_pattern_of_word("outside_in"@) == Some(p));
        },
        crate::pattern::PatternType::CenterOut => {
            assert(spec_pattern_of_word("center_out"@) == Some(p));
        },
        crate::pattern::PatternType::PingPong => {
            assert(spec_pattern_of_word("ping_pong"@) == Some(p));
        },
        crate::pattern::PatternType::Random => {
            assert(spec_pattern_of_word("random"@) == Some(p));
        },
    }
}

/// The fields of one pattern preset.
pub struct PatternPresetFields {
    /// Name cues refer to.
    pub name: Seq<char>,
    /// Traversal shape.
    pub pattern: crate::pattern::PatternType,
    /// Render colour.
    pub colour: [int; 3],
}

/// What a pattern preset's fields are.
pub open spec fn pattern_preset_fields(p: crate::config::PatternPreset)
    -> PatternPresetFields {
    PatternPresetFields {
        name: p.name@,
        pattern: p.pattern,
        colour: [p.colour[0] as int, p.colour[1] as int, p.colour[2] as int],
    }
}

/// The fields of the whole configuration document.
pub struct ConfigFields {
    /// Boards.
    pub boards: Seq<BoardConfigFields>,
    /// Groups.
    pub groups: Seq<GroupFields>,
    /// Audio host address.
    pub loopy_ip: Seq<char>,
    /// Audio host port.
    pub loopy_port: int,
    /// Signed lights/audio offset.
    pub audio_sync_delay_ms: int,
    /// Effect presets.
    pub effect_presets: Seq<EffectPresetFields>,
    /// Pattern presets.
    pub pattern_presets: Seq<PatternPresetFields>,
}

/// What a configuration's fields are.
pub open spec fn config_fields(c: crate::config::Config) -> ConfigFields {
    ConfigFields {
        boards: c.boards@.map_values(|b: crate::config::BoardConfig| board_config_fields(b)),
        groups: c.groups@.map_values(|g: crate::config::GroupConfig| group_fields(g)),
        loopy_ip: c.loopy_pro.ip@,
        loopy_port: c.loopy_pro.port as int,
        audio_sync_delay_ms: c.loopy_pro.audio_sync_delay_ms as int,
        effect_presets: c.effect_presets@.map_values(
            |p: crate::config::EffectPreset| effect_preset_fields(p)),
        pattern_presets: c.pattern_presets@.map_values(
            |p: crate::config::PatternPreset| pattern_preset_fields(p)),
    }
}

/// An optional `key = <number>` line.
pub open spec fn spec_opt_num_line(key: Seq<char>, v: Option<int>) -> Seq<char> {
    match v {
        Some(n) => key + spec_dec(spec_nn(n)) + "\n"@,
        None => Seq::empty(),
    }
}

/// A three-number array as stored.
pub open spec fn spec_num3(c: [int; 3]) -> Seq<char> {
    "["@ + spec_dec(spec_nn(c[0])) + ","@ + spec_dec(spec_nn(c[1])) + ","@
        + spec_dec(spec_nn(c[2])) + "]"@
}

/// The document text of one board table.
pub open spec fn spec_board_toml(f: BoardConfigFields) -> Seq<char> {
    "[[boards]]\n"@
        + "id = "@ + spec_jstr(f.id) + "\n"@
        + "ip = "@ + spec_jstr(f.ip) + "\n"@
        + (spec_opt_num_line("universe = "@, f.universe)
            + spec_opt_num_line("led_count = "@, f.led_count)
            + spec_opt_num_line("transition = "@, f.transition))
}

/// The document text of one group table.
pub open spec fn spec_group_toml(f: GroupFields) -> Seq<char> {
    "[[groups]]\n"@
        + "id = "@ + spec_jstr(f.id) + "\n"@
        + "members = "@ + spec_jstr_array(f.members) + "\n"@
        + spec_opt_num_line("universe = "@, f.universe)
}

/// The document text of one effect preset table.
pub open spec fn spec_effect_preset_toml(f: EffectPresetFields) -> Seq<char> {
    "[[effect_presets]]\n"@
        + "name = "@ + spec_jstr(f.name) + "\n"@
        + "effect_type = "@ + spec_jstr(f.effect_type) + "\n"@
        + "color = "@ + spec_num3(f.color) + "\n"@
}

/// The document text of one pattern preset table.
pub open spec fn spec_pattern_preset_toml(f: PatternPresetFields) -> Seq<char> {
    "[[pattern_presets]]\n"@
        + "name = "@ + spec_jstr(f.name) + "\n"@
        + "pattern = "@ + spec_jstr(spec_pattern_word(f.pattern)) + "\n"@
        + "colour = "@ + spec_num3(f.colour) + "\n"@
}

/// The board tables, one after the other.
pub open spec fn spec_boards_toml(bs: Seq<BoardConfigFields>) -> Seq<char>
    decreases bs.len(),
{
    if bs.len() == 0 {
        Seq::empty()
    } else {
        spec_board_toml(bs[0]) + spec_boards_toml(bs.drop_first())
    }
}

/// The group tables, one after the other.
pub open spec fn spec_groups_toml(gs: Seq<GroupFields>) -> Seq<char>
    decreases gs.len(),
{
    if gs.len() == 0 {
        Seq::empty()
    } else {
        spec_group_toml(gs[0]) + spec_groups_toml(gs.drop_first())
    }
}

/// The effect preset tables, one after the other.
pub open spec fn spec_effect_presets_toml(ps: Seq<EffectPresetFields>) -> Seq<char>
    decreases ps.len(),
{
    if ps.len() == 0 {
        Seq::empty()
    } else {
        spec_effect_preset_toml(ps[0]) + spec_effect_presets_toml(ps.drop_first())
    }
}

/// The pattern preset tables, one after the other.
pub open spec fn spec_pattern_presets_toml(ps: Seq<PatternPresetFields>) -> Seq<char>
    decreases ps.len(),
{
    if ps.len() == 0 {
        Seq::empty()
    } else {
        spec_pattern_preset_toml(ps[0]) + spec_pattern_presets_toml(ps.drop_first())
    }
}

/// The list sections of the document, each under a fixed separator
/// comment.
pub open spec fn spec_config_tail_text(f: ConfigFields) -> Seq<char> {
    "\n# boards\n"@ + spec_boards_toml(f.boards)
        + ("# groups\n"@ + spec_groups_toml(f.groups))
        + ("# effect_presets\n"@ + spec_effect_presets_toml(f.effect_presets))
        + ("# pattern_presets\n"@ + spec_pattern_presets_toml(f.pattern_presets))
        + "# end\n"@
}

/// The whole configuration document: the audio host table, then each
/// list under a fixed separator comment.
pub open spec fn spec_config_toml(f: ConfigFields) -> Seq<char> {
    "[loopy_pro]\nip = "@ + spec_jstr(f.loopy_ip)
        + "\nport = "@ + spec_dec(spec_nn(f.loopy_port))
        + "\naudio_sync_delay_ms = "@ + crate::fmt::spec_dec_signed(f.audio_sync_delay_ms)
        + spec_config_tail_text(f)
}

/// Parse an optional `key = <number>` line: absent when the key does
/// not open the text.
pub open spec fn spec_parse_opt_num(t: Seq<char>, key: Seq<char>)
    -> Option<(Option<int>, Seq<char>)> {
    match spec_expect(t, key) {
        Some(t1) => match spec_parse_number(t1) {
            None => None,
            Some((v, used)) => match spec_expect(t1.skip(used), "\n"@) {
                None => None,
                Some(t2) => Some((Some(v), t2)),
            },
        },
        None => Some((None, t)),
    }
}

/// Parsing a rendered optional number line gives the value back; an
/// omitted line leaves the text alone when the key does not open it.
pub proof fn lemma_parse_opt_num(key: Seq<char>, v: Option<int>, rest: Seq<char>)
    requires
        v is Some ==> v->0 >= 0,
        v is None ==> spec_expect(rest, key) is None,
    ensures
        spec_parse_opt_num(spec_opt_num_line(key, v) + rest, key) == Some((v, rest)),
{
    reveal_strlit("\n");
    match v {
        None => {
            assert(spec_opt_num_line(key, v) + rest =~= rest);
        },
        Some(n) => {
            let t = spec_opt_num_line(key, v) + rest;
            assert(t =~= key + (spec_dec(spec_nn(n)) + ("\n"@ + rest)));
            lemma_expect(key, spec_dec(spec_nn(n)) + ("\n"@ + rest));
            assert(("\n"@ + rest)[0] == '\n');
            lemma_parse_number(spec_nn(n), "\n"@ + rest);
            assert((spec_dec(spec_nn(n)) + ("\n"@ + rest))
                .skip(spec_dec(spec_nn(n)).len() as int) =~= "\n"@ + rest);
            lemma_expect("\n"@, rest);
        },
    }
}

/// Parse a three-number array.
pub open spec fn spec_parse_num3(t: Seq<char>) -> Option<([int; 3], Seq<char>)> {
    match spec_expect(t, "["@) {
        None => None,
        Some(t1) => match spec_parse_number(t1) {
            None => None,
            Some((a, u1)) => match spec_expect(t1.skip(u1), ","@) {
                None => None,
                Some(t2) => match spec_parse_number(t2) {
                    None => None,
                    Some((b, u2)) => match spec_expect(t2.skip(u2), ","@) {
                        None => None,
                        Some(t3) => match spec_parse_number(t3) {
                            None => None,
                            Some((c, u3)) => match spec_expect(t3.skip(u3), "]"@) {
                                None => None,
                                Some(t4) => Some(([a, b, c], t4)),
                            },
                        },
                    },
                },
            },
        },
    }
}

/// Parsing a rendered three-number array gives the numbers back.
#[verifier::rlimit(100)]
#[verifier::spinoff_prover]
pub proof fn lemma_parse_num3(c: [int; 3], rest: Seq<char>)
    requires
        c[0] >= 0,
        c[1] >= 0,
        c[2] >= 0,
    ensures
        spec_parse_num3(spec_num3(c) + rest) == Some((c, rest)),
{
    reveal_strlit("[");
    reveal_strlit(",");
    reveal_strlit("]");
    let s2 = spec_dec(spec_nn(c[2])) + ("]"@ + rest);
    let s1 = spec_dec(spec_nn(c[1])) + (","@ + s2);
    let s0 = spec_dec(spec_nn(c[0])) + (","@ + s1);
    let t = spec_num3(c) + rest;
    assert(t =~= "["@ + s0);
    lemma_expect("["@, s0);
    assert((","@ + s1)[0] == ',');
    lemma_parse_number(spec_nn(c[0]), ","@ + s1);
    assert(s0.skip(spec_dec(spec_nn(c[0])).len() as int) =~= ","@ + s1);
    lemma_expect(","@, s1);
    assert((","@ + s2)[0] == ',');
    lemma_parse_number(spec_nn(c[1]), ","@ + s2);
    assert(s1.skip(spec_dec(spec_nn(c[1])).len() as int) =~= ","@ + s2);
    lemma_expect(","@, s2);
    assert(("]"@ + rest)[0] == ']');
    lemma_parse_number(spec_nn(c[2]), "]"@ + rest);
    assert(s2.skip(spec_dec(spec_nn(c[2])).len() as int) =~= "]"@ + rest);
    lemma_expect("]"@, rest);
    assert([spec_nn(c[0]) as int, spec_nn(c[1]) as int, spec_nn(c[2]) as int] =~= c);
}

/// Parse one board table body, header included.
pub open spec fn spec_parse_board_toml(t: Seq<char>)
    -> Option<(BoardConfigFields, Seq<char>)> {
    match spec_expect(t, "[[boards]]\nid = "@) {
        None => None,
        Some(t1) => match spec_parse_jstr(t1) {
            None => None,
            Some((id, t2)) => match spec_expect(t2, "\nip = "@) {
                None => None,
                Some(t3) => match spec_parse_jstr(t3) {
                    None => None,
                    Some((ip, t4)) => match spec_expect(t4, "\n"@) {
                        None => None,
                        Some(t5) => match spec_parse_opt_num(t5, "universe = "@) {
                            None => None,
                            Some((universe, t6)) => match spec_parse_opt_num(
                                t6, "led_count = "@) {
                                None => None,
                                Some((led_count, t7)) => match spec_parse_opt_num(
                                    t7, "transition = "@) {
                                    None => None,
                                    Some((transition, t8)) => Some((
                                        BoardConfigFields {
                                            id,
                                            ip,
                                            universe,
                                            led_count,
                                            transition,
                                        },
                                        t8,
                                    )),
                                },
                            },
                        },
                    },
                },
            },
        },
    }
}

/// A rendered board table parses back to its fields when the text that
/// follows opens with a table header or a separator comment.
#[verifier::rlimit(100)]
#[verifier::spinoff_prover]
pub proof fn lemma_board_toml_round(f: BoardConfigFields, rest: Seq<char>)
    requires
        f.universe is Some ==> f.universe->0 >= 0,
        f.led_count is Some ==> f.led_count->0 >= 0,
        f.transition is Some ==> f.transition->0 >= 0,
        rest.len() > 0,
        rest[0] == '[' || rest[0] == '#',
    ensures
        spec_parse_board_toml(spec_board_toml(f) + rest) == Some((f, rest)),
{
    reveal_strlit("[[boards]]\n");
    reveal_strlit("[[boards]]\nid = ");
    reveal_strlit("id = ");
    reveal_strlit("\nip = ");
    reveal_strlit("ip = ");
    reveal_strlit("\n");
    reveal_strlit("universe = ");
    reveal_strlit("led_count = ");
    reveal_strlit("transition = ");

    let s_trans = spec_opt_num_line("transition = "@, f.transition) + rest;
    let s_leds = spec_opt_num_line("led_count = "@, f.led_count) + s_trans;
    let s_uni = spec_opt_num_line("universe = "@, f.universe) + s_leds;
    let s_ip = spec_jstr(f.ip) + ("\n"@ + s_uni);
    let s_id = spec_jstr(f.id) + ("\nip = "@ + s_ip);
    let t = spec_board_toml(f) + rest;
    assert(t =~= "[[boards]]\nid = "@ + s_id);

    lemma_expect("[[boards]]\nid = "@, s_id);
    lemma_parse_jstr(f.id, "\nip = "@ + s_ip);
    lemma_expect("\nip = "@, s_ip);
    lemma_parse_jstr(f.ip, "\n"@ + s_uni);
    lemma_expect("\n"@, s_uni);

    // The text after each omitted optional line opens with another key,
    // a header or a separator — never the omitted key.
    assert(s_trans[0] == 't' || s_trans[0] == '[' || s_trans[0] == '#') by {
        if f.transition is Some {
            assert(s_trans[0] == "transition = "@[0]);
        }
    }
    assert(s_leds[0] == 'l' || s_leds[0] == 't' || s_leds[0] == '['
        || s_leds[0] == '#') by {
        if f.led_count is Some {
            assert(s_leds[0] == "led_count = "@[0]);
        }
    }
    if f.universe is None {
        assert(spec_expect(s_leds, "universe = "@) is None) by {
            if spec_expect(s_leds, "universe = "@) is Some {
                assert(s_leds.take("universe = "@.len() as int)[0] == 'u');
            }
        }
    }
    lemma_parse_opt_num("universe = "@, f.universe, s_leds);
    if f.led_count is None {
        assert(spec_expect(s_trans, "led_count = "@) is None) by {
            if spec_expect(s_trans, "led_count = "@) is Some {
                assert(s_trans.take("led_count = "@.len() as int)[0] == 'l');
            }
        }
    }
    lemma_parse_opt_num("led_count = "@, f.led_count, s_trans);
    if f.transition is None {
        assert(spec_expect(rest, "transition = "@) is None) by {
            if spec_expect(rest, "transition = "@) is Some {
                assert(rest.take("transition = "@.len() as int)[0] == 't');
            }
        }
    }
    lemma_parse_opt_num("transition = "@, f.transition, rest);
}

/// Parse one group table, header included.
pub open spec fn spec_parse_group_toml(t: Seq<char>, fuel: nat)
    -> Option<(GroupFields, Seq<char>)> {
    match spec_expect(t, "[[groups]]\nid = "@) {
        None => None,
        Some(t1) => match spec_parse_jstr(t1) {
            None => None,
            Some((id, t2)) => match spec_expect(t2, "\nmembers = "@) {
                None => None,
                Some(t3) => match spec_parse_jstr_array(t3, fuel) {
                    None => None,
                    Some((members, t4)) => match spec_expect(t4, "\n"@) {
                        None => None,
                        Some(t5) => match spec_parse_opt_num(t5, "universe = "@) {
                            None => None,
                            Some((universe, t6)) => Some((
                                GroupFields { id, members, universe },
                                t6,
                            )),
                        },
                    },
                },
            },
        },
    }
}

/// A rendered group table parses back to its fields.
#[verifier::rlimit(100)]
#[verifier::spinoff_prover]
pub proof fn lemma_group_toml_round(f: GroupFields, rest: Seq<char>, fuel: nat)
    requires
        f.universe is Some ==> f.universe->0 >= 0,
        fuel >= f.members.len(),
        rest.len() > 0,
        rest[0] == '[' || rest[0] == '#',
    ensures
        spec_parse_group_toml(spec_group_toml(f) + rest, fuel) == Some((f, rest)),
{
    reveal_strlit("[[groups]]\n");
    reveal_strlit("[[groups]]\nid = ");
    reveal_strlit("id = ");
    reveal_strlit("\nmembers = ");
    reveal_strlit("members = ");
    reveal_strlit("\n");
    reveal_strlit("universe = ");

    let s_uni = spec_opt_num_line("universe = "@, f.universe) + rest;
    let s_members = spec_jstr_array(f.members) + ("\n"@ + s_uni);
    let s_id = spec_jstr(f.id) + ("\nmembers = "@ + s_members);
    let t = spec_group_toml(f) + rest;
    assert(t =~= "[[groups]]\nid = "@ + s_id);

    lemma_expect("[[groups]]\nid = "@, s_id);
    lemma_parse_jstr(f.id, "\nmembers = "@ + s_members);
    lemma_expect("\nmembers = "@, s_members);
    lemma_parse_jstr_array(f.members, "\n"@ + s_uni, fuel);
    lemma_expect("\n"@, s_uni);
    if f.universe is None {
        assert(spec_expect(rest, "universe = "@) is None) by {
            if spec_expect(rest, "universe = "@) is Some {
                assert(rest.take("universe = "@.len() as int)[0] == 'u');
            }
        }
    }
    lemma_parse_opt_num("universe = "@, f.universe, rest);
}

/// Parse one effect preset table, header included.
pub open spec fn spec_parse_effect_preset_toml(t: Seq<char>)
    -> Option<(EffectPresetFields, Seq<char>)> {
    match spec_expect(t, "[[effect_presets]]\nname = "@) {
        None => None,
        Some(t1) => match spec_parse_jstr(t1) {
            None => None,
            Some((name, t2)) => match spec_expect(t2, "\neffect_type = "@) {
                None => None,
                Some(t3) => match spec_parse_jstr(t3) {
                    None => None,
                    Some((effect_type, t4)) => match spec_expect(t4, "\ncolor = "@) {
                        None => None,
                        Some(t5) => match spec_parse_num3(t5) {
                            None => None,
                            Some((color, t6)) => match spec_expect(t6, "\n"@) {
                                None => None,
                                Some(t7) => Some((
                                    EffectPresetFields { name, effect_type, color },
                                    t7,
                                )),
                            },
                        },
                    },
                },
            },
        },
    }
}

/// A rendered effect preset table parses back to its fields.
#[verifier::rlimit(100)]
#[verifier::spinoff_prover]
pub proof fn lemma_effect_preset_toml_round(f: EffectPresetFields, rest: Seq<char>)
    requires
        f.color[0] >= 0,
        f.color[1] >= 0,
        f.color[2] >= 0,
    ensures
        spec_parse_effect_preset_toml(spec_effect_preset_toml(f) + rest)
            == Some((f, rest)),
{
    reveal_strlit("[[effect_presets]]\n");
    reveal_strlit("[[effect_presets]]\nname = ");
    reveal_strlit("name = ");
    reveal_strlit("\neffect_type = ");
    reveal_strlit("effect_type = ");
    reveal_strlit("\ncolor = ");
    reveal_strlit("color = ");
    reveal_strlit("\n");

    let s_color = spec_num3(f.color) + ("\n"@ + rest);
    let s_type = spec_jstr(f.effect_type) + ("\ncolor = "@ + s_color);
    let s_name = spec_jstr(f.name) + ("\neffect_type = "@ + s_type);
    let t = spec_effect_preset_toml(f) + rest;
    assert(t =~= "[[effect_presets]]\nname = "@ + s_name);

    lemma_expect("[[effect_presets]]\nname = "@, s_name);
    lemma_parse_jstr(f.name, "\neffect_type = "@ + s_type);
    lemma_expect("\neffect_type = "@, s_type);
    lemma_parse_jstr(f.effect_type, "\ncolor = "@ + s_color);
    lemma_expect("\ncolor = "@, s_color);
    lemma_parse_num3(f.color, "\n"@ + rest);
    lemma_expect("\n"@, rest);
}

/// Parse one pattern preset table, header included; the stored word
/// must name a pattern type.
pub open spec fn spec_parse_pattern_preset_toml(t: Seq<char>)
    -> Option<(PatternPresetFields, Seq<char>)> {
    match spec_expect(t, "[[pattern_presets]]\nname = "@) {
        None => None,
        Some(t1) => match spec_parse_jstr(t1) {
            None => None,
            Some((name, t2)) => match spec_expect(t2, "\npattern = "@) {
                None => None,
                Some(t3) => match spec_parse_jstr(t3) {
                    None => None,
                    Some((word, t4)) => match spec_pattern_of_word(word) {
                        None => None,
                        Some(pattern) => match spec_expect(t4, "\ncolour = "@) {
                            None => None,
                            Some(t5) => match spec_parse_num3(t5) {
                                None => None,
                                Some((colour, t6)) => match spec_expect(t6, "\n"@) {
                                    None => None,
                                    Some(t7) => Some((
                                        PatternPresetFields { name, pattern, colour },
                                        t7,
                                    )),
                                },
                            },
                        },
                    },
                },
            },
        },
    }
}

/// A rendered pattern preset table parses back to its fields.
#[verifier::rlimit(100)]
#[verifier::spinoff_prover]
pub proof fn lemma_pattern_preset_toml_round(f: PatternPresetFields, rest: Seq<char>)
    requires
        f.colour[0] >= 0,
        f.colour[1] >= 0,
        f.colour[2] >= 0,
    ensures
        spec_parse_pattern_preset_toml(spec_pattern_preset_toml(f) + rest)
            == Some((f, rest)),
{
    reveal_strlit("[[pattern_presets]]\n");
    reveal_strlit("[[pattern_presets]]\nname = ");
    reveal_strlit("name = ");
    reveal_strlit("\npattern = ");
    reveal_strlit("pattern = ");
    reveal_strlit("\ncolour = ");
    reveal_strlit("colour = ");
    reveal_strlit("\n");

    let s_colour = spec_num3(f.colour) + ("\n"@ + rest);
    let s_word = spec_jstr(spec_pattern_word(f.pattern)) + ("\ncolour = "@ + s_colour);
    let s_name = spec_jstr(f.name) + ("\npattern = "@ + s_word);
    let t = spec_pattern_preset_toml(f) + rest;
    assert(t =~= "[[pattern_presets]]\nname = "@ + s_name);

    lemma_expect("[[pattern_presets]]\nname = "@, s_name);
    lemma_parse_jstr(f.name, "\npattern = "@ + s_word);
    lemma_expect("\npattern = "@, s_word);
    lemma_parse_jstr(spec_pattern_word(f.pattern), "\ncolour = "@ + s_colour);
    lemma_pattern_word_round(f.pattern);
    lemma_expect("\ncolour = "@, s_colour);
    lemma_parse_num3(f.colour, "\n"@ + rest);
    lemma_expect("\n"@, rest);
}

/// Parse the board tables, as many as open with the board header.
pub open spec fn spec_parse_boards_toml(t: Seq<char>, fuel: nat)
    -> Option<(Seq<BoardConfigFields>, Seq<char>)>
    decreases fuel,
{
    if spec_expect(t, "[[boards]]\n"@) is Some {
        if fuel == 0 {
            None
        } else {
            match spec_parse_board_toml(t) {
                None => None,
                Some((b, t2)) => match spec_parse_boards_toml(t2, (fuel - 1) as nat) {
                    None => None,
                    Some((bs, t3)) => Some((seq![b] + bs, t3)),
                },
            }
        }
    } else {
        Some((Seq::empty(), t))
    }
}

/// Ranges every stored board field satisfies.
pub open spec fn boards_in_range(bs: Seq<BoardConfigFields>) -> bool {
    forall|i: int| 0 <= i < bs.len() ==> {
        &&& ((#[trigger] bs[i]).universe is Some ==> bs[i].universe->0 >= 0)
        &&& (bs[i].led_count is Some ==> bs[i].led_count->0 >= 0)
        &&& (bs[i].transition is Some ==> bs[i].transition->0 >= 0)
    }
}

/// Rendered board tables parse back, item by item, when the text that
/// follows opens with a separator comment.
#[verifier::rlimit(100)]
#[verifier::spinoff_prover]
pub proof fn lemma_boards_toml_round(bs: Seq<BoardConfigFields>, rest: Seq<char>,
    fuel: nat)
    requires
        boards_in_range(bs),
        fuel >= bs.len(),
        rest.len() > 0,
        rest[0] == '#',
    ensures
        spec_parse_boards_toml(spec_boards_toml(bs) + rest, fuel) == Some((bs, rest)),
    decreases bs.len(),
{
    reveal_strlit("[[boards]]\n");
    reveal_strlit("[[boards]]\nid = ");
    let t = spec_boards_toml(bs) + rest;
    if bs.len() == 0 {
        assert(t =~= rest);
        assert(spec_expect(t, "[[boards]]\n"@) is None) by {
            if spec_expect(t, "[[boards]]\n"@) is Some {
                assert(t.take("[[boards]]\n"@.len() as int)[0] == '[');
            }
        }
    } else {
        let tail_text = spec_boards_toml(bs.drop_first()) + rest;
        assert(t =~= spec_board_toml(bs[0]) + tail_text);
        assert(spec_expect(t, "[[boards]]\n"@) is Some) by {
            assert(t.take("[[boards]]\n"@.len() as int) =~= "[[boards]]\n"@);
        }
        assert(tail_text.len() > 0 && (tail_text[0] == '[' || tail_text[0] == '#')) by {
            if bs.drop_first().len() == 0 {
                assert(tail_text =~= rest);
            } else {
                assert(tail_text[0] == spec_board_toml(bs.drop_first()[0])[0]);
                assert(spec_board_toml(bs.drop_first()[0])[0]
                    == "[[boards]]\n"@[0]);
            }
        }
        lemma_board_toml_round(bs[0], tail_text);
        assert(boards_in_range(bs.drop_first())) by {
            assert(forall|i: int| 0 <= i < bs.drop_first().len()
                ==> bs.drop_first()[i] == bs[i + 1]);
        }
        lemma_boards_toml_round(bs.drop_first(), rest, (fuel - 1) as nat);
        assert(seq![bs[0]] + bs.drop_first() =~= bs);
    }
}

/// Parse the group tables, as many as open with the group header.
pub open spec fn spec_parse_groups_toml(t: Seq<char>, fuel: nat, inner_fuel: nat)
    -> Option<(Seq<GroupFields>, Seq<char>)>
    decreases fuel,
{
    if spec_expect(t, "[[groups]]\n"@) is Some {
        if fuel == 0 {
            None
        } else {
            match spec_parse_group_toml(t, inner_fuel) {
                None => None,
                Some((g, t2)) => match spec_parse_groups_toml(t2, (fuel - 1) as nat,
                    inner_fuel) {
                    None => None,
                    Some((gs, t3)) => Some((seq![g] + gs, t3)),
                },
            }
        }
    } else {
        Some((Seq::empty(), t))
    }
}

/// The largest member list any group of a list has.
pub open spec fn spec_max_members(gs: Seq<GroupFields>) -> nat
    decreases gs.len(),
{
    if gs.len() == 0 {
        0
    } else {
        let rest = spec_max_members(gs.drop_first());
        if gs[0].members.len() > rest {
            gs[0].members.len()
        } else {
            rest
        }
    }
}

/// Ranges every stored group field satisfies.
pub open spec fn groups_in_range(gs: Seq<GroupFields>) -> bool {
    forall|i: int| 0 <= i < gs.len()
        ==> ((#[trigger] gs[i]).universe is Some ==> gs[i].universe->0 >= 0)
}

/// Rendered group tables parse back, item by item.
#[verifier::rlimit(100)]
#[verifier::spinoff_prover]
pub proof fn lemma_groups_toml_round(gs: Seq<GroupFields>, rest: Seq<char>, fuel: nat,
    inner_fuel: nat)
    requires
        groups_in_range(gs),
        fuel >= gs.len(),
        inner_fuel >= spec_max_members(gs),
        rest.len() > 0,
        rest[0] == '#',
    ensures
        spec_parse_groups_toml(spec_groups_toml(gs) + rest, fuel, inner_fuel)
            == Some((gs, rest)),
    decreases gs.len(),
{
    reveal_strlit("[[groups]]\n");
    let t = spec_groups_toml(gs) + rest;
    if gs.len() == 0 {
        assert(t =~= rest);
        assert(spec_expect(t, "[[groups]]\n"@) is None) by {
            if spec_expect(t, "[[groups]]\n"@) is Some {
                assert(t.take("[[groups]]\n"@.len() as int)[0] == '[');
            }
        }
    } else {
        let tail_text = spec_groups_toml(gs.drop_first()) + rest;
        assert(t =~= spec_group_toml(gs[0]) + tail_text);
        assert(spec_expect(t, "[[groups]]\n"@) is Some) by {
            assert(t.take("[[groups]]\n"@.len() as int) =~= "[[groups]]\n"@);
        }
        assert(tail_text.len() > 0 && (tail_text[0] == '[' || tail_text[0] == '#')) by {
            if gs.drop_first().len() == 0 {
                assert(tail_text =~= rest);
            } else {
                assert(tail_text[0] == spec_group_toml(gs.drop_first()[0])[0]);
                assert(spec_group_toml(gs.drop_first()[0])[0] == "[[groups]]\n"@[0]);
            }
        }
        lemma_group_toml_round(gs[0], tail_text, inner_fuel);
        assert(groups_in_range(gs.drop_first()) && spec_max_members(gs.drop_first())
            <= spec_max_members(gs)) by {
            assert(forall|i: int| 0 <= i < gs.drop_first().len()
                ==> gs.drop_first()[i] == gs[i + 1]);
        }
        lemma_groups_toml_round(gs.drop_first(), rest, (fuel - 1) as nat, inner_fuel);
        assert(seq![gs[0]] + gs.drop_first() =~= gs);
    }
}

/// Parse the effect preset tables.
pub open spec fn spec_parse_effect_presets_toml(t: Seq<char>, fuel: nat)
    -> Option<(Seq<EffectPresetFields>, Seq<char>)>
    decreases fuel,
{
    if spec_expect(t, "[[effect_presets]]\n"@) is Some {
        if fuel == 0 {
            None
        } else {
            match spec_parse_effect_preset_toml(t) {
                None => None,
                Some((p, t2)) => match spec_parse_effect_presets_toml(t2,
                    (fuel - 1) as nat) {
                    None => None,
                    Some((ps, t3)) => Some((seq![p] + ps, t3)),
                },
            }
        }
    } else {
        Some((Seq::empty(), t))
    }
}

/// Ranges every stored effect preset satisfies.
pub open spec fn effect_presets_in_range(ps: Seq<EffectPresetFields>) -> bool {
    forall|i: int| 0 <= i < ps.len()
        ==> (#[trigger] ps[i]).color[0] >= 0 && ps[i].color[1] >= 0 && ps[i].color[2] >= 0
}

/// Rendered effect preset tables parse back, item by item.
#[verifier::rlimit(100)]
#[verifier::spinoff_prover]
pub proof fn lemma_effect_presets_toml_round(ps: Seq<EffectPresetFields>,
    rest: Seq<char>, fuel: nat)
    requires
        effect_presets_in_range(ps),
        fuel >= ps.len(),
        rest.len() > 0,
        rest[0] == '#',
    ensures
        spec_parse_effect_presets_toml(spec_effect_presets_toml(ps) + rest, fuel)
            == Some((ps, rest)),
    decreases ps.len(),
{
    reveal_strlit("[[effect_presets]]\n");
    let t = spec_effect_presets_toml(ps) + rest;
    if ps.len() == 0 {
        assert(t =~= rest);
        assert(spec_expect(t, "[[effect_presets]]\n"@) is None) by {
            if spec_expect(t, "[[effect_presets]]\n"@) is Some {
                assert(t.take("[[effect_presets]]\n"@.len() as int)[0] == '[');
            }
        }
    } else {
        let tail_text = spec_effect_presets_toml(ps.drop_first()) + rest;
        assert(t =~= spec_effect_preset_toml(ps[0]) + tail_text);
        assert(spec_expect(t, "[[effect_presets]]\n"@) is Some) by {
            assert(t.take("[[effect_presets]]\n"@.len() as int)
                =~= "[[effect_presets]]\n"@);
        }
        lemma_effect_preset_toml_round(ps[0], tail_text);
        assert(effect_presets_in_range(ps.drop_first())) by {
            assert(forall|i: int| 0 <= i < ps.drop_first().len()
                ==> ps.drop_first()[i] == ps[i + 1]);
        }
        lemma_effect_presets_toml_round(ps.drop_first(), rest, (fuel - 1) as nat);
        assert(seq![ps[0]] + ps.drop_first() =~= ps);
    }
}

/// Parse the pattern preset tables.
pub open spec fn spec_parse_pattern_presets_toml(t: Seq<char>, fuel: nat)
    -> Option<(Seq<PatternPresetFields>, Seq<char>)>
    decreases fuel,
{
    if spec_expect(t, "[[pattern_presets]]\n"@) is Some {
        if fuel == 0 {
            None
        } else {
            match spec_parse_pattern_preset_toml(t) {
                None => None,
                Some((p, t2)) => match spec_parse_pattern_presets_toml(t2,
                    (fuel - 1) as nat) {
                    None => None,
                    Some((ps, t3)) => Some((seq![p] + ps, t3)),
                },
            }
        }
    } else {
        Some((Seq::empty(), t))
    }
}

/// Ranges every stored pattern preset satisfies.
pub open spec fn pattern_presets_in_range(ps: Seq<PatternPresetFields>) -> bool {
    forall|i: int| 0 <= i < ps.len()
        ==> (#[trigger] ps[i]).colour[0] >= 0 && ps[i].colour[1] >= 0
            && ps[i].colour[2] >= 0
}

/// Rendered pattern preset tables parse back, item by item.
#[verifier::rlimit(100)]
#[verifier::spinoff_prover]
pub proof fn lemma_pattern_presets_toml_round(ps: Seq<PatternPresetFields>,
    rest: Seq<char>, fuel: nat)
    requires
        pattern_presets_in_range(ps),
        fuel >= ps.len(),
        rest.len() > 0,
        rest[0] == '#',
    ensures
        spec_parse_pattern_presets_toml(spec_pattern_presets_toml(ps) + rest, fuel)
            == Some((ps, rest)),
    decreases ps.len(),
{
    reveal_strlit("[[pattern_presets]]\n");
    let t = spec_pattern_presets_toml(ps) + rest;
    if ps.len() == 0 {
        assert(t =~= rest);
        assert(spec_expect(t, "[[pattern_presets]]\n"@) is None) by {
            if spec_expect(t, "[[pattern_presets]]\n"@) is Some {
                assert(t.take("[[pattern_presets]]\n"@.len() as int)[0] == '[');
            }
        }
    } else {
        let tail_text = spec_pattern_presets_toml(ps.drop_first()) + rest;
        assert(t =~= spec_pattern_preset_toml(ps[0]) + tail_text);
        assert(spec_expect(t, "[[pattern_presets]]\n"@) is Some) by {
            assert(t.take("[[pattern_presets]]\n"@.len() as int)
                =~= "[[pattern_presets]]\n"@);
        }
        lemma_pattern_preset_toml_round(ps[0], tail_text);
        assert(pattern_presets_in_range(ps.drop_first())) by {
            assert(forall|i: int| 0 <= i < ps.drop_first().len()
                ==> ps.drop_first()[i] == ps[i + 1]);
        }
        lemma_pattern_presets_toml_round(ps.drop_first(), rest, (fuel - 1) as nat);
        assert(seq![ps[0]] + ps.drop_first() =~= ps);
    }
}

/// Parse the whole configuration document off the front of a text.
pub open spec fn spec_parse_config_toml(t: Seq<char>, fb: nat, fg: nat, fgm: nat,
    fe: nat, fp: nat) -> Option<(ConfigFields, Seq<char>)> {
    match spec_expect(t, "[loopy_pro]\nip = "@) {
        None => None,
        Some(t1) => match spec_parse_jstr(t1) {
            None => None,
            Some((loopy_ip, t2)) => match spec_expect(t2, "\nport = "@) {
                None => None,
                Some(t3) => match spec_parse_number(t3) {
                    None => None,
                    Some((port, u3)) => {
                        let t4 = t3.skip(u3);
                        match spec_expect(t4, "\naudio_sync_delay_ms = "@) {
                            None => None,
                            Some(t5) => match spec_parse_signed(t5) {
                                None => None,
                                Some((delay, u5)) => {
                                    let t6 = t5.skip(u5);
                                    spec_parse_config_tail(t6, loopy_ip, port, delay,
                                        fb, fg, fgm, fe, fp)
                                },
                            },
                        }
                    },
                },
            },
        },
    }
}

/// Parse the four lists and the end marker.
pub open spec fn spec_parse_config_tail(t: Seq<char>, loopy_ip: Seq<char>, port: int,
    delay: int, fb: nat, fg: nat, fgm: nat, fe: nat, fp: nat)
    -> Option<(ConfigFields, Seq<char>)> {
    match spec_expect(t, "\n# boards\n"@) {
        None => None,
        Some(t1) => match spec_parse_boards_toml(t1, fb) {
            None => None,
            Some((boards, t2)) => match spec_expect(t2, "# groups\n"@) {
                None => None,
                Some(t3) => match spec_parse_groups_toml(t3, fg, fgm) {
                    None => None,
                    Some((groups, t4)) => match spec_expect(t4, "# effect_presets\n"@) {
                        None => None,
                        Some(t5) => match spec_parse_effect_presets_toml(t5, fe) {
                            None => None,
                            Some((effect_presets, t6)) => match spec_expect(t6,
                                "# pattern_presets\n"@) {
                                None => None,
                                Some(t7) => match spec_parse_pattern_presets_toml(t7, fp) {
                                    None => None,
                                    Some((pattern_presets, t8)) => match spec_expect(t8,
                                        "# end\n"@) {
                                        None => None,
                                        Some(t9) => Some((
                                            ConfigFields {
                                                boards,
                                                groups,
                                                loopy_ip,
                                                loopy_port: port,
                                                audio_sync_delay_ms: delay,
                                                effect_presets,
                                                pattern_presets,
                                            },
                                            t9,
                                        )),
                                    },
                                },
                            },
                        },
                    },
                },
            },
        },
    }
}

/// The list sections and the end marker parse back.
#[verifier::rlimit(100)]
#[verifier::spinoff_prover]
proof fn lemma_config_tail_round(f: ConfigFields, rest: Seq<char>)
    requires
        boards_in_range(f.boards),
        groups_in_range(f.groups),
        effect_presets_in_range(f.effect_presets),
        pattern_presets_in_range(f.pattern_presets),
    ensures
        spec_parse_config_tail(
            spec_config_tail_text(f) + rest,
            f.loopy_ip, f.loopy_port, f.audio_sync_delay_ms,
            f.boards.len() + 1, f.groups.len() + 1, spec_max_members(f.groups) + 1,
            f.effect_presets.len() + 1, f.pattern_presets.len() + 1,
        ) == Some((
            ConfigFields {
                boards: f.boards,
                groups: f.groups,
                loopy_ip: f.loopy_ip,
                loopy_port: f.loopy_port,
                audio_sync_delay_ms: f.audio_sync_delay_ms,
                effect_presets: f.effect_presets,
                pattern_presets: f.pattern_presets,
            },
            rest,
        )),
{
    reveal_strlit("\n# boards\n");
    reveal_strlit("# groups\n");
    reveal_strlit("# effect_presets\n");
    reveal_strlit("# pattern_presets\n");
    reveal_strlit("# end\n");

    let s_end = "# end\n"@ + rest;
    let s_pat = spec_pattern_presets_toml(f.pattern_presets) + s_end;
    let s_eff = spec_effect_presets_toml(f.effect_presets)
        + ("# pattern_presets\n"@ + s_pat);
    let s_grp = spec_groups_toml(f.groups) + ("# effect_presets\n"@ + s_eff);
    let s_brd = spec_boards_toml(f.boards) + ("# groups\n"@ + s_grp);
    let t = spec_config_tail_text(f) + rest;
    assert(t =~= "\n# boards\n"@ + s_brd);

    lemma_expect("\n# boards\n"@, s_brd);
    assert(("# groups\n"@ + s_grp)[0] == '#');
    lemma_boards_toml_round(f.boards, "# groups\n"@ + s_grp, f.boards.len() + 1);
    lemma_expect("# groups\n"@, s_grp);
    assert(("# effect_presets\n"@ + s_eff)[0] == '#');
    lemma_groups_toml_round(f.groups, "# effect_presets\n"@ + s_eff,
        f.groups.len() + 1, spec_max_members(f.groups) + 1);
    lemma_expect("# effect_presets\n"@, s_eff);
    assert(("# pattern_presets\n"@ + s_pat)[0] == '#');
    lemma_effect_presets_toml_round(f.effect_presets, "# pattern_presets\n"@ + s_pat,
        f.effect_presets.len() + 1);
    lemma_expect("# pattern_presets\n"@, s_pat);
    assert(s_end[0] == '#');
    lemma_pattern_presets_toml_round(f.pattern_presets, s_end,
        f.pattern_presets.len() + 1);
    lemma_expect("# end\n"@, rest);
}

/// A rendered configuration document parses back to its fields.
#[verifier::rlimit(100)]
#[verifier::spinoff_prover]
proof fn lemma_config_doc_round(f: ConfigFields, rest: Seq<char>)
    requires
        boards_in_range(f.boards),
        groups_in_range(f.groups),
        effect_presets_in_range(f.effect_presets),
        pattern_presets_in_range(f.pattern_presets),
        f.loopy_port >= 0,
    ensures
        spec_parse_config_toml(
            spec_config_toml(f) + rest,
            f.boards.len() + 1,
            f.groups.len() + 1,
            spec_max_members(f.groups) + 1,
            f.effect_presets.len() + 1,
            f.pattern_presets.len() + 1,
        ) == Some((f, rest)),
{
    reveal_strlit("\nport = ");
    reveal_strlit("\naudio_sync_delay_ms = ");
    reveal_strlit("\n# boards\n");

    let tail = spec_config_tail_text(f) + rest;
    let s_delay = crate::fmt::spec_dec_signed(f.audio_sync_delay_ms) + tail;
    let s_port = spec_dec(spec_nn(f.loopy_port)) + ("\naudio_sync_delay_ms = "@ + s_delay);
    let s_ip = spec_jstr(f.loopy_ip) + ("\nport = "@ + s_port);
    let t = spec_config_toml(f) + rest;
    assert(t =~= "[loopy_pro]\nip = "@ + s_ip);

    lemma_expect("[loopy_pro]\nip = "@, s_ip);
    lemma_parse_jstr(f.loopy_ip, "\nport = "@ + s_port);
    lemma_expect("\nport = "@, s_port);
    assert(("\naudio_sync_delay_ms = "@ + s_delay)[0] == '\n');
    lemma_parse_number(spec_nn(f.loopy_port), "\naudio_sync_delay_ms = "@ + s_delay);
    assert(s_port.skip(spec_dec(spec_nn(f.loopy_port)).len() as int)
        =~= "\naudio_sync_delay_ms = "@ + s_delay);
    lemma_expect("\naudio_sync_delay_ms = "@, s_delay);
    assert(tail[0] == '\n');
    lemma_parse_signed(f.audio_sync_delay_ms, tail);
    assert(s_delay.skip(crate::fmt::spec_dec_signed(f.audio_sync_delay_ms).len() as int)
        =~= tail);
    lemma_config_tail_round(f, rest);
    assert((ConfigFields {
        boards: f.boards,
        groups: f.groups,
        loopy_ip: f.loopy_ip,
        loopy_port: f.loopy_port,
        audio_sync_delay_ms: f.audio_sync_delay_ms,
        effect_presets: f.effect_presets,
        pattern_presets: f.pattern_presets,
    }) == f);
}

/// Law: loading inverts saving for the whole configuration document —
/// boards, groups, the audio host table and both preset tables come
/// back field for field.
#[verifier::rlimit(100)]
#[verifier::spinoff_prover]
pub proof fn lemma_config_toml_round_trip(c: crate::config::Config, rest: Seq<char>)
    ensures
        spec_parse_config_toml(
            spec_config_toml(config_fields(c)) + rest,
            config_fields(c).boards.len() + 1,
            config_fields(c).groups.len() + 1,
            spec_max_members(config_fields(c).groups) + 1,
            config_fields(c).effect_presets.len() + 1,
            config_fields(c).pattern_presets.len() + 1,
        ) == Some((config_fields(c), rest)),
{
    let f = config_fields(c);
    assert(boards_in_range(f.boards)) by {
        assert(forall|i: int| 0 <= i < f.boards.len()
            ==> f.boards[i] == board_config_fields(c.boards@[i]));
    }
    assert(groups_in_range(f.groups)) by {
        assert(forall|i: int| 0 <= i < f.groups.len()
            ==> f.groups[i] == group_fields(c.groups@[i]));
    }
    assert(effect_presets_in_range(f.effect_presets)) by {
        assert(forall|i: int| 0 <= i < f.effect_presets.len()
            ==> f.effect_presets[i] == effect_preset_fields(c.effect_presets@[i]));
    }
    assert(pattern_presets_in_range(f.pattern_presets)) by {
        assert(forall|i: int| 0 <= i < f.pattern_presets.len()
            ==> f.pattern_presets[i] == pattern_preset_fields(c.pattern_presets@[i]));
    }
    lemma_config_doc_round(f, rest);
}

/// Appending one board extends the rendered tables at their end.
proof fn lemma_boards_toml_push(bs: Seq<BoardConfigFields>, b: BoardConfigFields)
    ensures
        spec_boards_toml(bs.push(b)) == spec_boards_toml(bs) + spec_board_toml(b),
    decreases bs.len(),
{
    let p = bs.push(b);
    if bs.len() == 0 {
        assert(p[0] == b);
        assert(p.drop_first() =~= Seq::<BoardConfigFields>::empty());
        assert(spec_boards_toml(Seq::<BoardConfigFields>::empty()) =~= Seq::<char>::empty());
        assert(spec_boards_toml(bs) + spec_board_toml(b) =~= spec_board_toml(b));
        assert(spec_boards_toml(p) =~= spec_board_toml(b));
    } else {
        assert(p[0] == bs[0]);
        assert(p.drop_first() =~= bs.drop_first().push(b));
        lemma_boards_toml_push(bs.drop_first(), b);
        assert(spec_board_toml(bs[0])
            + (spec_boards_toml(bs.drop_first()) + spec_board_toml(b))
            =~= (spec_board_toml(bs[0]) + spec_boards_toml(bs.drop_first()))
                + spec_board_toml(b));
    }
}

/// Appending one group extends the rendered tables at their end.
proof fn lemma_groups_toml_push(gs: Seq<GroupFields>, g: GroupFields)
    ensures
        spec_groups_toml(gs.push(g)) == spec_groups_toml(gs) + spec_group_toml(g),
    decreases gs.len(),
{
    let p = gs.push(g);
    if gs.len() == 0 {
        assert(p[0] == g);
        assert(p.drop_first() =~= Seq::<GroupFields>::empty());
        assert(spec_groups_toml(Seq::<GroupFields>::empty()) =~= Seq::<char>::empty());
        assert(spec_groups_toml(gs) + spec_group_toml(g) =~= spec_group_toml(g));
        assert(spec_groups_toml(p) =~= spec_group_toml(g));
    } else {
        assert(p[0] == gs[0]);
        assert(p.drop_first() =~= gs.drop_first().push(g));
        lemma_groups_toml_push(gs.drop_first(), g);
        assert(spec_group_toml(gs[0])
            + (spec_groups_toml(gs.drop_first()) + spec_group_toml(g))
            =~= (spec_group_toml(gs[0]) + spec_groups_toml(gs.drop_first()))
                + spec_group_toml(g));
    }
}

/// Appending one effect preset extends the rendered tables at their end.
proof fn lemma_effect_presets_toml_push(ps: Seq<EffectPresetFields>,
    p0: EffectPresetFields)
    ensures
        spec_effect_presets_toml(ps.push(p0))
            == spec_effect_presets_toml(ps) + spec_effect_preset_toml(p0),
    decreases ps.len(),
{
    let p = ps.push(p0);
    if ps.len() == 0 {
        assert(p[0] == p0);
        assert(p.drop_first() =~= Seq::<EffectPresetFields>::empty());
        assert(spec_effect_presets_toml(Seq::<EffectPresetFields>::empty()) =~= Seq::<char>::empty());
        assert(spec_effect_presets_toml(ps) + spec_effect_preset_toml(p0)
            =~= spec_effect_preset_toml(p0));
        assert(spec_effect_presets_toml(p) =~= spec_effect_preset_toml(p0));
    } else {
        assert(p[0] == ps[0]);
        assert(p.drop_first() =~= ps.drop_first().push(p0));
        lemma_effect_presets_toml_push(ps.drop_first(), p0);
        assert(spec_effect_preset_toml(ps[0])
            + (spec_effect_presets_toml(ps.drop_first()) + spec_effect_preset_toml(p0))
            =~= (spec_effect_preset_toml(ps[0])
                + spec_effect_presets_toml(ps.drop_first()))
                + spec_effect_preset_toml(p0));
    }
}

/// Appending one pattern preset extends the rendered tables at their
/// end.
proof fn lemma_pattern_presets_toml_push(ps: Seq<PatternPresetFields>,
    p0: PatternPresetFields)
    ensures
        spec_pattern_presets_toml(ps.push(p0))
            == spec_pattern_presets_toml(ps) + spec_pattern_preset_toml(p0),
    decreases ps.len(),
{
    let p = ps.push(p0);
    if ps.len() == 0 {
        assert(p[0] == p0);
        assert(p.drop_first() =~= Seq::<PatternPresetFields>::empty());
        assert(spec_pattern_presets_toml(Seq::<PatternPresetFields>::empty()) =~= Seq::<char>::empty());
        assert(spec_pattern_presets_toml(ps) + spec_pattern_preset_toml(p0)
            =~= spec_pattern_preset_toml(p0));
        assert(spec_pattern_presets_toml(p) =~= spec_pattern_preset_toml(p0));
    } else {
        assert(p[0] == ps[0]);
        assert(p.drop_first() =~= ps.drop_first().push(p0));
        lemma_pattern_presets_toml_push(ps.drop_first(), p0);
        assert(spec_pattern_preset_toml(ps[0])
            + (spec_pattern_presets_toml(ps.drop_first()) + spec_pattern_preset_toml(p0))
            =~= (spec_pattern_preset_toml(ps[0])
                + spec_pattern_presets_toml(ps.drop_first()))
                + spec_pattern_preset_toml(p0));
    }
}

/// Append an optional `key = <number>` line.
fn append_opt_num_line(out: &mut String, key: &str, v: Option<u16>)
    ensures
        final(out)@ == old(out)@ + spec_opt_num_line(key@ + " = "@, match v {
            Some(n) => Some(n as int),
            None => None,
        }),
{
    proof {
        reveal_strlit(" = ");
        reveal_strlit("\n");
    }
    match v {
        Some(n) => {
            out.append(key);
            out.append(" = ");
            out.append(crate::fmt::fmt_u16(n).as_str());
            out.append("\n");
            proof {
                assert(old(out)@ + key@ + " = "@ + spec_dec(n as nat) + "\n"@
                    =~= old(out)@ + spec_opt_num_line(key@ + " = "@, Some(n as int)));
            }
        },
        None => {
            proof {
                assert(old(out)@ + spec_opt_num_line(key@ + " = "@,
                    None::<int>) =~= old(out)@);
            }
        },
    }
}

/// Render one board table.
#[verifier::rlimit(100)]
#[verifier::spinoff_prover]
pub fn board_toml(b: &crate::config::BoardConfig) -> (r: String)
    ensures
        r@ == spec_board_toml(board_config_fields(*b)),
{
    proof {
        reveal_strlit("\"");
        reveal_strlit("universe");
        reveal_strlit("universe = ");
        reveal_strlit("led_count");
        reveal_strlit("led_count = ");
        reveal_strlit("transition");
        reveal_strlit("transition = ");
        reveal_strlit(" = ");
    }
    let mut out = String::from_str("[[boards]]\n");
    out.append("id = ");
    append_jstr(&mut out, &b.id);
    out.append("\n");
    out.append("ip = ");
    append_jstr(&mut out, &b.ip);
    out.append("\n");
    append_opt_num_line(&mut out, "universe", b.universe);
    append_opt_num_line(&mut out, "led_count", b.led_count);
    let transition16: Option<u16> = match b.transition {
        Some(t) => Some(t as u16),
        None => None,
    };
    append_opt_num_line(&mut out, "transition", transition16);
    proof {
        assert("universe"@ + " = "@ =~= "universe = "@);
        assert("led_count"@ + " = "@ =~= "led_count = "@);
        assert("transition"@ + " = "@ =~= "transition = "@);
        assert(out@ =~= spec_board_toml(board_config_fields(*b)));
    }
    out
}

/// Render one group table.
#[verifier::rlimit(100)]
#[verifier::spinoff_prover]
pub fn group_toml(g: &crate::config::GroupConfig) -> (r: String)
    ensures
        r@ == spec_group_toml(group_fields(*g)),
{
    proof {
        reveal_strlit("\"");
        reveal_strlit("[");
        reveal_strlit(",");
        reveal_strlit("universe");
        reveal_strlit("universe = ");
        reveal_strlit(" = ");
    }
    let mut out = String::from_str("[[groups]]\n");
    out.append("id = ");
    append_jstr(&mut out, &g.id);
    out.append("\n");
    out.append("members = ");
    out.append("[");
    let ghost keys = crate::config::member_keys_of(g.members@);
    let mut i: usize = 0;
    while i < g.members.len()
        invariant
            i <= g.members@.len(),
            keys == crate::config::member_keys_of(g.members@),
            out@ == spec_group_toml_prefix(group_fields(*g))
                + spec_jstr_items(keys.take(i as int)),
        decreases g.members@.len() - i,
    {
        if i > 0 {
            out.append(",");
        }
        append_jstr(&mut out, &g.members[i]);
        proof {
            lemma_jstr_items_push(keys.take(i as int), keys[i as int]);
            assert(keys.take(i + 1 as int) =~= keys.take(i as int).push(keys[i as int]));
            assert(keys[i as int] == g.members@[i as int]@);
        }
        i = i + 1;
    }
    proof {
        assert(keys.take(keys.len() as int) =~= keys);
    }
    out.append("]");
    out.append("\n");
    append_opt_num_line(&mut out, "universe", g.universe);
    proof {
        assert("universe"@ + " = "@ =~= "universe = "@);
        assert(out@ =~= spec_group_toml(group_fields(*g)));
    }
    out
}

/// The group text up to and including the opening member bracket.
pub open spec fn spec_group_toml_prefix(f: GroupFields) -> Seq<char> {
    "[[groups]]\n"@ + "id = "@ + spec_jstr(f.id) + "\n"@ + "members = "@ + "["@
}

/// Render one effect preset table.
#[verifier::rlimit(100)]
#[verifier::spinoff_prover]
pub fn effect_preset_toml(p: &crate::config::EffectPreset) -> (r: String)
    ensures
        r@ == spec_effect_preset_toml(effect_preset_fields(*p)),
{
    proof {
        reveal_strlit("\"");
        reveal_strlit("[");
        reveal_strlit(",");
        reveal_strlit("]");
    }
    let mut out = String::from_str("[[effect_presets]]\n");
    out.append("name = ");
    append_jstr(&mut out, &p.name);
    out.append("\n");
    out.append("effect_type = ");
    append_jstr(&mut out, &p.effect_type);
    out.append("\n");
    out.append("color = ");
    out.append("[");
    out.append(crate::fmt::fmt_u8(p.color[0]).as_str());
    out.append(",");
    out.append(crate::fmt::fmt_u8(p.color[1]).as_str());
    out.append(",");
    out.append(crate::fmt::fmt_u8(p.color[2]).as_str());
    out.append("]");
    out.append("\n");
    proof {
        assert(out@ =~= spec_effect_preset_toml(effect_preset_fields(*p)));
    }
    out
}

/// The stored word of a pattern type.
pub fn pattern_word(p: &crate::pattern::PatternType) -> (r: &'static str)
    ensures
        r@ == spec_pattern_word(*p),
{
    match p {
        crate::pattern::PatternType::Wave => "wave",
        crate::pattern::PatternType::WaveReverse => "wave_reverse",
        crate::pattern::PatternType::Alternate => "alternate",
        crate::pattern::PatternType::OutsideIn => "outside_in",
        crate::pattern::PatternType::CenterOut => "center_out",
        crate::pattern::PatternType::PingPong => "ping_pong",
        crate::pattern::PatternType::Random => "random",
    }
}

/// Render one pattern preset table.
#[verifier::rlimit(100)]
#[verifier::spinoff_prover]
pub fn pattern_preset_toml(p: &crate::config::PatternPreset) -> (r: String)
    ensures
        r@ == spec_pattern_preset_toml(pattern_preset_fields(*p)),
{
    proof {
        reveal_strlit("\"");
        reveal_strlit("[");
        reveal_strlit(",");
        reveal_strlit("]");
    }
    let mut out = String::from_str("[[pattern_presets]]\n");
    out.append("name = ");
    append_jstr(&mut out, &p.name);
    out.append("\n");
    out.append("pattern = ");
    out.append("\"");
    out.append(pattern_word(&p.pattern));
    out.append("\"");
    out.append("\n");
    out.append("colour = ");
    out.append("[");
    out.append(crate::fmt::fmt_u8(p.colour[0]).as_str());
    out.append(",");
    out.append(crate::fmt::fmt_u8(p.colour[1]).as_str());
    out.append(",");
    out.append(crate::fmt::fmt_u8(p.colour[2]).as_str());
    out.append("]");
    out.append("\n");
    proof {
        lemma_pattern_word_unescaped(p.pattern);
        assert(out@ =~= spec_pattern_preset_toml(pattern_preset_fields(*p)));
    }
    out
}

/// Pattern words carry no character that escaping would change.
proof fn lemma_pattern_word_unescaped(p: crate::pattern::PatternType)
    ensures
        spec_json_escape(spec_pattern_word(p)) == spec_pattern_word(p),
{
    reveal_strlit("wave");
    reveal_strlit("wave_reverse");
    reveal_strlit("alternate");
    reveal_strlit("outside_in");
    reveal_strlit("center_out");
    reveal_strlit("ping_pong");
    reveal_strlit("random");
    lemma_escape_plain(spec_pattern_word(p));
}

/// Escaping leaves a string of plain word characters alone.
proof fn lemma_escape_plain(s: Seq<char>)
    requires
        forall|i: int| 0 <= i < s.len()
            ==> 'a' <= #[trigger] s[i] <= 'z' || s[i] == '_',
    ensures
        spec_json_escape(s) == s,
    decreases s.len(),
{
    if s.len() == 0 {
        assert(spec_json_escape(s) =~= s);
    } else {
        lemma_escape_plain(s.drop_last());
        assert('a' <= s.last() <= 'z' || s.last() == '_');
        assert(spec_esc_char(s.last()) =~= seq![s.last()]);
        assert(s.drop_last() + seq![s.last()] =~= s);
    }
}

/// Render the board tables of a configuration document.
#[verifier::rlimit(100)]
#[verifier::spinoff_prover]
pub fn boards_toml(boards: &Vec<crate::config::BoardConfig>) -> (r: String)
    ensures
        r@ == spec_boards_toml(boards@.map_values(|b: crate::config::BoardConfig| board_config_fields(b))),
{
    let ghost fb = boards@.map_values(|b: crate::config::BoardConfig| board_config_fields(b));
    let mut out = String::new();
    let mut i: usize = 0;
    proof {
        assert(fb.take(0) =~= Seq::<BoardConfigFields>::empty());
        assert(spec_boards_toml(Seq::<BoardConfigFields>::empty()) =~= Seq::<char>::empty());
        assert(out@ =~= spec_boards_toml(fb.take(0)));
    }
    while i < boards.len()
        invariant
            i <= boards@.len(),
            fb == boards@.map_values(|b: crate::config::BoardConfig| board_config_fields(b)),
            fb.len() == boards@.len(),
            out@ == spec_boards_toml(fb.take(i as int)),
        decreases boards@.len() - i,
    {
        out.append(board_toml(&boards[i]).as_str());
        proof {
            lemma_boards_toml_push(fb.take(i as int), fb[i as int]);
            assert(fb.take(i + 1 as int) =~= fb.take(i as int).push(fb[i as int]));
            assert(fb[i as int] == board_config_fields(boards@[i as int]));
        }
        i = i + 1;
    }
    proof {
        assert(fb.take(fb.len() as int) =~= fb);
    }
    out
}

/// Render the group tables of a configuration document.
#[verifier::rlimit(100)]
#[verifier::spinoff_prover]
pub fn groups_toml(groups: &Vec<crate::config::GroupConfig>) -> (r: String)
    ensures
        r@ == spec_groups_toml(groups@.map_values(|g: crate::config::GroupConfig| group_fields(g))),
{
    let ghost fg = groups@.map_values(|g: crate::config::GroupConfig| group_fields(g));
    let mut out = String::new();
    let mut i: usize = 0;
    proof {
        assert(fg.take(0) =~= Seq::<GroupFields>::empty());
        assert(spec_groups_toml(Seq::<GroupFields>::empty()) =~= Seq::<char>::empty());
        assert(out@ =~= spec_groups_toml(fg.take(0)));
    }
    while i < groups.len()
        invariant
            i <= groups@.len(),
            fg == groups@.map_values(|g: crate::config::GroupConfig| group_fields(g)),
            fg.len() == groups@.len(),
            out@ == spec_groups_toml(fg.take(i as int)),
        decreases groups@.len() - i,
    {
        out.append(group_toml(&groups[i]).as_str());
        proof {
            lemma_groups_toml_push(fg.take(i as int), fg[i as int]);
            assert(fg.take(i + 1 as int) =~= fg.take(i as int).push(fg[i as int]));
            assert(fg[i as int] == group_fields(groups@[i as int]));
        }
        i = i + 1;
    }
    proof {
        assert(fg.take(fg.len() as int) =~= fg);
    }
    out
}

/// Render the effect-preset tables of a configuration document.
#[verifier::rlimit(100)]
#[verifier::spinoff_prover]
pub fn effect_presets_toml(presets: &Vec<crate::config::EffectPreset>) -> (r: String)
    ensures
        r@ == spec_effect_presets_toml(presets@.map_values(|p: crate::config::EffectPreset| effect_preset_fields(p))),
{
    let ghost fp = presets@.map_values(|p: crate::config::EffectPreset| effect_preset_fields(p));
    let mut out = String::new();
    let mut i: usize = 0;
    proof {
        assert(fp.take(0) =~= Seq::<EffectPresetFields>::empty());
        assert(spec_effect_presets_toml(Seq::<EffectPresetFields>::empty())
            =~= Seq::<char>::empty());
        assert(out@ =~= spec_effect_presets_toml(fp.take(0)));
    }
    while i < presets.len()
        invariant
            i <= presets@.len(),
            fp == presets@.map_values(|p: crate::config::EffectPreset| effect_preset_fields(p)),
            fp.len() == presets@.len(),
            out@ == spec_effect_presets_toml(fp.take(i as int)),
        decreases presets@.len() - i,
    {
        out.append(effect_preset_toml(&presets[i]).as_str());
        proof {
            lemma_effect_presets_toml_push(fp.take(i as int), fp[i as int]);
            assert(fp.take(i + 1 as int) =~= fp.take(i as int).push(fp[i as int]));
            assert(fp[i as int] == effect_preset_fields(presets@[i as int]));
        }
        i = i + 1;
    }
    proof {
        assert(fp.take(fp.len() as int) =~= fp);
    }
    out
}

/// Render the pattern-preset tables of a configuration document.
#[verifier::rlimit(100)]
#[verifier::spinoff_prover]
pub fn pattern_presets_toml(presets: &Vec<crate::config::PatternPreset>) -> (r: String)
    ensures
        r@ == spec_pattern_presets_toml(presets@.map_values(|p: crate::config::PatternPreset| pattern_preset_fields(p))),
{
    let ghost fp = presets@.map_values(|p: crate::config::PatternPreset| pattern_preset_fields(p));
    let mut out = String::new();
    let mut i: usize = 0;
    proof {
        assert(fp.take(0) =~= Seq::<PatternPresetFields>::empty());
        assert(spec_pattern_presets_toml(Seq::<PatternPresetFields>::empty())
            =~= Seq::<char>::empty());
        assert(out@ =~= spec_pattern_presets_toml(fp.take(0)));
    }
    while i < presets.len()
        invariant
            i <= presets@.len(),
            fp == presets@.map_values(|p: crate::config::PatternPreset| pattern_preset_fields(p)),
            fp.len() == presets@.len(),
            out@ == spec_pattern_presets_toml(fp.take(i as int)),
        decreases presets@.len() - i,
    {
        out.append(pattern_preset_toml(&presets[i]).as_str());
        proof {
            lemma_pattern_presets_toml_push(fp.take(i as int), fp[i as int]);
            assert(fp.take(i + 1 as int) =~= fp.take(i as int).push(fp[i as int]));
            assert(fp[i as int] == pattern_preset_fields(presets@[i as int]));
        }
        i = i + 1;
    }
    proof {
        assert(fp.take(fp.len() as int) =~= fp);
    }
    out
}

/// Render the whole configuration document.
#[verifier::rlimit(100)]
#[verifier::spinoff_prover]
pub fn config_toml(c: &crate::config::Config) -> (r: String)
    ensures
        r@ == spec_config_toml(config_fields(*c)),
{
    proof {
        reveal_strlit("\"");
    }
    let ghost f = config_fields(*c);
    let mut out = String::from_str("[loopy_pro]\nip = ");
    append_jstr(&mut out, &c.loopy_pro.ip);
    out.append("\nport = ");
    out.append(crate::fmt::fmt_u16(c.loopy_pro.port).as_str());
    out.append("\naudio_sync_delay_ms = ");
    out.append(crate::fmt::fmt_i64(c.loopy_pro.audio_sync_delay_ms).as_str());
    out.append("\n# boards\n");
    out.append(boards_toml(&c.boards).as_str());
    out.append("# groups\n");
    out.append(groups_toml(&c.groups).as_str());
    out.append("# effect_presets\n");
    out.append(effect_presets_toml(&c.effect_presets).as_str());
    out.append("# pattern_presets\n");
    out.append(pattern_presets_toml(&c.pattern_presets).as_str());
    out.append("# end\n");
    proof {
        assert(f.boards =~= c.boards@.map_values(|b: crate::config::BoardConfig| board_config_fields(b)));
        assert(f.groups =~= c.groups@.map_values(|g: crate::config::GroupConfig| group_fields(g)));
        assert(f.effect_presets =~= c.effect_presets@.map_values(|p: crate::config::EffectPreset| effect_preset_fields(p)));
        assert(f.pattern_presets =~= c.pattern_presets@.map_values(|p: crate::config::PatternPreset| pattern_preset_fields(p)));
        assert(out@ =~= spec_config_toml(f));
    }
    out
}

} // verus!
