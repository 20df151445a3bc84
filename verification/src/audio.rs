//! Audio blob handling: the data-URL grammar uploads arrive in, the
//! base64 coding inside it, and the MIME/extension maps.  Reading and
//! writing blobs on disk happens outside the library; everything here is
//! text and bytes.

use vstd::prelude::*;
use vstd::string::StringSliceAdditionalSpecFns;
use crate::lookup::lemma_first_occurrence_at;

verus! {

/// Why an upload was refused.
#[derive(Debug, Clone, Copy, PartialEq, Eq, Structural)]
pub enum AudioError {
    /// The text is not a base64 data URL.
    BadDataUrl,
    /// The base64 payload does not decode.
    BadBase64,
    /// The filename would escape the audio directory.
    BadFilename,
}

/// The base64 character of a 6-bit value.
pub open spec fn spec_b64_char(v: int) -> char {
    if v < 26 {
        ((65 + v) as u8) as char
    } else if v < 52 {
        ((97 + (v - 26)) as u8) as char
    } else if v < 62 {
        ((48 + (v - 52)) as u8) as char
    } else if v == 62 {
        43u8 as char
    } else {
        47u8 as char
    }
}

/// The 6-bit value of a base64 character, or -1.
pub open spec fn spec_b64_val(c: char) -> int {
    let u = c as u32;
    if 65 <= u <= 90 {
        u - 65
    } else if 97 <= u <= 122 {
        u - 71
    } else if 48 <= u <= 57 {
        u + 4
    } else if u == 43 {
        62
    } else if u == 47 {
        63
    } else {
        -1
    }
}

/// Every base64 character decodes back to its value, and is neither the
/// padding character nor a separator.
pub proof fn lemma_b64_char_val(v: int)
    requires
        0 <= v < 64,
    ensures
        spec_b64_val(spec_b64_char(v)) == v,
        spec_b64_char(v) != '=',
        spec_b64_char(v) != ';',
{
}

/// The base64 text of a byte string: three bytes to four characters,
/// with `=` padding on a short final group.
pub open spec fn spec_b64_encode(s: Seq<u8>) -> Seq<char>
    decreases s.len(),
{
    if s.len() == 0 {
        Seq::empty()
    } else if s.len() == 1 {
        let a = s[0];
        seq![
            spec_b64_char((a >> 2) as int),
            spec_b64_char(((a & 3) << 4) as int),
            '=',
            '=',
        ]
    } else if s.len() == 2 {
        let a = s[0];
        let b = s[1];
        seq![
            spec_b64_char((a >> 2) as int),
            spec_b64_char((((a & 3) << 4) | (b >> 4)) as int),
            spec_b64_char(((b & 15) << 2) as int),
            '=',
        ]
    } else {
        let a = s[0];
        let b = s[1];
        let c = s[2];
        seq![
            spec_b64_char((a >> 2) as int),
            spec_b64_char((((a & 3) << 4) | (b >> 4)) as int),
            spec_b64_char((((b & 15) << 2) | (c >> 6)) as int),
            spec_b64_char((c & 63) as int),
        ] + spec_b64_encode(s.skip(3))
    }
}

/// The bytes a canonical base64 text denotes, or nothing when the text
/// is not a canonical encoding.
pub open spec fn spec_b64_decode(t: Seq<char>) -> Option<Seq<u8>>
    decreases t.len(),
{
    if t.len() == 0 {
        Some(Seq::empty())
    } else if t.len() < 4 || t.len() % 4 != 0 {
        None
    } else {
        let v0 = spec_b64_val(t[0]);
        let v1 = spec_b64_val(t[1]);
        if v0 < 0 || v1 < 0 {
            None
        } else {
            let w0 = v0 as u8;
            let w1 = v1 as u8;
            if t[2] == '=' && t[3] == '=' {
                if t.len() == 4 && w1 & 15 == 0 {
                    Some(seq![(w0 << 2) | (w1 >> 4)])
                } else {
                    None
                }
            } else if t[3] == '=' {
                let v2 = spec_b64_val(t[2]);
                let w2 = v2 as u8;
                if t.len() == 4 && v2 >= 0 && w2 & 3 == 0 {
                    Some(seq![
                        (w0 << 2) | (w1 >> 4),
                        ((w1 & 15) << 4) | (w2 >> 2),
                    ])
                } else {
                    None
                }
            } else {
                let v2 = spec_b64_val(t[2]);
                let v3 = spec_b64_val(t[3]);
                if v2 < 0 || v3 < 0 {
                    None
                } else {
                    let w2 = v2 as u8;
                    let w3 = v3 as u8;
                    match spec_b64_decode(t.skip(4)) {
                        None => None,
                        Some(rest) => Some(seq![
                            (w0 << 2) | (w1 >> 4),
                            ((w1 & 15) << 4) | (w2 >> 2),
                            ((w2 & 3) << 6) | w3,
                        ] + rest),
                    }
                }
            }
        }
    }
}

/// The six-bit pieces cut from a three-byte group are below 64.
proof fn lemma_group_vals_bounded(a: u8, b: u8, c: u8)
    ensures
        (a >> 2) < 64,
        ((a & 3) << 4) < 64,
        (((a & 3) << 4) | (b >> 4)) < 64,
        ((b & 15) << 2) < 64,
        (((b & 15) << 2) | (c >> 6)) < 64,
        (c & 63) < 64,
{
    assert((a >> 2) < 64 && ((a & 3) << 4) < 64 && (((a & 3) << 4) | (b >> 4)) < 64
        && ((b & 15) << 2) < 64 && (((b & 15) << 2) | (c >> 6)) < 64 && (c & 63) < 64)
        by (bit_vector);
}

/// Law: decoding inverts encoding — the base64 round trip gives every
/// byte string back.
pub proof fn lemma_b64_round_trip(s: Seq<u8>)
    ensures
        spec_b64_decode(spec_b64_encode(s)) == Some(s),
    decreases s.len(),
{
    if s.len() == 0 {
    } else if s.len() == 1 {
        let a = s[0];
        let w0 = a >> 2;
        let w1 = (a & 3) << 4;
        lemma_group_vals_bounded(a, 0, 0);
        lemma_b64_char_val(w0 as int);
        lemma_b64_char_val(w1 as int);
        assert(w1 & 15 == 0 && ((w0 << 2) | (w1 >> 4)) == a) by (bit_vector)
            requires w0 == a >> 2 && w1 == (a & 3) << 4;
        assert(spec_b64_decode(spec_b64_encode(s)) == Some(seq![a]));
        assert(seq![a] =~= s);
    } else if s.len() == 2 {
        let a = s[0];
        let b = s[1];
        let w0 = a >> 2;
        let w1 = ((a & 3) << 4) | (b >> 4);
        let w2 = (b & 15) << 2;
        lemma_group_vals_bounded(a, b, 0);
        lemma_b64_char_val(w0 as int);
        lemma_b64_char_val(w1 as int);
        lemma_b64_char_val(w2 as int);
        assert(w2 & 3 == 0 && ((w0 << 2) | (w1 >> 4)) == a
            && (((w1 & 15) << 4) | (w2 >> 2)) == b) by (bit_vector)
            requires
                w0 == a >> 2
                    && w1 == ((a & 3) << 4) | (b >> 4)
                    && w2 == (b & 15) << 2;
        assert(spec_b64_decode(spec_b64_encode(s)) == Some(seq![a, b]));
        assert(seq![a, b] =~= s);
    } else {
        let a = s[0];
        let b = s[1];
        let c = s[2];
        let w0 = a >> 2;
        let w1 = ((a & 3) << 4) | (b >> 4);
        let w2 = ((b & 15) << 2) | (c >> 6);
        let w3 = c & 63;
        lemma_group_vals_bounded(a, b, c);
        lemma_b64_char_val(w0 as int);
        lemma_b64_char_val(w1 as int);
        lemma_b64_char_val(w2 as int);
        lemma_b64_char_val(w3 as int);
        lemma_b64_round_trip(s.skip(3));
        let t = spec_b64_encode(s);
        let rest = spec_b64_encode(s.skip(3));
        lemma_b64_encode_len(s.skip(3));
        assert(t.len() == 4 + rest.len());
        assert(t.skip(4) =~= rest);
        assert(((w0 << 2) | (w1 >> 4)) == a && (((w1 & 15) << 4) | (w2 >> 2)) == b
            && (((w2 & 3) << 6) | w3) == c) by (bit_vector)
            requires
                w0 == a >> 2
                    && w1 == ((a & 3) << 4) | (b >> 4)
                    && w2 == ((b & 15) << 2) | (c >> 6)
                    && w3 == c & 63;
        if t[2] == '=' || t[3] == '=' {
            assert(false);
        }
        assert(spec_b64_decode(t) == Some(seq![a, b, c] + s.skip(3)));
        assert(seq![a, b, c] + s.skip(3) =~= s);
    }
}

/// The encoding of a byte string is a multiple of four characters long,
/// and none of its characters is a separator.
pub proof fn lemma_b64_encode_len(s: Seq<u8>)
    ensures
        spec_b64_encode(s).len() % 4 == 0,
        s.len() > 0 ==> spec_b64_encode(s).len() >= 4,
        forall|i: int| 0 <= i < spec_b64_encode(s).len()
            ==> #[trigger] spec_b64_encode(s)[i] != ';',
    decreases s.len(),
{
    if s.len() == 0 {
    } else if s.len() <= 2 {
        assert forall|i: int| 0 <= i < spec_b64_encode(s).len()
            implies #[trigger] spec_b64_encode(s)[i] != ';' by {
            if s.len() == 1 {
                lemma_group_vals_bounded(s[0], 0, 0);
                lemma_b64_char_val((s[0] >> 2) as int);
                lemma_b64_char_val(((s[0] & 3) << 4) as int);
            } else {
                lemma_group_vals_bounded(s[0], s[1], 0);
                lemma_b64_char_val((s[0] >> 2) as int);
                lemma_b64_char_val((((s[0] & 3) << 4) | (s[1] >> 4)) as int);
                lemma_b64_char_val(((s[1] & 15) << 2) as int);
            }
            assert('=' != ';');
        }
    } else {
        lemma_b64_encode_len(s.skip(3));
        let rest = spec_b64_encode(s.skip(3));
        assert forall|i: int| 0 <= i < spec_b64_encode(s).len()
            implies #[trigger] spec_b64_encode(s)[i] != ';' by {
            if i < 4 {
                lemma_group_vals_bounded(s[0], s[1], s[2]);
                lemma_b64_char_val((s[0] >> 2) as int);
                lemma_b64_char_val((((s[0] & 3) << 4) | (s[1] >> 4)) as int);
                lemma_b64_char_val((((s[1] & 15) << 2) | (s[2] >> 6)) as int);
                lemma_b64_char_val((s[2] & 63) as int);
            } else {
                assert(spec_b64_encode(s)[i] == rest[i - 4]);
            }
        }
    }
}

/// The text of a base64 data URL for a payload: scheme, MIME type, the
/// base64 marker, and the encoded bytes.
pub open spec fn spec_encode_data_url(mime: Seq<char>, bytes: Seq<u8>) -> Seq<char> {
    "data:"@ + mime + ";base64,"@ + spec_b64_encode(bytes)
}

/// What a base64 data URL denotes: its MIME type and its payload.
/// Anything but `data:<mime>;base64,<canonical base64>` denotes nothing.
pub open spec fn spec_parse_data_url(u: Seq<char>) -> Option<(Seq<char>, Seq<u8>)> {
    if u.len() < 5 || u.subrange(0, 5) != "data:"@ {
        None
    } else {
        let tail = u.skip(5);
        match tail.index_of_first(';') {
            None => None,
            Some(semi) => {
                let mime = tail.take(semi);
                let after = tail.skip(semi);
                if after.len() < 8 || after.subrange(0, 8) != ";base64,"@ {
                    None
                } else {
                    match spec_b64_decode(after.skip(8)) {
                        None => None,
                        Some(bytes) => Some((mime, bytes)),
                    }
                }
            },
        }
    }
}

/// Law: parsing inverts encoding.  For every MIME type free of
/// separators — all the supported audio types are — and every payload,
/// the data URL round trip returns the same MIME type and bytes.
pub proof fn lemma_data_url_round_trip(mime: Seq<char>, bytes: Seq<u8>)
    requires
        forall|i: int| 0 <= i < mime.len() ==> mime[i] != ';',
    ensures
        spec_parse_data_url(spec_encode_data_url(mime, bytes)) == Some((mime, bytes)),
{
    reveal_strlit("data:");
    reveal_strlit(";base64,");
    let u = spec_encode_data_url(mime, bytes);
    let enc = spec_b64_encode(bytes);
    lemma_b64_encode_len(bytes);
    assert("data:"@.len() == 5);
    assert(";base64,"@.len() == 8);
    assert(u.len() == 5 + mime.len() + 8 + enc.len());
    assert(u.subrange(0, 5) =~= "data:"@);
    let tail = u.skip(5);
    assert(tail =~= mime + ";base64,"@ + enc);
    assert(";base64,"@[0] == ';');
    assert(tail[mime.len() as int] == ';');
    assert forall|j: int| 0 <= j < mime.len() implies tail[j] != ';' by {
        assert(tail[j] == mime[j]);
    }
    lemma_first_occurrence_at(tail, ';', mime.len() as int);
    assert(tail.take(mime.len() as int) =~= mime);
    let after = tail.skip(mime.len() as int);
    assert(after =~= ";base64,"@ + enc);
    assert(after.len() == 8 + enc.len());
    assert(after.subrange(0, 8) =~= ";base64,"@);
    assert(after.skip(8) =~= enc);
    lemma_b64_round_trip(bytes);
}

/// Decode a canonical base64 text.
pub fn b64_decode(t: &str) -> (r: Option<Vec<u8>>)
    ensures
        match spec_b64_decode(t@) {
            Some(bytes) => r is Some && r->0@ == bytes,
            None => r is None,
        },
{
    let n = t.unicode_len();
    let mut out: Vec<u8> = Vec::new();
    if n == 0 {
        return Some(out);
    }
    if n < 4 || n % 4 != 0 {
        return None;
    }
    let mut i: usize = 0;
    proof {
        assert(t@.skip(0) =~= t@);
        assert(out@ + spec_b64_decode(t@)->0 =~= spec_b64_decode(t@)->0);
    }
    while i < n
        invariant
            i <= n,
            n == t@.len(),
            n % 4 == 0,
            i % 4 == 0,
            n >= 4,
            spec_b64_decode(t@) == (match spec_b64_decode(t@.skip(i as int)) {
                None => None::<Seq<u8>>,
                Some(rest) => Some(out@ + rest),
            }),
        decreases n - i,
    {
        let ghost pre = t@.skip(i as int);
        proof {
            assert(pre.len() == n - i);
            assert(pre[0] == t@[i as int]);
            assert(pre[1] == t@[i as int + 1]);
            assert(pre[2] == t@[i as int + 2]);
            assert(pre[3] == t@[i as int + 3]);
            assert(pre.skip(4) =~= t@.skip(i as int + 4));
        }
        let c0 = t.get_char(i);
        let c1 = t.get_char(i + 1);
        let c2 = t.get_char(i + 2);
        let c3 = t.get_char(i + 3);
        let v0 = b64_val(c0);
        let v1 = b64_val(c1);
        if v0 < 0 || v1 < 0 {
            return None;
        }
        let w0: u8 = v0 as u8;
        let w1: u8 = v1 as u8;
        let ghost out0 = out@;
        if c2 == '=' && c3 == '=' {
            if i + 4 == n && (w1 & 15) == 0 {
                let b0: u8 = (w0 << 2) | (w1 >> 4);
                out.push(b0);
                proof {
                    assert(t@.skip(n as int).len() == 0);
                    assert(spec_b64_decode(pre) == Some(seq![b0]));
                    assert(out@ =~= out0 + seq![b0]);
                    assert(out@ + spec_b64_decode(t@.skip(n as int))->0 =~= out@);
                }
                i = i + 4;
            } else {
                return None;
            }
        } else if c3 == '=' {
            let v2 = b64_val(c2);
            let w2: u8 = if v2 >= 0 { v2 as u8 } else { 0 };
            if i + 4 == n && v2 >= 0 && (w2 & 3) == 0 {
                let b0: u8 = (w0 << 2) | (w1 >> 4);
                let b1: u8 = ((w1 & 15) << 4) | (w2 >> 2);
                out.push(b0);
                out.push(b1);
                proof {
                    assert(t@.skip(n as int).len() == 0);
                    assert(spec_b64_decode(pre) == Some(seq![b0, b1]));
                    assert(out@ =~= out0 + seq![b0, b1]);
                    assert(out@ + spec_b64_decode(t@.skip(n as int))->0 =~= out@);
                }
                i = i + 4;
            } else {
                return None;
            }
        } else {
            let v2 = b64_val(c2);
            let v3 = b64_val(c3);
            if v2 < 0 || v3 < 0 {
                return None;
            }
            let w2: u8 = v2 as u8;
            let w3: u8 = v3 as u8;
            let b0: u8 = (w0 << 2) | (w1 >> 4);
            let b1: u8 = ((w1 & 15) << 4) | (w2 >> 2);
            let b2: u8 = ((w2 & 3) << 6) | w3;
            out.push(b0);
            out.push(b1);
            out.push(b2);
            proof {
                assert(out@ =~= out0 + seq![b0, b1, b2]);
                if spec_b64_decode(t@.skip(i as int + 4)) is Some {
                    let rest = spec_b64_decode(t@.skip(i as int + 4))->0;
                    assert(spec_b64_decode(pre) == Some(seq![b0, b1, b2] + rest));
                    assert(out0 + (seq![b0, b1, b2] + rest) =~= out@ + rest);
                }
            }
            i = i + 4;
        }
    }
    proof {
        assert(t@.skip(n as int).len() == 0);
        assert(spec_b64_decode(t@.skip(n as int)) == Some(Seq::<u8>::empty()));
        assert(out@ + Seq::<u8>::empty() =~= out@);
    }
    Some(out)
}

/// The 6-bit value of a base64 character, or -1.
pub fn b64_val(c: char) -> (r: i32)
    ensures
        r as int == spec_b64_val(c),
{
    let u = c as u32;
    if 65 <= u && u <= 90 {
        (u - 65) as i32
    } else if 97 <= u && u <= 122 {
        (u - 71) as i32
    } else if 48 <= u && u <= 57 {
        (u + 4) as i32
    } else if u == 43 {
        62
    } else if u == 47 {
        63
    } else {
        -1
    }
}

/// ASCII bytes read as characters.
pub open spec fn ascii_chars_of(bytes: Seq<u8>) -> Seq<char> {
    bytes.map_values(|b: u8| b as char)
}

/// Relies on String::from_utf8: ASCII bytes are valid UTF-8, and decode
/// to exactly the characters with the same code points.
#[verifier::external_body]
fn ascii_string(bytes: Vec<u8>) -> (r: String)
    requires
        forall|i: int| 0 <= i < bytes@.len() ==> bytes@[i] < 128,
    ensures
        r@ == ascii_chars_of(bytes@),
{
    String::from_utf8(bytes).unwrap_or_default()
}

/// The ASCII code of the base64 character of a 6-bit value.
fn b64_code(v: u8) -> (r: u8)
    requires
        v < 64,
    ensures
        r as char == spec_b64_char(v as int),
        r < 128,
{
    if v < 26 {
        65 + v
    } else if v < 52 {
        97 + (v - 26)
    } else if v < 62 {
        48 + (v - 52)
    } else if v == 62 {
        43
    } else {
        47
    }
}

/// Encode bytes as base64 ASCII codes.
pub fn b64_encode(bytes: &Vec<u8>) -> (r: Vec<u8>)
    ensures
        ascii_chars_of(r@) == spec_b64_encode(bytes@),
        forall|i: int| 0 <= i < r@.len() ==> r@[i] < 128,
{
    let n = bytes.len();
    let mut out: Vec<u8> = Vec::new();
    let mut i: usize = 0;
    proof {
        assert(bytes@.skip(0) =~= bytes@);
        assert(ascii_chars_of(out@) =~= Seq::<char>::empty());
    }
    while i < n
        invariant
            i <= n,
            n == bytes@.len(),
            forall|k: int| 0 <= k < out@.len() ==> out@[k] < 128,
            spec_b64_encode(bytes@) == ascii_chars_of(out@)
                + spec_b64_encode(bytes@.skip(i as int)),
        decreases n - i,
    {
        let ghost pre = bytes@.skip(i as int);
        let ghost chars0 = ascii_chars_of(out@);
        let remaining = n - i;
        let a = bytes[i];
        proof {
            assert(pre[0] == bytes@[i as int]);
        }
        if remaining == 1 {
            proof { lemma_group_vals_bounded(a, 0, 0); }
            out.push(b64_code(a >> 2));
            out.push(b64_code((a & 3) << 4));
            out.push(61);
            out.push(61);
            proof {
                assert(61u8 as char == '=');
                assert(ascii_chars_of(out@) =~= chars0 + spec_b64_encode(pre));
                assert(bytes@.skip(n as int).len() == 0);
                assert(ascii_chars_of(out@) + spec_b64_encode(bytes@.skip(n as int))
                    =~= ascii_chars_of(out@));
            }
            i = i + 1;
        } else if remaining == 2 {
            let b = bytes[i + 1];
            proof {
                assert(pre[1] == bytes@[i as int + 1]);
                lemma_group_vals_bounded(a, b, 0);
            }
            out.push(b64_code(a >> 2));
            out.push(b64_code(((a & 3) << 4) | (b >> 4)));
            out.push(b64_code((b & 15) << 2));
            out.push(61);
            proof {
                assert(61u8 as char == '=');
                assert(ascii_chars_of(out@) =~= chars0 + spec_b64_encode(pre));
                assert(bytes@.skip(n as int).len() == 0);
                assert(ascii_chars_of(out@) + spec_b64_encode(bytes@.skip(n as int))
                    =~= ascii_chars_of(out@));
            }
            i = i + 2;
        } else {
            let b = bytes[i + 1];
            let c = bytes[i + 2];
            proof {
                assert(pre[1] == bytes@[i as int + 1]);
                assert(pre[2] == bytes@[i as int + 2]);
                lemma_group_vals_bounded(a, b, c);
            }
            out.push(b64_code(a >> 2));
            out.push(b64_code(((a & 3) << 4) | (b >> 4)));
            out.push(b64_code(((b & 15) << 2) | (c >> 6)));
            out.push(b64_code(c & 63));
            proof {
                assert(pre.skip(3) =~= bytes@.skip(i as int + 3));
                assert(ascii_chars_of(out@)
                    =~= chars0 + spec_b64_encode(pre).take(4));
                assert(spec_b64_encode(pre)
                    =~= spec_b64_encode(pre).take(4) + spec_b64_encode(pre.skip(3)));
                assert(chars0 + spec_b64_encode(pre).take(4) + spec_b64_encode(pre.skip(3))
                    =~= chars0 + spec_b64_encode(pre));
            }
            i = i + 3;
        }
    }
    proof {
        assert(bytes@.skip(n as int).len() == 0);
        assert(ascii_chars_of(out@) + Seq::<char>::empty() =~= ascii_chars_of(out@));
        assert(ascii_chars_of(out@) =~= spec_b64_encode(bytes@));
    }
    out
}

/// Exact character equality of two strings.
pub fn str_eq(a: &str, b: &str) -> (r: bool)
    ensures
        r == (a@ == b@),
{
    let n = a.unicode_len();
    if n != b.unicode_len() {
        return false;
    }
    let mut i: usize = 0;
    while i < n
        invariant
            i <= n,
            n == a@.len(),
            n == b@.len(),
            forall|j: int| 0 <= j < i ==> a@[j] == b@[j],
        decreases n - i,
    {
        if a.get_char(i) != b.get_char(i) {
            return false;
        }
        i = i + 1;
    }
    proof {
        assert(a@ =~= b@);
    }
    true
}

/// Whether `s` ends with `suffix`.
pub open spec fn spec_ends_with(s: Seq<char>, suffix: Seq<char>) -> bool {
    s.len() >= suffix.len() && s.subrange(s.len() - suffix.len(), s.len() as int) == suffix
}

/// Whether a string ends with a suffix.
pub fn ends_with(s: &str, suffix: &str) -> (r: bool)
    ensures
        r == spec_ends_with(s@, suffix@),
{
    let n = s.unicode_len();
    let m = suffix.unicode_len();
    if n < m {
        return false;
    }
    let base = n - m;
    let mut i: usize = 0;
    while i < m
        invariant
            i <= m,
            base == n - m,
            n == s@.len(),
            m == suffix@.len(),
            n >= m,
            forall|j: int| 0 <= j < i ==> s@[base + j] == suffix@[j],
        decreases m - i,
    {
        if s.get_char(base + i) != suffix.get_char(i) {
            proof {
                assert(s@.subrange(n - m, n as int)[i as int] == s@[base + i]);
            }
            return false;
        }
        i = i + 1;
    }
    proof {
        assert(s@.subrange(n - m, n as int) =~= suffix@);
    }
    true
}

/// The extension stored for each supported MIME type; unknown types
/// fall back to a generic binary extension.
pub open spec fn spec_mime_to_extension(m: Seq<char>) -> Seq<char> {
    if m == "audio/wav"@ || m == "audio/x-wav"@ {
        "wav"@
    } else if m == "audio/webm"@ {
        "webm"@
    } else if m == "audio/mp3"@ || m == "audio/mpeg"@ {
        "mp3"@
    } else if m == "audio/ogg"@ {
        "ogg"@
    } else if m == "audio/flac"@ {
        "flac"@
    } else {
        "bin"@
    }
}

/// The MIME type served for each known extension; unknown names are
/// served as opaque bytes.
pub open spec fn spec_extension_to_mime(name: Seq<char>) -> Seq<char> {
    if spec_ends_with(name, ".wav"@) {
        "audio/wav"@
    } else if spec_ends_with(name, ".webm"@) {
        "audio/webm"@
    } else if spec_ends_with(name, ".mp3"@) {
        "audio/mpeg"@
    } else if spec_ends_with(name, ".ogg"@) {
        "audio/ogg"@
    } else if spec_ends_with(name, ".flac"@) {
        "audio/flac"@
    } else {
        "application/octet-stream"@
    }
}

/// A filename that cannot leave the audio directory: no separators and
/// no parent references.
pub open spec fn spec_safe_filename(s: Seq<char>) -> bool {
    &&& forall|i: int| 0 <= i < s.len() ==> s[i] != '/' && s[i] != '\u{5c}'
    &&& forall|i: int| #![trigger s[i]] 0 <= i && i + 1 < s.len() ==> !(s[i] == '.' && s[i + 1] == '.')
}

/// Audio blob handling over plain text and bytes.
pub struct AudioFile;

impl AudioFile {
    /// Map a MIME type to the extension its blobs are stored under.
    pub fn mime_to_extension(mime: &str) -> (r: &'static str)
        ensures
            r@ == spec_mime_to_extension(mime@),
    {
        if str_eq(mime, "audio/wav") || str_eq(mime, "audio/x-wav") {
            "wav"
        } else if str_eq(mime, "audio/webm") {
            "webm"
        } else if str_eq(mime, "audio/mp3") || str_eq(mime, "audio/mpeg") {
            "mp3"
        } else if str_eq(mime, "audio/ogg") {
            "ogg"
        } else if str_eq(mime, "audio/flac") {
            "flac"
        } else {
            "bin"
        }
    }

    /// Infer the MIME type from a stored filename.
    pub fn extension_to_mime(filename: &str) -> (r: &'static str)
        ensures
            r@ == spec_extension_to_mime(filename@),
    {
        if ends_with(filename, ".wav") {
            "audio/wav"
        } else if ends_with(filename, ".webm") {
            "audio/webm"
        } else if ends_with(filename, ".mp3") {
            "audio/mpeg"
        } else if ends_with(filename, ".ogg") {
            "audio/ogg"
        } else if ends_with(filename, ".flac") {
            "audio/flac"
        } else {
            "application/octet-stream"
        }
    }

    /// Whether a filename may be used under the audio directory.
    pub fn is_safe_filename(name: &str) -> (r: bool)
        ensures
            r == spec_safe_filename(name@),
    {
        let n = name.unicode_len();
        let mut i: usize = 0;
        while i < n
            invariant
                i <= n,
                n == name@.len(),
                forall|j: int| 0 <= j < i
                    ==> name@[j] != '/' && name@[j] != '\u{5c}',
                forall|j: int| #![trigger name@[j]] 0 <= j < i && j + 1 < n
                    ==> !(name@[j] == '.' && name@[j + 1] == '.'),
            decreases n - i,
        {
            let c = name.get_char(i);
            if c == '/' || c == '\u{5c}' {
                return false;
            }
            if c == '.' && i + 1 < n {
                if name.get_char(i + 1) == '.' {
                    return false;
                }
            }
            i = i + 1;
        }
        true
    }

    /// Parse a base64 data URL into its MIME type, the extension its
    /// payload will be stored under, and the payload bytes.
    pub fn parse_data_url(data_url: &str) -> (r: Result<(String, String, Vec<u8>), AudioError>)
        ensures
            match spec_parse_data_url(data_url@) {
                Some((mime, bytes)) => r is Ok && r->Ok_0.0@ == mime
                    && r->Ok_0.1@ == spec_mime_to_extension(mime)
                    && r->Ok_0.2@ == bytes,
                None => r is Err,
            },
    {
        proof {
            reveal_strlit("data:");
        }
        let n = data_url.unicode_len();
        if n < 5 {
            return Err(AudioError::BadDataUrl);
        }
        if data_url.get_char(0) != 'd' || data_url.get_char(1) != 'a'
            || data_url.get_char(2) != 't' || data_url.get_char(3) != 'a'
            || data_url.get_char(4) != ':' {
            proof {
                assert(data_url@.subrange(0, 5) != "data:"@) by {
                    if data_url@.subrange(0, 5) == "data:"@ {
                        assert(data_url@.subrange(0, 5)[0] == 'd');
                        assert(data_url@.subrange(0, 5)[1] == 'a');
                        assert(data_url@.subrange(0, 5)[2] == 't');
                        assert(data_url@.subrange(0, 5)[3] == 'a');
                        assert(data_url@.subrange(0, 5)[4] == ':');
                    }
                }
            }
            return Err(AudioError::BadDataUrl);
        }
        proof {
            assert(data_url@.subrange(0, 5) =~= "data:"@);
        }
        let ghost tail = data_url@.skip(5);

        // First separator after the scheme.
        let mut p: usize = 5;
        let mut found = false;
        while p < n && !found
            invariant
                5 <= p <= n,
                n == data_url@.len(),
                tail == data_url@.skip(5),
                forall|j: int| 5 <= j < p ==> data_url@[j] != ';',
                found ==> p < n && data_url@[p as int] == ';',
            decreases n - p + (if found { 0int } else { 1int }),
        {
            if data_url.get_char(p) == ';' {
                found = true;
            } else {
                p = p + 1;
            }
        }
        if !found {
            proof {
                assert forall|j: int| 0 <= j < tail.len() implies tail[j] != ';' by {
                    assert(tail[j] == data_url@[j + 5]);
                }
                crate::lookup::lemma_no_occurrence(tail, ';');
            }
            return Err(AudioError::BadDataUrl);
        }
        proof {
            assert(tail[p - 5] == data_url@[p as int]);
            assert forall|j: int| 0 <= j < p - 5 implies tail[j] != ';' by {
                assert(tail[j] == data_url@[j + 5]);
            }
            lemma_first_occurrence_at(tail, ';', p - 5);
        }

        // The base64 marker.
        proof {
            reveal_strlit(";base64,");
        }
        let ghost after = tail.skip(p - 5);
        if n - p < 8 {
            return Err(AudioError::BadDataUrl);
        }
        if data_url.get_char(p + 1) != 'b' || data_url.get_char(p + 2) != 'a'
            || data_url.get_char(p + 3) != 's' || data_url.get_char(p + 4) != 'e'
            || data_url.get_char(p + 5) != '6' || data_url.get_char(p + 6) != '4'
            || data_url.get_char(p + 7) != ',' {
            proof {
                assert forall|j: int| 0 <= j < 8 implies after[j] == data_url@[p + j] by {
                    assert(after[j] == tail[p - 5 + j]);
                    assert(tail[p - 5 + j] == data_url@[p + j]);
                }
                assert(after.subrange(0, 8) != ";base64,"@) by {
                    if after.subrange(0, 8) == ";base64,"@ {
                        assert(after.subrange(0, 8)[1] == 'b');
                        assert(after.subrange(0, 8)[2] == 'a');
                        assert(after.subrange(0, 8)[3] == 's');
                        assert(after.subrange(0, 8)[4] == 'e');
                        assert(after.subrange(0, 8)[5] == '6');
                        assert(after.subrange(0, 8)[6] == '4');
                        assert(after.subrange(0, 8)[7] == ',');
                    }
                }
            }
            return Err(AudioError::BadDataUrl);
        }
        proof {
            assert forall|j: int| 0 <= j < 8 implies after[j] == data_url@[p + j] by {
                assert(after[j] == tail[p - 5 + j]);
                assert(tail[p - 5 + j] == data_url@[p + j]);
            }
            assert(after.subrange(0, 8) =~= ";base64,"@);
        }

        let payload = data_url.substring_char(p + 8, n);
        proof {
            assert(payload@ =~= after.skip(8));
        }
        let bytes = match b64_decode(payload) {
            Some(b) => b,
            None => {
                return Err(AudioError::BadBase64);
            },
        };
        let mime_str = data_url.substring_char(5, p);
        proof {
            assert(mime_str@ =~= tail.take(p - 5));
        }
        let ext = Self::mime_to_extension(mime_str);
        let mime = String::from_str(mime_str);
        let ext_string = String::from_str(ext);
        Ok((mime, ext_string, bytes))
    }
}

/// Encode a payload as a base64 data URL.
pub fn encode_data_url(mime: &str, bytes: &Vec<u8>) -> (r: String)
    requires
        vstd::string::is_ascii(mime),
    ensures
        r@ == spec_encode_data_url(mime@, bytes@),
{
    proof {
        lemma_ascii_chars_of_ascii_str(mime);
    }
    proof {
        reveal_strlit("data:");
        reveal_strlit(";base64,");
        broadcast use vstd::string::is_ascii_spec_bytes;
    }
    let mut out: Vec<u8> = Vec::new();
    out.push(100);
    out.push(97);
    out.push(116);
    out.push(97);
    out.push(58);
    proof {
        assert(ascii_chars_of(out@) =~= "data:"@);
    }
    let mb = mime.as_bytes();
    let mut i: usize = 0;
    while i < mb.len()
        invariant
            i <= mb@.len(),
            mb@ == mime.spec_bytes(),
            ascii_chars_of(mime.spec_bytes()) == mime@,
            forall|k: int| 0 <= k < mb@.len() ==> mb@[k] < 128,
            forall|k: int| 0 <= k < out@.len() ==> out@[k] < 128,
            ascii_chars_of(out@) == "data:"@ + ascii_chars_of(mb@.subrange(0, i as int)),
        decreases mb@.len() - i,
    {
        let ghost out_prev = out@;
        out.push(mb[i]);
        proof {
            assert(mb@.subrange(0, i + 1 as int)
                =~= mb@.subrange(0, i as int) + seq![mb@[i as int]]);
            assert(ascii_chars_of(out@)
                =~= ascii_chars_of(out_prev) + seq![mb@[i as int] as char]);
            assert(ascii_chars_of(mb@.subrange(0, i + 1 as int))
                =~= ascii_chars_of(mb@.subrange(0, i as int)) + seq![mb@[i as int] as char]);
            assert(ascii_chars_of(out@)
                =~= "data:"@ + ascii_chars_of(mb@.subrange(0, i + 1 as int)));
        }
        i = i + 1;
    }
    proof {
        assert(mb@.subrange(0, mb@.len() as int) =~= mb@);
    }
    out.push(59);
    out.push(98);
    out.push(97);
    out.push(115);
    out.push(101);
    out.push(54);
    out.push(52);
    out.push(44);
    proof {
        assert(ascii_chars_of(out@) =~= "data:"@ + mime@ + ";base64,"@);
    }
    let ghost head = out@;
    let enc = b64_encode(bytes);
    let mut j: usize = 0;
    while j < enc.len()
        invariant
            j <= enc@.len(),
            ascii_chars_of(enc@) == spec_b64_encode(bytes@),
            forall|k: int| 0 <= k < enc@.len() ==> enc@[k] < 128,
            forall|k: int| 0 <= k < out@.len() ==> out@[k] < 128,
            ascii_chars_of(out@) == "data:"@ + mime@ + ";base64,"@
                + ascii_chars_of(enc@.subrange(0, j as int)),
        decreases enc@.len() - j,
    {
        let ghost out_prev = out@;
        out.push(enc[j]);
        proof {
            assert(enc@.subrange(0, j + 1 as int)
                =~= enc@.subrange(0, j as int) + seq![enc@[j as int]]);
            assert(ascii_chars_of(out@)
                =~= ascii_chars_of(out_prev) + seq![enc@[j as int] as char]);
            assert(ascii_chars_of(enc@.subrange(0, j + 1 as int))
                =~= ascii_chars_of(enc@.subrange(0, j as int)) + seq![enc@[j as int] as char]);
            assert(ascii_chars_of(out@) =~= "data:"@ + mime@ + ";base64,"@
                + ascii_chars_of(enc@.subrange(0, j + 1 as int)));
        }
        j = j + 1;
    }
    proof {
        assert(enc@.subrange(0, enc@.len() as int) =~= enc@);
    }
    ascii_string(out)
}

/// An ASCII string's bytes read back as its characters.
proof fn lemma_ascii_chars_of_ascii_str(s: &str)
    requires
        vstd::string::is_ascii(s),
    ensures
        ascii_chars_of(s.spec_bytes()) == s@,
        s.spec_bytes().len() == s@.len(),
        forall|i: int| 0 <= i < s.spec_bytes().len() ==> s.spec_bytes()[i] < 128,
{
    vstd::utf8::is_ascii_chars_encode_utf8(s@);
    vstd::utf8::is_ascii_chars_nat_bound(s@);
    assert(ascii_chars_of(s.spec_bytes()) =~= s@);
}

} // verus!
