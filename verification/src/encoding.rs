//! Small text encodings used by the HTTP handlers: percent-encoding,
//! percent-decoding and HTML escaping, and a timing-safe byte comparison.

use vstd::prelude::*;
use vstd::utf8::encode_utf8;
use crate::text::{char_from_ascii, chars_of, from_utf8_lossy, push_char, push_str, utf8_lossy};

verus! {

/// Whether byte `b` is left as it is by percent-encoding (RFC 3986
/// unreserved: letters, digits, `-`, `_`, `.`, `~`).
pub open spec fn is_unreserved(b: u8) -> bool {
    (65 <= b <= 90) || (97 <= b <= 122) || (48 <= b <= 57) || b == 45 || b == 95 || b == 46
        || b == 126
}

/// Upper-case hexadecimal digit of a value below 16.
pub open spec fn hex_upper(v: int) -> char {
    if v < 10 {
        (48 + v) as char
    } else {
        (55 + v) as char
    }
}

/// Percent-encoding of one byte.
pub open spec fn encode_byte(b: u8) -> Seq<char> {
    if is_unreserved(b) {
        seq![b as char]
    } else {
        seq!['%', hex_upper(b as int / 16), hex_upper(b as int % 16)]
    }
}

/// Percent-encoding of a byte string, byte by byte.
pub open spec fn percent_encode(bytes: Seq<u8>) -> Seq<char>
    decreases bytes.len(),
{
    if bytes.len() == 0 {
        Seq::empty()
    } else {
        percent_encode(bytes.drop_last()) + encode_byte(bytes.last())
    }
}

fn hex_upper_exec(v: u8) -> (c: char)
    requires
        v < 16,
    ensures
        c == hex_upper(v as int),
{
    if v < 10 {
        char_from_ascii(48 + v)
    } else {
        char_from_ascii(55 + v)
    }
}

/// Percent-encodes the UTF-8 bytes of `s`, leaving unreserved characters
/// as they are.
pub fn urlencoding_lite(s: &str) -> (r: String)
    ensures
        r@ == percent_encode(encode_utf8(s@)),
{
    let bytes = s.as_bytes();
    let mut out = String::new();
    let mut i: usize = 0;
    while i < bytes.len()
        invariant
            i <= bytes@.len(),
            bytes@ == encode_utf8(s@),
            out@ == percent_encode(bytes@.take(i as int)),
        decreases bytes.len() - i,
    {
        let b = bytes[i];
        let ghost before = out@;
        if (65 <= b && b <= 90) || (97 <= b && b <= 122) || (48 <= b && b <= 57) || b == 45 || b
            == 95 || b == 46 || b == 126 {
            push_char(&mut out, char_from_ascii(b));
        } else {
            push_char(&mut out, '%');
            push_char(&mut out, hex_upper_exec(b / 16));
            push_char(&mut out, hex_upper_exec(b % 16));
        }
        proof {
            assert(bytes@.take(i + 1).drop_last() =~= bytes@.take(i as int));
            assert(out@ =~= before + encode_byte(b));
        }
        i += 1;
    }
    assert(bytes@.take(i as int) =~= bytes@);
    out
}

/// Value of a hexadecimal digit byte, if it is one.
pub open spec fn hex_value(b: u8) -> Option<int> {
    if 48 <= b <= 57 {
        Some(b - 48)
    } else if 65 <= b <= 70 {
        Some(b - 55)
    } else if 97 <= b <= 102 {
        Some(b - 87)
    } else {
        None
    }
}

/// `u8::from_str_radix(.., 16)` of the two-byte text `b1 b2`: two hex
/// digits, or `+` and one hex digit.
pub open spec fn hex_pair(b1: u8, b2: u8) -> Option<u8> {
    match (hex_value(b1), hex_value(b2)) {
        (Some(h), Some(l)) => Some((h * 16 + l) as u8),
        (None, Some(l)) => if b1 == 43 {
            Some(l as u8)
        } else {
            None
        },
        _ => None,
    }
}

/// Percent-decoding of a byte string: `%` followed by two bytes
/// that read as a hex pair becomes that byte; everything else is kept.
pub open spec fn percent_decode(bytes: Seq<u8>) -> Seq<u8>
    decreases bytes.len(),
{
    if bytes.len() == 0 {
        Seq::empty()
    } else if bytes[0] == 37 && bytes.len() > 2 && hex_pair(bytes[1], bytes[2]) is Some {
        seq![hex_pair(bytes[1], bytes[2])->0] + percent_decode(bytes.skip(3))
    } else {
        seq![bytes[0]] + percent_decode(bytes.skip(1))
    }
}

fn hex_value_exec(b: u8) -> (r: Option<u8>)
    ensures
        match hex_value(b) {
            Some(v) => r == Some(v as u8),
            None => r is None,
        },
{
    if 48 <= b && b <= 57 {
        Some(b - 48)
    } else if 65 <= b && b <= 70 {
        Some(b - 55)
    } else if 97 <= b && b <= 102 {
        Some(b - 87)
    } else {
        None
    }
}

fn hex_pair_exec(b1: u8, b2: u8) -> (r: Option<u8>)
    ensures
        r == hex_pair(b1, b2),
{
    match (hex_value_exec(b1), hex_value_exec(b2)) {
        (Some(h), Some(l)) => Some(h * 16 + l),
        (None, Some(l)) => if b1 == 43 {
            Some(l)
        } else {
            None
        },
        _ => None,
    }
}

/// Whether percent-decoding `s` gives the UTF-8 form of the text `t`.
pub open spec fn decodes_to(s: Seq<char>, t: Seq<char>) -> bool {
    percent_decode(encode_utf8(s)) == encode_utf8(t)
}

/// Percent-decodes `s` and reads the bytes back as UTF-8, replacing
/// invalid sequences; bytes that are the UTF-8 form of a text give that
/// text.
pub fn urlencoding_lite_decode(s: &str) -> (r: String)
    ensures
        r@ == utf8_lossy(percent_decode(encode_utf8(s@))),
        forall|t: Seq<char>| #[trigger] decodes_to(s@, t) ==> r@ == t,
{
    let bytes = s.as_bytes();
    let n = bytes.len();
    let mut out: Vec<u8> = Vec::new();
    let mut i: usize = 0;
    assert(bytes@.skip(0) =~= bytes@);
    assert(out@ + percent_decode(bytes@) =~= percent_decode(bytes@));
    while i < n
        invariant
            i <= n,
            n == bytes@.len(),
            bytes@ == encode_utf8(s@),
            out@ + percent_decode(bytes@.skip(i as int)) == percent_decode(bytes@),
        decreases n - i,
    {
        let ghost rest = bytes@.skip(i as int);
        if bytes[i] == 37 && n - i > 2 {
            match hex_pair_exec(bytes[i + 1], bytes[i + 2]) {
                Some(v) => {
                    proof {
                        assert(rest[1] == bytes@[i + 1] && rest[2] == bytes@[i + 2]);
                        assert(rest.skip(3) =~= bytes@.skip(i + 3));
                        assert(out@.push(v) + percent_decode(rest.skip(3)) =~= out@ + (seq![v]
                            + percent_decode(rest.skip(3))));
                    }
                    out.push(v);
                    i += 3;
                    continue;
                },
                None => {
                    proof {
                        assert(rest[1] == bytes@[i + 1] && rest[2] == bytes@[i + 2]);
                    }
                },
            }
        }
        proof {
            assert(rest.skip(1) =~= bytes@.skip(i + 1));
            assert(rest[0] == bytes@[i as int]);
            assert(out@.push(bytes@[i as int]) + percent_decode(rest.skip(1)) =~= out@ + (seq![
                bytes@[i as int],
            ] + percent_decode(rest.skip(1))));
        }
        out.push(bytes[i]);
        i += 1;
    }
    proof {
        assert(bytes@.skip(i as int) =~= Seq::<u8>::empty());
        assert(out@ + Seq::<u8>::empty() =~= out@);
    }
    from_utf8_lossy(out.as_slice())
}

/// HTML escaping of one character.
pub open spec fn escape_char(c: char) -> Seq<char> {
    if c == '&' {
        "&amp;"@
    } else if c == '<' {
        "&lt;"@
    } else if c == '>' {
        "&gt;"@
    } else if c == '"' {
        "&quot;"@
    } else {
        seq![c]
    }
}

/// HTML escaping of a text, character by character.
pub open spec fn escape_html_spec(s: Seq<char>) -> Seq<char>
    decreases s.len(),
{
    if s.len() == 0 {
        Seq::empty()
    } else {
        escape_html_spec(s.drop_last()) + escape_char(s.last())
    }
}

/// Escapes `&`, `<`, `>` and `"` for inclusion in HTML.
pub fn escape_html(s: &str) -> (r: String)
    ensures
        r@ == escape_html_spec(s@),
{
    let v = chars_of(s);
    let mut out = String::new();
    let mut i: usize = 0;
    while i < v.len()
        invariant
            i <= v@.len(),
            v@ == s@,
            out@ == escape_html_spec(v@.take(i as int)),
        decreases v.len() - i,
    {
        let c = v[i];
        let ghost before = out@;
        if c == '&' {
            push_str(&mut out, "&amp;");
        } else if c == '<' {
            push_str(&mut out, "&lt;");
        } else if c == '>' {
            push_str(&mut out, "&gt;");
        } else if c == '"' {
            push_str(&mut out, "&quot;");
        } else {
            push_char(&mut out, c);
        }
        proof {
            assert(v@.take(i + 1).drop_last() =~= v@.take(i as int));
            assert(out@ =~= before + escape_char(c));
        }
        i += 1;
    }
    assert(v@.take(i as int) =~= v@);
    out
}

/// Timing-safe equality of two byte strings of the same length; strings of
/// different lengths are unequal at once.
pub fn subtle_eq(a: &[u8], b: &[u8]) -> (r: bool)
    ensures
        r == (a@ == b@),
{
    if a.len() != b.len() {
        return false;
    }
    let mut diff: u8 = 0;
    let mut i: usize = 0;
    while i < a.len()
        invariant
            a@.len() == b@.len(),
            i <= a@.len(),
            (diff == 0) == (forall|k: int| 0 <= k < i ==> a@[k] == b@[k]),
        decreases a.len() - i,
    {
        let x = a[i];
        let y = b[i];
        let old_diff = diff;
        diff = diff | (x ^ y);
        proof {
            assert((old_diff | (x ^ y)) == 0 <==> (old_diff == 0 && x == y)) by (bit_vector);
        }
        i += 1;
    }
    proof {
        if diff == 0 {
            assert(a@ =~= b@);
        }
    }
    diff == 0
}

/// The bytes of an ASCII text.
pub open spec fn ascii_bytes(chars: Seq<char>) -> Seq<u8> {
    chars.map_values(|c: char| c as u8)
}

proof fn lemma_encode_byte_ascii(b: u8)
    ensures
        vstd::utf8::is_ascii_chars(encode_byte(b)),
{
}

proof fn lemma_percent_encode_ascii(b: Seq<u8>)
    ensures
        vstd::utf8::is_ascii_chars(percent_encode(b)),
    decreases b.len(),
{
    if b.len() > 0 {
        lemma_percent_encode_ascii(b.drop_last());
        lemma_encode_byte_ascii(b.last());
        let l = percent_encode(b.drop_last());
        let e = encode_byte(b.last());
        assert forall|i: int| 0 <= i < (l + e).len() implies '\0' <= #[trigger] (l + e)[i] <= '\u{7f}' by {
            if i < l.len() {
                assert((l + e)[i] == l[i]);
            } else {
                assert((l + e)[i] == e[i - l.len()]);
            }
        }
    }
}

proof fn lemma_percent_encode_front(b: Seq<u8>)
    requires
        b.len() > 0,
    ensures
        percent_encode(b) == encode_byte(b[0]) + percent_encode(b.drop_first()),
    decreases b.len(),
{
    if b.len() == 1 {
        assert(b.drop_last() =~= Seq::<u8>::empty());
        assert(b.drop_first() =~= Seq::<u8>::empty());
        assert(percent_encode(b) =~= encode_byte(b[0]) + percent_encode(b.drop_first()));
    } else {
        lemma_percent_encode_front(b.drop_last());
        assert(b.drop_last().drop_first() =~= b.drop_first().drop_last());
        assert(b.drop_first().last() == b.last());
        assert(b.drop_last()[0] == b[0]);
        assert(percent_encode(b) =~= encode_byte(b[0]) + percent_encode(b.drop_first()));
    }
}

proof fn lemma_hex_upper_value(v: int)
    requires
        0 <= v < 16,
    ensures
        hex_value(hex_upper(v) as u8) == Some(v),
{
}

proof fn lemma_decode_step(x: u8, rest: Seq<u8>)
    ensures
        percent_decode(ascii_bytes(encode_byte(x)) + rest) == seq![x] + percent_decode(rest),
{
    let s = ascii_bytes(encode_byte(x)) + rest;
    if is_unreserved(x) {
        assert(s[0] == x);
        assert(s.skip(1) =~= rest);
    } else {
        let h = x as int / 16;
        let l = x as int % 16;
        lemma_hex_upper_value(h);
        lemma_hex_upper_value(l);
        assert(s[0] == 37u8);
        assert(s[1] == hex_upper(h) as u8);
        assert(s[2] == hex_upper(l) as u8);
        assert(hex_pair(s[1], s[2]) == Some(x));
        assert(s.skip(3) =~= rest);
    }
}

proof fn lemma_decode_encoded(b: Seq<u8>)
    ensures
        percent_decode(ascii_bytes(percent_encode(b))) == b,
    decreases b.len(),
{
    if b.len() == 0 {
        assert(ascii_bytes(percent_encode(b)) =~= Seq::<u8>::empty());
    } else {
        lemma_percent_encode_front(b);
        lemma_decode_encoded(b.drop_first());
        let e = encode_byte(b[0]);
        let r = percent_encode(b.drop_first());
        assert(ascii_bytes(e + r) =~= ascii_bytes(e) + ascii_bytes(r));
        lemma_decode_step(b[0], ascii_bytes(r));
        assert(seq![b[0]] + b.drop_first() =~= b);
    }
}

/// Percent-decoding undoes percent-encoding: the UTF-8 bytes of the
/// encoded text decode to the original bytes.
pub proof fn law_percent_decoding_undoes_encoding(b: Seq<u8>)
    ensures
        percent_decode(encode_utf8(percent_encode(b))) == b,
{
    let e = percent_encode(b);
    lemma_percent_encode_ascii(b);
    vstd::utf8::is_ascii_chars_encode_utf8(e);
    assert(encode_utf8(e) =~= ascii_bytes(e));
    lemma_decode_encoded(b);
}

/// Decoding the percent-encoding of a text gives the text back: the
/// encoding of `t` decodes to `t` (so `urlencoding_lite_decode` of
/// `urlencoding_lite(t)` is `t`).
pub proof fn law_decoding_undoes_encoding_of_text(t: Seq<char>)
    ensures
        decodes_to(percent_encode(encode_utf8(t)), t),
{
    law_percent_decoding_undoes_encoding(encode_utf8(t));
}

} // verus!
