//! Percent-encoding of path segments and query parameters.
//!
//! A name travels as ONE path segment: every byte of its UTF-8 encoding
//! outside the RFC 3986 unreserved set (`A-Z a-z 0-9 - _ . ~`) is written
//! as `%XX` with upper-case hex, so `plant a/plc1` becomes
//! `plant%20a%2Fplc1`.
use vstd::prelude::*;
use crate::text::string_of;

verus! {

/// RFC 3986 unreserved byte: passes through unencoded.
pub open spec fn is_unreserved(b: u8) -> bool {
    (0x41 <= b <= 0x5a) || (0x61 <= b <= 0x7a) || (0x30 <= b <= 0x39) || b == 0x2d || b == 0x5f
        || b == 0x2e || b == 0x7e
}

/// Upper-case hex digit for `n < 16`.
pub open spec fn hex_digit(n: u8) -> char {
    if n < 10 {
        (0x30 + n) as char
    } else {
        (0x41 + n - 10) as char
    }
}

/// How one byte is written.
pub open spec fn encode_byte(b: u8) -> Seq<char> {
    if is_unreserved(b) {
        seq![b as char]
    } else {
        seq!['%', hex_digit(b / 16), hex_digit(b % 16)]
    }
}

/// The percent-encoding of a byte string.
pub open spec fn percent_encode(bytes: Seq<u8>) -> Seq<char>
    decreases bytes.len(),
{
    if bytes.len() == 0 {
        Seq::empty()
    } else {
        percent_encode(bytes.drop_last()) + encode_byte(bytes.last())
    }
}

/// The encoded form of a text: its UTF-8 bytes, percent-encoded.
pub open spec fn url_encoded(s: Seq<char>) -> Seq<char> {
    percent_encode(vstd::utf8::encode_utf8(s))
}

/// A character the encoding may emit: an unreserved ASCII character, `%`,
/// or an upper-case hex digit.
pub open spec fn is_encoded_char(c: char) -> bool {
    ('A' <= c <= 'Z') || ('a' <= c <= 'z') || ('0' <= c <= '9') || c == '-' || c == '_' || c == '.'
        || c == '~' || c == '%'
}

proof fn lemma_encode_byte_chars(b: u8)
    ensures
        forall|i: int| 0 <= i < encode_byte(b).len() ==> is_encoded_char(#[trigger] encode_byte(b)[i]),
{
    assert(b / 16 < 16 && b % 16 < 16);
}

proof fn lemma_percent_encode_chars(bytes: Seq<u8>)
    ensures
        forall|i: int|
            0 <= i < percent_encode(bytes).len() ==> is_encoded_char(#[trigger] percent_encode(bytes)[i]),
        !percent_encode(bytes).contains('/'),
    decreases bytes.len(),
{
    if bytes.len() > 0 {
        lemma_percent_encode_chars(bytes.drop_last());
        lemma_encode_byte_chars(bytes.last());
        let a = percent_encode(bytes.drop_last());
        let e = encode_byte(bytes.last());
        assert forall|i: int| 0 <= i < percent_encode(bytes).len() implies is_encoded_char(
            #[trigger] percent_encode(bytes)[i],
        ) by {
            if i < a.len() {
                assert(percent_encode(bytes)[i] == a[i]);
            } else {
                assert(percent_encode(bytes)[i] == e[i - a.len()]);
            }
        }
    }
    if percent_encode(bytes).contains('/') {
        let i = choose|i: int| 0 <= i < percent_encode(bytes).len() && percent_encode(bytes)[i] == '/';
        assert(is_encoded_char(percent_encode(bytes)[i]));
    }
}

/// An encoded name is one path segment: it holds only unreserved ASCII
/// characters, `%` and hex digits — never a `/`, so a name with slashes
/// (`plant a/plc1`) still travels as one segment.
pub proof fn law_encoding_is_one_segment(s: Seq<char>)
    ensures
        forall|i: int| 0 <= i < url_encoded(s).len() ==> is_encoded_char(#[trigger] url_encoded(s)[i]),
        !url_encoded(s).contains('/'),
{
    lemma_percent_encode_chars(vstd::utf8::encode_utf8(s));
}

/// The value of an upper-case hex digit.
pub open spec fn hex_value_of(c: char) -> int {
    if '0' <= c <= '9' {
        (c as u32) - 0x30
    } else {
        (c as u32) - 0x41 + 10
    }
}

/// Reading an encoding back: `%XX` is the byte `XX`, any other character
/// the byte of its code point.
pub open spec fn percent_decode(s: Seq<char>) -> Seq<u8>
    decreases s.len(),
{
    if s.len() == 0 {
        Seq::empty()
    } else if s[0] == '%' && s.len() >= 3 {
        seq![(16 * hex_value_of(s[1]) + hex_value_of(s[2])) as u8] + percent_decode(s.skip(3))
    } else {
        seq![(s[0] as u32) as u8] + percent_decode(s.skip(1))
    }
}

proof fn lemma_percent_encode_concat(x: Seq<u8>, y: Seq<u8>)
    ensures
        percent_encode(x + y) == percent_encode(x) + percent_encode(y),
    decreases y.len(),
{
    if y.len() == 0 {
        assert(x + y =~= x);
        assert(percent_encode(x) + percent_encode(y) =~= percent_encode(x));
    } else {
        lemma_percent_encode_concat(x, y.drop_last());
        assert((x + y).drop_last() =~= x + y.drop_last());
        assert((x + y).last() == y.last());
        assert(percent_encode(x + y) =~= percent_encode(x) + percent_encode(y));
    }
}

proof fn lemma_hex_digit_value(n: u8)
    requires
        n < 16,
    ensures
        hex_value_of(hex_digit(n)) == n,
{
}

proof fn lemma_decode_one_byte(b: u8, rest: Seq<char>)
    ensures
        percent_decode(encode_byte(b) + rest) == seq![b] + percent_decode(rest),
{
    let s = encode_byte(b) + rest;
    if is_unreserved(b) {
        assert(s[0] == b as char);
        assert(s.skip(1) =~= rest);
    } else {
        lemma_hex_digit_value(b / 16);
        lemma_hex_digit_value(b % 16);
        assert(s[0] == '%' && s[1] == hex_digit(b / 16) && s[2] == hex_digit(b % 16));
        assert(s.skip(3) =~= rest);
        assert((16 * hex_value_of(s[1]) + hex_value_of(s[2])) as u8 == b);
    }
}

proof fn lemma_decode_encode(x: Seq<u8>)
    ensures
        percent_decode(percent_encode(x)) == x,
    decreases x.len(),
{
    if x.len() > 0 {
        let rest = x.drop_first();
        assert(x =~= seq![x[0]] + rest);
        lemma_percent_encode_concat(seq![x[0]], rest);
        let one = seq![x[0]];
        assert(one.drop_last() =~= Seq::<u8>::empty());
        assert(percent_encode(one.drop_last()) =~= Seq::<char>::empty());
        assert(percent_encode(one) == percent_encode(one.drop_last()) + encode_byte(one.last()));
        assert(percent_encode(one) =~= encode_byte(x[0]));
        lemma_decode_one_byte(x[0], percent_encode(rest));
        lemma_decode_encode(rest);
    }
}

/// Distinct names never share an encoding: `url_encoded` is one-to-one,
/// so each resource name maps to its own URL segment.
pub proof fn law_encoding_is_injective(a: Seq<char>, b: Seq<char>)
    ensures
        url_encoded(a) == url_encoded(b) ==> a == b,
{
    let ea = vstd::utf8::encode_utf8(a);
    let eb = vstd::utf8::encode_utf8(b);
    lemma_decode_encode(ea);
    lemma_decode_encode(eb);
    vstd::utf8::encode_utf8_decode_utf8(a);
    vstd::utf8::encode_utf8_decode_utf8(b);
}

fn hex_char(n: u8) -> (c: char)
    requires
        n < 16,
    ensures
        c == hex_digit(n),
{
    if n < 10 {
        (0x30u8 + n) as char
    } else {
        (0x41u8 + n - 10) as char
    }
}

/// Percent-encodes the UTF-8 bytes of `s` (one path segment or query part).
pub fn url_encode(s: &str) -> (r: Vec<char>)
    ensures
        r@ == url_encoded(s@),
{
    let bytes = s.as_bytes();
    let mut r: Vec<char> = Vec::new();
    for i in 0..bytes.len()
        invariant
            bytes@ == vstd::utf8::encode_utf8(s@),
            r@ == percent_encode(bytes@.take(i as int)),
    {
        let b = bytes[i];
        assert(bytes@.take(i + 1).drop_last() == bytes@.take(i as int));
        if (0x41 <= b && b <= 0x5a) || (0x61 <= b && b <= 0x7a) || (0x30 <= b && b <= 0x39) || b
            == 0x2d || b == 0x5f || b == 0x2e || b == 0x7e {
            r.push(b as char);
        } else {
            r.push('%');
            r.push(hex_char(b / 16));
            r.push(hex_char(b % 16));
        }
    }
    assert(bytes@.take(bytes@.len() as int) == bytes@);
    r
}

/// Percent-encodes a character sequence.
pub fn url_encode_chars(s: &[char]) -> (r: Vec<char>)
    ensures
        r@ == url_encoded(s@),
{
    let st = string_of(s);
    url_encode(st.as_str())
}

} // verus!
