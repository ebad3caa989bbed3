//! Hex codec: conversion between byte sequences and their textual hex form.
//!
//! Encoding and decoding are performed by the `hex` crate; the mathematical
//! meaning of both directions is pinned down here by the spec functions
//! [`spec_hex_encode`] and [`spec_hex_decode`], and the two directions are
//! proved inverse to one another.

use vstd::prelude::*;

verus! {

/// Why a hex string failed to decode.
#[derive(Debug, PartialEq, Eq, Clone)]
pub enum HexDecodeError {
    /// The input held an odd number of hex digits.
    OddLength,
    /// The input held a character that is no hex digit; `c` is the first such
    /// character and `index` its position.
    InvalidHexCharacter { c: char, index: usize },
}

impl HexDecodeError {
    /// A human-readable cause for the failure.
    pub fn message(&self) -> (r: String)
        ensures
            (self matches HexDecodeError::OddLength ==> r@ == "odd number of hex digits"@),
            (self matches HexDecodeError::InvalidHexCharacter { .. } ==> r@
                == "invalid hex character"@),
    {
        match self {
            HexDecodeError::OddLength => "odd number of hex digits".to_owned(),
            HexDecodeError::InvalidHexCharacter { .. } => "invalid hex character".to_owned(),
        }
    }
}

/// A hex digit: `0-9`, `a-f` or `A-F`.
pub open spec fn is_hex_digit(c: char) -> bool {
    ('0' <= c && c <= '9') || ('a' <= c && c <= 'f') || ('A' <= c && c <= 'F')
}

/// The numeric value of a hex digit.
pub open spec fn hex_val(c: char) -> u8
    recommends
        is_hex_digit(c),
{
    if '0' <= c && c <= '9' {
        ((c as u32) - ('0' as u32)) as u8
    } else if 'a' <= c && c <= 'f' {
        ((c as u32) - ('a' as u32) + 10) as u8
    } else {
        ((c as u32) - ('A' as u32) + 10) as u8
    }
}

/// The lowercase hex digit for a value below 16.
pub open spec fn hex_char(v: u8) -> char
    recommends
        v < 16,
{
    if v == 0 { '0' }
    else if v == 1 { '1' }
    else if v == 2 { '2' }
    else if v == 3 { '3' }
    else if v == 4 { '4' }
    else if v == 5 { '5' }
    else if v == 6 { '6' }
    else if v == 7 { '7' }
    else if v == 8 { '8' }
    else if v == 9 { '9' }
    else if v == 10 { 'a' }
    else if v == 11 { 'b' }
    else if v == 12 { 'c' }
    else if v == 13 { 'd' }
    else if v == 14 { 'e' }
    else { 'f' }
}

/// Every character of `s` is a hex digit.
pub open spec fn hex_digits_only(s: Seq<char>) -> bool {
    forall|i: int| 0 <= i < s.len() ==> is_hex_digit(#[trigger] s[i])
}

/// A decodable hex string: an even number of characters, all hex digits.
pub open spec fn valid_hex(s: Seq<char>) -> bool {
    s.len() % 2 == 0 && hex_digits_only(s)
}

/// Every character of `s` is ASCII.
pub open spec fn ascii_only(s: Seq<char>) -> bool {
    forall|i: int| 0 <= i < s.len() ==> (#[trigger] s[i] as u32) < 128
}

/// The position of the first character of `s` that is no hex digit, or
/// `s.len()` if all are.
pub open spec fn first_non_hex(s: Seq<char>) -> int
    decreases s.len(),
{
    if s.len() == 0 {
        0
    } else if !is_hex_digit(s[0]) {
        0
    } else {
        1 + first_non_hex(s.drop_first())
    }
}

/// The byte written as the two hex digits `c1` (high nibble) and `c2`.
pub open spec fn hex_byte(c1: char, c2: char) -> u8
    recommends
        is_hex_digit(c1),
        is_hex_digit(c2),
{
    (hex_val(c1) * 16 + hex_val(c2)) as u8
}

/// The byte sequence a valid hex string denotes: each pair of digits, taken
/// in order, becomes one byte.
pub open spec fn spec_hex_decode(s: Seq<char>) -> Seq<u8>
    recommends
        valid_hex(s),
    decreases s.len(),
{
    if s.len() < 2 {
        Seq::empty()
    } else {
        seq![hex_byte(s[0], s[1])] + spec_hex_decode(s.skip(2))
    }
}

/// The lowercase hex spelling of a byte sequence: each byte, in order,
/// becomes two hex digits, high nibble first.
pub open spec fn spec_hex_encode(b: Seq<u8>) -> Seq<char>
    decreases b.len(),
{
    if b.len() == 0 {
        Seq::empty()
    } else {
        seq![hex_char(b[0] / 16), hex_char(b[0] % 16)] + spec_hex_encode(b.drop_first())
    }
}

/// Relies on `hex::decode`: an input whose UTF-8 form has an odd number of
/// bytes is refused as odd-length; otherwise each pair of hex digits (either
/// case) becomes one byte, and the first byte that is no hex digit is
/// reported together with its position.
#[verifier::external_body]
fn hex_decode_raw(s: &str) -> (r: Result<Vec<u8>, HexDecodeError>)
    ensures
        r is Ok <==> valid_hex(s@),
        (r is Ok ==> r->Ok_0@ == spec_hex_decode(s@)),
        (ascii_only(s@) && s@.len() % 2 == 1 ==> r == Err::<Vec<u8>, HexDecodeError>(
            HexDecodeError::OddLength,
        )),
        (ascii_only(s@) && s@.len() % 2 == 0 && !hex_digits_only(s@) ==> r == Err::<
            Vec<u8>,
            HexDecodeError,
        >((HexDecodeError::InvalidHexCharacter {
            c: s@[first_non_hex(s@)],
            index: first_non_hex(s@) as usize,
        }))),
{
    match hex::decode(s) {
        Ok(v) => Ok(v),
        Err(hex::FromHexError::OddLength) => Err(HexDecodeError::OddLength),
        Err(hex::FromHexError::InvalidHexCharacter { c, index }) => {
            Err(HexDecodeError::InvalidHexCharacter { c, index })
        },
        Err(hex::FromHexError::InvalidStringLength) => Err(HexDecodeError::OddLength),
    }
}

/// Relies on `hex::encode`: each input byte becomes exactly two lowercase hex
/// digits, high nibble first.
#[verifier::external_body]
fn hex_encode_raw(bytes: &[u8]) -> (r: String)
    ensures
        r@ == spec_hex_encode(bytes@),
{
    hex::encode(bytes)
}

/// Decodes a hex string into its bytes.
///
/// Succeeds exactly on an even number of hex digits (either case); fails with
/// [`HexDecodeError::OddLength`] on an odd number of digits and with
/// [`HexDecodeError::InvalidHexCharacter`] on the first character that is no
/// hex digit.
pub fn decode_hex(hex_str: &str) -> (r: Result<Vec<u8>, HexDecodeError>)
    ensures
        r is Ok <==> valid_hex(hex_str@),
        (r is Ok ==> r->Ok_0@ == spec_hex_decode(hex_str@)),
        (ascii_only(hex_str@) && hex_str@.len() % 2 == 1 ==> r == Err::<Vec<u8>, HexDecodeError>(
            HexDecodeError::OddLength,
        )),
        (ascii_only(hex_str@) && hex_str@.len() % 2 == 0 && !hex_digits_only(hex_str@) ==> r
            == Err::<Vec<u8>, HexDecodeError>((HexDecodeError::InvalidHexCharacter {
            c: hex_str@[first_non_hex(hex_str@)],
            index: first_non_hex(hex_str@) as usize,
        }))),
{
    hex_decode_raw(hex_str)
}

/// Decodes a hex string into its bytes; behaves exactly as [`decode_hex`].
pub fn hex_to_bytes(hex: &str) -> (r: Result<Vec<u8>, HexDecodeError>)
    ensures
        r is Ok <==> valid_hex(hex@),
        (r is Ok ==> r->Ok_0@ == spec_hex_decode(hex@)),
        (ascii_only(hex@) && hex@.len() % 2 == 1 ==> r == Err::<Vec<u8>, HexDecodeError>(
            HexDecodeError::OddLength,
        )),
        (ascii_only(hex@) && hex@.len() % 2 == 0 && !hex_digits_only(hex@) ==> r == Err::<
            Vec<u8>,
            HexDecodeError,
        >((HexDecodeError::InvalidHexCharacter {
            c: hex@[first_non_hex(hex@)],
            index: first_non_hex(hex@) as usize,
        }))),
{
    hex_decode_raw(hex)
}

/// Encodes bytes as a lowercase hex string, two digits per byte.
pub fn bytes_to_hex(bytes: &[u8]) -> (r: String)
    ensures
        r@ == spec_hex_encode(bytes@),
        r@.len() == 2 * bytes@.len(),
{
    proof {
        lemma_hex_encode_len(bytes@);
    }
    hex_encode_raw(bytes)
}

/// An encoded byte sequence spells two hex digits per byte.
pub proof fn lemma_hex_encode_len(b: Seq<u8>)
    ensures
        spec_hex_encode(b).len() == 2 * b.len(),
    decreases b.len(),
{
    if b.len() > 0 {
        lemma_hex_encode_len(b.drop_first());
    }
}

/// `c` lowered if it is an uppercase hex digit, `c` itself otherwise.
pub open spec fn lower_hex_char(c: char) -> char {
    if c == 'A' { 'a' }
    else if c == 'B' { 'b' }
    else if c == 'C' { 'c' }
    else if c == 'D' { 'd' }
    else if c == 'E' { 'e' }
    else if c == 'F' { 'f' }
    else { c }
}

/// Encoding a hex digit's value spells its lowercase form.
proof fn lemma_hex_char_of_val(c: char)
    requires
        is_hex_digit(c),
    ensures
        hex_val(c) < 16,
        hex_char(hex_val(c)) == lower_hex_char(c),
{
}

/// A byte splits into its high and low nibble.
proof fn lemma_nibbles(v1: u8, v2: u8)
    requires
        v1 < 16,
        v2 < 16,
    ensures
        (v1 * 16 + v2) / 16 == v1,
        (v1 * 16 + v2) % 16 == v2,
{
    assert((v1 * 16 + v2) / 16 == v1 && (v1 * 16 + v2) % 16 == v2) by (nonlinear_arith)
        requires
            v1 < 16,
            v2 < 16,
    ;
}

/// Round trip from bytes: encoding a byte sequence yields a valid hex string,
/// and decoding it gives back exactly the original bytes.
pub proof fn lemma_hex_round_trip(b: Seq<u8>)
    ensures
        valid_hex(spec_hex_encode(b)),
        spec_hex_decode(spec_hex_encode(b)) == b,
    decreases b.len(),
{
    lemma_hex_encode_len(b);
    if b.len() == 0 {
        assert(spec_hex_decode(spec_hex_encode(b)) =~= b);
    } else {
        let rest = b.drop_first();
        lemma_hex_round_trip(rest);
        let hi = b[0] / 16;
        let lo = b[0] % 16;
        let e = spec_hex_encode(b);
        assert(e == seq![hex_char(hi), hex_char(lo)] + spec_hex_encode(rest));
        assert(hex_digits_only(e)) by {
            assert forall|i: int| 0 <= i < e.len() implies is_hex_digit(#[trigger] e[i]) by {
                if i >= 2 {
                    assert(e[i] == spec_hex_encode(rest)[i - 2]);
                }
            }
        }
        assert(e.skip(2) =~= spec_hex_encode(rest));
        assert(hex_val(hex_char(hi)) == hi && hex_val(hex_char(lo)) == lo);
        assert(hex_byte(e[0], e[1]) == b[0]);
        assert(spec_hex_decode(e) =~= b);
    }
}

/// Round trip from text: decoding a valid hex string and re-encoding the
/// bytes gives back the string with its digits lowercased.
pub proof fn lemma_hex_decode_then_encode(h: Seq<char>)
    requires
        valid_hex(h),
    ensures
        spec_hex_encode(spec_hex_decode(h)) == h.map_values(|c: char| lower_hex_char(c)),
    decreases h.len(),
{
    let lowered = h.map_values(|c: char| lower_hex_char(c));
    if h.len() == 0 {
        assert(spec_hex_encode(spec_hex_decode(h)) =~= lowered);
    } else {
        let rest = h.skip(2);
        assert(hex_digits_only(rest)) by {
            assert forall|i: int| 0 <= i < rest.len() implies is_hex_digit(#[trigger] rest[i]) by {
                assert(rest[i] == h[i + 2]);
            }
        }
        lemma_hex_decode_then_encode(rest);
        lemma_hex_char_of_val(h[0]);
        lemma_hex_char_of_val(h[1]);
        let v = hex_byte(h[0], h[1]);
        lemma_nibbles(hex_val(h[0]), hex_val(h[1]));
        let d = spec_hex_decode(h);
        assert(d == seq![v] + spec_hex_decode(rest));
        assert(d.drop_first() =~= spec_hex_decode(rest));
        assert(hex_char(v / 16) == lower_hex_char(h[0]));
        assert(hex_char(v % 16) == lower_hex_char(h[1]));
        assert(spec_hex_encode(d) =~= lowered);
    }
}

} // verus!
