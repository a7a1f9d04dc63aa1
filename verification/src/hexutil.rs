//! Hexadecimal text for byte strings: the textual form the persisted
//! snapshot uses, with exact contracts for the encoder and decoder of
//! the `hex` crate and a proved round trip.

use vstd::prelude::*;
use vstd::string::StringSliceAdditionalSpecFns;
use crate::types::{Address, Bytes32, JsonBytes, Uint256};

verus! {

/// The hexadecimal digit (lowercase) for a value below 16, as an ASCII
/// byte.
pub open spec fn hex_digit_byte(v: u8) -> u8 {
    if v < 10 {
        (48 + v) as u8
    } else {
        (87 + v) as u8
    }
}

/// Whether `b` is the ASCII code of a hexadecimal digit (either case).
pub open spec fn is_hex_digit_byte(b: u8) -> bool {
    (48 <= b <= 57) || (97 <= b <= 102) || (65 <= b <= 70)
}

/// The value of the hexadecimal digit with ASCII code `b`.
pub open spec fn hex_byte_val(b: u8) -> u8
    recommends
        is_hex_digit_byte(b),
{
    if 48 <= b <= 57 {
        (b - 48) as u8
    } else if 97 <= b <= 102 {
        (b - 87) as u8
    } else {
        (b - 55) as u8
    }
}

/// The lowercase hexadecimal text of a byte string: two digits per
/// byte, high nibble first.
pub open spec fn hex_text_of(data: Seq<u8>) -> Seq<u8> {
    Seq::new(
        2 * data.len(),
        |i: int|
            if i % 2 == 0 {
                hex_digit_byte(data[i / 2] / 16)
            } else {
                hex_digit_byte(data[i / 2] % 16)
            },
    )
}

/// Whether `s` is well-formed hexadecimal text: even length, every
/// byte a digit of either case.
pub open spec fn is_hex_text(s: Seq<u8>) -> bool {
    s.len() % 2 == 0 && (forall|i: int| 0 <= i < s.len() ==> is_hex_digit_byte(#[trigger] s[i]))
}

/// The bytes that well-formed hexadecimal text denotes.
pub open spec fn bytes_of_hex_text(s: Seq<u8>) -> Seq<u8> {
    Seq::new(
        s.len() / 2,
        |i: int| ((hex_byte_val(s[2 * i]) * 16 + hex_byte_val(s[2 * i + 1])) as u8),
    )
}

/// Relies on hex::encode: lowercase hexadecimal text, two digits per
/// byte, high nibble first.
#[verifier::external_body]
pub(crate) fn hex_encode_bytes(data: &[u8]) -> (r: Vec<u8>)
    ensures
        r@ == hex_text_of(data@),
{
    hex::encode(data).into_bytes()
}

/// Relies on hex::decode: succeeds on exactly the even-length strings
/// of hexadecimal digits (either case) and returns the denoted bytes.
#[verifier::external_body]
pub(crate) fn hex_decode_bytes(text: &[u8]) -> (r: Option<Vec<u8>>)
    ensures
        r is Some <==> is_hex_text(text@),
        match r {
            Some(v) => v@ == bytes_of_hex_text(text@),
            None => true,
        },
{
    match hex::decode(text) {
        Ok(v) => Some(v),
        Err(_) => None,
    }
}

impl JsonBytes {
    /// The bytes rendered as lowercase hexadecimal text.
    pub fn to_hex(&self) -> (r: Vec<u8>)
        ensures
            r@ == hex_text_of(self@),
    {
        hex_encode_bytes(self.0.as_slice())
    }
}

impl Address {
    /// The address rendered as lowercase hexadecimal text.
    pub fn to_hex(&self) -> (r: Vec<u8>)
        ensures
            r@ == hex_text_of(self@),
    {
        hex_encode_bytes(self.0.as_slice())
    }
}

impl Bytes32 {
    /// The word rendered as lowercase hexadecimal text.
    pub fn to_hex(&self) -> (r: Vec<u8>)
        ensures
            r@ == hex_text_of(self@),
    {
        hex_encode_bytes(self.0.as_slice())
    }
}

impl Uint256 {
    /// The integer rendered as lowercase hexadecimal text.
    pub fn to_hex(&self) -> (r: Vec<u8>)
        ensures
            r@ == hex_text_of(self@),
    {
        hex_encode_bytes(self.0.as_slice())
    }
}

/// Parses hexadecimal text into a byte string, rejecting text of odd
/// length or holding a non-digit.
pub fn parse_bytes(text: &[u8]) -> (r: Result<JsonBytes, String>)
    ensures
        r is Ok <==> is_hex_text(text@),
        match r {
            Ok(j) => j@ == bytes_of_hex_text(text@),
            Err(_) => true,
        },
{
    match hex_decode_bytes(text) {
        Some(v) => Ok(JsonBytes(v)),
        None => Err("invalid hex string".to_owned()),
    }
}

/// Hexadecimal round trip: the text of any byte string is well-formed
/// and parses back to the same bytes.
pub proof fn lemma_hex_roundtrip(data: Seq<u8>)
    ensures
        is_hex_text(hex_text_of(data)),
        bytes_of_hex_text(hex_text_of(data)) == data,
{
    let t = hex_text_of(data);
    assert forall|i: int| 0 <= i < t.len() implies is_hex_digit_byte(#[trigger] t[i]) by {
        let b = data[i / 2];
        assert(b / 16 < 16 && b % 16 < 16);
    }
    assert forall|i: int| 0 <= i < data.len() implies bytes_of_hex_text(t)[i] == data[i] by {
        let b = data[i];
        assert(t[2 * i] == hex_digit_byte(b / 16));
        assert(t[2 * i + 1] == hex_digit_byte(b % 16));
        assert(hex_byte_val(hex_digit_byte(b / 16)) == b / 16);
        assert(hex_byte_val(hex_digit_byte(b % 16)) == b % 16);
        assert((b / 16) * 16 + b % 16 == b);
    }
    assert(bytes_of_hex_text(t) =~= data);
}

/// Whether the text starts with a `0x` or `0X` marker.
pub open spec fn has_hex_prefix(b: Seq<u8>) -> bool {
    b.len() >= 2 && b[0] == 48 && (b[1] == 120 || b[1] == 88)
}

/// In valid UTF-8, the position after two ASCII bytes is a character
/// boundary.
proof fn lemma_ascii_prefix_boundary(bytes: Seq<u8>)
    requires
        vstd::utf8::valid_utf8(bytes),
        bytes.len() >= 2,
        bytes[0] <= 0x7f,
        bytes[1] <= 0x7f,
    ensures
        vstd::utf8::is_char_boundary(bytes, 2),
{
    assert(vstd::utf8::valid_first_scalar(bytes));
    assert(vstd::utf8::length_of_first_scalar(bytes) == 1);
    let t = vstd::utf8::pop_first_scalar(bytes);
    assert(t =~= bytes.subrange(1, bytes.len() as int));
    assert(vstd::utf8::valid_utf8(t));
    assert(t.len() >= 1 && t[0] <= 0x7f);
    assert(vstd::utf8::valid_first_scalar(t));
    assert(vstd::utf8::length_of_first_scalar(t) == 1);
    let t2 = vstd::utf8::pop_first_scalar(t);
    assert(vstd::utf8::valid_utf8(t2));
    assert(vstd::utf8::is_char_boundary(t2, 0));
    assert(vstd::utf8::is_char_boundary(t, 1));
    assert(vstd::utf8::is_char_boundary(bytes, 2));
}

/// Strips a leading `0x` or `0X` marker from hexadecimal text; text
/// without the marker is returned as it is.
pub fn remove_0x<'a>(hex: &'a str) -> (r: &'a str)
    ensures
        has_hex_prefix(hex.spec_bytes()) ==> r.spec_bytes() == hex.spec_bytes().subrange(
            2,
            hex.spec_bytes().len() as int,
        ),
        !has_hex_prefix(hex.spec_bytes()) ==> r == hex,
{
    let b = hex.as_bytes();
    if b.len() >= 2 {
        if b[0] == 48 && (b[1] == 120 || b[1] == 88) {
            proof {
                vstd::utf8::encode_utf8_valid_utf8(hex@);
                lemma_ascii_prefix_boundary(hex.spec_bytes());
            }
            let (_, rest) = hex.split_at(2);
            return rest;
        } else {
            proof {
                assert(b@ == hex.spec_bytes());
                assert(!has_hex_prefix(hex.spec_bytes()));
            }
            return hex;
        }
    }
    hex
}

} // verus!
