//! Hexadecimal text as the command line gives and shows it: two digits per
//! byte.
//!
//! Decoding and encoding are done by the `hex` crate; this module states
//! what decoded and encoded text is, so that callers can reason about what
//! they get.

use vstd::prelude::*;
use crate::wire::SysexError;

verus! {

/// The value of the hexadecimal digit whose ASCII code is `c`, if `c` is one.
/// Both letter cases count.
pub open spec fn digit_value(c: u8) -> Option<u8> {
    if 0x30 <= c <= 0x39 {
        Some((c - 0x30) as u8)
    } else if 0x41 <= c <= 0x46 {
        Some((c - 0x41 + 10) as u8)
    } else if 0x61 <= c <= 0x66 {
        Some((c - 0x61 + 10) as u8)
    } else {
        None
    }
}

/// Whether `text` is hexadecimal text: an even number of hexadecimal digits.
pub open spec fn is_hex_text(text: Seq<u8>) -> bool {
    &&& text.len() % 2 == 0
    &&& forall|i: int| 0 <= i < text.len() ==> digit_value(#[trigger] text[i]) is Some
}

/// The byte that the digit pair at position `i` of `text` stands for.
pub open spec fn pair_value(text: Seq<u8>, i: int) -> u8 {
    (digit_value(text[2 * i]).unwrap() * 16 + digit_value(text[2 * i + 1]).unwrap()) as u8
}

/// The bytes that hexadecimal text stands for, one per pair of digits.
pub open spec fn hex_bytes(text: Seq<u8>) -> Seq<u8> {
    Seq::new(text.len() / 2, |i: int| pair_value(text, i))
}

/// The lower-case hexadecimal digit of value `v`, for `v` below sixteen.
pub open spec fn hex_digit(v: int) -> char {
    if v == 0 {
        '0'
    } else if v == 1 {
        '1'
    } else if v == 2 {
        '2'
    } else if v == 3 {
        '3'
    } else if v == 4 {
        '4'
    } else if v == 5 {
        '5'
    } else if v == 6 {
        '6'
    } else if v == 7 {
        '7'
    } else if v == 8 {
        '8'
    } else if v == 9 {
        '9'
    } else if v == 10 {
        'a'
    } else if v == 11 {
        'b'
    } else if v == 12 {
        'c'
    } else if v == 13 {
        'd'
    } else if v == 14 {
        'e'
    } else {
        'f'
    }
}

/// `bytes` written in hexadecimal: two lower-case digits per byte, the high
/// half first.
pub open spec fn hex_text(bytes: Seq<u8>) -> Seq<char> {
    Seq::new(
        2 * bytes.len(),
        |i: int|
            if i % 2 == 0 {
                hex_digit(bytes[i / 2] as int / 16)
            } else {
                hex_digit(bytes[i / 2] as int % 16)
            },
    )
}

/// The error type of the `hex` crate's decoder.
#[verifier::external_type_specification]
#[verifier::external_body]
pub struct ExFromHexError(hex::FromHexError);

/// Calls `hex::decode`.
///
/// Trusted: decoding succeeds exactly on an even number of hexadecimal
/// digits, and then yields the bytes that the digit pairs stand for, the
/// first digit of a pair being the high half of its byte.
#[verifier::external_body]
pub(crate) fn hex_decode(text: &[u8]) -> (r: Result<Vec<u8>, hex::FromHexError>)
    ensures
        r is Ok == is_hex_text(text@),
        r matches Ok(bytes) ==> bytes@ == hex_bytes(text@),
{
    hex::decode(text)
}

/// Calls `hex::encode`.
///
/// Trusted: the text returned holds two lower-case hexadecimal digits for
/// each byte, in order, the high half of a byte first.
#[verifier::external_body]
pub(crate) fn hex_encode(bytes: &[u8]) -> (r: String)
    ensures
        r@ == hex_text(bytes@),
{
    hex::encode(bytes)
}

/// Decodes hexadecimal text into bytes; text that is no hexadecimal text is
/// a `DecodeError`.
pub fn decode(text: &[u8]) -> (r: Result<Vec<u8>, SysexError>)
    ensures
        r is Ok == is_hex_text(text@),
        r matches Ok(bytes) ==> bytes@ == hex_bytes(text@),
        r matches Err(e) ==> e == SysexError::DecodeError,
{
    match hex_decode(text) {
        Ok(bytes) => Ok(bytes),
        Err(_) => Err(SysexError::DecodeError),
    }
}

} // verus!
