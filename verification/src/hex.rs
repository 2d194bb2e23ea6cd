//! Decoding of ASCII hexadecimal digits and digit pairs.

use vstd::prelude::*;
use crate::ascii::{ascii_lower, ascii_upper};
use crate::error::GuidFromStrError;

verus! {

/// True when `c` is one of the ASCII characters `0-9`, `a-f` or `A-F`.
pub open spec fn is_hex_digit(c: u8) -> bool {
    ||| 0x30 <= c <= 0x39
    ||| 0x61 <= c <= 0x66
    ||| 0x41 <= c <= 0x46
}

/// The number that the hexadecimal digit `c` denotes, from 0 to 15.
///
/// Letters count from ten in either case. The value is 0 for a byte that
/// is no hexadecimal digit.
pub open spec fn hex_digit_value(c: u8) -> int {
    if 0x30 <= c <= 0x39 {
        c - 0x30
    } else if 0x61 <= c <= 0x66 {
        c - 0x61 + 10
    } else if 0x41 <= c <= 0x46 {
        c - 0x41 + 10
    } else {
        0
    }
}

/// The byte that the two hexadecimal digits `hi` and `lo` spell: `hi`
/// gives the upper four bits and `lo` the lower four.
pub open spec fn hex_pair_value(hi: u8, lo: u8) -> int {
    16 * hex_digit_value(hi) + hex_digit_value(lo)
}

/// True when the bytes of `s` at `k` and `k + 1` are both hexadecimal
/// digits.
pub open spec fn is_hex_pair_at(s: Seq<u8>, k: int) -> bool {
    is_hex_digit(s[k]) && is_hex_digit(s[k + 1])
}

/// The small-letter hexadecimal digit that denotes `v`, for `v` from 0 to
/// 15.
pub open spec fn lower_hex_digit(v: int) -> u8 {
    if v < 10 {
        (0x30 + v) as u8
    } else {
        (0x61 + v - 10) as u8
    }
}

/// The two small-letter hexadecimal digits that spell the byte `b`, upper
/// four bits first.
pub open spec fn hex_pair_text(b: u8) -> Seq<u8> {
    seq![lower_hex_digit(b as int / 16), lower_hex_digit(b as int % 16)]
}

/// Changing the case of a byte neither makes nor unmakes a hexadecimal
/// digit, keeps the value of one, and keeps a hyphen a hyphen.
pub proof fn lemma_case_keeps_hex_digit(b: u8)
    ensures
        is_hex_digit(ascii_lower(b)) == is_hex_digit(b),
        is_hex_digit(ascii_upper(b)) == is_hex_digit(b),
        hex_digit_value(ascii_lower(b)) == hex_digit_value(b),
        hex_digit_value(ascii_upper(b)) == hex_digit_value(b),
        (ascii_lower(b) == 0x2d) == (b == 0x2d),
        (ascii_upper(b) == 0x2d) == (b == 0x2d),
{
}

/// Spelling the byte that two hexadecimal digits denote gives the two
/// digits back, as small letters.
pub proof fn lemma_hex_pair_round_trip(hi: u8, lo: u8)
    requires
        is_hex_digit(hi),
        is_hex_digit(lo),
    ensures
        0 <= hex_pair_value(hi, lo) < 256,
        hex_pair_text(hex_pair_value(hi, lo) as u8) == seq![ascii_lower(hi), ascii_lower(lo)],
{
    let v = hex_pair_value(hi, lo);
    assert(v / 16 == hex_digit_value(hi));
    assert(v % 16 == hex_digit_value(lo));
    assert(hex_pair_text(v as u8) =~= seq![ascii_lower(hi), ascii_lower(lo)]);
}

/// Parse a hexadecimal ASCII character as a `u8`.
pub fn parse_byte_from_ascii_char(c: u8) -> (r: Result<u8, GuidFromStrError>)
    ensures
        is_hex_digit(c) ==> (r matches Ok(v) && v == hex_digit_value(c)),
        !is_hex_digit(c) ==> r == Err::<u8, GuidFromStrError>(GuidFromStrError),
{
    match c {
        0x30 => Ok(0x0),
        0x31 => Ok(0x1),
        0x32 => Ok(0x2),
        0x33 => Ok(0x3),
        0x34 => Ok(0x4),
        0x35 => Ok(0x5),
        0x36 => Ok(0x6),
        0x37 => Ok(0x7),
        0x38 => Ok(0x8),
        0x39 => Ok(0x9),
        0x61 | 0x41 => Ok(0xa),
        0x62 | 0x42 => Ok(0xb),
        0x63 | 0x43 => Ok(0xc),
        0x64 | 0x44 => Ok(0xd),
        0x65 | 0x45 => Ok(0xe),
        0x66 | 0x46 => Ok(0xf),
        _ => Err(GuidFromStrError),
    }
}

/// Joining two four-bit values by shift and bitwise or is the same as
/// sixteen times the first plus the second.
proof fn lemma_nibbles_join(hi: u8, lo: u8)
    requires
        hi < 16,
        lo < 16,
    ensures
        (hi << 4 | lo) == 16 * hi + lo,
{
    assert((hi << 4 | lo) == 16 * hi + lo) by (bit_vector)
        requires
            hi < 16,
            lo < 16,
    ;
}

/// Parse a pair of hexadecimal ASCII characters as a `u8`. For example,
/// the characters `1` and `a` are parsed as `0x1a`.
pub fn parse_byte_from_ascii_char_pair(a: u8, b: u8) -> (r: Result<u8, GuidFromStrError>)
    ensures
        is_hex_digit(a) && is_hex_digit(b) ==> (r matches Ok(v) && v == hex_pair_value(a, b)),
        !(is_hex_digit(a) && is_hex_digit(b)) ==> r == Err::<u8, GuidFromStrError>(
            GuidFromStrError,
        ),
{
    let hi: u8 = match parse_byte_from_ascii_char(a) {
        Ok(v) => v,
        Err(e) => {
            return Err(e);
        },
    };
    let lo: u8 = match parse_byte_from_ascii_char(b) {
        Ok(v) => v,
        Err(e) => {
            return Err(e);
        },
    };
    proof {
        lemma_nibbles_join(hi, lo);
    }
    Ok(hi << 4 | lo)
}

/// Parse a pair of hexadecimal ASCII characters at position `start` as
/// a `u8`.
pub fn parse_byte_from_ascii_str_at(s: &[u8], start: usize) -> (r: Result<u8, GuidFromStrError>)
    requires
        start + 1 < s@.len(),
    ensures
        is_hex_pair_at(s@, start as int) ==> (r matches Ok(v) && v == hex_pair_value(
            s@[start as int],
            s@[start + 1],
        )),
        !is_hex_pair_at(s@, start as int) ==> r == Err::<u8, GuidFromStrError>(GuidFromStrError),
{
    parse_byte_from_ascii_char_pair(s[start], s[start + 1])
}

} // verus!
