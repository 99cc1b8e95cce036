//! ASCII hex decoding.
//!
//! Application uploads arrive hex-encoded so that arbitrary machine
//! code cannot collide with the frame control bytes; the parser
//! decodes two ASCII hex characters at a time into one image byte.

use vstd::prelude::*;

verus! {

/// The value of one ASCII hex digit, or `None` for any other byte.
pub open spec fn hex_digit_val(c: u8) -> Option<u8> {
    if 48 <= c <= 57 {  // '0' ..= '9'
        Some((c - 48) as u8)
    } else if 97 <= c <= 102 {  // 'a' ..= 'f'
        Some((c - 87) as u8)
    } else if 65 <= c <= 70 {  // 'A' ..= 'F'
        Some((c - 55) as u8)
    } else {
        None
    }
}

/// The byte encoded by two ASCII hex digits, high digit first, or
/// `None` if either is no hex digit.
pub open spec fn hex_pair_val(hi: u8, lo: u8) -> Option<u8> {
    match (hex_digit_val(hi), hex_digit_val(lo)) {
        (Some(h), Some(l)) => Some((h * 16 + l) as u8),
        _ => None,
    }
}

/// Decode one ASCII hex digit.
pub fn hex_digit_to_val(c: u8) -> (r: Option<u8>)
    ensures
        r == hex_digit_val(c),
{
    if 48 <= c && c <= 57 {
        Some(c - 48)
    } else if 97 <= c && c <= 102 {
        Some(c - 87)
    } else if 65 <= c && c <= 70 {
        Some(c - 55)
    } else {
        None
    }
}

/// Decode two ASCII hex digits, high first, into one byte.
pub fn hex_byte_to_byte(hi: u8, lo: u8) -> (r: Option<u8>)
    ensures
        r == hex_pair_val(hi, lo),
{
    match (hex_digit_to_val(hi), hex_digit_to_val(lo)) {
        (Some(h), Some(l)) => Some(h * 16 + l),
        _ => None,
    }
}

} // verus!
