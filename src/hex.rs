use vstd::prelude::*;

verus! {

/// Why a two-character hexadecimal byte could not be decoded.
#[derive(Debug, Clone, Copy, PartialEq, Eq, Structural)]
pub enum HexToDecError {
    RightDigitInvalid,
    LeftDigitInvalid,
    LeftDigitOutOfRange,
    RightDigitOutOfRange,
    InputLengthOutOfRange,
}

/// `c` is one of `0-9`, `a-f`, `A-F`.
pub open spec fn is_hex_digit(c: char) -> bool {
    ('0' <= c && c <= '9') || ('a' <= c && c <= 'f') || ('A' <= c && c <= 'F')
}

/// The value of a hexadecimal digit, case-insensitively.
pub open spec fn hex_val(c: char) -> nat
    recommends
        is_hex_digit(c),
{
    if '0' <= c && c <= '9' {
        (c as nat - '0' as nat) as nat
    } else if 'a' <= c && c <= 'f' {
        (c as nat - 'a' as nat + 10) as nat
    } else {
        (c as nat - 'A' as nat + 10) as nat
    }
}

/// The lowercase digit that stands for a nibble.
pub open spec fn digit_char(n: nat) -> char
    recommends
        n < 16,
{
    if n < 10 {
        (('0' as nat) + n) as char
    } else {
        (('a' as nat) + n - 10) as char
    }
}

/// The result of decoding the characters `s` as one hexadecimal byte,
/// high nibble first.
pub open spec fn decode_byte(s: Seq<char>) -> Result<u8, HexToDecError> {
    if s.len() != 2 {
        Err(HexToDecError::InputLengthOutOfRange)
    } else if !is_hex_digit(s[0]) {
        Err(HexToDecError::LeftDigitInvalid)
    } else if !is_hex_digit(s[1]) {
        Err(HexToDecError::RightDigitInvalid)
    } else {
        Ok((hex_val(s[0]) * 16 + hex_val(s[1])) as u8)
    }
}

/// The value of one hexadecimal digit, or `None` for any other character.
pub fn hex_digit_value(c: char) -> (r: Option<u32>)
    ensures
        r == (if is_hex_digit(c) { Some(hex_val(c) as u32) } else { None::<u32> }),
        r matches Some(v) ==> v < 16,
{
    if '0' <= c && c <= '9' {
        Some((c as u32) - ('0' as u32))
    } else if 'a' <= c && c <= 'f' {
        Some((c as u32) - ('a' as u32) + 10)
    } else if 'A' <= c && c <= 'F' {
        Some((c as u32) - ('A' as u32) + 10)
    } else {
        None
    }
}

/// Decodes a high and a low hexadecimal digit into a byte.
pub fn decode_pair(left: char, right: char) -> (r: Result<u8, HexToDecError>)
    ensures
        r == decode_byte(seq![left, right]),
{
    let left_value = match hex_digit_value(left) {
        Some(x) => x,
        None => return Err(HexToDecError::LeftDigitInvalid),
    };
    let right_value = match hex_digit_value(right) {
        Some(x) => x,
        None => return Err(HexToDecError::RightDigitInvalid),
    };
    // Kept as distinct conditions so that a change of the digit parser
    // cannot slip a nibble above 15 through unnoticed.
    if left_value > 15 {
        return Err(HexToDecError::LeftDigitOutOfRange);
    }
    if right_value > 15 {
        return Err(HexToDecError::RightDigitOutOfRange);
    }
    Ok((left_value as u8) * 16 + (right_value as u8))
}

/// Decodes a string of exactly two hexadecimal digits (without `#`) into
/// a byte. The length is counted in characters.
pub fn hex_to_dec(hex: &str) -> (r: Result<u8, HexToDecError>)
    ensures
        r == decode_byte(hex@),
{
    let mut chars = hex.chars();
    let left = match chars.next() {
        Some(c) => c,
        None => return Err(HexToDecError::InputLengthOutOfRange),
    };
    let right = match chars.next() {
        Some(c) => c,
        None => return Err(HexToDecError::InputLengthOutOfRange),
    };
    if chars.next().is_some() {
        return Err(HexToDecError::InputLengthOutOfRange);
    }
    proof {
        assert(hex@ =~= seq![left, right]);
    }
    decode_pair(left, right)
}

} // verus!
