use vstd::prelude::*;
use vstd::utf8::is_ascii_chars;
use crate::hex::{decode_byte, digit_char, hex_val, is_hex_digit};
use crate::color::{hex_body, parse_color, trim, trim_end, trim_start, Color};

verus! {

/// The lowercase form of an ASCII letter; any other character is kept.
pub open spec fn lower(c: char) -> char {
    if 'A' <= c && c <= 'Z' {
        ((c as nat) + 32) as char
    } else {
        c
    }
}

/// The two lowercase digits of a byte, high nibble first.
pub open spec fn byte_code(b: u8) -> Seq<char> {
    seq![digit_char(b as nat / 16), digit_char(b as nat % 16)]
}

/// The six lowercase digits `rrggbb` of a color.
pub open spec fn hex_code(c: Color) -> Seq<char> {
    byte_code(c.red) + byte_code(c.green) + byte_code(c.blue)
}

/// The digits that a parse reads: the input trimmed, without its `#`,
/// in lowercase.
pub open spec fn parsed_digits(s: Seq<char>) -> Seq<char> {
    hex_body(trim(s))->Some_0.map_values(|c: char| lower(c))
}

proof fn lemma_digit_char(n: nat)
    requires
        n < 16,
    ensures
        is_hex_digit(digit_char(n)),
        hex_val(digit_char(n)) == n,
        '0' <= digit_char(n) <= 'f',
{
}

proof fn lemma_digit_of_val(c: char)
    requires
        is_hex_digit(c),
    ensures
        hex_val(c) < 16,
        digit_char(hex_val(c)) == lower(c),
{
}

proof fn lemma_byte_code(b: u8)
    ensures
        decode_byte(byte_code(b)) == Ok::<u8, crate::hex::HexToDecError>(b),
        is_ascii_chars(byte_code(b)),
{
    lemma_digit_char(b as nat / 16);
    lemma_digit_char(b as nat % 16);
    assert(b as nat / 16 * 16 + b as nat % 16 == b as nat);
}

proof fn lemma_decoded_code(p: Seq<char>, b: u8)
    requires
        decode_byte(p) == Ok::<u8, crate::hex::HexToDecError>(b),
    ensures
        byte_code(b) == p.map_values(|c: char| lower(c)),
{
    lemma_digit_of_val(p[0]);
    lemma_digit_of_val(p[1]);
    let h = hex_val(p[0]);
    let l = hex_val(p[1]);
    assert((h * 16 + l) / 16 == h && (h * 16 + l) % 16 == l) by (nonlinear_arith)
        requires
            h < 16,
            l < 16,
    ;
    assert(byte_code(b) =~= p.map_values(|c: char| lower(c)));
}

/// Encoding a color as `rrggbb` and parsing the result gives the color back.
pub proof fn lemma_encode_then_parse(c: Color)
    ensures
        parse_color(hex_code(c)) == Ok::<Color, crate::color::ColorFromHexError>(c),
{
    let s = hex_code(c);
    lemma_byte_code(c.red);
    lemma_byte_code(c.green);
    lemma_byte_code(c.blue);
    assert(s.len() == 6);
    assert(s[0] == byte_code(c.red)[0]);
    assert(s[5] == byte_code(c.blue)[1]);
    assert(trim_start(s) == s);
    assert(trim_end(s) == s);
    assert(is_ascii_chars(s)) by {
        assert forall|i| 0 <= i < s.len() implies '\0' <= #[trigger] s[i] <= '\u{7f}' by {
            if i < 2 {
                assert(s[i] == byte_code(c.red)[i]);
            } else if i < 4 {
                assert(s[i] == byte_code(c.green)[i - 2]);
            } else {
                assert(s[i] == byte_code(c.blue)[i - 4]);
            }
        }
    }
    assert(s.subrange(0, 2) =~= byte_code(c.red));
    assert(s.subrange(2, 4) =~= byte_code(c.green));
    assert(s.subrange(4, 6) =~= byte_code(c.blue));
}

/// Parsing a color and encoding it again as `rrggbb` gives the digits that
/// were read, in lowercase.
pub proof fn lemma_parse_then_encode(s: Seq<char>)
    requires
        parse_color(s) is Ok,
    ensures
        hex_code(parse_color(s)->Ok_0) == parsed_digits(s),
{
    let d = hex_body(trim(s))->Some_0;
    let c = parse_color(s)->Ok_0;
    lemma_decoded_code(d.subrange(0, 2), c.red);
    lemma_decoded_code(d.subrange(2, 4), c.green);
    lemma_decoded_code(d.subrange(4, 6), c.blue);
    assert(hex_code(c) =~= parsed_digits(s));
}

/// Two inputs that parse to the same color hold the same digits, up to case.
pub proof fn lemma_parse_injective(s1: Seq<char>, s2: Seq<char>)
    requires
        parse_color(s1) is Ok,
        parse_color(s2) is Ok,
        parse_color(s1) == parse_color(s2),
    ensures
        parsed_digits(s1) == parsed_digits(s2),
{
    lemma_parse_then_encode(s1);
    lemma_parse_then_encode(s2);
}

} // verus!
