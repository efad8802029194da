use vstd::prelude::*;
use vstd::std_specs::iter::IteratorSpec;
use vstd::utf8::is_ascii_chars;
use crate::hex::{decode_byte, decode_pair, HexToDecError};

verus! {

/// One of the three channels of a color.
#[derive(Debug, Clone, Copy, PartialEq, Eq, Structural)]
pub enum Channel {
    Red,
    Green,
    Blue,
}

/// Why a hexadecimal color could not be parsed.
#[derive(Debug, Clone, Copy, PartialEq, Eq, Structural)]
pub enum ColorFromHexError {
    InputIsEmpty,
    InputIsNotAscii,
    InvalidInputLength,
    /// The two digits of the given channel did not decode.
    InvalidChannel(Channel, HexToDecError),
}

/// An sRGB color as three 8-bit channel values.
#[derive(Debug, Clone, Copy, PartialEq, Eq, Structural)]
pub struct Color {
    pub red: u8,
    pub green: u8,
    pub blue: u8,
}

/// A character that `str::trim` removes from an ASCII string.
pub open spec fn is_trimmed_space(c: char) -> bool {
    c == ' ' || ('\t' <= c && c <= '\r')
}

/// `s` without its leading whitespace.
pub open spec fn trim_start(s: Seq<char>) -> Seq<char>
    decreases s.len(),
{
    if s.len() > 0 && is_trimmed_space(s[0]) {
        trim_start(s.drop_first())
    } else {
        s
    }
}

/// `s` without its trailing whitespace.
pub open spec fn trim_end(s: Seq<char>) -> Seq<char>
    decreases s.len(),
{
    if s.len() > 0 && is_trimmed_space(s.last()) {
        trim_end(s.drop_last())
    } else {
        s
    }
}

/// `s` without its leading and trailing whitespace.
pub open spec fn trim(s: Seq<char>) -> Seq<char> {
    trim_end(trim_start(s))
}

/// The six digits of a trimmed `RRGGBB` or `#RRGGBB`; `None` for any other
/// length or placement of `#`.
pub open spec fn hex_body(t: Seq<char>) -> Option<Seq<char>> {
    if t.len() == 6 && t[0] != '#' {
        Some(t)
    } else if t.len() == 7 && t[0] == '#' {
        Some(t.drop_first())
    } else {
        None
    }
}

/// The result of parsing the characters `s` as a hexadecimal color.
pub open spec fn parse_color(s: Seq<char>) -> Result<Color, ColorFromHexError> {
    if s.len() == 0 {
        Err(ColorFromHexError::InputIsEmpty)
    } else if !is_ascii_chars(s) {
        Err(ColorFromHexError::InputIsNotAscii)
    } else {
        match hex_body(trim(s)) {
            None => Err(ColorFromHexError::InvalidInputLength),
            Some(d) => match decode_byte(d.subrange(0, 2)) {
                Err(e) => Err(ColorFromHexError::InvalidChannel(Channel::Red, e)),
                Ok(r) => match decode_byte(d.subrange(2, 4)) {
                    Err(e) => Err(ColorFromHexError::InvalidChannel(Channel::Green, e)),
                    Ok(g) => match decode_byte(d.subrange(4, 6)) {
                        Err(e) => Err(ColorFromHexError::InvalidChannel(Channel::Blue, e)),
                        Ok(b) => Ok(Color { red: r, green: g, blue: b }),
                    },
                },
            },
        }
    }
}

fn is_trim_space(c: char) -> (r: bool)
    ensures
        r == is_trimmed_space(c),
{
    c == ' ' || ('\t' <= c && c <= '\r')
}

/// The characters of `s`, in order.
fn chars_of(s: &str) -> (v: Vec<char>)
    ensures
        v@ == s@,
{
    let mut it = s.chars();
    let mut v: Vec<char> = Vec::new();
    loop
        invariant
            v@ + it.remaining() == s@,
        decreases s@.len() - v@.len(),
    {
        match it.next() {
            Some(c) => {
                v.push(c);
            },
            None => {
                assert(v@ =~= s@);
                return v;
            },
        }
    }
}

proof fn lemma_trim_start_step(s: Seq<char>, i: int)
    requires
        0 <= i < s.len(),
        is_trimmed_space(s[i]),
    ensures
        trim_start(s.subrange(i, s.len() as int)) == trim_start(s.subrange(i + 1, s.len() as int)),
{
    assert(s.subrange(i, s.len() as int).drop_first() =~= s.subrange(i + 1, s.len() as int));
}

proof fn lemma_trim_end_step(s: Seq<char>, i: int, j: int)
    requires
        0 <= i < j <= s.len(),
        is_trimmed_space(s[j - 1]),
    ensures
        trim_end(s.subrange(i, j)) == trim_end(s.subrange(i, j - 1)),
{
    assert(s.subrange(i, j).drop_last() =~= s.subrange(i, j - 1));
}

/// The bounds of `trim(v@)` within `v@`.
fn trim_bounds(v: &Vec<char>) -> (r: (usize, usize))
    ensures
        r.0 <= r.1 <= v@.len(),
        trim(v@) == v@.subrange(r.0 as int, r.1 as int),
{
    let n = v.len();
    let mut start: usize = 0;
    assert(v@.subrange(0, n as int) =~= v@);
    while start < n && is_trim_space(v[start])
        invariant
            start <= n == v@.len(),
            trim_start(v@) == trim_start(v@.subrange(start as int, n as int)),
        decreases n - start,
    {
        proof {
            lemma_trim_start_step(v@, start as int);
        }
        start = start + 1;
    }
    let mut end: usize = n;
    while end > start && is_trim_space(v[end - 1])
        invariant
            start <= end <= n == v@.len(),
            trim(v@) == trim_end(v@.subrange(start as int, end as int)),
        decreases end,
    {
        proof {
            lemma_trim_end_step(v@, start as int, end as int);
        }
        end = end - 1;
    }
    (start, end)
}

impl Color {
    /// A color with the given channel values.
    pub fn new(r: u8, g: u8, b: u8) -> (c: Color)
        ensures
            c == (Color { red: r, green: g, blue: b }),
    {
        Color { red: r, green: g, blue: b }
    }

    /// Parses `RRGGBB` or `#RRGGBB`, case-insensitively, after removing
    /// surrounding whitespace. Empty and non-ASCII inputs are rejected
    /// before the length is looked at.
    pub fn from_hex(hex: &str) -> (r: Result<Color, ColorFromHexError>)
        ensures
            r == parse_color(hex@),
    {
        if hex.is_empty() {
            return Err(ColorFromHexError::InputIsEmpty);
        }
        if !hex.is_ascii() {
            return Err(ColorFromHexError::InputIsNotAscii);
        }
        // The digits are decoded case-insensitively, so no case folding is needed.
        let v = chars_of(hex);
        let (start, end) = trim_bounds(&v);
        let ghost t = v@.subrange(start as int, end as int);
        let len = end - start;
        let offset: usize;
        if len == 6 && v[start] != '#' {
            offset = start;
        } else if len == 7 && v[start] == '#' {
            offset = start + 1;
        } else {
            return Err(ColorFromHexError::InvalidInputLength);
        }
        let ghost d = hex_body(t)->Some_0;
        assert(d =~= v@.subrange(offset as int, offset + 6));
        assert(d.subrange(0, 2) =~= seq![v@[offset as int], v@[offset + 1]]);
        assert(d.subrange(2, 4) =~= seq![v@[offset + 2], v@[offset + 3]]);
        assert(d.subrange(4, 6) =~= seq![v@[offset + 4], v@[offset + 5]]);
        let red = match decode_pair(v[offset], v[offset + 1]) {
            Ok(x) => x,
            Err(e) => return Err(ColorFromHexError::InvalidChannel(Channel::Red, e)),
        };
        let green = match decode_pair(v[offset + 2], v[offset + 3]) {
            Ok(x) => x,
            Err(e) => return Err(ColorFromHexError::InvalidChannel(Channel::Green, e)),
        };
        let blue = match decode_pair(v[offset + 4], v[offset + 5]) {
            Ok(x) => x,
            Err(e) => return Err(ColorFromHexError::InvalidChannel(Channel::Blue, e)),
        };
        Ok(Color { red, green, blue })
    }
}

} // verus!
