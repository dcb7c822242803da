//! RGBA colors, parsed from names or hex strings.

use vstd::prelude::*;
use crate::text::{chars_of, same_chars};

verus! {

/// An 8-bit-per-channel RGBA color.
#[derive(Debug, Clone, Copy, PartialEq, Eq, Structural)]
pub struct Color {
    pub r: u8,
    pub g: u8,
    pub b: u8,
    pub a: u8,
}

/// The value of a hexadecimal digit (either case).
pub open spec fn hex_val(c: char) -> Option<u8> {
    if '0' <= c <= '9' {
        Some(((c as u32) - 48) as u8)
    } else if 'a' <= c <= 'f' {
        Some(((c as u32) - 87) as u8)
    } else if 'A' <= c <= 'F' {
        Some(((c as u32) - 55) as u8)
    } else {
        None
    }
}

/// A channel written with one hex digit `d` (`f` stands for `ff`).
pub open spec fn short_channel(d: u8) -> u8 {
    (d * 17) as u8
}

/// A channel written with two hex digits.
pub open spec fn long_channel(hi: u8, lo: u8) -> u8 {
    (hi * 16 + lo) as u8
}

/// The two hex digits at `i`, `i + 1` of `h` as one channel.
pub open spec fn hex_pair(h: Seq<char>, i: int) -> Option<u8> {
    match (hex_val(h[i]), hex_val(h[i + 1])) {
        (Some(hi), Some(lo)) => Some(long_channel(hi, lo)),
        _ => None,
    }
}

/// The color written by the hex digits `h` (the part after `#`): `rgb`,
/// `rrggbb` or `rrggbbaa`.
pub open spec fn hex_color(h: Seq<char>) -> Option<Color> {
    if h.len() == 3 {
        match (hex_val(h[0]), hex_val(h[1]), hex_val(h[2])) {
            (Some(r), Some(g), Some(b)) => Some(
                Color { r: short_channel(r), g: short_channel(g), b: short_channel(b), a: 255 },
            ),
            _ => None,
        }
    } else if h.len() == 6 {
        match (hex_pair(h, 0), hex_pair(h, 2), hex_pair(h, 4)) {
            (Some(r), Some(g), Some(b)) => Some(Color { r, g, b, a: 255 }),
            _ => None,
        }
    } else if h.len() == 8 {
        match (hex_pair(h, 0), hex_pair(h, 2), hex_pair(h, 4), hex_pair(h, 6)) {
            (Some(r), Some(g), Some(b), Some(a)) => Some(Color { r, g, b, a }),
            _ => None,
        }
    } else {
        None
    }
}

/// An opaque color.
pub open spec fn opaque(r: u8, g: u8, b: u8) -> Color {
    Color { r, g, b, a: 255 }
}

/// The named colors (Typst's palette).
pub open spec fn named_color(s: Seq<char>) -> Option<Color> {
    if s == "black"@ {
        Some(opaque(0x00, 0x00, 0x00))
    } else if s == "gray"@ {
        Some(opaque(0xaa, 0xaa, 0xaa))
    } else if s == "silver"@ {
        Some(opaque(0xdd, 0xdd, 0xdd))
    } else if s == "white"@ {
        Some(opaque(0xff, 0xff, 0xff))
    } else if s == "navy"@ {
        Some(opaque(0x00, 0x1f, 0x3f))
    } else if s == "blue"@ {
        Some(opaque(0x00, 0x74, 0xd9))
    } else if s == "aqua"@ {
        Some(opaque(0x7f, 0xdb, 0xff))
    } else if s == "teal"@ {
        Some(opaque(0x39, 0xcc, 0xcc))
    } else if s == "eastern"@ {
        Some(opaque(0x23, 0x9d, 0xad))
    } else if s == "purple"@ {
        Some(opaque(0xb1, 0x0d, 0xc9))
    } else if s == "fuchsia"@ {
        Some(opaque(0xf0, 0x12, 0xbe))
    } else if s == "maroon"@ {
        Some(opaque(0x85, 0x14, 0x4b))
    } else if s == "red"@ {
        Some(opaque(0xff, 0x41, 0x36))
    } else if s == "orange"@ {
        Some(opaque(0xff, 0x85, 0x1b))
    } else if s == "yellow"@ {
        Some(opaque(0xff, 0xdc, 0x00))
    } else if s == "olive"@ {
        Some(opaque(0x3d, 0x99, 0x70))
    } else if s == "green"@ {
        Some(opaque(0x2e, 0xcc, 0x40))
    } else if s == "lime"@ {
        Some(opaque(0x01, 0xff, 0x70))
    } else {
        None
    }
}

/// The color that a string names: `#` and hex digits, or a color name.
pub open spec fn parse_color(s: Seq<char>) -> Option<Color> {
    if s.len() > 0 && s[0] == '#' {
        hex_color(s.drop_first())
    } else {
        named_color(s)
    }
}

/// Executable `hex_val`.
fn hex_digit(c: char) -> (r: Option<u8>)
    ensures
        r == hex_val(c),
{
    if '0' <= c && c <= '9' {
        Some(((c as u32) - 48) as u8)
    } else if 'a' <= c && c <= 'f' {
        Some(((c as u32) - 87) as u8)
    } else if 'A' <= c && c <= 'F' {
        Some(((c as u32) - 55) as u8)
    } else {
        None
    }
}

/// Two hex digits at `i`, `i + 1` of `h` as one channel.
fn hex_pair_at(h: &Vec<char>, i: usize) -> (r: Option<u8>)
    requires
        i + 1 < h.len(),
    ensures
        r == hex_pair(h@, i as int),
{
    match (hex_digit(h[i]), hex_digit(h[i + 1])) {
        (Some(hi), Some(lo)) => Some(hi * 16 + lo),
        _ => None,
    }
}

impl Color {
    /// An opaque color from its channels.
    pub fn rgb(r: u8, g: u8, b: u8) -> (c: Color)
        ensures
            c == opaque(r, g, b),
    {
        Color { r, g, b, a: 255 }
    }

    /// A color from its channels and alpha.
    pub fn rgba(r: u8, g: u8, b: u8, a: u8) -> (c: Color)
        ensures
            c == (Color { r, g, b, a }),
    {
        Color { r, g, b, a }
    }

    /// Parse a color from a name (`"red"`) or a hex string (`"#ff0000"`,
    /// `"#f00"`, `"#ff000080"`); `None` when it is neither.
    pub fn parse(s: &str) -> (c: Option<Color>)
        ensures
            c == parse_color(s@),
    {
        let v = chars_of(s);
        if v.len() > 0 && v[0] == '#' {
            let ghost h = s@.drop_first();
            let n = v.len() - 1;
            if n == 3 {
                match (hex_digit(v[1]), hex_digit(v[2]), hex_digit(v[3])) {
                    (Some(r), Some(g), Some(b)) => Some(Color { r: r * 17, g: g * 17, b: b * 17, a: 255 }),
                    _ => None,
                }
            } else if n == 6 || n == 8 {
                let r = hex_pair_at(&v, 1);
                let g = hex_pair_at(&v, 3);
                let b = hex_pair_at(&v, 5);
                let a = if n == 8 { hex_pair_at(&v, 7) } else { Some(255u8) };
                proof {
                    assert(hex_pair(v@, 1) == hex_pair(h, 0));
                    assert(hex_pair(v@, 3) == hex_pair(h, 2));
                    assert(hex_pair(v@, 5) == hex_pair(h, 4));
                    if n == 8 {
                        assert(hex_pair(v@, 7) == hex_pair(h, 6));
                    }
                }
                match (r, g, b, a) {
                    (Some(r), Some(g), Some(b), Some(a)) => Some(Color { r, g, b, a }),
                    _ => None,
                }
            } else {
                None
            }
        } else {
            Self::named(s)
        }
    }

    /// The color with name `s`, if it names one.
    fn named(s: &str) -> (c: Option<Color>)
        ensures
            c == named_color(s@),
    {
        if same_chars(s, "black") {
            Some(Color::rgb(0x00, 0x00, 0x00))
        } else if same_chars(s, "gray") {
            Some(Color::rgb(0xaa, 0xaa, 0xaa))
        } else if same_chars(s, "silver") {
            Some(Color::rgb(0xdd, 0xdd, 0xdd))
        } else if same_chars(s, "white") {
            Some(Color::rgb(0xff, 0xff, 0xff))
        } else if same_chars(s, "navy") {
            Some(Color::rgb(0x00, 0x1f, 0x3f))
        } else if same_chars(s, "blue") {
            Some(Color::rgb(0x00, 0x74, 0xd9))
        } else if same_chars(s, "aqua") {
            Some(Color::rgb(0x7f, 0xdb, 0xff))
        } else if same_chars(s, "teal") {
            Some(Color::rgb(0x39, 0xcc, 0xcc))
        } else if same_chars(s, "eastern") {
            Some(Color::rgb(0x23, 0x9d, 0xad))
        } else if same_chars(s, "purple") {
            Some(Color::rgb(0xb1, 0x0d, 0xc9))
        } else if same_chars(s, "fuchsia") {
            Some(Color::rgb(0xf0, 0x12, 0xbe))
        } else if same_chars(s, "maroon") {
            Some(Color::rgb(0x85, 0x14, 0x4b))
        } else if same_chars(s, "red") {
            Some(Color::rgb(0xff, 0x41, 0x36))
        } else if same_chars(s, "orange") {
            Some(Color::rgb(0xff, 0x85, 0x1b))
        } else if same_chars(s, "yellow") {
            Some(Color::rgb(0xff, 0xdc, 0x00))
        } else if same_chars(s, "olive") {
            Some(Color::rgb(0x3d, 0x99, 0x70))
        } else if same_chars(s, "green") {
            Some(Color::rgb(0x2e, 0xcc, 0x40))
        } else if same_chars(s, "lime") {
            Some(Color::rgb(0x01, 0xff, 0x70))
        } else {
            None
        }
    }
}


/// A three-digit hex color is the six-digit one with each digit doubled
/// (`#f00` is `#ff0000`), and an eight-digit one with alpha `ff` is the
/// six-digit one.
pub proof fn lemma_short_and_alpha_forms(a: char, b: char, c: char)
    ensures
        parse_color(seq!['#', a, b, c]) == parse_color(seq!['#', a, a, b, b, c, c]),
        parse_color(seq!['#', a, a, b, b, c, c, 'f', 'f']) == parse_color(
            seq!['#', a, a, b, b, c, c],
        ),
{
    let s3 = seq!['#', a, b, c];
    let s6 = seq!['#', a, a, b, b, c, c];
    let s8 = seq!['#', a, a, b, b, c, c, 'f', 'f'];
    assert(s3.drop_first() =~= seq![a, b, c]);
    assert(s6.drop_first() =~= seq![a, a, b, b, c, c]);
    assert(s8.drop_first() =~= seq![a, a, b, b, c, c, 'f', 'f']);
    assert(hex_val('f') == Some(15u8));
}

/// The lowercase hex digit of `n` (`0 <= n < 16`).
pub open spec fn hex_digit_char(n: int) -> char {
    if n < 10 {
        (48 + n) as char
    } else {
        (87 + n) as char
    }
}

/// The two lowercase hex digits of a byte.
pub open spec fn hex2(b: u8) -> Seq<char> {
    seq![hex_digit_char((b / 16) as int), hex_digit_char((b % 16) as int)]
}

/// Each decimal digit is a hex digit worth its decimal value; `a`..`f`
/// and `A`..`F` are worth 10 to 15; nothing else is a hex digit.
pub proof fn lemma_hex_digit_values(c: char)
    ensures
        '0' <= c <= '9' ==> hex_val(c) == Some((c as u32 - 48) as u8),
        'a' <= c <= 'f' ==> hex_val(c) == Some((c as u32 - 87) as u8),
        'A' <= c <= 'F' ==> hex_val(c) == Some((c as u32 - 55) as u8),
        hex_val(c) is Some <==> ('0' <= c <= '9' || 'a' <= c <= 'f' || 'A' <= c <= 'F'),
        hex_val(c) matches Some(v) ==> v < 16,
{
}

/// The lowercase hex digit of `n` reads back as `n`.
pub proof fn lemma_hex_digit_char(n: int)
    requires
        0 <= n < 16,
    ensures
        hex_val(hex_digit_char(n)) == Some(n as u8),
{
    let c = hex_digit_char(n);
    if n < 10 {
        assert(c as u32 == 48 + n);
    } else {
        assert(c as u32 == 87 + n);
    }
}

/// The two hex digits of a byte read back as the byte.
proof fn lemma_hex2(b: u8, h: Seq<char>, i: int)
    requires
        0 <= i,
        i + 1 < h.len(),
        h[i] == hex2(b)[0],
        h[i + 1] == hex2(b)[1],
    ensures
        hex_pair(h, i) == Some(b),
{
    lemma_hex_digit_char((b / 16) as int);
    lemma_hex_digit_char((b % 16) as int);
    assert((b / 16) * 16 + b % 16 == b);
}

/// `#` followed by the lowercase hex digits of `r`, `g`, `b` and `a` is
/// the color with those channels; with only `r`, `g`, `b`, the opaque
/// color with them.
pub proof fn lemma_parse_hex_digits(r: u8, g: u8, b: u8, a: u8)
    ensures
        parse_color(seq!['#'] + hex2(r) + hex2(g) + hex2(b) + hex2(a)) == Some(Color { r, g, b, a }),
        parse_color(seq!['#'] + hex2(r) + hex2(g) + hex2(b)) == Some(Color { r, g, b, a: 255 }),
{
    let s8 = seq!['#'] + hex2(r) + hex2(g) + hex2(b) + hex2(a);
    let h8 = s8.drop_first();
    assert(h8 =~= hex2(r) + hex2(g) + hex2(b) + hex2(a));
    lemma_hex2(r, h8, 0);
    lemma_hex2(g, h8, 2);
    lemma_hex2(b, h8, 4);
    lemma_hex2(a, h8, 6);
    let s6 = seq!['#'] + hex2(r) + hex2(g) + hex2(b);
    let h6 = s6.drop_first();
    assert(h6 =~= hex2(r) + hex2(g) + hex2(b));
    lemma_hex2(r, h6, 0);
    lemma_hex2(g, h6, 2);
    lemma_hex2(b, h6, 4);
}

} // verus!
