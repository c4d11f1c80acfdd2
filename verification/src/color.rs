//! Colours in text and in numbers.

use vstd::prelude::*;
use vstd::string::*;

use crate::text;
use crate::text::{chars_of, trimmed, trimmed_start_of};

verus! {

/// A colour: red, green, blue, and how opaque it is.
pub type Rgba = (u8, u8, u8, u8);

/// The value of a hexadecimal digit.
pub open spec fn hex_value(c: char) -> Option<int> {
    if '0' <= c <= '9' {
        Some(c as int - '0' as int)
    } else if 'a' <= c <= 'f' {
        Some(c as int - 'a' as int + 10)
    } else if 'A' <= c <= 'F' {
        Some(c as int - 'A' as int + 10)
    } else {
        None
    }
}

fn hex_digit(c: char) -> (r: Option<u8>)
    ensures
        match r {
            Some(v) => hex_value(c) == Some(v as int) && v < 16,
            None => hex_value(c) is None,
        },
{
    if '0' <= c && c <= '9' {
        Some((c as u32 - '0' as u32) as u8)
    } else if 'a' <= c && c <= 'f' {
        Some((c as u32 - 'a' as u32) as u8 + 10)
    } else if 'A' <= c && c <= 'F' {
        Some((c as u32 - 'A' as u32) as u8 + 10)
    } else {
        None
    }
}

/// The byte that two characters give: two hexadecimal digits, or a plus sign and one.
pub open spec fn hex_pair(a: char, b: char) -> Option<int> {
    match (hex_value(a), hex_value(b)) {
        (Some(x), Some(y)) => Some(16 * x + y),
        (None, Some(y)) => if a == '+' {
            Some(y)
        } else {
            None
        },
        _ => None,
    }
}

fn hex_byte(a: char, b: char) -> (r: Option<u8>)
    ensures
        match r {
            Some(v) => hex_pair(a, b) == Some(v as int),
            None => hex_pair(a, b) is None,
        },
{
    match (hex_digit(a), hex_digit(b)) {
        (Some(x), Some(y)) => Some(16 * x + y),
        (None, Some(y)) => if a == '+' {
            Some(y)
        } else {
            None
        },
        _ => None,
    }
}

/// The colour that six or eight hexadecimal digits give, behind number signs or not: red,
/// green and blue, and with eight how opaque it is. With six it is opaque.
pub open spec fn hex_color(s: Seq<char>) -> Option<Rgba> {
    let t = text::trim_start_of(s, '#');
    if t.len() != 6 && t.len() != 8 {
        None
    } else {
        match (
            hex_pair(t[0], t[1]),
            hex_pair(t[2], t[3]),
            hex_pair(t[4], t[5]),
            if t.len() == 8 {
                hex_pair(t[6], t[7])
            } else {
                Some(255)
            },
        ) {
            (Some(r), Some(g), Some(b), Some(a)) => Some((r as u8, g as u8, b as u8, a as u8)),
            _ => None,
        }
    }
}

/// The colour of a text; see [`hex_color`].
pub fn parse_hex4(s: &str) -> (r: Option<Rgba>)
    ensures
        r == hex_color(s@),
{
    let cs = chars_of(s);
    let t = trimmed_start_of(&cs, '#');
    if t.len() != 6 && t.len() != 8 {
        return None;
    }
    let a = if t.len() == 8 {
        hex_byte(t[6], t[7])
    } else {
        Some(255)
    };
    match (hex_byte(t[0], t[1]), hex_byte(t[2], t[3]), hex_byte(t[4], t[5]), a) {
        (Some(r), Some(g), Some(b), Some(a)) => Some((r, g, b, a)),
        _ => None,
    }
}

/// The number of a colour with blue in the high byte, as GDI takes it.
pub open spec fn bgr(r: int, g: int, b: int) -> int {
    0x10000 * b + 0x100 * g + r
}

/// The number that the first six hexadecimal digits of a text give, behind white space and
/// number signs or not.
pub open spec fn hex_bgr(s: Seq<char>) -> Option<int> {
    let t = text::trim_start_of(text::trim(s), '#');
    if t.len() < 6 {
        None
    } else {
        match (hex_pair(t[0], t[1]), hex_pair(t[2], t[3]), hex_pair(t[4], t[5])) {
            (Some(r), Some(g), Some(b)) => Some(bgr(r, g, b)),
            _ => None,
        }
    }
}

/// The GDI colour of a text; see [`hex_bgr`].
pub fn parse_hex(s: &str) -> (r: Option<u32>)
    ensures
        match r {
            Some(v) => hex_bgr(s@) == Some(v as int) && v < 0x100_0000,
            None => hex_bgr(s@) is None,
        },
{
    let cs = chars_of(s);
    let w = trimmed(&cs);
    let t = trimmed_start_of(&w, '#');
    if t.len() < 6 {
        return None;
    }
    match (hex_byte(t[0], t[1]), hex_byte(t[2], t[3]), hex_byte(t[4], t[5])) {
        (Some(r), Some(g), Some(b)) => Some(0x10000 * b as u32 + 0x100 * g as u32 + r as u32),
        _ => None,
    }
}

/// A part of a colour, a fifth of the way to white.
pub open spec fn lighter(v: int) -> int {
    v + (255 - v) / 5
}

/// A colour, a fifth of the way to white.
pub fn lighten(c: u32) -> (r: u32)
    ensures
        r == bgr(
            lighter((c % 0x100) as int),
            lighter((c / 0x100 % 0x100) as int),
            lighter((c / 0x10000 % 0x100) as int),
        ),
        r < 0x100_0000,
{
    let x: u32 = c % 0x100;
    let y: u32 = c / 0x100 % 0x100;
    let z: u32 = c / 0x10000 % 0x100;
    0x10000 * (z + (255 - z) / 5) + 0x100 * (y + (255 - y) / 5) + (x + (255 - x) / 5)
}

/// Lightening never darkens a part of a colour, and keeps white.
pub proof fn lighter_is_lighter(v: int)
    requires
        0 <= v <= 255,
    ensures
        v <= lighter(v) <= 255,
        v <= 250 ==> v < lighter(v),
{
}

/// The number of a colour: how opaque it is, blue, green and red, from the high byte down.
pub open spec fn abgr(c: Rgba) -> int {
    0x100_0000 * c.3 + 0x10000 * c.2 + 0x100 * c.1 + c.0
}

/// See [`abgr`].
pub fn pack_abgr(c: Rgba) -> (r: u32)
    ensures
        r == abgr(c),
{
    0x100_0000 * (c.3 as u32) + 0x10000 * (c.2 as u32) + 0x100 * (c.1 as u32) + c.0 as u32
}

/// The GDI number of a colour.
pub fn pack_bgr(c: Rgba) -> (r: u32)
    ensures
        r == bgr(c.0 as int, c.1 as int, c.2 as int),
{
    0x10000 * (c.2 as u32) + 0x100 * (c.1 as u32) + c.0 as u32
}

/// The hexadecimal digit of a number below sixteen, in either case.
pub open spec fn hex_char(n: int, upper: bool) -> char {
    if n < 10 {
        (0x30 + n) as char
    } else if upper {
        (0x41 + n - 10) as char
    } else {
        (0x61 + n - 10) as char
    }
}

/// The two hexadecimal digits of a byte.
pub open spec fn hex_of(b: u8, upper: bool) -> Seq<char> {
    seq![hex_char(b as int / 16, upper), hex_char(b as int % 16, upper)]
}

proof fn hex_reads_one_back(b: u8, upper: bool)
    ensures
        hex_pair(hex_of(b, upper)[0], hex_of(b, upper)[1]) == Some(b as int),
        hex_of(b, upper)[0] != '#',
        hex_of(b, upper).len() == 2,
{
    let x = b as int / 16;
    let y = b as int % 16;
    assert(16 * x + y == b);
    assert(0 <= x < 16 && 0 <= y < 16);
    assert(hex_value(hex_char(x, upper)) == Some(x));
    assert(hex_value(hex_char(y, upper)) == Some(y));
}

/// A colour that was written in hexadecimal is read back: red, green and blue in that order, and
/// how opaque it is behind them; one without that is opaque.
pub proof fn colour_reads_back(r: u8, g: u8, b: u8, a: u8, upper: bool)
    ensures
        hex_color(seq!['#'] + hex_of(r, upper) + hex_of(g, upper) + hex_of(b, upper) + hex_of(a, upper))
            == Some((r, g, b, a)),
        hex_color(seq!['#'] + hex_of(r, upper) + hex_of(g, upper) + hex_of(b, upper)) == Some(
            (r, g, b, 255u8),
        ),
        hex_color(hex_of(r, upper) + hex_of(g, upper) + hex_of(b, upper) + hex_of(a, upper)) == Some(
            (r, g, b, a),
        ),
        hex_color(hex_of(r, upper) + hex_of(g, upper) + hex_of(b, upper)) == Some((r, g, b, 255u8)),
{
    hex_reads_one_back(r, upper);
    hex_reads_one_back(g, upper);
    hex_reads_one_back(b, upper);
    hex_reads_one_back(a, upper);
    let six = hex_of(r, upper) + hex_of(g, upper) + hex_of(b, upper);
    let eight = six + hex_of(a, upper);
    assert(six[0] == hex_of(r, upper)[0]);
    assert(eight[0] == hex_of(r, upper)[0]);
    assert((seq!['#'] + six).drop_first() =~= six);
    assert((seq!['#'] + eight).drop_first() =~= eight);
    assert(seq!['#'] + hex_of(r, upper) + hex_of(g, upper) + hex_of(b, upper) =~= seq!['#'] + six);
    assert(seq!['#'] + hex_of(r, upper) + hex_of(g, upper) + hex_of(b, upper) + hex_of(a, upper)
        =~= seq!['#'] + eight);
    assert(text::trim_start_of(six, '#') == six);
    assert(text::trim_start_of(eight, '#') == eight);
    assert(text::trim_start_of(seq!['#'] + six, '#') == six);
    assert(text::trim_start_of(seq!['#'] + eight, '#') == eight);
}

/// A GDI colour that was written in hexadecimal is read back, with blue in the high byte.
pub proof fn gdi_colour_reads_back(r: u8, g: u8, b: u8, upper: bool)
    ensures
        hex_bgr(seq!['#'] + hex_of(r, upper) + hex_of(g, upper) + hex_of(b, upper)) == Some(
            0x10000 * b + 0x100 * g + r,
        ),
{
    hex_reads_one_back(r, upper);
    hex_reads_one_back(g, upper);
    hex_reads_one_back(b, upper);
    let six = hex_of(r, upper) + hex_of(g, upper) + hex_of(b, upper);
    let s = seq!['#'] + six;
    assert(seq!['#'] + hex_of(r, upper) + hex_of(g, upper) + hex_of(b, upper) =~= s);
    assert(s.drop_first() =~= six);
    assert(s[0] == '#');
    assert(s.last() == hex_of(b, upper)[1]);
    text::white_cannot_be_seen('#');
    text::white_cannot_be_seen(s.last());
    let none = Seq::<char>::empty();
    text::trim_finds_tidy_text(none, s, none);
    assert(none + s + none =~= s);
    assert(six[0] == hex_of(r, upper)[0]);
    assert(text::trim_start_of(six, '#') == six);
    assert(text::trim_start_of(s, '#') == six);
}

/// A text with anything but hexadecimal digits, or with another number of them, is no colour.
pub proof fn other_texts_are_no_colours(s: Seq<char>)
    requires
        s.len() > 0,
        s[0] != '#',
    ensures
        s.len() != 6 && s.len() != 8 ==> hex_color(s) is None,
        (exists|i: int|
            0 <= i < s.len() && !('0' <= #[trigger] s[i] <= '9' || 'a' <= s[i] <= 'f' || 'A' <= s[i]
                <= 'F' || s[i] == '+')) ==> hex_color(s) is None,
{
    assert(text::trim_start_of(s, '#') == s);
}

/// The parts of a colour are found again in its number.
pub proof fn packed_colour_reads_back(c: Rgba)
    ensures
        abgr(c) % 0x100 == c.0,
        abgr(c) / 0x100 % 0x100 == c.1,
        abgr(c) / 0x10000 % 0x100 == c.2,
        abgr(c) / 0x1000000 == c.3,
        bgr(c.0 as int, c.1 as int, c.2 as int) == abgr(c) % 0x1000000,
{
}

/// Lightening goes a fifth of the way to white.
pub proof fn lighter_goes_a_fifth(v: int)
    requires
        0 <= v <= 255,
    ensures
        0 <= (255 - v) - 5 * (lighter(v) - v) < 5,
{
}

} // verus!
