//! Text in UTF-16, as Windows takes it.

use vstd::prelude::*;
use vstd::string::*;

use crate::text::chars_of;

verus! {

/// The code units of a character: itself, or a pair of surrogates.
pub open spec fn units(c: char) -> Seq<u16> {
    if (c as u32) < 0x10000 {
        seq![(c as u32) as u16]
    } else {
        seq![
            (0xd800 + (c as u32 - 0x10000) / 0x400) as u16,
            (0xdc00 + (c as u32 - 0x10000) % 0x400) as u16,
        ]
    }
}

/// The code units of a text.
pub open spec fn utf16(s: Seq<char>) -> Seq<u16>
    decreases s.len(),
{
    if s.len() == 0 {
        seq![]
    } else {
        utf16(s.drop_last()) + units(s.last())
    }
}

/// The code units of a text, without a NUL at the end.
pub fn utf16_of(s: &str) -> (r: Vec<u16>)
    ensures
        r@ == utf16(s@),
{
    let cs = chars_of(s);
    let mut r: Vec<u16> = Vec::new();
    let mut i: usize = 0;
    assert(cs@.take(0) =~= seq![]);
    while i < cs.len()
        invariant
            i <= cs.len(),
            r@ == utf16(cs@.take(i as int)),
        decreases cs.len() - i,
    {
        let ch: char = cs[i];
        let c: u32 = ch as u32;
        proof {
            vstd::utf8::char_is_scalar(ch);
        }
        let ghost before = r@;
        assert(cs@.take(i + 1).drop_last() =~= cs@.take(i as int));
        if c < 0x10000 {
            r.push(c as u16);
        } else {
            r.push((0xd800 + (c - 0x10000) / 0x400) as u16);
            r.push((0xdc00 + (c - 0x10000) % 0x400) as u16);
        }
        assert(r@ =~= before + units(cs@[i as int]));
        i += 1;
    }
    assert(cs@.take(cs@.len() as int) =~= cs@);
    r
}

/// The code units of a text, with a NUL at the end.
pub fn utf16z(s: &str) -> (r: Vec<u16>)
    ensures
        r@ == utf16(s@).push(0),
{
    let mut r = utf16_of(s);
    r.push(0);
    r
}

/// Two characters have the same code units only if they are the same.
pub proof fn units_distinct(a: char, b: char)
    requires
        units(a) == units(b),
    ensures
        a == b,
{
    let x = a as u32;
    let y = b as u32;
    assert(x <= 0x10ffff && y <= 0x10ffff);
    if x >= 0x10000 {
        assert(units(a).len() == 2);
        assert(units(b).len() == 2);
        let p = x - 0x10000;
        let q = y - 0x10000;
        assert(0xd800 + p / 0x400 <= 0xffff && 0xdc00 + p % 0x400 <= 0xffff);
        assert(0xd800 + q / 0x400 <= 0xffff && 0xdc00 + q % 0x400 <= 0xffff);
        assert(units(a)[0] == 0xd800 + p / 0x400 && units(a)[1] == 0xdc00 + p % 0x400);
        assert(units(b)[0] == 0xd800 + q / 0x400 && units(b)[1] == 0xdc00 + q % 0x400);
        assert(p == q);
    } else {
        assert(units(a).len() == 1);
        assert(units(b).len() == 1);
        assert(units(a)[0] == x);
        assert(units(b)[0] == y);
    }
    assert(x == y);
}

/// Whether a number is that of a character: any up to the last, but for the surrogates.
pub open spec fn scalar(n: int) -> bool {
    0 <= n < 0xd800 || 0xe000 <= n <= 0x10ffff
}

/// `char::from_u32` of std gives the character with a number, and nothing where there is none.
pub assume_specification[ char::from_u32 ](i: u32) -> (r: Option<char>)
    ensures
        r == if scalar(i as int) {
            Some(i as char)
        } else {
            None
        },
;

/// Whether a code unit is the first of a pair.
pub open spec fn high(u: u16) -> bool {
    0xd800 <= u < 0xdc00
}

/// Whether a code unit is the second of a pair.
pub open spec fn low(u: u16) -> bool {
    0xdc00 <= u < 0xe000
}

/// The number of the character that a pair of code units makes.
pub open spec fn paired(a: u16, b: u16) -> int {
    0x10000 + (a - 0xd800) * 0x400 + (b - 0xdc00)
}

/// The text of code units. One that is half of a pair without the other half becomes the
/// replacement character.
pub open spec fn lossy(u: Seq<u16>) -> Seq<char>
    decreases u.len(),
{
    if u.len() == 0 {
        seq![]
    } else if !high(u[0]) && !low(u[0]) {
        seq![u[0] as char] + lossy(u.skip(1))
    } else if high(u[0]) && u.len() >= 2 && low(u[1]) {
        seq![paired(u[0], u[1]) as char] + lossy(u.skip(2))
    } else {
        seq!['\u{fffd}'] + lossy(u.skip(1))
    }
}

/// The text of code units; see [`lossy`].
pub fn lossy_text(u: &Vec<u16>) -> (r: String)
    ensures
        r@ == lossy(u@),
{
    let mut r = String::new();
    let mut i: usize = 0;
    assert(u@.skip(0) =~= u@);
    assert(r@ + lossy(u@.skip(0)) =~= lossy(u@));
    while i < u.len()
        invariant
            i <= u.len(),
            r@ + lossy(u@.skip(i as int)) == lossy(u@),
        decreases u.len() - i,
    {
        let ghost rest = u@.skip(i as int);
        let ghost before = r@;
        let a: u16 = u[i];
        assert(rest[0] == a);
        assert(rest.skip(1) =~= u@.skip(i + 1));
        let mut n: u32 = a as u32;
        let mut used: usize = 1;
        if 0xd800 <= a && a < 0xe000 {
            n = 0xfffd;
            if a < 0xdc00 && u.len() - i >= 2 {
                let b: u16 = u[i + 1];
                assert(rest[1] == b);
                if 0xdc00 <= b && b < 0xe000 {
                    n = 0x10000 + (a as u32 - 0xd800) * 0x400 + (b as u32 - 0xdc00);
                    used = 2;
                    assert(rest.skip(2) =~= u@.skip(i + 2));
                }
            }
        }
        match char::from_u32(n) {
            Some(c) => {
                r.push(c);
                assert(lossy(rest) == seq![c] + lossy(u@.skip(i + used)));
                assert(r@ + lossy(u@.skip(i + used)) =~= before + (seq![c] + lossy(
                    u@.skip(i + used),
                )));
            },
            None => {
                assert(false);
            },
        }
        i += used;
    }
    assert(lossy(u@.skip(u.len() as int)) =~= seq![]);
    assert(r@ + Seq::<char>::empty() =~= r@);
    r
}

/// A text is read back from its code units.
pub proof fn reads_back(s: Seq<char>)
    ensures
        lossy(utf16(s)) == s,
    decreases s.len(),
{
    if s.len() == 0 {
        assert(lossy(utf16(s)) =~= s);
    } else {
        let c = s[0];
        let t = s.skip(1);
        first_units(s);
        reads_back(t);
        let x = c as u32;
        vstd::utf8::char_is_scalar(c);
        vstd::utf8::char_u32_cast(c, x);
        let u = utf16(s);
        let n = units(c);
        assert(u == n + utf16(t));
        if x < 0x10000 {
            assert(u[0] == n[0]);
            assert(u.skip(1) =~= utf16(t));
            assert(u[0] as int == x as int);
            assert(u[0] as char == x as char);
        } else {
            assert(u[0] == n[0] && u[1] == n[1]);
            assert(u.skip(2) =~= utf16(t));
            let k = x - 0x10000;
            assert(k / 0x400 * 0x400 + k % 0x400 == k);
            assert(u[0] == 0xd800 + k / 0x400 && u[1] == 0xdc00 + k % 0x400);
            assert(high(u[0]) && low(u[1]));
            assert(paired(u[0], u[1]) == x as int);
            assert(paired(u[0], u[1]) as char == x as char);
        }
        assert(seq![c] + t =~= s);
    }
}

/// The code units of a text begin with those of its first character.
proof fn first_units(s: Seq<char>)
    requires
        s.len() > 0,
    ensures
        utf16(s) == units(s[0]) + utf16(s.skip(1)),
    decreases s.len(),
{
    let d = s.drop_last();
    if s.len() == 1 {
        assert(d =~= Seq::<char>::empty());
        assert(s.skip(1) =~= Seq::<char>::empty());
        assert(utf16(s) =~= units(s[0]) + utf16(s.skip(1)));
    } else {
        first_units(d);
        assert(s.skip(1).drop_last() =~= d.skip(1));
        assert(utf16(s) =~= units(s[0]) + utf16(s.skip(1)));
    }
}

/// A character of the first plane is one code unit, its number; any other is a pair of a high and
/// a low surrogate, which carry the upper and the lower ten bits of what its number is above the
/// first plane.
pub proof fn units_carry_number(c: char)
    ensures
        c as u32 <= 0xffff ==> units(c).len() == 1 && units(c)[0] == c as u32,
        c as u32 > 0xffff ==> {
            let u = units(c);
            &&& u.len() == 2
            &&& 0xd800 <= u[0] < 0xdc00
            &&& 0xdc00 <= u[1] < 0xe000
            &&& (u[0] - 0xd800) * 0x400 + (u[1] - 0xdc00) == c as u32 - 0x10000
        },
{
    vstd::utf8::char_is_scalar(c);
    let x = c as u32;
    if x > 0xffff {
        let k = x - 0x10000;
        assert(k / 0x400 * 0x400 + k % 0x400 == k);
        assert(units(c)[0] == 0xd800 + k / 0x400 && units(c)[1] == 0xdc00 + k % 0x400);
    }
}

/// The code units of a text are those of its parts, one behind the other.
pub proof fn units_follow_each_other(a: Seq<char>, b: Seq<char>)
    ensures
        utf16(a + b) == utf16(a) + utf16(b),
        a.len() == 0 ==> utf16(a).len() == 0,
        a.len() == 1 ==> utf16(a) == units(a[0]),
    decreases b.len(),
{
    reveal_with_fuel(utf16, 2);
    if b.len() == 0 {
        assert(a + b =~= a);
        assert(utf16(a) + utf16(b) =~= utf16(a));
    } else {
        units_follow_each_other(a, b.drop_last());
        assert((a + b).drop_last() =~= a + b.drop_last());
        assert(utf16(a + b) =~= utf16(a) + utf16(b));
    }
    if a.len() == 1 {
        assert(a.drop_last() =~= Seq::<char>::empty());
        assert(utf16(a) =~= units(a[0]));
    }
}

/// Half of a pair without the other half is read as the replacement character, and nothing behind
/// it is lost.
pub proof fn lone_half_is_replaced(u: u16, rest: Seq<u16>)
    requires
        0xd800 <= u < 0xe000,
        u >= 0xdc00 || rest.len() == 0 || !(0xdc00 <= rest[0] < 0xe000),
    ensures
        lossy(seq![u] + rest) == seq!['\u{fffd}'] + lossy(rest),
{
    let s = seq![u] + rest;
    assert(s.skip(1) =~= rest);
    if rest.len() > 0 {
        assert(s[1] == rest[0]);
    }
}

} // verus!
