//! Rectangles on the screen, in pixels.

use vstd::prelude::*;

verus! {

/// A rectangle by its edges.
#[derive(Clone, Copy, Debug, PartialEq, Eq, Structural)]
pub struct Rect {
    pub left: i32,
    pub top: i32,
    pub right: i32,
    pub bottom: i32,
}

/// The whole desktop: the rectangle that holds all screens, by its corner and its size.
#[derive(Clone, Copy, Debug, PartialEq, Eq, Structural)]
pub struct Desk {
    pub x: i32,
    pub y: i32,
    pub w: i32,
    pub h: i32,
}

/// The larger of two numbers.
pub open spec fn max(a: int, b: int) -> int {
    if a >= b {
        a
    } else {
        b
    }
}

/// The smaller of two numbers.
pub open spec fn min(a: int, b: int) -> int {
    if a <= b {
        a
    } else {
        b
    }
}

/// How far a number is from zero.
pub open spec fn abs(a: int) -> int {
    if a < 0 {
        -a
    } else {
        a
    }
}

/// `v`, or the nearest end of `lo..=hi`.
pub open spec fn clamp(v: int, lo: int, hi: int) -> int {
    if v < lo {
        lo
    } else if v > hi {
        hi
    } else {
        v
    }
}

/// The larger of two numbers.
pub fn max_of(a: i64, b: i64) -> (r: i64)
    ensures
        r == max(a as int, b as int),
{
    if a >= b {
        a
    } else {
        b
    }
}

/// The smaller of two numbers.
pub fn min_of(a: i64, b: i64) -> (r: i64)
    ensures
        r == min(a as int, b as int),
{
    if a <= b {
        a
    } else {
        b
    }
}

/// How far a number is from zero.
pub fn abs_of(a: i64) -> (r: i64)
    requires
        a > i64::MIN,
    ensures
        r == abs(a as int),
{
    if a < 0 {
        -a
    } else {
        a
    }
}

/// `v`, or the nearest end of `lo..=hi`.
pub fn clamp_to(v: i64, lo: i64, hi: i64) -> (r: i64)
    ensures
        r == clamp(v as int, lo as int, hi as int),
{
    if v < lo {
        lo
    } else if v > hi {
        hi
    } else {
        v
    }
}

impl Desk {
    /// Where something of this width, that reaches as far, may begin: not left of the
    /// desktop, and not so far right that it leaves the desktop, unless it is too wide.
    pub open spec fn keep_x(self, x: int, width: int) -> int {
        clamp(x, self.x as int, max(self.x + self.w - width, self.x as int))
    }

    /// Where something of this height may begin; see [`Desk::keep_x`].
    pub open spec fn keep_y(self, y: int, height: int) -> int {
        clamp(y, self.y as int, max(self.y + self.h - height, self.y as int))
    }

    /// [`Desk::keep_x`].
    pub fn clamp_x(&self, x: i64, width: i64) -> (r: i64)
        requires
            -0x1_0000_0000 <= width <= 0x1_0000_0000,
        ensures
            r == self.keep_x(x as int, width as int),
            -0x4_0000_0000 <= r <= 0x4_0000_0000,
    {
        clamp_to(x, self.x as i64, max_of(self.x as i64 + self.w as i64 - width, self.x as i64))
    }

    /// [`Desk::keep_y`].
    pub fn clamp_y(&self, y: i64, height: i64) -> (r: i64)
        requires
            -0x1_0000_0000 <= height <= 0x1_0000_0000,
        ensures
            r == self.keep_y(y as int, height as int),
            -0x4_0000_0000 <= r <= 0x4_0000_0000,
    {
        clamp_to(y, self.y as i64, max_of(self.y as i64 + self.h as i64 - height, self.y as i64))
    }
}

/// What is kept on the desktop does not begin before it, and does not reach beyond it where
/// it fits at all.
pub proof fn kept_on_desk(d: Desk, x: int, width: int)
    ensures
        d.x <= d.keep_x(x, width),
        width <= d.w ==> d.keep_x(x, width) + width <= d.x + d.w,
        d.y <= d.keep_y(x, width),
        width <= d.h ==> d.keep_y(x, width) + width <= d.y + d.h,
{
}

/// A whole number divided by another, cut off towards zero.
pub open spec fn quotient(a: int, b: int) -> int {
    if a >= 0 {
        a / b
    } else {
        -((-a) / b)
    }
}

/// Half of a number, cut off towards zero.
pub fn halved(a: i64) -> (r: i64)
    requires
        -0x2_0000_0000 <= a <= 0x2_0000_0000,
    ensures
        r == quotient(a as int, 2),
{
    if a >= 0 {
        a / 2
    } else {
        -((-a) / 2)
    }
}

/// What fits on the desktop where it is asked for goes there.
pub proof fn kept_where_it_fits(d: Desk, x: int, width: int)
    ensures
        d.x <= x && x + width <= d.x + d.w ==> d.keep_x(x, width) == x,
        d.y <= x && x + width <= d.y + d.h ==> d.keep_y(x, width) == x,
        x < d.x ==> d.keep_x(x, width) == d.x,
        x < d.y ==> d.keep_y(x, width) == d.y,
        width <= d.w && x + width > d.x + d.w ==> d.keep_x(x, width) + width == d.x + d.w,
        width <= d.h && x + width > d.y + d.h ==> d.keep_y(x, width) + width == d.y + d.h,
{
}

/// A part is cut off towards zero: whole parts of it come no farther than the number, and within
/// less than one of each.
pub proof fn quotient_is_cut_off(a: int, b: int)
    requires
        0 < b,
    ensures
        a >= 0 ==> b * quotient(a, b) <= a < b * quotient(a, b) + b,
        a <= 0 ==> b * quotient(a, b) - b < a <= b * quotient(a, b),
        quotient(-a, b) == -quotient(a, b),
{
    vstd::arithmetic::div_mod::lemma_fundamental_div_mod(a, b);
    vstd::arithmetic::div_mod::lemma_fundamental_div_mod(-a, b);
    assert(b * (-((-a) / b)) == -(b * ((-a) / b))) by (nonlinear_arith);
    assert(0int / b == 0) by (nonlinear_arith)
        requires
            0 < b,
    ;
}

} // verus!
