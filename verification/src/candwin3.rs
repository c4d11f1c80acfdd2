//! The layered candidate window, for hosts that show no composed one: where it goes, and what it
//! shows.

use vstd::prelude::*;

use crate::color::Rgba;
use crate::geometry;
use crate::geometry::{abs_of, max_of, min_of, Desk, Rect};
use crate::json::Json;
use crate::rows;
use crate::rows::{Labels, Row};
use crate::skin;
use crate::skin::skin_color4;
use crate::text;
use crate::watch;

verus! {

/// The farthest that a place can lie.
pub const FAR: i64 = 0x4_0000_0000;

/// What the window remembers.
#[derive(Clone, Copy, Debug)]
pub struct CandWin3 {
    /// The last place.
    pub sticky: Option<(i64, i64)>,
    /// The length of what had been typed then.
    pub last_raw_len: usize,
    /// The frames in a row in which the window was on the screen and could not be seen.
    pub cloaked_streak: u32,
}

/// Where the anchor asks for the window: at the left edge of the text, below it, or above it
/// where there is no room below.
pub open spec fn asked(desk: Desk, r: Rect, w: int, h: int) -> (int, int) {
    let below = r.bottom + 4;
    (
        desk.keep_x(r.left as int, w),
        if below + h <= desk.y + desk.h {
            below
        } else {
            geometry::max(r.top - h - 4, desk.y as int)
        },
    )
}

/// Where the window goes from its last place. While what has been typed does not get shorter,
/// it does not go back and keeps its line; it never moves by two pixels or less.
pub open spec fn steadied(old: (int, int), new: (int, int), grew: bool) -> (int, int) {
    let x = if grew && new.0 < old.0 - 2 {
        old.0
    } else {
        new.0
    };
    let y = if grew && geometry::abs(new.1 - old.1) <= 26 {
        old.1
    } else {
        new.1
    };
    if geometry::abs(x - old.0) <= 2 && geometry::abs(y - old.1) <= 2 {
        old
    } else {
        (x, y)
    }
}

/// The place of a frame: by the anchor; without one the last place; else in the lower left of
/// the window in the foreground, and nowhere if there is none.
pub open spec fn place(
    c: CandWin3,
    desk: Desk,
    anchor: Option<Rect>,
    size: (int, int),
    raw_len: int,
    foreground: Option<Rect>,
) -> Option<(int, int)> {
    match (anchor, c.sticky) {
        (Some(r), Some((ox, oy))) => Some(
            steadied(
                (ox as int, oy as int),
                asked(desk, r, size.0, size.1),
                raw_len >= c.last_raw_len,
            ),
        ),
        (Some(r), None) => Some(asked(desk, r, size.0, size.1)),
        (None, Some((ox, oy))) => Some((ox as int, oy as int)),
        (None, None) => match foreground {
            Some(w) => Some(
                (
                    w.left + 16,
                    geometry::max(
                        w.bottom - geometry::min(2 * size.1, w.bottom - w.top),
                        w.top as int,
                    ),
                ),
            ),
            None => None,
        },
    }
}

impl CandWin3 {
    /// The last place is one on a desktop.
    pub open spec fn wf(self) -> bool {
        self.sticky matches Some((x, y)) ==> -FAR <= x <= FAR && -FAR <= y <= FAR
    }

    /// A window that has been nowhere yet.
    pub fn new() -> (r: CandWin3)
        ensures
            r == (CandWin3 { sticky: None, last_raw_len: 0, cloaked_streak: 0 }),
            r.wf(),
    {
        CandWin3 { sticky: None, last_raw_len: 0, cloaked_streak: 0 }
    }

    /// Places a frame; see [`place`]. The length of what has been typed is noted, and the place
    /// if there is one.
    pub fn place_frame(
        &mut self,
        desk: Desk,
        anchor: Option<Rect>,
        size: (i32, i32),
        raw_len: usize,
        foreground: Option<Rect>,
    ) -> (r: Option<(i64, i64)>)
        requires
            old(self).wf(),
        ensures
            ({
                let at = place(
                    *old(self),
                    desk,
                    anchor,
                    (size.0 as int, size.1 as int),
                    raw_len as int,
                    foreground,
                );
                match r {
                    Some((x, y)) => at == Some((x as int, y as int)) && *final(self) == (CandWin3 {
                        sticky: r,
                        last_raw_len: raw_len,
                        ..*old(self)
                    }),
                    None => at is None && *final(self) == (CandWin3 {
                        last_raw_len: raw_len,
                        ..*old(self)
                    }),
                }
            }),
            final(self).wf(),
    {
        let grew = raw_len >= self.last_raw_len;
        self.last_raw_len = raw_len;
        let w: i64 = size.0 as i64;
        let h: i64 = size.1 as i64;
        let at = match anchor {
            Some(a) => {
                let x: i64 = desk.clamp_x(a.left as i64, w);
                let below: i64 = a.bottom as i64 + 4;
                let y: i64 = if below + h <= desk.y as i64 + desk.h as i64 {
                    below
                } else {
                    max_of(a.top as i64 - h - 4, desk.y as i64)
                };
                match self.sticky {
                    Some((ox, oy)) => {
                        let x1: i64 = if grew && x < ox - 2 {
                            ox
                        } else {
                            x
                        };
                        let y1: i64 = if grew && abs_of(y - oy) <= 26 {
                            oy
                        } else {
                            y
                        };
                        if abs_of(x1 - ox) <= 2 && abs_of(y1 - oy) <= 2 {
                            (ox, oy)
                        } else {
                            (x1, y1)
                        }
                    },
                    None => (x, y),
                }
            },
            None => match self.sticky {
                Some(p) => p,
                None => match foreground {
                    Some(f) => {
                        let up: i64 = min_of(2 * h, f.bottom as i64 - f.top as i64);
                        (f.left as i64 + 16, max_of(f.bottom as i64 - up, f.top as i64))
                    },
                    None => return None,
                },
            },
        };
        self.sticky = Some(at);
        Some(at)
    }

    /// The window goes out of view: what is typed next is taken to be shorter. Its last place
    /// stays.
    pub fn hide_window(&mut self)
        requires
            old(self).wf(),
        ensures
            *final(self) == (CandWin3 { last_raw_len: usize::MAX, ..*old(self) }),
            final(self).wf(),
    {
        self.last_raw_len = usize::MAX;
    }

    /// Notes whether the window could be seen.
    pub fn note_cloaked(&mut self, cloaked: bool)
        requires
            old(self).wf(),
        ensures
            *final(self) == (CandWin3 {
                cloaked_streak: if !cloaked {
                    0
                } else if old(self).cloaked_streak < u32::MAX {
                    (old(self).cloaked_streak + 1) as u32
                } else {
                    u32::MAX
                },
                ..*old(self)
            }),
            final(self).wf(),
    {
        self.cloaked_streak = watch::cloaked_streak(self.cloaked_streak, cloaked);
    }
}

/// While typing goes on, the window never goes back, and does not leave its line for less than
/// twenty-seven pixels.
pub proof fn typing_never_goes_back(old: (int, int), new: (int, int))
    ensures
        steadied(old, new, true).0 >= old.0 - 2,
        geometry::abs(new.1 - old.1) <= 26 ==> steadied(old, new, true).1 == old.1,
{
}

/// After the window was out of view, its next frame goes where the anchor asks, but for a move
/// of two pixels or less.
pub proof fn hidden_frees_next_frame(
    c: CandWin3,
    desk: Desk,
    r: Rect,
    size: (int, int),
    raw_len: int,
    foreground: Option<Rect>,
)
    requires
        c.last_raw_len == usize::MAX,
        raw_len < usize::MAX,
    ensures
        ({
            let want = asked(desk, r, size.0, size.1);
            let at = place(c, desk, Some(r), size, raw_len, foreground);
            at == Some(want) || (c.sticky matches Some((ox, oy)) && at == Some(
                (ox as int, oy as int),
            ) && geometry::abs(want.0 - ox) <= 2 && geometry::abs(want.1 - oy) <= 2)
        }),
{
}

/// The most candidates that this window shows.
pub const SHOWN: usize = 9;

/// How many candidates are shown.
pub open spec fn shown(count: int) -> int {
    if count < SHOWN {
        count
    } else {
        SHOWN as int
    }
}

/// The rows of the window: the first candidates, numbered with a stop behind the number; the
/// highlight is on one of those.
pub fn rows_of(texts: &Vec<String>, comments: &Vec<String>, selected: usize, numbered: bool) -> (r:
    Vec<Row>)
    ensures
        r.len() == shown(texts.len() as int),
        forall|i: int|
            0 <= i < r.len() ==> {
                let row = #[trigger] r[i];
                &&& crate::session::opt_text(row.label) == if numbered {
                    Some(crate::labels::label("%s."@, "digit"@, i + 1))
                } else {
                    None
                }
                &&& row.text@ == texts[i]@
                &&& row.comment@ == if i < comments.len() {
                    comments[i]@
                } else {
                    seq![]
                }
                &&& row.hilited == (i == rows::hilited_row(
                    selected as int,
                    shown(texts.len() as int),
                ))
            },
        r.len() <= 9,
        r.len() == texts.len() || (r.len() == 9 && texts.len() > 9),
        forall|i: int|
            0 <= i < r.len() ==> ((#[trigger] r[i]).hilited <==> i == selected || (selected >= r.len()
                && i + 1 == r.len())),
        forall|i: int|
            0 <= i < r.len() ==> ((#[trigger] r[i]).label matches Some(s) ==> s@
                == crate::number::decimal(i + 1) + seq!['.']),
{
    let n: usize = if texts.len() < SHOWN {
        texts.len()
    } else {
        SHOWN
    };
    let sel: usize = if selected < n {
        selected
    } else if n > 0 {
        n - 1
    } else {
        0
    };
    let l = Labels { shown: numbered, format: "%s.".to_owned(), style: "digit".to_owned() };
    let r = crate::rows::rows(texts, comments, sel, &l, SHOWN);
    proof {
        assert forall|i: int| 0 <= i < r.len() implies rows::shows(
            #[trigger] r[i],
            i,
            text::strings(texts@),
            text::strings(comments@),
            sel as int,
            l,
        ) by {}
        assert forall|i: int| 0 <= i < r.len() implies ((#[trigger] r[i]).label matches Some(s) ==> s@
            == crate::number::decimal(i + 1) + seq!['.']) by {
            plain_number(i + 1);
        }
    }
    r
}

/// The colours of the window, but for that of its material.
#[derive(Clone, Copy, Debug)]
pub struct Palette {
    pub shadow: Rgba,
    pub border: Rgba,
    pub typed: Rgba,
    pub text: Rgba,
    pub label: Rgba,
    pub comment: Rgba,
    pub hi_back: Rgba,
    pub hi_text: Rgba,
    pub hi_label: Rgba,
    pub hi_comment: Rgba,
}

/// The colours that a skin gives the window, or the usual ones.
pub fn palette(skin: &Json) -> (r: Palette)
    ensures
        ({
            let t = skin.tree();
            &&& r.shadow == skin::skin_color(t, "shadow_color"@, "#000000FF"@)
            &&& r.border == skin::skin_color(t, "border_color"@, "#FFFFFF26"@)
            &&& r.typed == skin::skin_color(t, "text_color"@, "#E8E8EAFF"@)
            &&& r.text == skin::skin_color(t, "candidate_text_color"@, "#E8E8EAFF"@)
            &&& r.label == skin::skin_color(t, "label_color"@, "#C9C9C9FF"@)
            &&& r.comment == skin::skin_color(t, "comment_text_color"@, "#9A9AA0FF"@)
            &&& r.hi_back == skin::skin_color(t, "hilited_candidate_back_color"@, "#404046FF"@)
            &&& r.hi_text == skin::skin_color(t, "hilited_candidate_text_color"@, "#FFFFFFFF"@)
            &&& r.hi_label == skin::skin_color(t, "hilited_candidate_label_color"@, "#FFD75EFF"@)
            &&& r.hi_comment == skin::skin_color(t, "hilited_comment_text_color"@, "#C9C9C9FF"@)
        }),
{
    Palette {
        shadow: skin_color4(skin, "shadow_color", "#000000FF"),
        border: skin_color4(skin, "border_color", "#FFFFFF26"),
        typed: skin_color4(skin, "text_color", "#E8E8EAFF"),
        text: skin_color4(skin, "candidate_text_color", "#E8E8EAFF"),
        label: skin_color4(skin, "label_color", "#C9C9C9FF"),
        comment: skin_color4(skin, "comment_text_color", "#9A9AA0FF"),
        hi_back: skin_color4(skin, "hilited_candidate_back_color", "#404046FF"),
        hi_text: skin_color4(skin, "hilited_candidate_text_color", "#FFFFFFFF"),
        hi_label: skin_color4(skin, "hilited_candidate_label_color", "#FFD75EFF"),
        hi_comment: skin_color4(skin, "hilited_comment_text_color", "#C9C9C9FF"),
    }
}

impl Palette {
    /// The colours of a row: of its number, its text and its remark.
    pub fn row_colors(&self, hilited: bool) -> (r: (Rgba, Rgba, Rgba))
        ensures
            r == if hilited {
                (self.hi_label, self.hi_text, self.hi_comment)
            } else {
                (self.label, self.text, self.comment)
            },
    {
        if hilited {
            (self.hi_label, self.hi_text, self.hi_comment)
        } else {
            (self.label, self.text, self.comment)
        }
    }
}

/// A rectangle of pixels by its corner and its size.
#[derive(Clone, Copy, Debug)]
pub struct Area {
    pub x: i32,
    pub y: i32,
    pub w: i32,
    pub h: i32,
}

/// The columns of a canvas that an area has: the first, and how many.
pub open spec fn columns(a: Area, w: int) -> (int, int) {
    let first = geometry::max(a.x as int, 0);
    (first, geometry::max(geometry::min(a.w as int, w - first), 0))
}

/// The bytes of a canvas, four for a pixel, that the first rows of an area have: for each row that
/// lies on the canvas the first byte and how many. A row that would end beyond the canvas has none.
pub open spec fn spans(a: Area, w: int, h: int, rows: int) -> Seq<(int, int)>
    decreases rows,
{
    if rows <= 0 {
        seq![]
    } else {
        let before = spans(a, w, h, rows - 1);
        let y = a.y + rows - 1;
        let (first, count) = columns(a, w);
        let start = (y * w + first) * 4;
        if 0 <= y < h && start + 4 * count <= w * h * 4 {
            before.push((start, 4 * count))
        } else {
            before
        }
    }
}

/// Spans as mathematical integers.
pub open spec fn spans_view(v: Seq<(usize, usize)>) -> Seq<(int, int)> {
    v.map_values(|p: (usize, usize)| (p.0 as int, p.1 as int))
}

/// The bytes to clear before a text is drawn in an area; see [`spans`].
pub fn spans_of(a: Area, w: i32, h: i32) -> (r: Vec<(usize, usize)>)
    requires
        0 <= w,
        0 <= h,
        w * h * 4 <= usize::MAX,
    ensures
        spans_view(r@) == spans(a, w as int, h as int, a.h as int),
{
    let ghost wi = w as int;
    let ghost hi = h as int;
    let mut r: Vec<(usize, usize)> = Vec::new();
    assert(spans_view(r@) =~= spans(a, wi, hi, 0));
    if a.h <= 0 {
        assert(spans(a, wi, hi, a.h as int) =~= seq![]);
        return r;
    }
    let first: i64 = max_of(a.x as i64, 0);
    let count: i64 = max_of(min_of(a.w as i64, w as i64 - first), 0);
    let all: i128 = w as i128 * h as i128 * 4;
    let mut row: i32 = 0;
    while row < a.h
        invariant
            0 <= row <= a.h,
            0 <= w,
            0 <= h,
            w * h * 4 <= usize::MAX,
            all == w * h * 4,
            wi == w,
            hi == h,
            (first as int, count as int) == columns(a, wi),
            0 <= first <= i32::MAX,
            0 <= count <= i32::MAX,
            spans_view(r@) == spans(a, wi, hi, row as int),
        decreases a.h - row,
    {
        let ghost before = r@;
        let y: i64 = a.y as i64 + row as i64;
        if 0 <= y && y < h as i64 {
            proof {
                assert(0 <= y * w <= 0x4000_0000_0000_0000) by (nonlinear_arith)
                    requires
                        0 <= y < 0x8000_0000,
                        0 <= w <= 0x7fff_ffff,
                ;
            }
            let start: i128 = (y as i128 * w as i128 + first as i128) * 4;
            let len: i128 = 4 * count as i128;
            if start + len <= all {
                r.push((start as usize, len as usize));
                assert(spans_view(r@) =~= spans_view(before).push((start as int, len as int)));
            }
        }
        row += 1;
        assert(spans_view(r@) =~= spans(a, wi, hi, row as int));
    }
    r
}

/// Nothing beyond the canvas is cleared.
pub proof fn spans_on_canvas(a: Area, w: int, h: int, rows: int, i: int)
    requires
        0 <= w,
        0 <= i < spans(a, w, h, rows).len(),
    ensures
        0 <= spans(a, w, h, rows)[i].0,
        0 <= spans(a, w, h, rows)[i].1,
        spans(a, w, h, rows)[i].0 + spans(a, w, h, rows)[i].1 <= w * h * 4,
    decreases rows,
{
    if i < spans(a, w, h, rows - 1).len() {
        spans_on_canvas(a, w, h, rows - 1, i);
    } else {
        let y = a.y + rows - 1;
        assert(0 <= y * w) by (nonlinear_arith)
            requires
                0 <= y,
                0 <= w,
        ;
    }
}

/// Every pixel of an area that lies on the canvas is cleared.
pub proof fn spans_clear_area(a: Area, w: int, h: int, row: int, col: int)
    requires
        0 <= row < a.h,
        0 <= col < a.w,
        on_canvas(a, w, h, row, col),
    ensures
        exists|i: int|
            0 <= i < spans(a, w, h, a.h as int).len() && {
                let s = #[trigger] spans(a, w, h, a.h as int)[i];
                let at = ((a.y + row) * w + a.x + col) * 4;
                s.0 <= at && at + 4 <= s.0 + s.1
            },
{
    spans_reach(a, w, h, a.h as int, row, col);
}

proof fn spans_reach(a: Area, w: int, h: int, rows: int, row: int, col: int)
    requires
        0 <= row < rows,
        0 <= col < a.w,
        on_canvas(a, w, h, row, col),
    ensures
        exists|i: int|
            0 <= i < spans(a, w, h, rows).len() && {
                let s = #[trigger] spans(a, w, h, rows)[i];
                let at = ((a.y + row) * w + a.x + col) * 4;
                s.0 <= at && at + 4 <= s.0 + s.1
            },
    decreases rows,
{
    let before = spans(a, w, h, rows - 1);
    let now = spans(a, w, h, rows);
    if row < rows - 1 {
        spans_reach(a, w, h, rows - 1, row, col);
        let i = choose|i: int|
            0 <= i < before.len() && {
                let s = #[trigger] before[i];
                let at = ((a.y + row) * w + a.x + col) * 4;
                s.0 <= at && at + 4 <= s.0 + s.1
            };
        assert(now[i] == before[i]);
    } else {
        let y = a.y + row;
        let (first, count) = columns(a, w);
        assert(y * w + w <= w * h) by (nonlinear_arith)
            requires
                0 <= y < h,
                0 <= w,
        ;
        assert(now == before.push(((y * w + first) * 4, 4 * count)));
        assert(now[before.len() as int] == ((y * w + first) * 4, 4 * count));
    }
}

/// Whether the pixel at a row and a column of an area lies on a canvas.
pub open spec fn on_canvas(a: Area, w: int, h: int, row: int, col: int) -> bool {
    0 <= a.y + row < h && 0 <= a.x + col < w
}

/// The pixels of the first columns of a row of an area that text covers: where they lie on the
/// canvas, counted row by row, and how much they are covered. Coverage has four bytes for a pixel,
/// of which the first tells.
pub open spec fn row_covered(cov: Seq<u8>, pitch: int, a: Area, w: int, h: int, row: int, cols: int) -> Seq<
    (int, u8),
>
    decreases cols,
{
    if cols <= 0 {
        seq![]
    } else {
        let before = row_covered(cov, pitch, a, w, h, row, cols - 1);
        let c = cov[row * pitch + (cols - 1) * 4];
        if on_canvas(a, w, h, row, cols - 1) && c > 0 {
            before.push(((a.y + row) * w + a.x + cols - 1, c))
        } else {
            before
        }
    }
}

/// The pixels of the first rows of an area that text covers.
pub open spec fn covered(cov: Seq<u8>, pitch: int, a: Area, w: int, h: int, rows: int) -> Seq<
    (int, u8),
>
    decreases rows,
{
    if rows <= 0 {
        seq![]
    } else {
        covered(cov, pitch, a, w, h, rows - 1) + row_covered(
            cov,
            pitch,
            a,
            w,
            h,
            rows - 1,
            a.w as int,
        )
    }
}

/// The pixels as mathematical integers.
pub open spec fn pixels(v: Seq<(usize, u8)>) -> Seq<(int, u8)> {
    v.map_values(|p: (usize, u8)| (p.0 as int, p.1))
}

/// The pixels of an area that text covers, to be drawn in the text's colour; see [`covered`].
pub fn covered_pixels(cov: &Vec<u8>, pitch: usize, a: Area, w: i32, h: i32) -> (r: Vec<(usize, u8)>)
    requires
        0 <= w,
        0 <= h,
        w * h <= usize::MAX,
        forall|row: int, col: int|
            0 <= row < a.h && 0 <= col < a.w && #[trigger] on_canvas(a, w as int, h as int, row, col)
                ==> row * pitch + col * 4 < cov.len(),
    ensures
        pixels(r@) == covered(cov@, pitch as int, a, w as int, h as int, a.h as int),
{
    let mut r: Vec<(usize, u8)> = Vec::new();
    let mut row: i32 = 0;
    let ghost wi = w as int;
    let ghost hi = h as int;
    let ghost pi = pitch as int;
    assert(pixels(r@) =~= covered(cov@, pi, a, wi, hi, 0));
    if a.h <= 0 {
        assert(covered(cov@, pi, a, wi, hi, a.h as int) =~= seq![]);
        return r;
    }
    while row < a.h
        invariant
            0 <= row <= a.h,
            0 <= w,
            0 <= h,
            w * h <= usize::MAX,
            wi == w,
            hi == h,
            pi == pitch,
            forall|row: int, col: int|
                0 <= row < a.h && 0 <= col < a.w && #[trigger] on_canvas(a, wi, hi, row, col) ==> row
                    * pitch + col * 4 < cov.len(),
            pixels(r@) == covered(cov@, pi, a, wi, hi, row as int),
        decreases a.h - row,
    {
        let ghost done = pixels(r@);
        let y: i64 = a.y as i64 + row as i64;
        let mut col: i32 = 0;
        assert(done + row_covered(cov@, pi, a, wi, hi, row as int, 0) =~= done);
        while col < a.w
            invariant
                0 <= col,
                col <= a.w || col == 0,
                0 <= row < a.h,
                0 <= w,
                0 <= h,
                w * h <= usize::MAX,
                wi == w,
                hi == h,
                pi == pitch,
                y == a.y + row,
                forall|row: int, col: int|
                    0 <= row < a.h && 0 <= col < a.w && #[trigger] on_canvas(a, wi, hi, row, col) ==> row
                        * pitch + col * 4 < cov.len(),
                pixels(r@) == done + row_covered(cov@, pi, a, wi, hi, row as int, col as int),
            decreases a.w - col,
        {
            let ghost before = r@;
            let x: i64 = a.x as i64 + col as i64;
            if 0 <= y && y < h as i64 && 0 <= x && x < w as i64 {
                proof {
                    assert(on_canvas(a, wi, hi, row as int, col as int));
                    assert(0 <= row * pitch) by (nonlinear_arith)
                        requires
                            0 <= row,
                            0 <= pitch,
                    ;
                    assert(0 <= y * w + x < w * h) by (nonlinear_arith)
                        requires
                            0 <= y < h,
                            0 <= x < w,
                    ;
                    assert(0 <= y * w) by (nonlinear_arith)
                        requires
                            0 <= y,
                            0 <= w,
                    ;
                }
                let at: usize = row as usize * pitch + col as usize * 4;
                let c: u8 = cov[at];
                if c > 0 {
                    let to: usize = y as usize * w as usize + x as usize;
                    r.push((to, c));
                    assert(pixels(r@) =~= pixels(before).push((to as int, c)));
                }
            }
            col += 1;
            assert(pixels(r@) =~= done + row_covered(cov@, pi, a, wi, hi, row as int, col as int));
        }
        if a.w <= 0 {
            assert(row_covered(cov@, pi, a, wi, hi, row as int, a.w as int) =~= seq![]);
            assert(row_covered(cov@, pi, a, wi, hi, row as int, 0) =~= seq![]);
        }
        row += 1;
    }
    r
}

/// No pixel that is drawn lies off the canvas.
pub proof fn covered_on_canvas(cov: Seq<u8>, pitch: int, a: Area, w: int, h: int, rows: int, i: int)
    requires
        0 <= i < covered(cov, pitch, a, w, h, rows).len(),
    ensures
        0 <= covered(cov, pitch, a, w, h, rows)[i].0 < w * h,
        covered(cov, pitch, a, w, h, rows)[i].1 > 0,
    decreases rows,
{
    let before = covered(cov, pitch, a, w, h, rows - 1);
    if i < before.len() {
        covered_on_canvas(cov, pitch, a, w, h, rows - 1, i);
    } else {
        row_on_canvas(cov, pitch, a, w, h, rows - 1, a.w as int, i - before.len());
    }
}

proof fn row_on_canvas(cov: Seq<u8>, pitch: int, a: Area, w: int, h: int, row: int, cols: int, i: int)
    requires
        0 <= i < row_covered(cov, pitch, a, w, h, row, cols).len(),
    ensures
        0 <= row_covered(cov, pitch, a, w, h, row, cols)[i].0 < w * h,
        row_covered(cov, pitch, a, w, h, row, cols)[i].1 > 0,
    decreases cols,
{
    let before = row_covered(cov, pitch, a, w, h, row, cols - 1);
    if i < before.len() {
        row_on_canvas(cov, pitch, a, w, h, row, cols - 1, i);
    } else {
        let y = a.y + row;
        let x = a.x + cols - 1;
        assert(0 <= y * w + x < w * h) by (nonlinear_arith)
            requires
                0 <= y < h,
                0 <= x < w,
        ;
    }
}

/// A window that comes to a caret does not cover its line: it is below it where the desktop has
/// room for it there, else above it where it has room there. It begins at the left edge of the
/// text, wherever it fits there.
pub proof fn window_spares_line(
    c: CandWin3,
    desk: Desk,
    r: Rect,
    size: (int, int),
    raw_len: int,
    foreground: Option<Rect>,
)
    requires
        c.sticky is None,
        r.top <= r.bottom,
        0 <= size.0,
        0 <= size.1,
    ensures
        place(c, desk, Some(r), size, raw_len, foreground) matches Some((x, y)) && {
            &&& r.bottom + 4 + size.1 <= desk.y + desk.h ==> y == r.bottom + 4
            &&& r.bottom + 4 + size.1 > desk.y + desk.h && r.top - 4 - size.1 >= desk.y ==> y + size.1
                + 4 == r.top
            &&& desk.x <= r.left && r.left + size.0 <= desk.x + desk.w ==> x == r.left
            &&& desk.x <= x
            &&& size.0 <= desk.w ==> x + size.0 <= desk.x + desk.w
        },
{
}

/// While typing goes on along a line the window follows the text to the right and keeps its
/// height; what is taken back lets it go back too; a new line takes it along.
pub proof fn window_follows_typing(
    c: CandWin3,
    desk: Desk,
    r: Rect,
    size: (int, int),
    raw_len: int,
    foreground: Option<Rect>,
    ox: i64,
    oy: i64,
)
    requires
        c.sticky == Some((ox, oy)),
        r.top <= r.bottom,
        0 <= size.0,
        0 <= size.1,
        r.bottom + 4 + size.1 <= desk.y + desk.h,
        desk.x <= r.left,
        r.left + size.0 <= desk.x + desk.w,
    ensures
        place(c, desk, Some(r), size, raw_len, foreground) matches Some((x, y)) && {
            &&& r.left > ox + 2 ==> x == r.left
            &&& raw_len >= c.last_raw_len && r.left < ox - 2 ==> x == ox
            &&& raw_len < c.last_raw_len && r.left < ox - 2 ==> x == r.left
            &&& raw_len >= c.last_raw_len && geometry::abs(r.bottom + 4 - oy) <= 26 ==> y == oy
            &&& geometry::abs(r.bottom + 4 - oy) > 26 ==> (x, y) == (
                if raw_len >= c.last_raw_len && r.left < ox - 2 {
                    ox as int
                } else {
                    r.left as int
                },
                r.bottom + 4,
            )
        },
{
}

/// Without an anchor the window stays where it was; where it has been nowhere it stands over the
/// lower left of the window in the foreground, and is not shown where there is none.
pub proof fn window_waits_without_anchor(
    c: CandWin3,
    desk: Desk,
    size: (int, int),
    raw_len: int,
    foreground: Option<Rect>,
)
    requires
        0 <= size.1,
    ensures
        c.sticky matches Some((ox, oy)) ==> place(c, desk, None, size, raw_len, foreground) == Some(
            (ox as int, oy as int),
        ),
        c.sticky is None && foreground is None ==> place(
            c,
            desk,
            None,
            size,
            raw_len,
            foreground,
        ) is None,
        (c.sticky is None && foreground is Some && foreground->0.top <= foreground->0.bottom) ==> (
        place(c, desk, None, size, raw_len, foreground) matches Some((x, y)) && x
            == foreground->0.left + 16 && foreground->0.top <= y <= foreground->0.bottom && (2
            * size.1 <= foreground->0.bottom - foreground->0.top ==> y == foreground->0.bottom - 2
            * size.1)),
{
}

proof fn plain_number(n: int)
    requires
        1 <= n <= 9,
    ensures
        crate::labels::label("%s."@, "digit"@, n) == crate::number::decimal(n) + seq!['.'],
{
    reveal_strlit("%s.");
    reveal_strlit("digit");
    reveal_strlit("zh");
    reveal_strlit("roman");
    assert("digit"@.len() == 5);
    assert("roman"@[0] == 'r' && "digit"@[0] == 'd');
    let none = Seq::<char>::empty();
    assert("%s."@ =~= none + seq!['%', 's'] + seq!['.']);
    crate::labels::number_fills_slot(none, seq!['.'], "digit"@, n);
    crate::labels::ordinals_count("digit"@, n);
    assert(none + crate::number::decimal(n) + seq!['.'] =~= crate::number::decimal(n) + seq!['.']);
}

/// Nothing beside an area is cleared: what is cleared is part of one of its rows.
pub proof fn only_area_is_cleared(a: Area, w: int, h: int, rows: int, i: int)
    requires
        0 <= i < spans(a, w, h, rows).len(),
    ensures
        exists|row: int|
            0 <= row < rows && 0 <= a.y + row < h && {
                let s = spans(a, w, h, rows)[i];
                let left = #[trigger] ((a.y + row) * w) * 4 + 4 * geometry::max(a.x as int, 0);
                s.0 == left && (s.1 > 0 ==> s.1 <= 4 * a.w && s.0 + s.1 <= ((a.y + row) * w + w) * 4)
            },
    decreases rows,
{
    let before = spans(a, w, h, rows - 1);
    if i < before.len() {
        only_area_is_cleared(a, w, h, rows - 1, i);
        let row = choose|row: int|
            0 <= row < rows - 1 && 0 <= a.y + row < h && {
                let s = before[i];
                let left = #[trigger] ((a.y + row) * w) * 4 + 4 * geometry::max(a.x as int, 0);
                s.0 == left && (s.1 > 0 ==> s.1 <= 4 * a.w && s.0 + s.1 <= ((a.y + row) * w + w) * 4)
            };
        assert(spans(a, w, h, rows)[i] == before[i]);
        assert(0 <= row < rows && ((a.y + row) * w) * 4 + 4 * geometry::max(a.x as int, 0)
            == before[i].0);
    } else {
        let row = rows - 1;
        let y = a.y + row;
        assert(y == a.y + rows - 1);
        let (first, count) = columns(a, w);
        assert(spans(a, w, h, rows)[i] == ((y * w + first) * 4, 4 * count));
        assert(((a.y + row) * w) * 4 + 4 * first == (y * w + first) * 4);
    }
}

/// A pixel of an area that lies on the canvas and that text covers is drawn, as much as the text
/// covers it.
pub proof fn covered_pixel_is_drawn(
    cov: Seq<u8>,
    pitch: int,
    a: Area,
    w: int,
    h: int,
    row: int,
    col: int,
)
    requires
        0 <= row < a.h,
        0 <= col < a.w,
        0 <= a.y + row < h,
        0 <= a.x + col < w,
        cov[row * pitch + 4 * col] > 0,
    ensures
        covered(cov, pitch, a, w, h, a.h as int).contains(
            ((a.y + row) * w + a.x + col, cov[row * pitch + 4 * col]),
        ),
{
    let one = ((a.y + row) * w + a.x + col, cov[row * pitch + 4 * col]);
    row_draws(cov, pitch, a, w, h, row, a.w as int, col);
    let r = row_covered(cov, pitch, a, w, h, row, a.w as int);
    let k = choose|k: int| 0 <= k < r.len() && r[k] == one;
    let before = covered(cov, pitch, a, w, h, row);
    let now = covered(cov, pitch, a, w, h, row + 1);
    assert(now[before.len() + k] == one);
    rows_stay(cov, pitch, a, w, h, row + 1, a.h as int, before.len() + k);
    assert(covered(cov, pitch, a, w, h, a.h as int)[before.len() + k] == one);
}

proof fn rows_stay(cov: Seq<u8>, pitch: int, a: Area, w: int, h: int, less: int, more: int, i: int)
    requires
        less <= more,
        0 <= i < covered(cov, pitch, a, w, h, less).len(),
    ensures
        i < covered(cov, pitch, a, w, h, more).len(),
        covered(cov, pitch, a, w, h, more)[i] == covered(cov, pitch, a, w, h, less)[i],
    decreases more - less,
{
    if less < more {
        rows_stay(cov, pitch, a, w, h, less, more - 1, i);
    }
}

proof fn row_draws(cov: Seq<u8>, pitch: int, a: Area, w: int, h: int, row: int, cols: int, col: int)
    requires
        0 <= col < cols,
        on_canvas(a, w, h, row, col),
        cov[row * pitch + 4 * col] > 0,
    ensures
        row_covered(cov, pitch, a, w, h, row, cols).contains(
            ((a.y + row) * w + a.x + col, cov[row * pitch + 4 * col]),
        ),
    decreases cols,
{
    let one = ((a.y + row) * w + a.x + col, cov[row * pitch + 4 * col]);
    let before = row_covered(cov, pitch, a, w, h, row, cols - 1);
    let now = row_covered(cov, pitch, a, w, h, row, cols);
    if col < cols - 1 {
        row_draws(cov, pitch, a, w, h, row, cols - 1, col);
        let k = choose|k: int| 0 <= k < before.len() && before[k] == one;
        assert(now[k] == one);
    } else {
        assert(now == before.push(one));
        assert(now[before.len() as int] == one);
    }
}

/// Only pixels of the area that text covers are drawn.
pub proof fn only_text_is_drawn(
    cov: Seq<u8>,
    pitch: int,
    a: Area,
    w: int,
    h: int,
    rows: int,
    i: int,
) -> (r: (int, int))
    requires
        0 <= i < covered(cov, pitch, a, w, h, rows).len(),
    ensures
        0 <= r.0 < rows,
        0 <= r.1 < a.w,
        0 <= a.y + r.0 < h,
        0 <= a.x + r.1 < w,
        covered(cov, pitch, a, w, h, rows)[i] == ((a.y + r.0) * w + a.x + r.1, cov[r.0 * pitch + 4
            * r.1]),
        cov[r.0 * pitch + 4 * r.1] > 0,
    decreases rows,
{
    let before = covered(cov, pitch, a, w, h, rows - 1);
    if i < before.len() {
        only_text_is_drawn(cov, pitch, a, w, h, rows - 1, i)
    } else {
        let col = only_row_is_drawn(cov, pitch, a, w, h, rows - 1, a.w as int, i - before.len());
        (rows - 1, col)
    }
}

proof fn only_row_is_drawn(
    cov: Seq<u8>,
    pitch: int,
    a: Area,
    w: int,
    h: int,
    row: int,
    cols: int,
    i: int,
) -> (r: int)
    requires
        0 <= i < row_covered(cov, pitch, a, w, h, row, cols).len(),
    ensures
        0 <= r < cols,
        on_canvas(a, w, h, row, r),
        row_covered(cov, pitch, a, w, h, row, cols)[i] == ((a.y + row) * w + a.x + r, cov[row * pitch + 4
            * r]),
        cov[row * pitch + 4 * r] > 0,
    decreases cols,
{
    let before = row_covered(cov, pitch, a, w, h, row, cols - 1);
    if i < before.len() {
        only_row_is_drawn(cov, pitch, a, w, h, row, cols - 1, i)
    } else {
        cols - 1
    }
}

} // verus!
