//! The plain candidate window: what it draws, how large it is and where it goes. It stands in
//! where the composed one cannot be had.

use vstd::prelude::*;
use vstd::string::*;

use crate::color;
use crate::color::Rgba;
use crate::geometry;
use crate::geometry::{clamp_to, halved, max_of, min_of, Rect};
use crate::json::Json;
use crate::skin;
use crate::skin::color_of;

verus! {

/// The height of a line of text.
pub const FONT_H: i64 = 22;

/// The height of a row.
pub const LINE_H: i64 = 28;

/// A candidate as it is shown: its text and its remark.
pub type Entry = (String, String);

/// What an entry says.
pub open spec fn entry(e: Entry) -> (Seq<char>, Seq<char>) {
    (e.0@, e.1@)
}

/// What the entries say.
pub open spec fn entries(v: Seq<Entry>) -> Seq<(Seq<char>, Seq<char>)> {
    Seq::new(v.len(), |i: int| entry(v[i]))
}

/// The width that an entry takes in a row: its number, its text and its remark, by the number
/// of their characters.
pub open spec fn cell_width(e: (Seq<char>, Seq<char>), numbered: bool) -> int {
    (if numbered {
        20int
    } else {
        0int
    }) + 18 * e.0.len() + if e.1.len() > 0 {
        18 * e.1.len() * 3 / 4 + 6
    } else {
        0
    }
}

/// The width of the first `n` entries in a row, with the margins.
pub open spec fn row_width(v: Seq<(Seq<char>, Seq<char>)>, numbered: bool, n: int) -> int
    decreases n,
{
    if n <= 0 {
        24
    } else {
        row_width(v, numbered, n - 1) + (if n > 1 {
            8int
        } else {
            0int
        }) + cell_width(v[n - 1], numbered)
    }
}

/// The size of the window: in a row as wide as its entries and not too narrow, in a column
/// of a fixed width with a line for each entry and one for what has been typed.
pub open spec fn panel_size(v: Seq<(Seq<char>, Seq<char>)>, numbered: bool, horizontal: bool) -> (
    int,
    int,
) {
    if horizontal {
        (geometry::max(row_width(v, numbered, v.len() as int), 200), 2 * LINE_H + 16)
    } else {
        (240, LINE_H * (v.len() + 1) + 16)
    }
}

proof fn row_width_grows(v: Seq<(Seq<char>, Seq<char>)>, numbered: bool, n: int)
    requires
        0 <= n <= v.len(),
    ensures
        24 <= row_width(v, numbered, n) <= row_width(v, numbered, v.len() as int),
    decreases v.len() - n,
{
    row_width_least(v, numbered, n);
    if n < v.len() {
        row_width_grows(v, numbered, n + 1);
    }
}

proof fn row_width_least(v: Seq<(Seq<char>, Seq<char>)>, numbered: bool, n: int)
    ensures
        24 <= row_width(v, numbered, n),
    decreases n,
{
    if n > 0 {
        row_width_least(v, numbered, n - 1);
    }
}

/// The size of the window; see [`panel_size`]. It must be one that a window can have.
pub fn measure(cands: &Vec<Entry>, numbered: bool, horizontal: bool) -> (r: (i64, i64))
    requires
        ({
            let (w, h) = panel_size(entries(cands@), numbered, horizontal);
            w <= i32::MAX && h <= i32::MAX
        }),
    ensures
        (r.0 as int, r.1 as int) == panel_size(entries(cands@), numbered, horizontal),
        200 <= r.0 <= i32::MAX,
        LINE_H + 16 <= r.1 <= i32::MAX,
{
    if !horizontal {
        return (240, LINE_H * (cands.len() as i64 + 1) + 16);
    }
    let ghost v = entries(cands@);
    let mut w: i64 = 24;
    let mut i: usize = 0;
    while i < cands.len()
        invariant
            i <= cands.len(),
            v == entries(cands@),
            w == row_width(v, numbered, i as int),
            row_width(v, numbered, v.len() as int) <= i32::MAX,
        decreases cands.len() - i,
    {
        proof {
            row_width_grows(v, numbered, i + 1);
            row_width_grows(v, numbered, i as int);
        }
        let tl: i64 = cands[i].0.as_str().unicode_len() as i64;
        let cl: i64 = cands[i].1.as_str().unicode_len() as i64;
        let mut cell: i64 = 18 * tl;
        if numbered {
            cell = cell + 20;
        }
        if cl > 0 {
            cell = cell + 18 * cl * 3 / 4 + 6;
        }
        if i > 0 {
            w = w + 8;
        }
        w = w + cell;
        i += 1;
    }
    (max_of(w, 200), 2 * LINE_H + 16)
}

/// The colours of the window.
#[derive(Clone, Copy, Debug)]
pub struct Palette {
    pub back: Rgba,
    pub border: Rgba,
    pub text: Rgba,
    pub candidate: Rgba,
    pub comment: Rgba,
    pub hilite_back: Rgba,
    pub hilite_label: Rgba,
}

/// A colour of a skin, or the default where the skin has none that can be read.
pub open spec fn palette_color(skin: crate::json::Tree, key: Seq<char>, default: Rgba) -> Rgba {
    match crate::json::str_of(skin::member3(skin, "skin"@, "colors"@, key)) {
        Some(s) => match color::hex_color(s) {
            Some(c) => c,
            None => default,
        },
        None => default,
    }
}

/// The colours that a skin gives the window.
pub fn palette(skin: &Json) -> (r: Palette)
    ensures
        ({
            let t = skin.tree();
            r == (Palette {
                back: palette_color(t, "back_color"@, (32, 32, 34, 0xe6)),
                border: palette_color(t, "border_color"@, (255, 255, 255, 0x26)),
                text: palette_color(t, "text_color"@, (0xe8, 0xe8, 0xea, 0xff)),
                candidate: palette_color(t, "candidate_text_color"@, (0xe8, 0xe8, 0xea, 0xff)),
                comment: palette_color(t, "comment_text_color"@, (0x9a, 0x9a, 0xa0, 0xff)),
                hilite_back: palette_color(
                    t,
                    "hilited_candidate_back_color"@,
                    (64, 64, 70, 0xff),
                ),
                hilite_label: palette_color(
                    t,
                    "hilited_candidate_label_color"@,
                    (0xff, 0xd7, 0x5e, 0xff),
                ),
            })
        }),
{
    Palette {
        back: color_of(skin, "back_color", (32, 32, 34, 0xe6)),
        border: color_of(skin, "border_color", (255, 255, 255, 0x26)),
        text: color_of(skin, "text_color", (0xe8, 0xe8, 0xea, 0xff)),
        candidate: color_of(skin, "candidate_text_color", (0xe8, 0xe8, 0xea, 0xff)),
        comment: color_of(skin, "comment_text_color", (0x9a, 0x9a, 0xa0, 0xff)),
        hilite_back: color_of(skin, "hilited_candidate_back_color", (64, 64, 70, 0xff)),
        hilite_label: color_of(skin, "hilited_candidate_label_color", (0xff, 0xd7, 0x5e, 0xff)),
    }
}

/// A step of drawing.
#[derive(Debug)]
pub enum DrawOp {
    /// Fills a rectangle: left, top, right, bottom.
    Fill(i64, i64, i64, i64, Rgba),
    /// Writes a text at a point, in small type or not.
    Text(i64, i64, String, Rgba, bool),
}

/// What a step of drawing does.
pub enum OpView {
    Fill(int, int, int, int, Rgba),
    Text(int, int, Seq<char>, Rgba, bool),
}

impl View for DrawOp {
    type V = OpView;

    open spec fn view(&self) -> OpView {
        match *self {
            DrawOp::Fill(l, t, r, b, c) => OpView::Fill(l as int, t as int, r as int, b as int, c),
            DrawOp::Text(x, y, s, c, small) => OpView::Text(x as int, y as int, s@, c, small),
        }
    }
}

/// What the steps of drawing do.
pub open spec fn ops_view(v: Seq<DrawOp>) -> Seq<OpView> {
    Seq::new(v.len(), |i: int| v[i]@)
}

/// Writing a text; an empty one takes no step.
pub open spec fn write(x: int, y: int, s: Seq<char>, c: Rgba, small: bool) -> Seq<OpView> {
    if s.len() == 0 {
        seq![]
    } else {
        seq![OpView::Text(x, y, s, c, small)]
    }
}

/// The number before an entry.
pub open spec fn index_text(i: int) -> Seq<char> {
    seq!["1. "@, "2. "@, "3. "@, "4. "@, "5. "@, "6. "@, "7. "@, "8. "@, "9. "@, "10. "@][i]
}

/// Where the entry `i` of a row begins.
pub open spec fn cell_x(v: Seq<(Seq<char>, Seq<char>)>, numbered: bool, i: int) -> int
    decreases i,
{
    if i <= 0 {
        12
    } else {
        cell_x(v, numbered, i - 1) + cell_step(v[i - 1], numbered)
    }
}

/// How far an entry of a row moves the next one on.
pub open spec fn cell_step(e: (Seq<char>, Seq<char>), numbered: bool) -> int {
    (if numbered {
        20int
    } else {
        0int
    }) + geometry::max((18 * e.0.len()) as int, 12) + (if e.1.len() > 0 {
        14 * e.1.len() + 6
    } else {
        0
    }) + 8
}

/// The steps that draw the entry `i` of a row, which begins at `x`.
pub open spec fn cell_ops(
    e: (Seq<char>, Seq<char>),
    x: int,
    i: int,
    sel: int,
    numbered: bool,
    p: Palette,
) -> Seq<OpView> {
    let y = 6 + LINE_H;
    let tx = x + if numbered {
        20int
    } else {
        0int
    };
    let color = if i == sel {
        p.hilite_label
    } else {
        p.candidate
    };
    (if i == sel {
        seq![OpView::Fill(x - 4, y - 2, x + 150, y + LINE_H - 4, p.hilite_back)]
    } else {
        seq![]
    }) + (if numbered {
        write(x, y, index_text(i), color, false)
    } else {
        seq![]
    }) + write(tx, y, e.0, color, false) + write(
        tx + geometry::max((18 * e.0.len()) as int, 12) + 2,
        y + 3,
        e.1,
        p.comment,
        true,
    )
}

/// The steps that draw the entry `i` of a column in a window of this width.
pub open spec fn line_ops(
    e: (Seq<char>, Seq<char>),
    i: int,
    sel: int,
    numbered: bool,
    p: Palette,
    width: int,
) -> Seq<OpView> {
    let y = 6 + LINE_H * (i + 1);
    let color = if i == sel {
        p.hilite_label
    } else {
        p.candidate
    };
    (if i == sel {
        seq![OpView::Fill(6, y - 2, width - 6, y + LINE_H - 4, p.hilite_back)]
    } else {
        seq![]
    }) + (if numbered {
        write(12, y, index_text(i), color, false)
    } else {
        seq![]
    }) + write(40, y, e.0, color, false) + write(130, y + 3, e.1, p.comment, true)
}

/// The steps that draw what has been typed and the first `n` entries.
pub open spec fn panel_ops(
    raw: Seq<char>,
    v: Seq<(Seq<char>, Seq<char>)>,
    sel: int,
    numbered: bool,
    horizontal: bool,
    p: Palette,
    width: int,
    n: int,
) -> Seq<OpView>
    decreases n,
{
    if n <= 0 {
        write(12, 6, raw, p.text, false)
    } else {
        panel_ops(raw, v, sel, numbered, horizontal, p, width, n - 1) + if horizontal {
            cell_ops(v[n - 1], cell_x(v, numbered, n - 1), n - 1, sel, numbered, p)
        } else {
            line_ops(v[n - 1], n - 1, sel, numbered, p, width)
        }
    }
}

/// The highlighted entry: the chosen one, or the last where there are fewer.
pub open spec fn highlighted(selected: int, n: int) -> int {
    geometry::min(selected, geometry::max(n - 1, 0))
}

fn index_label(i: usize) -> (r: &'static str)
    requires
        i < 10,
    ensures
        r@ == index_text(i as int),
        r@.len() > 0,
{
    proof {
        reveal_strlit("1. ");
        reveal_strlit("2. ");
        reveal_strlit("3. ");
        reveal_strlit("4. ");
        reveal_strlit("5. ");
        reveal_strlit("6. ");
        reveal_strlit("7. ");
        reveal_strlit("8. ");
        reveal_strlit("9. ");
        reveal_strlit("10. ");
    }
    match i {
        0 => "1. ",
        1 => "2. ",
        2 => "3. ",
        3 => "4. ",
        4 => "5. ",
        5 => "6. ",
        6 => "7. ",
        7 => "8. ",
        8 => "9. ",
        _ => "10. ",
    }
}

fn push_text(ops: &mut Vec<DrawOp>, x: i64, y: i64, s: &str, c: Rgba, small: bool)
    ensures
        ops_view(final(ops)@) == ops_view(old(ops)@) + write(x as int, y as int, s@, c, small),
{
    let ghost before = ops_view(ops@);
    if s.unicode_len() > 0 {
        let op = DrawOp::Text(x, y, s.to_owned(), c, small);
        let ghost v = op@;
        ops.push(op);
        assert(ops_view(ops@) =~= before + seq![v]);
    } else {
        assert(ops_view(ops@) =~= before + Seq::<OpView>::empty());
    }
}

fn push_fill(ops: &mut Vec<DrawOp>, l: i64, t: i64, r: i64, b: i64, c: Rgba)
    ensures
        ops_view(final(ops)@) == ops_view(old(ops)@) + seq![
            OpView::Fill(l as int, t as int, r as int, b as int, c),
        ],
{
    let ghost before = ops_view(ops@);
    let op = DrawOp::Fill(l, t, r, b, c);
    let ghost v = op@;
    ops.push(op);
    assert(ops_view(ops@) =~= before + seq![v]);
}

proof fn cell_x_bound(v: Seq<(Seq<char>, Seq<char>)>, numbered: bool, i: int)
    requires
        0 <= i <= v.len(),
    ensures
        12 <= cell_x(v, numbered, i) <= 2 * row_width(v, numbered, i) + 20 * i,
    decreases i,
{
    if i > 0 {
        cell_x_bound(v, numbered, i - 1);
    }
}

fn push_cell(ops: &mut Vec<DrawOp>, e: &Entry, at: i64, i: usize, sel: usize, numbered: bool, p: Palette) -> (next:
    i64)
    requires
        i < 10,
        0 <= at <= 0x2_0000_0000,
        18 * e.0@.len() <= i32::MAX,
        13 * e.1@.len() <= i32::MAX,
    ensures
        ops_view(final(ops)@) == ops_view(old(ops)@) + cell_ops(
            entry(*e),
            at as int,
            i as int,
            sel as int,
            numbered,
            p,
        ),
        next == at + cell_step(entry(*e), numbered),
{
    let ghost before = ops_view(ops@);
    let text = e.0.as_str();
    let cmt = e.1.as_str();
    let color = if i == sel {
        p.hilite_label
    } else {
        p.candidate
    };
    let y: i64 = 6 + LINE_H;
    let mut x: i64 = at;
    if i == sel {
        push_fill(ops, x - 4, y - 2, x + 150, y + LINE_H - 4, p.hilite_back);
    }
    if numbered {
        push_text(ops, x, y, index_label(i), color, false);
        x = x + 20;
    }
    push_text(ops, x, y, text, color, false);
    x = x + max_of(18 * (text.unicode_len() as i64), 12);
    push_text(ops, x + 2, y + 3, cmt, p.comment, true);
    let cl: i64 = cmt.unicode_len() as i64;
    if cl > 0 {
        x = x + 14 * cl + 6;
    }
    assert(ops_view(ops@) =~= before + cell_ops(
        entry(*e),
        at as int,
        i as int,
        sel as int,
        numbered,
        p,
    ));
    x + 8
}

fn push_line(ops: &mut Vec<DrawOp>, e: &Entry, i: usize, sel: usize, numbered: bool, p: Palette, width: i64)
    requires
        i < 10,
        0 <= width <= i32::MAX,
    ensures
        ops_view(final(ops)@) == ops_view(old(ops)@) + line_ops(
            entry(*e),
            i as int,
            sel as int,
            numbered,
            p,
            width as int,
        ),
{
    let ghost before = ops_view(ops@);
    let color = if i == sel {
        p.hilite_label
    } else {
        p.candidate
    };
    let y: i64 = 6 + LINE_H * (i as i64 + 1);
    if i == sel {
        push_fill(ops, 6, y - 2, width - 6, y + LINE_H - 4, p.hilite_back);
    }
    if numbered {
        push_text(ops, 12, y, index_label(i), color, false);
    }
    push_text(ops, 40, y, e.0.as_str(), color, false);
    push_text(ops, 130, y + 3, e.1.as_str(), p.comment, true);
    assert(ops_view(ops@) =~= before + line_ops(
        entry(*e),
        i as int,
        sel as int,
        numbered,
        p,
        width as int,
    ));
}

/// The steps that draw the window: what has been typed, and of at most ten entries the
/// numbers, the texts and the remarks; see [`panel_ops`].
pub fn draw_list(
    cands: &Vec<Entry>,
    raw: &str,
    selected: usize,
    numbered: bool,
    horizontal: bool,
    p: Palette,
) -> (r: Vec<DrawOp>)
    requires
        ({
            let (w, h) = panel_size(entries(cands@), numbered, horizontal);
            w <= i32::MAX && h <= i32::MAX
        }),
    ensures
        ({
            let v = entries(cands@);
            ops_view(r@) == panel_ops(
                raw@,
                v,
                highlighted(selected as int, v.len() as int),
                numbered,
                horizontal,
                p,
                panel_size(v, numbered, horizontal).0,
                geometry::min(v.len() as int, 10),
            )
        }),
{
    let (width, _) = measure(cands, numbered, horizontal);
    let ghost v = entries(cands@);
    let n: usize = if cands.len() < 10 {
        cands.len()
    } else {
        10
    };
    let last: usize = if cands.len() > 0 {
        cands.len() - 1
    } else {
        0
    };
    let sel: usize = if selected < last {
        selected
    } else {
        last
    };
    let mut ops: Vec<DrawOp> = Vec::new();
    assert(ops_view(ops@) =~= seq![]);
    push_text(&mut ops, 12, 6, raw, p.text, false);
    assert(ops_view(ops@) =~= panel_ops(raw@, v, sel as int, numbered, horizontal, p, width as int, 0));
    let mut x: i64 = 12;
    let mut i: usize = 0;
    while i < n
        invariant
            i <= n <= cands.len(),
            n <= 10,
            v == entries(cands@),
            horizontal ==> x == cell_x(v, numbered, i as int),
            horizontal ==> row_width(v, numbered, v.len() as int) <= i32::MAX,
            0 <= width <= i32::MAX,
            ops_view(ops@) == panel_ops(
                raw@,
                v,
                sel as int,
                numbered,
                horizontal,
                p,
                width as int,
                i as int,
            ),
        decreases n - i,
    {
        assert(v[i as int] == entry(cands@[i as int]));
        if horizontal {
            proof {
                cell_x_bound(v, numbered, i as int);
                row_width_grows(v, numbered, i as int);
                row_width_grows(v, numbered, i + 1);
            }
            x = push_cell(&mut ops, &cands[i], x, i, sel, numbered, p);
        } else {
            push_line(&mut ops, &cands[i], i, sel, numbered, p, width);
        }
        i += 1;
    }
    ops
}

/// Where the window goes on a screen: above the caret, below it where there is no room above;
/// without a caret in the middle, two thirds down.
pub open spec fn place(anchor: Option<Rect>, screen: (int, int), size: (int, int)) -> (int, int) {
    match anchor {
        Some(r) => {
            let above = r.top - size.1 - 4;
            (
                geometry::clamp(r.left as int, 0, geometry::max(screen.0 - size.0, 0)),
                if above >= 0 {
                    above
                } else {
                    geometry::min(r.bottom + 4, geometry::max(screen.1 - size.1, 0))
                },
            )
        },
        None => (geometry::quotient(screen.0 - size.0, 2), geometry::quotient(screen.1 * 2, 3)),
    }
}

fn thirded(a: i64) -> (r: i64)
    requires
        -0x2_0000_0000 <= a <= 0x2_0000_0000,
    ensures
        r == geometry::quotient(a as int, 3),
{
    if a >= 0 {
        a / 3
    } else {
        -((-a) / 3)
    }
}

/// Where the window goes; see [`place`].
pub fn place_at(anchor: Option<Rect>, screen: (i32, i32), size: (i64, i64)) -> (r: (i64, i64))
    requires
        0 <= size.0 <= i32::MAX,
        0 <= size.1 <= i32::MAX,
    ensures
        (r.0 as int, r.1 as int) == place(
            anchor,
            (screen.0 as int, screen.1 as int),
            (size.0 as int, size.1 as int),
        ),
{
    let sw: i64 = screen.0 as i64;
    let sh: i64 = screen.1 as i64;
    match anchor {
        Some(a) => {
            let x: i64 = clamp_to(a.left as i64, 0, max_of(sw - size.0, 0));
            let above: i64 = a.top as i64 - size.1 - 4;
            if above >= 0 {
                (x, above)
            } else {
                (x, min_of(a.bottom as i64 + 4, max_of(sh - size.1, 0)))
            }
        },
        None => (halved(sw - size.0), thirded(sh * 2)),
    }
}

/// Whether a pixel lies on the edge of a picture.
pub open spec fn on_edge(x: int, y: int, w: int, h: int) -> bool {
    x == 0 || y == 0 || x == w - 1 || y == h - 1
}

/// A picture of one colour.
pub fn background(w: usize, h: usize, px: u32) -> (r: Vec<u32>)
    requires
        w * h <= usize::MAX,
    ensures
        r.len() == w * h,
        forall|i: int| 0 <= i < w * h ==> r@[i] == px,
{
    let n: usize = w * h;
    let mut r: Vec<u32> = Vec::new();
    let mut i: usize = 0;
    while i < n
        invariant
            i <= n,
            r.len() == i,
            forall|j: int| 0 <= j < i ==> r@[j] == px,
        decreases n - i,
    {
        r.push(px);
        i += 1;
    }
    r
}

/// Draws the border of a picture: the pixels at its edge.
pub fn draw_border(px: &mut Vec<u32>, w: usize, h: usize, color: u32)
    requires
        w > 0,
        h > 0,
        old(px).len() == w * h,
    ensures
        final(px).len() == old(px).len(),
        forall|x: int, y: int|
            0 <= x < w && 0 <= y < h ==> #[trigger] final(px)@[y * w + x] == if on_edge(
                x,
                y,
                w as int,
                h as int,
            ) {
                color
            } else {
                old(px)@[y * w + x]
            },
{
    let ghost was = px@;
    let mut y: usize = 0;
    let mut base: usize = 0;
    while y < h
        invariant
            w > 0,
            y <= h,
            px.len() == w * h,
            was.len() == w * h,
            base == y * w,
            forall|i: int, j: int|
                0 <= i < w && 0 <= j < h ==> #[trigger] px@[j * w + i] == if j < y && on_edge(
                    i,
                    j,
                    w as int,
                    h as int,
                ) {
                    color
                } else {
                    was[j * w + i]
                },
        decreases h - y,
    {
        let ghost row = px@;
        assert((y + 1) * w == y * w + w) by (nonlinear_arith);
        assert((y + 1) * w <= h * w) by (nonlinear_arith)
            requires
                y + 1 <= h,
                0 <= w,
        ;
        assert(h * w == w * h) by (nonlinear_arith);
        let mut x: usize = 0;
        while x < w
            invariant
                x <= w,
                w > 0,
                y < h,
                base == y * w,
                base + w <= px.len(),
                px.len() == row.len(),
                forall|k: int|
                    0 <= k < row.len() ==> #[trigger] px@[k] == if base <= k < base + x && on_edge(
                        k - base,
                        y as int,
                        w as int,
                        h as int,
                    ) {
                        color
                    } else {
                        row[k]
                    },
            decreases w - x,
        {
            if x == 0 || y == 0 || x == w - 1 || y == h - 1 {
                px.set(base + x, color);
            }
            x += 1;
        }
        assert forall|i: int, j: int| 0 <= i < w && 0 <= j < h implies #[trigger] px@[j * w + i] == if j
            < y + 1 && on_edge(i, j, w as int, h as int) {
            color
        } else {
            was[j * w + i]
        } by {
            assert(0 <= j * w + i < w * h) by (nonlinear_arith)
                requires
                    0 <= i < w,
                    0 <= j < h,
            ;
            if j < y {
                assert(j * w + i < y * w) by (nonlinear_arith)
                    requires
                        0 <= i < w,
                        j + 1 <= y,
                ;
            } else if j > y {
                assert(j * w + i >= y * w + w) by (nonlinear_arith)
                    requires
                        0 <= i,
                        j >= y + 1,
                        0 < w,
                ;
            }
        }
        base = base + w;
        y += 1;
    }
}

/// Above or below the caret, the window does not cover its line, where the screen leaves room
/// for that on one of the two sides.
pub proof fn place_spares_line(r: Rect, screen: (int, int), size: (int, int))
    requires
        0 < size.1,
        r.top <= r.bottom,
        r.top - size.1 - 4 >= 0 || r.bottom + 4 + size.1 <= screen.1,
    ensures
        ({
            let y = place(Some(r), screen, size).1;
            y + size.1 < r.top || y > r.bottom
        }),
{
}

/// An entry more makes a row wider by its number, eighteen pixels for each character of its text
/// and three quarters of that for each of its remark, and by a gap where it is not the first.
pub proof fn entry_widens_row(v: Seq<(Seq<char>, Seq<char>)>, e: (Seq<char>, Seq<char>), numbered: bool)
    ensures
        ({
            let more = row_width(v.push(e), numbered, v.len() + 1int) - row_width(
                v,
                numbered,
                v.len() as int,
            ) - (if numbered {
                20int
            } else {
                0int
            }) - (if v.len() > 0 {
                8int
            } else {
                0int
            }) - 18 * e.0.len();
            &&& e.1.len() == 0 ==> more == 0
            &&& e.1.len() > 0 ==> 4 * (more - 6) <= 54 * e.1.len() < 4 * (more - 6) + 4
        }),
        row_width(seq![], numbered, 0) == 24,
{
    same_row_width(v, v.push(e), numbered, v.len() as int);
}

proof fn same_row_width(
    v: Seq<(Seq<char>, Seq<char>)>,
    w: Seq<(Seq<char>, Seq<char>)>,
    numbered: bool,
    n: int,
)
    requires
        n <= v.len(),
        n <= w.len(),
        forall|i: int| 0 <= i < n ==> v[i] == w[i],
    ensures
        row_width(v, numbered, n) == row_width(w, numbered, n),
    decreases n,
{
    if n > 0 {
        same_row_width(v, w, numbered, n - 1);
    }
}

/// The window has a line for what has been typed and, in a column, one for each entry; a row is
/// never narrower than its entries.
pub proof fn window_holds_its_lines(v: Seq<(Seq<char>, Seq<char>)>, numbered: bool)
    ensures
        panel_size(v, numbered, false).1 - 16 == 28 * (v.len() + 1),
        panel_size(v, numbered, false).0 == 240,
        panel_size(v, numbered, true).1 - 16 == 2 * 28,
        panel_size(v, numbered, true).0 >= row_width(v, numbered, v.len() as int),
        panel_size(v, numbered, true).0 == 200 || panel_size(v, numbered, true).0 == row_width(
            v,
            numbered,
            v.len() as int,
        ),
        panel_size(v, numbered, true).0 >= 200,
{
}

/// An entry of a row begins behind the number, the text and the remark of the one before it.
pub proof fn cells_do_not_overlap(v: Seq<(Seq<char>, Seq<char>)>, numbered: bool, i: int)
    requires
        0 <= i < v.len(),
    ensures
        cell_x(v, numbered, 0) == 12,
        cell_x(v, numbered, i + 1) >= cell_x(v, numbered, i) + (if numbered {
            20int
        } else {
            0int
        }) + 18 * v[i].0.len() + 14 * v[i].1.len() + 8,
        v[i].0.len() > 0 && v[i].1.len() == 0 ==> cell_x(v, numbered, i + 1) == cell_x(v, numbered, i) + (
        if numbered {
            28int
        } else {
            8int
        }) + 18 * v[i].0.len(),
        v[i].0.len() > 0 && v[i].1.len() > 0 ==> cell_x(v, numbered, i + 1) == cell_x(v, numbered, i) + (
        if numbered {
            34int
        } else {
            14int
        }) + 18 * v[i].0.len() + 14 * v[i].1.len(),
{
}

/// The number before an entry is its place, from one, with a stop and a space behind it.
pub proof fn entries_are_counted(i: int)
    requires
        0 <= i < 10,
    ensures
        index_text(i) == crate::number::decimal(i + 1) + seq!['.', ' '],
{
    reveal_strlit("1. ");
    reveal_strlit("2. ");
    reveal_strlit("3. ");
    reveal_strlit("4. ");
    reveal_strlit("5. ");
    reveal_strlit("6. ");
    reveal_strlit("7. ");
    reveal_strlit("8. ");
    reveal_strlit("9. ");
    reveal_strlit("10. ");
    reveal_with_fuel(crate::number::digits, 3);
    let d = crate::number::decimal(i + 1);
    if i < 9 {
        assert(d =~= seq![(0x31 + i) as char]);
    } else {
        assert(d =~= seq!['1', '0']);
    }
    assert(index_text(i) =~= d + seq!['.', ' ']);
}

/// The steps for an entry.
spec fn entry_ops(
    v: Seq<(Seq<char>, Seq<char>)>,
    sel: int,
    numbered: bool,
    horizontal: bool,
    p: Palette,
    width: int,
    i: int,
) -> Seq<OpView> {
    if horizontal {
        cell_ops(v[i], cell_x(v, numbered, i), i, sel, numbered, p)
    } else {
        line_ops(v[i], i, sel, numbered, p, width)
    }
}

proof fn steps_of_entry(
    raw: Seq<char>,
    v: Seq<(Seq<char>, Seq<char>)>,
    sel: int,
    numbered: bool,
    horizontal: bool,
    p: Palette,
    width: int,
    n: int,
    i: int,
    k: int,
)
    requires
        0 <= i < n,
        0 <= k < entry_ops(v, sel, numbered, horizontal, p, width, i).len(),
    ensures
        ({
            let before = panel_ops(raw, v, sel, numbered, horizontal, p, width, i).len();
            let all = panel_ops(raw, v, sel, numbered, horizontal, p, width, n);
            before + k < all.len() && all[before + k] == entry_ops(
                v,
                sel,
                numbered,
                horizontal,
                p,
                width,
                i,
            )[k]
        }),
    decreases n,
{
    if i < n - 1 {
        steps_of_entry(raw, v, sel, numbered, horizontal, p, width, n - 1, i, k);
    }
}

/// The text, the number and the remark of each entry are written, those of the highlighted one in
/// the colour of the highlight: in a row side by side, in a column one below the other.
pub proof fn entries_are_written(
    raw: Seq<char>,
    v: Seq<(Seq<char>, Seq<char>)>,
    sel: int,
    numbered: bool,
    horizontal: bool,
    p: Palette,
    width: int,
    n: int,
    i: int,
)
    requires
        0 <= i < n <= v.len(),
        n <= 10,
    ensures
        ({
            let all = panel_ops(raw, v, sel, numbered, horizontal, p, width, n);
            let color = if i == sel {
                p.hilite_label
            } else {
                p.candidate
            };
            let y = if horizontal {
                34
            } else {
                34 + 28 * i
            };
            let x = if horizontal {
                cell_x(v, numbered, i)
            } else {
                12
            };
            let tx = if !horizontal {
                40
            } else if numbered {
                x + 20
            } else {
                x
            };
            let rx = if !horizontal {
                130
            } else if v[i].0.len() > 0 {
                tx + 18 * v[i].0.len() + 2
            } else {
                tx + 14
            };
            &&& v[i].0.len() > 0 ==> all.contains(OpView::Text(tx, y, v[i].0, color, false))
            &&& numbered ==> all.contains(OpView::Text(x, y, index_text(i), color, false))
            &&& v[i].1.len() > 0 ==> all.contains(OpView::Text(rx, y + 3, v[i].1, p.comment, true))
        }),
{
    entry_steps(v, sel, numbered, horizontal, p, width, i);
    let ops = entry_ops(v, sel, numbered, horizontal, p, width, i);
    let fills: int = if i == sel {
        1
    } else {
        0
    };
    let numbers: int = if numbered {
        1
    } else {
        0
    };
    let texts: int = if v[i].0.len() > 0 {
        1
    } else {
        0
    };
    if numbered {
        steps_of_entry(raw, v, sel, numbered, horizontal, p, width, n, i, fills);
    }
    if v[i].0.len() > 0 {
        steps_of_entry(raw, v, sel, numbered, horizontal, p, width, n, i, fills + numbers);
    }
    if v[i].1.len() > 0 {
        steps_of_entry(raw, v, sel, numbered, horizontal, p, width, n, i, fills + numbers + texts);
    }
}

proof fn entry_steps(
    v: Seq<(Seq<char>, Seq<char>)>,
    sel: int,
    numbered: bool,
    horizontal: bool,
    p: Palette,
    width: int,
    i: int,
)
    requires
        0 <= i < 10,
    ensures
        ({
            let ops = entry_ops(v, sel, numbered, horizontal, p, width, i);
            let color = if i == sel {
                p.hilite_label
            } else {
                p.candidate
            };
            let y = if horizontal {
                34
            } else {
                34 + 28 * i
            };
            let x = if horizontal {
                cell_x(v, numbered, i)
            } else {
                12
            };
            let tx = if !horizontal {
                40
            } else if numbered {
                x + 20
            } else {
                x
            };
            let rx = if !horizontal {
                130
            } else if v[i].0.len() > 0 {
                tx + 18 * v[i].0.len() + 2
            } else {
                tx + 14
            };
            let a: int = if i == sel {
                1
            } else {
                0
            };
            let b: int = if numbered {
                a + 1
            } else {
                a
            };
            let c: int = if v[i].0.len() > 0 {
                b + 1
            } else {
                b
            };
            &&& numbered ==> a < ops.len() && ops[a] == OpView::Text(x, y, index_text(i), color, false)
            &&& v[i].0.len() > 0 ==> b < ops.len() && ops[b] == OpView::Text(tx, y, v[i].0, color, false)
            &&& v[i].1.len() > 0 ==> c < ops.len() && ops[c] == OpView::Text(
                rx,
                y + 3,
                v[i].1,
                p.comment,
                true,
            )
        }),
{
    entries_are_counted(i);
    assert(index_text(i).len() > 0);
}

/// The highlight is filled behind its entry, before the entry is written.
pub proof fn highlight_lies_under_its_entry(
    raw: Seq<char>,
    v: Seq<(Seq<char>, Seq<char>)>,
    sel: int,
    numbered: bool,
    horizontal: bool,
    p: Palette,
    width: int,
    n: int,
) -> (r: (int, int))
    requires
        0 <= sel < n <= v.len(),
        n <= 10,
        v[sel].0.len() > 0,
    ensures
        ({
            let all = panel_ops(raw, v, sel, numbered, horizontal, p, width, n);
            let y = if horizontal {
                34
            } else {
                34 + 28 * sel
            };
            let x = cell_x(v, numbered, sel);
            &&& 0 <= r.0 < r.1 < all.len()
            &&& all[r.0] == if horizontal {
                OpView::Fill(x - 4, y - 2, x + 150, y + 24, p.hilite_back)
            } else {
                OpView::Fill(6, y - 2, width - 6, y + 24, p.hilite_back)
            }
            &&& all[r.1] matches OpView::Text(_, ty, s, c, small) && ty == y && s == v[sel].0 && c
                == p.hilite_label && !small
        }),
{
    let before = panel_ops(raw, v, sel, numbered, horizontal, p, width, sel).len();
    let numbers: int = if numbered {
        1
    } else {
        0
    };
    entries_are_counted(sel);
    assert(index_text(sel).len() > 0);
    steps_of_entry(raw, v, sel, numbered, horizontal, p, width, n, sel, 0);
    steps_of_entry(raw, v, sel, numbered, horizontal, p, width, n, sel, 1 + numbers);
    (before as int, before + 1 + numbers)
}

/// What has been typed is written first; the highlight is the only thing that is filled.
pub proof fn typed_text_is_written(
    raw: Seq<char>,
    v: Seq<(Seq<char>, Seq<char>)>,
    sel: int,
    numbered: bool,
    horizontal: bool,
    p: Palette,
    width: int,
    n: int,
)
    ensures
        ({
            let all = panel_ops(raw, v, sel, numbered, horizontal, p, width, n);
            &&& raw.len() > 0 ==> all.len() > 0 && all[0] == OpView::Text(12, 6, raw, p.text, false)
            &&& forall|k: int|
                0 <= k < all.len() ==> (#[trigger] all[k] matches OpView::Fill(_, _, _, _, c) ==> c
                    == p.hilite_back && 0 <= sel < n)
        }),
    decreases n,
{
    if n > 0 {
        typed_text_is_written(raw, v, sel, numbered, horizontal, p, width, n - 1);
    }
}

/// The chosen entry is highlighted, and the last where the choice is beyond it.
pub proof fn chosen_entry_is_highlighted(selected: int, n: int)
    requires
        0 <= selected,
        0 < n,
    ensures
        selected < n ==> highlighted(selected, n) == selected,
        selected >= n ==> highlighted(selected, n) + 1 == n,
{
}

/// The window stands four pixels above the line of the caret where it has room there, else four
/// below it; it begins at the caret where it fits on the screen. Without a caret it is in the
/// middle, two thirds down.
pub proof fn window_stands_by_caret(r: Rect, screen: (int, int), size: (int, int))
    requires
        0 <= size.0,
        0 <= size.1,
        r.top <= r.bottom,
    ensures
        ({
            let (x, y) = place(Some(r), screen, size);
            &&& r.top >= size.1 + 4 ==> y + size.1 + 4 == r.top
            &&& r.top < size.1 + 4 && r.bottom + 4 + size.1 <= screen.1 ==> y == r.bottom + 4
            &&& 0 <= r.left && r.left + size.0 <= screen.0 ==> x == r.left
            &&& 0 <= x
            &&& size.0 <= screen.0 ==> x + size.0 <= screen.0
            &&& 0 <= r.bottom && size.1 <= screen.1 && r.top < size.1 + 4 ==> y + size.1 <= screen.1
        }),
        0 <= screen.1 && size.0 <= screen.0 ==> {
            let (x, y) = place(None, screen, size);
            &&& 0 <= screen.0 - (2 * x + size.0) <= 1
            &&& 0 <= 2 * screen.1 - 3 * y < 3
        },
{
}

/// A colour that is written under `skin` is the one that is drawn; else it is the default.
pub proof fn written_colour_is_drawn(
    t: crate::json::Tree,
    key: Seq<char>,
    default: Rgba,
    r: u8,
    g: u8,
    b: u8,
    a: u8,
)
    ensures
        (t.member("skin"@) matches Some(s) && (s.member("colors"@) matches Some(c) && c.member(key)
            == Some(
            crate::json::Tree::Str(
                seq!['#'] + color::hex_of(r, true) + color::hex_of(g, true) + color::hex_of(b, true)
                    + color::hex_of(a, true),
            ),
        ))) ==> palette_color(t, key, default) == (r, g, b, a),
        t.member("skin"@) is None ==> palette_color(t, key, default) == default,
        (t.member("skin"@) matches Some(s) && s.member("colors"@) is None) ==> palette_color(
            t,
            key,
            default,
        ) == default,
{
    color::colour_reads_back(r, g, b, a, true);
}

} // verus!
