//! The pixels of a layered window.

use vstd::prelude::*;

verus! {

/// The rows of a picture without what pads them in its source.
pub open spec fn unpadded(src: Seq<u8>, pitch: int, row: int, h: int) -> Seq<u8>
    decreases h,
{
    if h <= 0 {
        seq![]
    } else {
        unpadded(src, pitch, row, h - 1) + src.subrange((h - 1) * pitch, (h - 1) * pitch + row)
    }
}

/// Copies `h` rows of `row` bytes from a source in which they begin `pitch` bytes apart.
pub fn copy_rows(src: &Vec<u8>, pitch: usize, row: usize, h: usize) -> (r: Vec<u8>)
    requires
        row <= pitch,
        h > 0 ==> (h - 1) * pitch + row <= src.len(),
    ensures
        r@ == unpadded(src@, pitch as int, row as int, h as int),
{
    let mut out: Vec<u8> = Vec::new();
    let mut y: usize = 0;
    let mut base: usize = 0;
    while y < h
        invariant
            y <= h,
            row <= pitch,
            h > 0 ==> (h - 1) * pitch + row <= src.len(),
            y < h ==> base == y * pitch,
            out@ == unpadded(src@, pitch as int, row as int, y as int),
        decreases h - y,
    {
        assert(y * pitch <= (h - 1) * pitch) by (nonlinear_arith)
            requires
                0 <= y <= h - 1,
                0 <= pitch,
        ;
        let ghost before = out@;
        let mut i: usize = 0;
        while i < row
            invariant
                i <= row,
                base + row <= src.len(),
                out@ == before + src@.subrange(base as int, base + i),
            decreases row - i,
        {
            out.push(src[base + i]);
            i += 1;
            assert(out@ =~= before + src@.subrange(base as int, base + i));
        }
        y += 1;
        if y < h {
            assert(y * pitch <= (h - 1) * pitch) by (nonlinear_arith)
                requires
                    0 <= y <= h - 1,
                    0 <= pitch,
            ;
            assert(y * pitch == (y - 1) * pitch + pitch) by (nonlinear_arith);
            base = base + pitch;
        }
    }
    out
}

/// How many pixels apart a picture is looked at.
pub open spec fn stride(w: int) -> int {
    if w > 8 {
        8
    } else {
        1
    }
}

/// Whether the pixel `x` of the row that begins at `base` lets something be seen.
pub open spec fn seen(px: Seq<u8>, base: int, x: int) -> bool {
    px[base + 4 * x + 3] != 0
}

/// Whether one of the pixels that are looked at in a row lets something be seen.
pub open spec fn row_seen(px: Seq<u8>, base: int, w: int) -> bool {
    exists|k: int| 0 <= k && stride(w) * k < w && #[trigger] seen(px, base, stride(w) * k)
}

/// Whether one of the pixels that are looked at in the first `h` rows lets something be seen.
pub open spec fn picture_seen(px: Seq<u8>, w: int, h: int) -> bool {
    exists|y: int| 0 <= y < h && #[trigger] row_seen(px, y * (4 * w), w)
}

fn row_has_content(px: &Vec<u8>, base: usize, w: usize) -> (r: bool)
    requires
        base + 4 * w <= px.len(),
    ensures
        r == row_seen(px@, base as int, w as int),
{
    let step: usize = if w > 8 {
        8
    } else {
        1
    };
    let mut x: usize = 0;
    let ghost mut n: int = 0;
    while x < w
        invariant
            base + 4 * w <= px.len(),
            step == stride(w as int),
            n >= 0,
            x == step * n,
            x <= w + 7,
            forall|k: int| 0 <= k < n ==> !#[trigger] seen(px@, base as int, step * k),
        decreases w + 8 - x,
    {
        if px[base + 4 * x + 3] != 0 {
            assert(seen(px@, base as int, stride(w as int) * n));
            return true;
        }
        assert(!seen(px@, base as int, step * n));
        if w - x <= step {
            assert forall|k: int| 0 <= k && stride(w as int) * k < w implies !#[trigger] seen(
                px@,
                base as int,
                stride(w as int) * k,
            ) by {
                assert(k <= n);
            }
            return false;
        }
        x = x + step;
        proof {
            n = n + 1;
        }
    }
    assert forall|k: int| 0 <= k && stride(w as int) * k < w implies !#[trigger] seen(
        px@,
        base as int,
        stride(w as int) * k,
    ) by {
        assert(k < n);
    }
    false
}

/// Whether a picture of `w` by `h` pixels of four bytes lets anything be seen; every eighth
/// pixel of a row is looked at.
pub fn has_content(px: &Vec<u8>, w: usize, h: usize) -> (r: bool)
    requires
        h * (4 * w) <= px.len(),
        4 * w <= usize::MAX,
    ensures
        r == picture_seen(px@, w as int, h as int),
{
    let row: usize = 4 * w;
    let mut y: usize = 0;
    let mut base: usize = 0;
    while y < h
        invariant
            y <= h,
            row == 4 * w,
            h * row <= px.len(),
            base == y * row,
            forall|j: int| 0 <= j < y ==> !#[trigger] row_seen(px@, j * row, w as int),
        decreases h - y,
    {
        assert(y * row + row <= h * row) by (nonlinear_arith)
            requires
                y + 1 <= h,
                0 <= row,
        ;
        assert((y + 1) * row == y * row + row) by (nonlinear_arith);
        if row_has_content(px, base, w) {
            assert(row_seen(px@, y * (4 * w), w as int));
            return true;
        }
        base = base + row;
        y += 1;
    }
    false
}

/// Whether a picture goes to the screen: not an empty one after one with content, which would
/// make the window vanish for a moment. `had` notes that there was content.
pub fn presents(had: &mut bool, content: bool) -> (r: bool)
    ensures
        r == (content || !*old(had)),
        *final(had) == (content || *old(had)),
{
    if content {
        *had = true;
        true
    } else {
        !*had
    }
}

/// Each byte of a row is where it was, without what padded the rows.
pub proof fn rows_are_copied(src: Seq<u8>, pitch: int, row: int, h: int, y: int, x: int)
    requires
        0 <= row <= pitch,
        0 <= y < h,
        0 <= x < row,
        (h - 1) * pitch + row <= src.len(),
    ensures
        unpadded(src, pitch, row, h).len() == h * row,
        0 <= y * row + x < h * row,
        unpadded(src, pitch, row, h)[y * row + x] == src[y * pitch + x],
    decreases h,
{
    let before = unpadded(src, pitch, row, h - 1);
    let line = src.subrange((h - 1) * pitch, (h - 1) * pitch + row);
    assert((h - 2) * pitch + pitch == (h - 1) * pitch) by (nonlinear_arith);
    unpadded_len(src, pitch, row, h);
    unpadded_len(src, pitch, row, h - 1);
    assert((h - 1) * row + row == h * row) by (nonlinear_arith);
    assert(0 <= (h - 1) * pitch) by (nonlinear_arith)
        requires
            1 <= h,
            0 <= pitch,
    ;
    assert(0 <= y * row) by (nonlinear_arith)
        requires
            0 <= y,
            0 <= row,
    ;
    if y < h - 1 {
        assert(y * row + row <= (h - 1) * row) by (nonlinear_arith)
            requires
                y + 1 <= h - 1,
                0 <= row,
        ;
        rows_are_copied(src, pitch, row, h - 1, y, x);
    } else {
        assert(y * row == (h - 1) * row);
        assert(y * pitch == (h - 1) * pitch);
    }
}

proof fn unpadded_len(src: Seq<u8>, pitch: int, row: int, h: int)
    requires
        0 <= row <= pitch,
        0 <= h,
        h > 0 ==> (h - 1) * pitch + row <= src.len(),
    ensures
        unpadded(src, pitch, row, h).len() == h * row,
    decreases h,
{
    if h > 0 {
        assert((h - 2) * pitch + pitch == (h - 1) * pitch) by (nonlinear_arith);
        assert((h - 1) * row + row == h * row) by (nonlinear_arith);
        assert(0 <= (h - 1) * pitch) by (nonlinear_arith)
            requires
                1 <= h,
                0 <= pitch,
        ;
        unpadded_len(src, pitch, row, h - 1);
    }
}

/// A picture without any opaque pixel shows nothing; one with an opaque pixel shows something,
/// wherever its rows are looked at: in each eighth pixel of a wide row, in every one of a narrow
/// row.
pub proof fn opaque_pixels_are_seen(px: Seq<u8>, w: int, h: int, x: int, y: int)
    requires
        0 <= x < w,
        0 <= y < h,
    ensures
        px[y * (4 * w) + 4 * x + 3] != 0 && (w <= 8 || x % 8 == 0) ==> picture_seen(px, w, h),
        picture_seen(px, w, h) ==> (exists|b: int, a: int|
            0 <= b < h && 0 <= a < w && #[trigger] px[b * (4 * w) + 4 * a + 3] != 0),
{
    if px[y * (4 * w) + 4 * x + 3] != 0 && (w <= 8 || x % 8 == 0) {
        let k = if w > 8 {
            x / 8
        } else {
            x
        };
        let s = stride(w);
        assert(s * k == x) by (nonlinear_arith)
            requires
                (s == 8 && k == x / 8 && x % 8 == 0) || (s == 1 && k == x),
        ;
        assert(seen(px, y * (4 * w), stride(w) * k));
        assert(row_seen(px, y * (4 * w), w));
    }
    if picture_seen(px, w, h) {
        let b = choose|b: int| 0 <= b < h && #[trigger] row_seen(px, b * (4 * w), w);
        let k = choose|k: int|
            0 <= k && stride(w) * k < w && #[trigger] seen(px, b * (4 * w), stride(w) * k);
        let a = stride(w) * k;
        assert(0 <= a);
        assert(px[b * (4 * w) + 4 * a + 3] != 0);
    }
}

} // verus!
