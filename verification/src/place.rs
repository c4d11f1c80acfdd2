//! Where the candidate window goes: beside the caret, steady against jitter, and on the
//! desktop.

use vstd::prelude::*;
use vstd::string::*;

use crate::drag::Drag;
use crate::geometry;
use crate::geometry::{abs_of, max_of, min_of, Desk, Rect};
use crate::text;

verus! {

/// What is known of the window that has the keyboard.
#[derive(Clone, Copy, Debug)]
pub enum Focus {
    /// Nothing could be learnt.
    Unknown,
    /// No window has it.
    Nowhere,
    /// This window has it; its rectangle, where that could be learnt.
    Window(i64, Option<Rect>),
}

/// The window in the foreground.
#[derive(Clone, Copy, Debug)]
pub struct Foreground {
    /// It is the task bar or a part of it.
    pub tray: bool,
    pub rect: Option<Rect>,
}

/// What a frame is placed by.
#[derive(Clone, Copy, Debug)]
pub struct Frame {
    pub desk: Desk,
    /// The rectangle of the text at the caret.
    pub anchor: Option<Rect>,
    /// The width of the shadow, which lies between the window's corner and its content.
    pub margin: i32,
    /// The size of the content.
    pub width: i32,
    pub height: i32,
    /// The height of the content before it is scaled to the screen.
    pub unscaled_height: i32,
    pub focus: Focus,
    /// The milliseconds since the window was hidden, where it has been.
    pub hidden_for: Option<u64>,
    /// A place to pin the window to where it is not pinned.
    pub pin_hook: Option<(i32, i32)>,
    /// The host is the search panel of the start menu.
    pub search_host: bool,
    pub foreground: Option<Foreground>,
    /// The desktop without the task bar.
    pub work_area: Rect,
}

/// What the window remembers of its places.
#[derive(Clone, Copy, Debug)]
pub struct Placement {
    /// The last place of the content.
    pub sticky: Option<(i64, i64)>,
    /// The last place is one where the window was dropped: it stays there.
    pub sticky_drag: bool,
    /// The window that had the keyboard then, or 0.
    pub sticky_focus: i64,
    /// The next frame is the first of a new session and may go anywhere.
    pub fresh: bool,
    /// The direction of the last small vertical moves of the anchor: -1, 0 or 1.
    pub ylock_dir: i32,
    /// How far the anchor went in that direction.
    pub ylock_acc: i32,
    /// The window waits for a caret that went back a little.
    pub forward_hold: bool,
    /// The last place came from an anchor or from the user.
    pub anchored: bool,
    /// The height of the last anchor that had one.
    pub last_line_h: Option<i64>,
}

/// The farthest that a place can lie.
pub const FAR: i64 = 0x4_0000_0000;

impl Placement {
    /// The places are ones on a desktop, and a line is not lower than one.
    pub open spec fn wf(self) -> bool {
        &&& match self.sticky {
            Some((x, y)) => -FAR <= x <= FAR && -FAR <= y <= FAR,
            None => true,
        }
        &&& 0 <= self.ylock_acc
        &&& match self.last_line_h {
            Some(h) => 8 <= h <= FAR,
            None => true,
        }
    }

    /// A window that has been nowhere yet.
    pub fn new() -> (r: Placement)
        ensures
            r == (Placement {
                sticky: None,
                sticky_drag: false,
                sticky_focus: 0,
                fresh: true,
                ylock_dir: 0,
                ylock_acc: 0,
                forward_hold: false,
                anchored: false,
                last_line_h: None,
            }),
            r.wf(),
    {
        Placement {
            sticky: None,
            sticky_drag: false,
            sticky_focus: 0,
            fresh: true,
            ylock_dir: 0,
            ylock_acc: 0,
            forward_hold: false,
            anchored: false,
            last_line_h: None,
        }
    }
}

/// An anchor that a table host gives for its whole edit line says nothing.
pub open spec fn too_wide(table_host: bool, a: Rect) -> bool {
    table_host && a.right - a.left > 400
}

/// The anchor that counts. One that is too wide in a table host counts for nothing; one that
/// is lower than a line is taken to be as high as the last line that was seen.
pub open spec fn gated(p: Placement, table_host: bool, anchor: Option<Rect>) -> Option<Rect> {
    match anchor {
        Some(a) => if too_wide(table_host, a) {
            None
        } else if a.bottom - a.top < 8 {
            match p.last_line_h {
                Some(lh) => if lh >= 8 {
                    Some(Rect { bottom: geometry::min(a.top + lh, i32::MAX as int) as i32, ..a })
                } else {
                    Some(a)
                },
                None => Some(a),
            }
        } else {
            Some(a)
        },
        None => None,
    }
}

impl Placement {
    /// The anchor that counts; see [`gated`]. The height of a line is noted.
    pub fn gate_anchor(&mut self, table_host: bool, anchor: Option<Rect>) -> (r: Option<Rect>)
        requires
            old(self).wf(),
        ensures
            r == gated(*old(self), table_host, anchor),
            *final(self) == (Placement {
                last_line_h: match anchor {
                    Some(a) => if !too_wide(table_host, a) && a.bottom - a.top >= 8 {
                        Some((a.bottom - a.top) as i64)
                    } else {
                        old(self).last_line_h
                    },
                    None => old(self).last_line_h,
                },
                ..*old(self)
            }),
            final(self).wf(),
    {
        let a = match anchor {
            Some(a) => a,
            None => return None,
        };
        if table_host && a.right as i64 - a.left as i64 > 400 {
            return None;
        }
        let h: i64 = a.bottom as i64 - a.top as i64;
        if h < 8 {
            match self.last_line_h {
                Some(lh) => {
                    if lh >= 8 {
                        let b: i32 = min_of(a.top as i64 + lh, i32::MAX as i64) as i32;
                        Some(Rect { bottom: b, ..a })
                    } else {
                        Some(a)
                    }
                },
                None => Some(a),
            }
        } else {
            self.last_line_h = Some(h);
            Some(a)
        }
    }
}

/// The place of a window that is pinned or was dropped: kept on the desktop.
pub open spec fn kept(f: Frame, x: int, y: int) -> (int, int) {
    (f.desk.keep_x(x, f.margin + f.width), f.desk.keep_y(y, f.margin + f.height))
}

/// Whether an anchor lies on the desktop, or not far beyond it.
pub open spec fn in_reach(d: Desk, r: Rect) -> bool {
    !(r.right < d.x - 200 || r.left > d.x + d.w + 200 || r.bottom < d.y - 200 || r.top > d.y + d.h
        + 200)
}

/// The left edge of the edit box with the keyboard, where it is a small one and the anchor
/// lies in its lines.
pub open spec fn small_edit(f: Frame, r: Rect) -> Option<int> {
    match f.focus {
        Focus::Window(_, Some(e)) => if 0 < e.right - e.left <= 400 && r.top < e.bottom + 8 && r.bottom
            > e.top - 8 {
            Some(e.left as int)
        } else {
            None
        },
        _ => None,
    }
}

/// Where an anchor asks for the window: at the caret, or at the left edge of a small edit
/// box; below the line, or above it where there is no room below.
pub open spec fn asked(f: Frame, r: Rect) -> (int, int) {
    let x = match small_edit(f, r) {
        Some(x) => x,
        None => r.right as int,
    };
    let below = r.bottom + 4;
    (
        f.desk.keep_x(x, f.margin + f.width),
        if below + f.height + f.margin <= f.desk.y + f.desk.h {
            below
        } else {
            geometry::max(r.top - f.height - f.margin - 4, f.desk.y as int)
        },
    )
}

/// Whether the first frame of a session may go anywhere: not when it comes soon after the
/// last and near to it.
pub open spec fn free(p: Placement, f: Frame, r: Rect) -> bool {
    let (x, y) = asked(f, r);
    p.fresh && !((f.hidden_for matches Some(ms) && ms < 1500) && (p.sticky matches Some((ox, oy))
        && geometry::abs(x - ox) <= 120 && geometry::abs(y - oy) <= 80))
}

/// The vertical lock: which vertical moves of an anchor the window follows. Moves of more
/// than a line always; of a first frame those of more than three pixels; else only steps of
/// four pixels and more that with those before them in the same direction come to eight.
pub struct Lock {
    pub allow: bool,
    pub dir: int,
    pub acc: int,
}

/// The lock at a move of `dy`, with the direction and the way so far.
pub open spec fn locked(dir: int, acc: int, free: bool, dy: int) -> Lock {
    let d = geometry::abs(dy);
    let dir0 = if free {
        0
    } else {
        dir
    };
    let acc0 = if free {
        0
    } else {
        acc
    };
    let same = dir0 != 0 && dy != 0 && (dir0 > 0) == (dy > 0);
    let sum = if same {
        geometry::min(acc0 + d, i32::MAX as int)
    } else {
        geometry::min(d, i32::MAX as int)
    };
    Lock {
        allow: (free && d > 3) || d > 26 || (same && sum >= 8 && d >= 4),
        dir: if d > 26 {
            0
        } else if dy > 0 {
            1
        } else if dy < 0 {
            -1
        } else {
            dir0
        },
        acc: if d > 26 {
            0
        } else if dy != 0 {
            sum
        } else {
            acc0
        },
    }
}

/// Where the window goes and what it remembers.
pub struct Placed {
    pub x: int,
    pub y: int,
    pub dir: int,
    pub acc: int,
    pub hold: bool,
}

/// The place by an anchor. The window does not follow vertical jitter; it waits where it is
/// for a caret that went back a little, while it is told to; and it does not move by a few
/// pixels.
pub open spec fn followed(p: Placement, f: Frame, r: Rect) -> Placed {
    let (x, y) = asked(f, r);
    match p.sticky {
        Some((ox, oy)) => {
            let l = locked(p.ylock_dir as int, p.ylock_acc as int, free(p, f, r), y - oy);
            let y1 = if l.allow {
                y
            } else {
                oy as int
            };
            if p.forward_hold && ox - 80 <= x < ox - 6 && y1 <= oy + 6 {
                Placed { x: ox as int, y: y1, dir: l.dir, acc: l.acc, hold: p.forward_hold }
            } else if geometry::abs(x - ox) <= 6 && geometry::abs(y1 - oy) <= 6 {
                Placed { x: ox as int, y: oy as int, dir: l.dir, acc: l.acc, hold: p.forward_hold }
            } else {
                Placed { x, y: y1, dir: l.dir, acc: l.acc, hold: false }
            }
        },
        None => {
            let l = locked(p.ylock_dir as int, p.ylock_acc as int, free(p, f, r), 0);
            Placed { x, y, dir: l.dir, acc: l.acc, hold: false }
        },
    }
}

/// Below the edit box with the keyboard, or above it; a corner where there is none.
pub open spec fn edit_below(f: Frame) -> (int, int) {
    match f.focus {
        Focus::Window(_, Some(e)) => {
            let below = e.bottom + 4;
            (
                f.desk.keep_x(e.left as int, 200),
                if below + f.height <= f.desk.y + f.desk.h {
                    below
                } else {
                    geometry::max(e.top - f.height - 4, f.desk.y as int)
                },
            )
        },
        _ => (16, 16),
    }
}

/// Whether a window covers the work area, but for a twentieth at most.
pub open spec fn covers(w: Rect, work: Rect) -> bool {
    &&& 20 * geometry::max(w.right - w.left, 0) >= 19 * geometry::max(work.right - work.left, 1)
    &&& 20 * geometry::max(w.bottom - w.top, 0) >= 19 * geometry::max(work.bottom - work.top, 1)
}

/// A place where nothing is known of a caret: in the lower left of the window in the
/// foreground; in the upper left of the work area where that window is the task bar, covers
/// the screen or is not known; in the corner for the search panel.
pub open spec fn fallback(f: Frame) -> (int, int) {
    let corner = (f.work_area.left + 16, f.work_area.top + 16);
    if f.search_host {
        (12, 12)
    } else {
        match f.foreground {
            Some(g) => match g.rect {
                Some(w) => if g.tray || covers(w, f.work_area) {
                    corner
                } else {
                    (
                        w.left + 16,
                        geometry::max(
                            w.bottom - geometry::min(2 * f.unscaled_height, w.bottom - w.top),
                            w.top as int,
                        ),
                    )
                },
                None => corner,
            },
            None => corner,
        }
    }
}

/// Whether the window that had the keyboard at the last place still has it, as far as is
/// known.
pub open spec fn focus_matches(p: Placement, f: Frame) -> bool {
    p.sticky_focus == 0 || match f.focus {
        Focus::Unknown => true,
        Focus::Nowhere => false,
        Focus::Window(h, _) => h == p.sticky_focus,
    }
}

/// The memory after what the mouse did is taken over: a window that was dropped stays where
/// it was dropped, one that was unpinned forgets its place.
pub open spec fn taken_over(p: Placement, d: Drag, margin: int) -> Placement {
    let dropped = match d.drop_at {
        Some((x, y)) => Placement {
            sticky: Some(((x + margin) as i64, (y + margin) as i64)),
            sticky_drag: true,
            ..p
        },
        None => p,
    };
    if d.unstick {
        Placement { sticky: None, sticky_drag: false, ..dropped }
    } else {
        dropped
    }
}

/// The pin that counts.
pub open spec fn pin(d: Drag, f: Frame) -> Option<(i32, i32)> {
    match d.pinned {
        Some(p) => Some(p),
        None => f.pin_hook,
    }
}

/// The place before it is kept on the desktop, with what is remembered of the lock: pinned,
/// dropped, by the anchor, where it was, or by a fallback.
pub open spec fn chosen(p: Placement, d: Drag, f: Frame) -> Placed {
    let stay = |xy: (int, int)|
        Placed {
            x: xy.0,
            y: xy.1,
            dir: p.ylock_dir as int,
            acc: p.ylock_acc as int,
            hold: p.forward_hold,
        };
    match (pin(d, f), p.sticky) {
        (Some((px, py)), _) => stay(kept(f, px + f.margin, py + f.margin)),
        (None, sticky) => if p.sticky_drag && sticky is Some {
            stay(kept(f, sticky_of(p).0 as int, sticky_of(p).1 as int))
        } else if f.anchor is Some && in_reach(f.desk, f.anchor->0) {
            followed(p, f, f.anchor->0)
        } else {
            match sticky {
                Some((x, y)) => if focus_matches(p, f) || p.sticky_drag {
                    stay((x as int, y as int))
                } else {
                    stay(edit_below(f))
                },
                None => stay(fallback(f)),
            }
        },
    }
}

/// The last place, where there is one.
pub open spec fn sticky_of(p: Placement) -> (i64, i64) {
    p.sticky->0
}

/// Whether the frame was placed by an anchor that is in reach: then it was the first frame
/// of its session no more.
pub open spec fn by_anchor(p: Placement, d: Drag, f: Frame) -> bool {
    pin(d, f) is None && !(p.sticky_drag && p.sticky is Some) && f.anchor is Some && in_reach(
        f.desk,
        f.anchor->0,
    )
}

/// The place of the frame.
pub open spec fn place(p: Placement, d: Drag, f: Frame) -> (int, int) {
    let c = chosen(taken_over(p, d, f.margin as int), d, f);
    kept(f, c.x, c.y)
}

/// What is remembered after the frame.
pub open spec fn remembered(p: Placement, d: Drag, f: Frame) -> Placement {
    let q = taken_over(p, d, f.margin as int);
    let c = chosen(q, d, f);
    let (x, y) = kept(f, c.x, c.y);
    Placement {
        sticky: Some((x as i64, y as i64)),
        sticky_focus: match f.focus {
            Focus::Window(h, _) => h,
            _ => 0,
        },
        fresh: q.fresh && !by_anchor(q, d, f),
        ylock_dir: c.dir as i32,
        ylock_acc: c.acc as i32,
        forward_hold: c.hold,
        anchored: pin(d, f) is Some || q.sticky_drag || f.anchor is Some,
        ..q
    }
}

/// What the mouse did, once the frame has taken it over.
pub open spec fn drag_after(d: Drag, f: Frame) -> Drag {
    Drag { pinned: pin(d, f), drop_at: None, unstick: false, ..d }
}

fn kept_at(f: &Frame, x: i64, y: i64) -> (r: (i64, i64))
    ensures
        (r.0 as int, r.1 as int) == kept(*f, x as int, y as int),
        -FAR <= r.0 <= FAR,
        -FAR <= r.1 <= FAR,
{
    let w: i64 = f.margin as i64 + f.width as i64;
    let h: i64 = f.margin as i64 + f.height as i64;
    (f.desk.clamp_x(x, w), f.desk.clamp_y(y, h))
}

fn anchor_in_reach(d: &Desk, r: &Rect) -> (b: bool)
    ensures
        b == in_reach(*d, *r),
{
    !((r.right as i64) < d.x as i64 - 200 || r.left as i64 > d.x as i64 + d.w as i64 + 200 || (
    r.bottom as i64) < d.y as i64 - 200 || r.top as i64 > d.y as i64 + d.h as i64 + 200)
}

fn small_edit_left(f: &Frame, r: &Rect) -> (x: Option<i64>)
    ensures
        match x {
            Some(x) => small_edit(*f, *r) == Some(x as int) && i32::MIN <= x <= i32::MAX,
            None => small_edit(*f, *r) is None,
        },
{
    match f.focus {
        Focus::Window(_, Some(e)) => {
            let w: i64 = e.right as i64 - e.left as i64;
            if 0 < w && w <= 400 && (r.top as i64) < e.bottom as i64 + 8 && r.bottom as i64 > e.top as i64
                - 8 {
                Some(e.left as i64)
            } else {
                None
            }
        },
        _ => None,
    }
}

fn asked_at(f: &Frame, r: &Rect) -> (p: (i64, i64))
    ensures
        (p.0 as int, p.1 as int) == asked(*f, *r),
        -FAR <= p.0 <= FAR,
        -FAR <= p.1 <= FAR,
{
    let x: i64 = match small_edit_left(f, r) {
        Some(x) => x,
        None => r.right as i64,
    };
    let below: i64 = r.bottom as i64 + 4;
    let y: i64 = if below + f.height as i64 + f.margin as i64 <= f.desk.y as i64 + f.desk.h as i64 {
        below
    } else {
        max_of(r.top as i64 - f.height as i64 - f.margin as i64 - 4, f.desk.y as i64)
    };
    (f.desk.clamp_x(x, f.margin as i64 + f.width as i64), y)
}

fn below_edit(f: &Frame) -> (p: (i64, i64))
    ensures
        (p.0 as int, p.1 as int) == edit_below(*f),
{
    match f.focus {
        Focus::Window(_, Some(e)) => {
            let below: i64 = e.bottom as i64 + 4;
            let y: i64 = if below + f.height as i64 <= f.desk.y as i64 + f.desk.h as i64 {
                below
            } else {
                max_of(e.top as i64 - f.height as i64 - 4, f.desk.y as i64)
            };
            (f.desk.clamp_x(e.left as i64, 200), y)
        },
        _ => (16, 16),
    }
}

fn fallback_at(f: &Frame) -> (p: (i64, i64))
    ensures
        (p.0 as int, p.1 as int) == fallback(*f),
{
    if f.search_host {
        return (12, 12);
    }
    let corner = (f.work_area.left as i64 + 16, f.work_area.top as i64 + 16);
    let g = match f.foreground {
        Some(g) => g,
        None => return corner,
    };
    let w = match g.rect {
        Some(w) => w,
        None => return corner,
    };
    let work = f.work_area;
    let ww: i64 = max_of(w.right as i64 - w.left as i64, 0);
    let wh: i64 = max_of(w.bottom as i64 - w.top as i64, 0);
    let aw: i64 = max_of(work.right as i64 - work.left as i64, 1);
    let ah: i64 = max_of(work.bottom as i64 - work.top as i64, 1);
    if g.tray || (20 * ww >= 19 * aw && 20 * wh >= 19 * ah) {
        return corner;
    }
    let up: i64 = min_of(2 * (f.unscaled_height as i64), w.bottom as i64 - w.top as i64);
    (w.left as i64 + 16, max_of(w.bottom as i64 - up, w.top as i64))
}

impl Placement {
    fn same_focus(&self, f: &Frame) -> (b: bool)
        ensures
            b == focus_matches(*self, *f),
    {
        self.sticky_focus == 0 || match f.focus {
            Focus::Unknown => true,
            Focus::Nowhere => false,
            Focus::Window(h, _) => h == self.sticky_focus,
        }
    }

    fn take_over(&mut self, d: &mut Drag, margin: i32)
        requires
            old(self).wf(),
            old(d).wf(),
        ensures
            *final(self) == taken_over(*old(self), *old(d), margin as int),
            final(self).wf(),
            *final(d) == (Drag { drop_at: None, unstick: false, ..*old(d) }),
    {
        if let Some((x, y)) = d.drop_at {
            self.sticky = Some((x as i64 + margin as i64, y as i64 + margin as i64));
            self.sticky_drag = true;
            d.drop_at = None;
        }
        if d.unstick {
            d.unstick = false;
            self.sticky = None;
            self.sticky_drag = false;
        }
    }

    /// Follows an anchor; see [`followed`].
    fn follow(&mut self, f: &Frame, r: &Rect) -> (p: (i64, i64))
        requires
            old(self).wf(),
        ensures
            ({
                let c = followed(*old(self), *f, *r);
                &&& p.0 == c.x
                &&& p.1 == c.y
                &&& *final(self) == (Placement {
                    fresh: false,
                    ylock_dir: c.dir as i32,
                    ylock_acc: c.acc as i32,
                    forward_hold: c.hold,
                    ..*old(self)
                })
            }),
            final(self).wf(),
    {
        let (x, y) = asked_at(f, r);
        let mut free_now = self.fresh;
        self.fresh = false;
        if free_now {
            let soon = match f.hidden_for {
                Some(ms) => ms < 1500,
                None => false,
            };
            let near = match self.sticky {
                Some((ox, oy)) => abs_of(x - ox) <= 120 && abs_of(y - oy) <= 80,
                None => false,
            };
            if soon && near {
                free_now = false;
            }
        }
        assert(free_now == free(*old(self), *f, *r));
        let dy: i64 = match self.sticky {
            Some((_, oy)) => y - oy,
            None => 0,
        };
        let allow = self.lock_step(free_now, dy);
        let hold = self.forward_hold;
        match self.sticky {
            Some((ox, oy)) => {
                let y1: i64 = if allow {
                    y
                } else {
                    oy
                };
                if hold && x < ox - 6 && x >= ox - 80 && y1 <= oy + 6 {
                    (ox, y1)
                } else if abs_of(x - ox) <= 6 && abs_of(y1 - oy) <= 6 {
                    (ox, oy)
                } else {
                    self.forward_hold = false;
                    (x, y1)
                }
            },
            None => {
                self.forward_hold = false;
                (x, y)
            },
        }
    }

    fn lock_step(&mut self, free_now: bool, dy: i64) -> (allow: bool)
        requires
            old(self).wf(),
            -2 * FAR <= dy <= 2 * FAR,
        ensures
            ({
                let l = locked(
                    old(self).ylock_dir as int,
                    old(self).ylock_acc as int,
                    free_now,
                    dy as int,
                );
                &&& allow == l.allow
                &&& *final(self) == (Placement {
                    ylock_dir: l.dir as i32,
                    ylock_acc: l.acc as i32,
                    ..*old(self)
                })
            }),
            final(self).wf(),
    {
        if free_now {
            self.ylock_dir = 0;
            self.ylock_acc = 0;
        }
        let d: i64 = abs_of(dy);
        let same = self.ylock_dir != 0 && dy != 0 && (self.ylock_dir > 0) == (dy > 0);
        let sum: i64 = if same {
            min_of(self.ylock_acc as i64 + d, i32::MAX as i64)
        } else {
            min_of(d, i32::MAX as i64)
        };
        let allow = (free_now && d > 3) || d > 26 || (same && sum >= 8 && d >= 4);
        if d > 26 {
            self.ylock_dir = 0;
            self.ylock_acc = 0;
        } else if dy != 0 {
            self.ylock_dir = if dy > 0 {
                1
            } else {
                -1
            };
            self.ylock_acc = sum as i32;
        }
        allow
    }

    /// Places a frame: the place of the content, kept on the desktop; see [`place`] and
    /// [`remembered`].
    pub fn place_frame(&mut self, drag: &mut Drag, f: &Frame) -> (r: (i64, i64))
        requires
            old(self).wf(),
            old(drag).wf(),
        ensures
            (r.0 as int, r.1 as int) == place(*old(self), *old(drag), *f),
            *final(self) == remembered(*old(self), *old(drag), *f),
            *final(drag) == drag_after(*old(drag), *f),
            final(self).wf(),
            final(drag).wf(),
    {
        if drag.pinned.is_none() {
            drag.pinned = f.pin_hook;
        }
        self.take_over(drag, f.margin);
        let ghost q = *self;
        let (x, y) = if let Some((px, py)) = drag.pinned {
            kept_at(f, px as i64 + f.margin as i64, py as i64 + f.margin as i64)
        } else if self.sticky_drag && self.sticky.is_some() {
            match self.sticky {
                Some((ox, oy)) => kept_at(f, ox, oy),
                None => (0, 0),
            }
        } else {
            let anchor = match f.anchor {
                Some(a) => if anchor_in_reach(&f.desk, &a) {
                    Some(a)
                } else {
                    None
                },
                None => None,
            };
            match anchor {
                Some(a) => self.follow(f, &a),
                None => match self.sticky {
                    Some(p) => if self.same_focus(f) || self.sticky_drag {
                        p
                    } else {
                        below_edit(f)
                    },
                    None => fallback_at(f),
                },
            }
        };
        assert(x == chosen(q, *old(drag), *f).x && y == chosen(q, *old(drag), *f).y);
        let (kx, ky) = kept_at(f, x, y);
        self.sticky = Some((kx, ky));
        self.sticky_focus = match f.focus {
            Focus::Window(h, _) => h,
            _ => 0,
        };
        self.anchored = drag.pinned.is_some() || self.sticky_drag || f.anchor.is_some();
        (kx, ky)
    }
}

/// Whether a class name is that of the task bar or of a part of it.
pub open spec fn tray_class(name: Seq<char>) -> bool {
    text::has_part(name, "Shell_TrayWnd"@) || text::has_part(name, "TrayShowDesktop"@) || text::has_part(
        name,
        "Shell_SecondaryTrayWnd"@,
    )
}

/// Whether a class name is that of the task bar or of a part of it.
pub fn tray_like(name: &str) -> (r: bool)
    ensures
        r == tray_class(name@),
{
    text::contains_part(name, "Shell_TrayWnd") || text::contains_part(name, "TrayShowDesktop")
        || text::contains_part(name, "Shell_SecondaryTrayWnd")
}

/// The place that a text `x,y` names.
pub open spec fn hook_of(s: Seq<char>) -> Option<(int, int)> {
    let t = text::trim(s);
    let p = text::split(t, ',');
    if p.len() < 2 {
        None
    } else {
        match (
            crate::number::int_of(text::trim(p[0]), i32::MIN as int, i32::MAX as int),
            crate::number::int_of(
                text::trim(t.skip(p[0].len() as int + 1)),
                i32::MIN as int,
                i32::MAX as int,
            ),
        ) {
            (Some(x), Some(y)) => Some((x, y)),
            _ => None,
        }
    }
}

/// The place to pin the window to that a text `x,y` names: two whole numbers, with white space
/// about them or not.
pub fn pin_hook(s: &str) -> (r: Option<(i32, i32)>)
    ensures
        match r {
            Some((x, y)) => hook_of(s@) == Some((x as int, y as int)),
            None => hook_of(s@) is None,
        },
{
    let cs = text::chars_of(s);
    let t = text::trimmed(&cs);
    let p = text::split_at(&t, ',');
    assert(text::texts(p@)[0] == p@[0]@);
    if p.len() < 2 {
        return None;
    }
    proof {
        text::split_first(t@, ',');
    }
    let a = text::trimmed(&p[0]);
    let rest = text::slice_of(&t, p[0].len() + 1, t.len());
    assert(rest@ =~= t@.skip(p@[0]@.len() as int + 1));
    let b = text::trimmed(&rest);
    match (
        crate::number::parse_int(&a, i32::MIN as i128, i32::MAX as i128),
        crate::number::parse_int(&b, i32::MIN as i128, i32::MAX as i128),
    ) {
        (Some(x), Some(y)) => Some((x as i32, y as i32)),
        _ => None,
    }
}

impl Placement {
    /// The window goes out of view: where it was dropped counts no more. Its last place stays.
    pub fn hide_now(&mut self)
        requires
            old(self).wf(),
        ensures
            *final(self) == (Placement { sticky_drag: false, ..*old(self) }),
            final(self).wf(),
    {
        self.sticky_drag = false;
    }

    /// Another window has the keyboard: all that is remembered of places is forgotten.
    pub fn focus_reset(&mut self)
        requires
            old(self).wf(),
        ensures
            *final(self) == (Placement {
                sticky: None,
                sticky_drag: false,
                ylock_dir: 0,
                ylock_acc: 0,
                fresh: true,
                ..*old(self)
            }),
            final(self).wf(),
    {
        self.sticky = None;
        self.sticky_drag = false;
        self.ylock_dir = 0;
        self.ylock_acc = 0;
        self.fresh = true;
    }
}

/// The window is always on the desktop, and all of its content where the desktop has room
/// for it.
pub proof fn placed_on_desk(p: Placement, d: Drag, f: Frame)
    ensures
        ({
            let (x, y) = place(p, d, f);
            &&& f.desk.x <= x
            &&& f.desk.y <= y
            &&& f.margin + f.width <= f.desk.w ==> x + f.margin + f.width <= f.desk.x + f.desk.w
            &&& f.margin + f.height <= f.desk.h ==> y + f.margin + f.height <= f.desk.y + f.desk.h
        }),
{
}

/// A pinned window stays where it is pinned, whatever the caret does and whatever is
/// remembered.
pub proof fn pinned_ignores_caret(p: Placement, q: Placement, d: Drag, f: Frame, anchor: Option<Rect>)
    requires
        pin(d, f) is Some,
    ensures
        place(p, d, f) == place(q, d, Frame { anchor, ..f }),
{
}

/// A window that was dropped stays there for the rest of the session: it is placed there again
/// whatever the caret does.
pub proof fn dropped_stays(p: Placement, d: Drag, f: Frame, anchor: Option<Rect>)
    requires
        p.wf(),
        p.sticky_drag,
        p.sticky is Some,
        d.drop_at is None,
        !d.unstick,
        pin(d, f) is None,
    ensures
        place(p, d, f) == place(p, d, Frame { anchor, ..f }),
        place(remembered(p, d, f), drag_after(d, f), Frame { anchor, ..f }) == place(p, d, f),
{
}

/// A right click lets the window follow the caret again: the next frame is placed as if the
/// window had been nowhere.
pub proof fn unpinned_follows(p: Placement, d: Drag, f: Frame)
    requires
        d.unstick,
        d.pinned is None,
        f.pin_hook is None,
    ensures
        place(p, d, f) == place(
            Placement { sticky: None, sticky_drag: false, ..p },
            Drag { unstick: false, drop_at: None, ..d },
            f,
        ),
{
}

/// Vertical jitter does not move the window: while its session goes on, an anchor that is up
/// to three pixels off leaves the window at its height.
pub proof fn jitter_is_ignored(p: Placement, f: Frame, r: Rect, oy: int)
    requires
        p.sticky matches Some((_, y)) && y == oy,
        !p.fresh,
        geometry::abs(asked(f, r).1 - oy) <= 3,
    ensures
        followed(p, f, r).y == oy,
{
}

/// Jitter to and fro never adds up: after a move in one direction, a move of up to twenty-six
/// pixels in the other leaves the window at its height.
pub proof fn swing_is_ignored(p: Placement, f: Frame, r: Rect, oy: int)
    requires
        p.sticky matches Some((_, y)) && y == oy,
        !p.fresh,
        geometry::abs(asked(f, r).1 - oy) <= 26,
        p.ylock_dir == 0 || (p.ylock_dir > 0) != (asked(f, r).1 - oy > 0),
    ensures
        followed(p, f, r).y == oy,
{
}

/// A new line moves the window: an anchor that is more than twenty-six pixels off is followed
/// at once.
pub proof fn new_line_is_followed(p: Placement, f: Frame, r: Rect, oy: int)
    requires
        p.sticky matches Some((_, y)) && y == oy,
        geometry::abs(asked(f, r).1 - oy) > 26,
    ensures
        followed(p, f, r).y == asked(f, r).1,
        followed(p, f, r).dir == 0,
        followed(p, f, r).acc == 0,
{
}

/// Steady scrolling is followed: two steps in one direction, of four pixels or more each, move
/// the window with the second.
pub proof fn scrolling_is_followed(dir: int, acc: int, first: int, second: int)
    requires
        4 <= geometry::abs(first) <= 26,
        4 <= geometry::abs(second),
        (first > 0) == (second > 0),
        acc >= 0,
    ensures
        ({
            let l = locked(dir, acc, false, first);
            locked(l.dir, l.acc, false, second).allow
        }),
{
}

/// A window that is told to wait does not go back with the caret: on its line it stays where it
/// is while the caret is behind it by more than six pixels and up to eighty.
pub proof fn held_does_not_go_back(p: Placement, f: Frame, r: Rect, ox: int, oy: int)
    requires
        p.sticky matches Some((x, y)) && x == ox && y == oy,
        p.forward_hold,
        ox - 80 <= asked(f, r).0 < ox - 6,
        asked(f, r).1 <= oy + 6,
    ensures
        followed(p, f, r).x == ox,
{
}

/// Whether a rectangle of this size, with its corner at (`x`, `y`), lies on the desktop.
pub open spec fn lies_on(d: Desk, x: int, y: int, w: int, h: int) -> bool {
    d.x <= x && x + w <= d.x + d.w && d.y <= y && y + h <= d.y + d.h
}

/// Whether a frame goes by its anchor: nothing is pinned or was dropped, and the anchor is in
/// reach of the desktop.
pub open spec fn goes_by(p: Placement, d: Drag, f: Frame, r: Rect) -> bool {
    &&& d.pinned is None
    &&& f.pin_hook is None
    &&& d.drop_at is None
    &&& !p.sticky_drag
    &&& f.anchor == Some(r)
    &&& f.desk.x - 200 <= r.right
    &&& r.left <= f.desk.x + f.desk.w + 200
    &&& f.desk.y - 200 <= r.bottom
    &&& r.top <= f.desk.y + f.desk.h + 200
}

/// A window that comes to a caret does not cover its line. Where the desktop has room for the
/// content, its shadow and four pixels below the line, the window is below the line; else, where
/// it has room for them above, the window is above it.
pub proof fn window_spares_line(p: Placement, d: Drag, f: Frame, r: Rect)
    requires
        goes_by(p, d, f, r),
        p.sticky is None || d.unstick,
        r.top <= r.bottom,
        0 <= f.height,
        0 <= f.margin,
    ensures
        r.bottom + 4 + f.height + f.margin <= f.desk.y + f.desk.h ==> place(p, d, f).1 >= r.bottom,
        r.bottom + 4 + f.height + f.margin > f.desk.y + f.desk.h && r.top - 4 - f.height - f.margin
            >= f.desk.y ==> place(p, d, f).1 + f.height <= r.top,
{
}

/// A window that comes to a caret stands four pixels below its line and begins where the caret
/// is, wherever the desktop has room for it there; and four pixels and its shadow above the line
/// where it has room only there.
pub proof fn window_stands_by_caret(p: Placement, d: Drag, f: Frame, r: Rect)
    requires
        goes_by(p, d, f, r),
        p.sticky is None || d.unstick,
        !(f.focus matches Focus::Window(_, Some(_))),
        0 <= f.width,
        0 <= f.height,
        0 <= f.margin,
    ensures
        lies_on(f.desk, r.right as int, r.bottom + 4, f.width + f.margin, f.height + f.margin)
            ==> place(p, d, f) == (r.right as int, r.bottom + 4),
        r.bottom + 4 + f.height + f.margin > f.desk.y + f.desk.h && lies_on(
            f.desk,
            r.right as int,
            r.top - 4 - f.margin - f.height,
            f.width + f.margin,
            f.height + f.margin,
        ) ==> place(p, d, f) == (r.right as int, r.top - 4 - f.margin - f.height),
{
}

/// In a small edit box the window begins at the left edge of the box, so that it does not run
/// along with the caret.
pub proof fn small_box_holds_window(p: Placement, d: Drag, f: Frame, r: Rect, h: i64, e: Rect)
    requires
        goes_by(p, d, f, r),
        p.sticky is None || d.unstick,
        f.focus == Focus::Window(h, Some(e)),
        0 <= f.width,
        0 <= f.margin,
        f.desk.x <= e.left,
        e.left + f.width + f.margin <= f.desk.x + f.desk.w,
        f.desk.x <= r.right,
        r.right + f.width + f.margin <= f.desk.x + f.desk.w,
    ensures
        0 < e.right - e.left <= 400 && e.top <= r.top && r.bottom <= e.bottom && r.top < r.bottom
            ==> place(p, d, f).0 == e.left,
        e.right - e.left > 400 || r.bottom <= e.top - 8 || r.top >= e.bottom + 8 ==> place(p, d, f).0
            == r.right,
{
}

/// How high the content is before it is scaled counts only where nothing is known of a place.
pub proof fn unscaled_height_is_for_fallbacks(p: Placement, d: Drag, f: Frame, u: i32)
    requires
        pin(d, f) is Some || d.drop_at is Some && !d.unstick || p.sticky is Some && !d.unstick || (
        f.anchor matches Some(r) && goes_by(p, d, f, r)),
    ensures
        place(p, d, f) == place(p, d, Frame { unscaled_height: u, ..f }),
        remembered(p, d, f) == remembered(p, d, Frame { unscaled_height: u, ..f }),
{
}

/// A pinned window is where it was pinned: its content lies by the shadow's width inside the pin,
/// wherever that is on the desktop. The user's pin goes before any other.
pub proof fn pinned_window_is_at_its_pin(p: Placement, d: Drag, f: Frame, x: i32, y: i32)
    requires
        d.pinned == Some((x, y)) || d.pinned is None && f.pin_hook == Some((x, y)),
        lies_on(f.desk, x + f.margin, y + f.margin, f.margin + f.width, f.margin + f.height),
        0 <= f.margin,
        0 <= f.width,
        0 <= f.height,
    ensures
        place(p, d, f) == (x + f.margin, y + f.margin),
        drag_after(d, f).pinned == Some((x, y)),
{
}

/// A window that was dropped and is not pinned is where it was dropped, and stays there whatever
/// the caret does.
pub proof fn dropped_window_is_where_it_was_dropped(
    p: Placement,
    d: Drag,
    f: Frame,
    x: i32,
    y: i32,
    next: Frame,
)
    requires
        d.drop_at == Some((x, y)),
        !d.unstick,
        d.pinned is None,
        f.pin_hook is None,
        next.pin_hook is None,
        lies_on(f.desk, x + f.margin, y + f.margin, f.margin + f.width, f.margin + f.height),
        0 <= f.margin,
        0 <= f.width,
        0 <= f.height,
        next.desk == f.desk,
        next.margin == f.margin,
        next.width == f.width,
        next.height == f.height,
    ensures
        place(p, d, f) == (x + f.margin, y + f.margin),
        place(remembered(p, d, f), drag_after(d, f), next) == (x + f.margin, y + f.margin),
{
}

/// Once the window has come to a caret, a frame from the same anchor does not move it.
pub proof fn same_anchor_same_place(p: Placement, d: Drag, f: Frame, r: Rect)
    requires
        p.wf(),
        goes_by(p, d, f, r),
        p.sticky is None || d.unstick,
    ensures
        place(remembered(p, d, f), drag_after(d, f), f) == place(p, d, f),
{
    let q = remembered(p, d, f);
    let e = drag_after(d, f);
    assert(taken_over(q, e, f.margin as int) == q);
    assert(!q.fresh);
}

/// A frame that is placed by an anchor after the window came to a caret.
pub open spec fn next_frame(f: Frame, r: Rect) -> Frame {
    Frame { anchor: Some(r), ..f }
}

/// Jitter does not move the window: once it has come to a caret, an anchor that is off by up to
/// three pixels in height and six in width leaves it where it is.
pub proof fn small_moves_are_ignored(p: Placement, d: Drag, f: Frame, r: Rect, r2: Rect)
    requires
        p.wf(),
        goes_by(p, d, f, r),
        p.sticky is None || d.unstick,
        !(f.focus matches Focus::Window(_, Some(_))),
        0 <= f.width,
        0 <= f.height,
        0 <= f.margin,
        geometry::abs(r2.right - r.right) <= 6,
        geometry::abs(r2.bottom - r.bottom) <= 3,
        goes_by(p, d, next_frame(f, r2), r2),
        lies_on(f.desk, r.right as int, r.bottom + 4, f.width + f.margin, f.height + f.margin),
        lies_on(f.desk, r2.right as int, r2.bottom + 4, f.width + f.margin, f.height + f.margin),
    ensures
        place(remembered(p, d, f), drag_after(d, f), next_frame(f, r2)) == place(p, d, f),
{
    assert(place(p, d, f) == (r.right as int, r.bottom + 4));
}

/// From the first frame of a session on, a caret that goes along its line takes the window with
/// it, and so does one that goes to a new line; one that goes up or down by no more than
/// twenty-six pixels leaves it at its height.
pub proof fn caret_takes_window_along(p: Placement, d: Drag, f: Frame, r: Rect, r2: Rect)
    requires
        p.wf(),
        p.fresh,
        goes_by(p, d, f, r),
        p.sticky is None || d.unstick,
        !(f.focus matches Focus::Window(_, Some(_))),
        0 <= f.width,
        0 <= f.height,
        0 <= f.margin,
        goes_by(p, d, next_frame(f, r2), r2),
        lies_on(f.desk, r.right as int, r.bottom + 4, f.width + f.margin, f.height + f.margin),
        lies_on(f.desk, r2.right as int, r2.bottom + 4, f.width + f.margin, f.height + f.margin),
    ensures
        ({
            let now = place(remembered(p, d, f), drag_after(d, f), next_frame(f, r2));
            &&& geometry::abs(r2.right - r.right) > 6 ==> now.0 == r2.right
            &&& geometry::abs(r2.bottom - r.bottom) > 26 ==> now == (
                r2.right as int,
                r2.bottom + 4,
            )
            &&& geometry::abs(r2.bottom - r.bottom) <= 26 ==> now.1 == r.bottom + 4
        }),
{
    assert(place(p, d, f) == (r.right as int, r.bottom + 4));
    assert(remembered(p, d, f).ylock_dir == 0);
}

/// What is remembered of a frame is where it was placed, which window had the keyboard then, and
/// whether that came from the user or from a caret. A frame that went by its anchor is the last
/// of those that may go anywhere.
pub proof fn frame_is_remembered(p: Placement, d: Drag, f: Frame)
    requires
        p.wf(),
    ensures
        ({
            let q = remembered(p, d, f);
            &&& q.sticky matches Some((x, y)) && (x as int, y as int) == place(p, d, f)
            &&& q.sticky_focus == match f.focus {
                Focus::Window(h, _) => h,
                _ => 0,
            }
            &&& f.anchor is Some || d.pinned is Some || f.pin_hook is Some ==> q.anchored
            &&& f.anchor is None && d.pinned is None && f.pin_hook is None && d.drop_at is None
                && !p.sticky_drag ==> !q.anchored
            &&& q.fresh ==> p.fresh
            &&& (f.anchor matches Some(r) && goes_by(p, d, f, r)) ==> !q.fresh
            &&& f.anchor is None ==> q.fresh == p.fresh
            &&& q.last_line_h == p.last_line_h
        }),
        !drag_after(d, f).unstick,
        drag_after(d, f).drop_at is None,
        drag_after(d, f).grip == d.grip,
        drag_after(d, f).down == d.down,
{
}

/// A frame without an anchor leaves the window where it is, as long as no other window is known
/// to have got the keyboard.
pub proof fn window_waits_without_anchor(p: Placement, d: Drag, f: Frame, x: i64, y: i64)
    requires
        p.sticky == Some((x, y)),
        d.pinned is None,
        f.pin_hook is None,
        d.drop_at is None,
        !d.unstick,
        f.anchor is None,
        p.sticky_focus == 0 || f.focus is Unknown || (f.focus matches Focus::Window(h, _) && h
            == p.sticky_focus),
        lies_on(f.desk, x as int, y as int, f.margin + f.width, f.margin + f.height),
        0 <= f.margin,
        0 <= f.width,
        0 <= f.height,
    ensures
        place(p, d, f) == (x as int, y as int),
{
}

/// Without an anchor, once another window got the keyboard, the candidate window stands by the
/// edit box that has it and does not cover it: below it where there is room for the content, else
/// above it where there is.
pub proof fn window_spares_edit_box(p: Placement, d: Drag, f: Frame, h: i64, e: Rect)
    requires
        p.sticky is Some,
        !p.sticky_drag,
        p.sticky_focus != 0,
        p.sticky_focus != h,
        d.pinned is None,
        f.pin_hook is None,
        d.drop_at is None,
        !d.unstick,
        f.anchor is None,
        f.focus == Focus::Window(h, Some(e)),
        e.top <= e.bottom,
        0 <= f.margin,
        0 <= f.width,
        0 <= f.height,
        f.desk.x <= e.left,
        e.left + 200 <= f.desk.x + f.desk.w,
        e.left + f.margin + f.width <= f.desk.x + f.desk.w,
    ensures
        place(p, d, f).0 == e.left,
        e.bottom + 4 + f.height + f.margin <= f.desk.y + f.desk.h ==> place(p, d, f).1 >= e.bottom,
        f.desk.y <= e.bottom + 4 && e.bottom + 4 + f.height + f.margin <= f.desk.y + f.desk.h
            ==> place(p, d, f).1 == e.bottom + 4,
        e.bottom + 4 + f.height > f.desk.y + f.desk.h && e.top - 4 - f.height >= f.desk.y ==> place(
            p,
            d,
            f,
        ).1 + f.height <= e.top,
{
}

/// Whether nothing is known that a frame could go by: no pin, no anchor, no last place.
pub open spec fn knows_nothing(p: Placement, d: Drag, f: Frame) -> bool {
    &&& d.pinned is None
    &&& f.pin_hook is None
    &&& d.drop_at is None
    &&& f.anchor is None
    &&& p.sticky is None || d.unstick
}

/// A window of which nothing is known stands over the window in the foreground: sixteen pixels
/// from its left edge, and over its lower end, from twice the height of the content up and not
/// above the window.
pub proof fn unknown_place_is_over_foreground(p: Placement, d: Drag, f: Frame, w: Rect)
    requires
        knows_nothing(p, d, f),
        !f.search_host,
        f.foreground == Some(Foreground { tray: false, rect: Some(w) }),
        20 * (w.right - w.left) < 19 * (f.work_area.right - f.work_area.left) || 20 * (w.bottom
            - w.top) < 19 * (f.work_area.bottom - f.work_area.top),
        w.left <= w.right,
        w.top <= w.bottom,
        f.work_area.left < f.work_area.right,
        f.work_area.top < f.work_area.bottom,
        0 <= f.unscaled_height,
        0 <= f.margin,
        0 <= f.width,
        0 <= f.height,
        f.desk.x <= w.left + 16,
        w.left + 16 + f.margin + f.width <= f.desk.x + f.desk.w,
        f.desk.y <= w.top,
        w.bottom + f.margin + f.height <= f.desk.y + f.desk.h,
    ensures
        place(p, d, f).0 == w.left + 16,
        w.top <= place(p, d, f).1 <= w.bottom,
        2 * f.unscaled_height <= w.bottom - w.top ==> place(p, d, f).1 == w.bottom - 2
            * f.unscaled_height,
{
}

/// Where the foreground says nothing either, since it is not known, is the task bar or fills the
/// screen, the window stands sixteen pixels inside the upper left of the work area; and in the
/// corner for the search panel.
pub proof fn unknown_place_is_in_corner(p: Placement, d: Drag, f: Frame)
    requires
        knows_nothing(p, d, f),
        lies_on(
            f.desk,
            f.work_area.left + 16,
            f.work_area.top + 16,
            f.margin + f.width,
            f.margin + f.height,
        ),
        lies_on(f.desk, 12, 12, f.margin + f.width, f.margin + f.height),
        f.work_area.left < f.work_area.right,
        f.work_area.top < f.work_area.bottom,
        0 <= f.margin,
        0 <= f.width,
        0 <= f.height,
    ensures
        f.search_host ==> place(p, d, f) == (12int, 12int),
        !f.search_host && (f.foreground matches Some(g) ==> g.tray || g.rect is None || (
        g.rect matches Some(w) && w == f.work_area)) ==> place(p, d, f) == (
            f.work_area.left + 16,
            f.work_area.top + 16,
        ),
{
}

/// The first frame of a session goes to the caret's height, if that is off by more than three
/// pixels. But one that comes soon after the window was hidden, and near to where it was, goes on
/// as if the window had never been hidden.
pub proof fn session_begins_at_caret(p: Placement, d: Drag, f: Frame, r: Rect, x: i64, y: i64)
    requires
        goes_by(p, d, f, r),
        p.sticky == Some((x, y)),
        !d.unstick,
        p.fresh,
        !p.forward_hold,
        p.ylock_dir == 0,
        !(f.focus matches Focus::Window(_, Some(_))),
        0 <= f.width,
        0 <= f.height,
        0 <= f.margin,
        lies_on(f.desk, r.right as int, r.bottom + 4, f.width + f.margin, f.height + f.margin),
        lies_on(f.desk, x as int, y as int, f.width + f.margin, f.height + f.margin),
    ensures
        ({
            let soon = f.hidden_for matches Some(ms) && ms < 1500;
            let near = geometry::abs(r.right - x) <= 120 && geometry::abs(r.bottom + 4 - y) <= 80;
            let now = place(p, d, f);
            &&& (!soon || !near) && geometry::abs(r.bottom + 4 - y) > 6 ==> now == (
                r.right as int,
                r.bottom + 4,
            )
            &&& soon && near && geometry::abs(r.bottom + 4 - y) <= 26 ==> now.1 == y
            &&& geometry::abs(r.bottom + 4 - y) <= 3 ==> now.1 == y
        }),
{
}

/// A window that is told to wait for a caret does: while the caret is on its line and behind the
/// window by more than six pixels and up to eighty, the window stays; a caret in front of it
/// takes it along, and the wait is over.
pub proof fn waiting_window_stays(p: Placement, d: Drag, f: Frame, r: Rect, x: i64, y: i64)
    requires
        goes_by(p, d, f, r),
        p.sticky == Some((x, y)),
        !d.unstick,
        !p.fresh,
        p.forward_hold,
        !(f.focus matches Focus::Window(_, Some(_))),
        0 <= f.width,
        0 <= f.height,
        0 <= f.margin,
        r.bottom + 4 == y,
        lies_on(f.desk, r.right as int, r.bottom + 4, f.width + f.margin, f.height + f.margin),
        lies_on(f.desk, x as int, y as int, f.width + f.margin, f.height + f.margin),
    ensures
        x - 80 <= r.right < x - 6 ==> place(p, d, f) == (x as int, y as int) && remembered(p, d, f).forward_hold,
        r.right > x + 6 || r.right < x - 80 ==> place(p, d, f) == (r.right as int, y as int)
            && !remembered(p, d, f).forward_hold,
{
}

/// A lone move of the caret up or down by a few pixels is not followed; a second one in the same
/// direction is, and one in the other direction begins anew.
pub proof fn steady_scrolling_takes_window_along(
    p: Placement,
    d: Drag,
    f: Frame,
    r: Rect,
    r2: Rect,
    x: i64,
    y: i64,
)
    requires
        p.wf(),
        goes_by(p, d, f, r),
        goes_by(p, d, next_frame(f, r2), r2),
        p.sticky == Some((x, y)),
        !d.unstick,
        !p.fresh,
        !p.forward_hold,
        p.ylock_dir == 0,
        !(f.focus matches Focus::Window(_, Some(_))),
        0 <= f.width,
        0 <= f.height,
        0 <= f.margin,
        r.right == x,
        r2.right == x,
        8 <= geometry::abs(r.bottom + 4 - y) <= 26,
        8 <= geometry::abs(r2.bottom + 4 - y) <= 26,
        lies_on(f.desk, r.right as int, r.bottom + 4, f.width + f.margin, f.height + f.margin),
        lies_on(f.desk, r2.right as int, r2.bottom + 4, f.width + f.margin, f.height + f.margin),
        lies_on(f.desk, x as int, y as int, f.width + f.margin, f.height + f.margin),
    ensures
        place(p, d, f) == (x as int, y as int),
        ({
            let now = place(remembered(p, d, f), drag_after(d, f), next_frame(f, r2));
            if (r.bottom + 4 > y) == (r2.bottom + 4 > y) {
                now == (x as int, r2.bottom + 4)
            } else {
                now == (x as int, y as int)
            }
        }),
{
}

/// The anchor counts as the host gave it, but for its lower edge: one that is as high as a line
/// counts as it is; a lower one reaches down by the height of the last line that was seen. In a
/// table host one that is wider than four hundred pixels counts for nothing.
pub proof fn anchor_counts_as_given(p: Placement, table_host: bool, a: Rect)
    ensures
        gated(p, table_host, None) is None,
        gated(p, table_host, Some(a)) is None <==> table_host && a.right - a.left > 400,
        gated(p, table_host, Some(a)) matches Some(r) ==> {
            &&& r.left == a.left && r.top == a.top && r.right == a.right
            &&& a.bottom - a.top >= 8 ==> r.bottom == a.bottom
            &&& a.bottom - a.top < 8 && (p.last_line_h is None || p.last_line_h->0 < 8) ==> r.bottom
                == a.bottom
            &&& a.bottom - a.top < 8 && p.last_line_h is Some && p.last_line_h->0 >= 8 && a.top
                + p.last_line_h->0 <= i32::MAX ==> r.bottom - r.top == p.last_line_h->0
        },
{
}

/// An anchor is out of reach where it lies more than two hundred pixels beyond one of the four
/// edges of the desktop, and nowhere else.
pub proof fn far_anchor_is_out_of_reach(d: Desk, r: Rect)
    ensures
        d.x - r.right > 200 ==> !in_reach(d, r),
        r.left - (d.x + d.w) > 200 ==> !in_reach(d, r),
        d.y - r.bottom > 200 ==> !in_reach(d, r),
        r.top - (d.y + d.h) > 200 ==> !in_reach(d, r),
        d.x - r.right <= 200 && r.left - (d.x + d.w) <= 200 && d.y - r.bottom <= 200 && r.top - (d.y
            + d.h) <= 200 ==> in_reach(d, r),
{
}

/// While it is told to wait, the window stays where it is for a caret that goes back a little on
/// its line; without that it goes back with the caret.
pub proof fn window_waits_for_caret(p: Placement, f: Frame, r: Rect, ox: i64, oy: i64, x: int)
    requires
        p.sticky == Some((ox, oy)),
        x == asked(f, r).0,
        asked(f, r).1 == oy,
        6 < ox - x <= 80,
    ensures
        followed(p, f, r).y == oy,
        p.forward_hold ==> followed(p, f, r).x == ox && followed(p, f, r).hold,
        !p.forward_hold ==> followed(p, f, r).x == x && !followed(p, f, r).hold,
{
}

/// A caret that goes on, or goes back far, takes the window along and ends the wait.
pub proof fn caret_ends_wait(p: Placement, f: Frame, r: Rect, ox: i64, oy: i64, x: int)
    requires
        p.sticky == Some((ox, oy)),
        x == asked(f, r).0,
        x > ox + 6 || x < ox - 80,
    ensures
        followed(p, f, r).x == x,
        !followed(p, f, r).hold,
{
}

/// Whatever it is placed by, the window is on the desktop with its content and the shadow at its
/// lower right, where it fits there at all.
pub proof fn window_is_on_desk(p: Placement, d: Drag, f: Frame)
    ensures
        ({
            let (x, y) = place(p, d, f);
            &&& f.desk.x <= x && f.desk.y <= y
            &&& f.margin + f.width <= f.desk.w ==> x + f.width + f.margin <= f.desk.x + f.desk.w
            &&& f.margin + f.height <= f.desk.h ==> y + f.height + f.margin <= f.desk.y + f.desk.h
        }),
{
    let c = chosen(taken_over(p, d, f.margin as int), d, f);
    geometry::kept_on_desk(f.desk, c.x, f.margin + f.width);
    geometry::kept_on_desk(f.desk, c.y, f.margin + f.height);
}

/// A window covers the work area where it is as large as it, but for a twentieth of each side.
pub proof fn large_window_covers(w: Rect, work: Rect)
    requires
        work.left < work.right,
        work.top < work.bottom,
        w.left <= w.right,
        w.top <= w.bottom,
    ensures
        covers(work, work),
        covers(w, work) <==> 20 * ((work.right - work.left) - (w.right - w.left)) <= work.right
            - work.left && 20 * ((work.bottom - work.top) - (w.bottom - w.top)) <= work.bottom
            - work.top,
{
}

/// The first frame of a session goes where the caret is, however little it moves there, unless it
/// comes within a second and a half and near to the last place.
pub proof fn new_session_is_free(p: Placement, f: Frame, r: Rect)
    ensures
        !p.fresh ==> !free(p, f, r),
        p.fresh && (p.sticky is None || f.hidden_for is None) ==> free(p, f, r),
        p.fresh && (f.hidden_for matches Some(ms) && ms >= 1500) ==> free(p, f, r),
        p.sticky matches Some((ox, oy)) ==> {
            let (x, y) = asked(f, r);
            &&& p.fresh && (x - ox > 120 || ox - x > 120 || y - oy > 80 || oy - y > 80) ==> free(p, f, r)
            &&& (f.hidden_for matches Some(ms) && ms < 1500) && -120 <= x - ox <= 120 && -80 <= y - oy
                <= 80 ==> !free(p, f, r)
        },
{
}

/// A frame takes over what the mouse did, once: what was dropped or let go is not taken again,
/// and a pin stays, or is set where the host has one.
pub proof fn mouse_is_taken_over_once(d: Drag, f: Frame)
    ensures
        drag_after(d, f).drop_at is None,
        !drag_after(d, f).unstick,
        d.pinned is Some ==> drag_after(d, f).pinned == d.pinned,
        d.pinned is None ==> drag_after(d, f).pinned == f.pin_hook,
        drag_after(d, f).grip == d.grip && drag_after(d, f).down == d.down,
{
}

/// A window that was let go forgets its place; one that was dropped has the place where it was
/// dropped, less the shadow; else the mouse changes nothing.
pub proof fn mouse_sets_place(p: Placement, d: Drag, margin: int, x: i32, y: i32)
    requires
        0 <= margin <= 0x1000,
    ensures
        d.unstick ==> taken_over(p, d, margin).sticky is None && !taken_over(p, d, margin).sticky_drag,
        !d.unstick && d.drop_at == Some((x, y)) ==> taken_over(p, d, margin).sticky_drag && (taken_over(
            p,
            d,
            margin,
        ).sticky matches Some((a, b)) && a == x + margin && b == y + margin),
        !d.unstick && d.drop_at is None ==> taken_over(p, d, margin) == p,
{
}

/// A small vertical move is noted with its direction, and with the way so far where it goes on in
/// the direction of those before it; a large one, which the window follows, ends the count.
pub proof fn small_moves_are_counted(dir: int, acc: int, dy: int)
    requires
        0 <= acc <= 1000,
        -1 <= dir <= 1,
    ensures
        ({
            let l = locked(dir, acc, false, dy);
            &&& 0 < dy <= 26 ==> l.dir == 1
            &&& -26 <= dy < 0 ==> l.dir == -1
            &&& 0 < dy <= 26 ==> l.acc == if dir == 1 {
                acc + dy
            } else {
                dy
            }
            &&& -26 <= dy < 0 ==> l.acc == if dir == -1 {
                acc - dy
            } else {
                -dy
            }
            &&& dy == 0 ==> l.dir == dir && l.acc == acc && !l.allow
            &&& dy > 26 || dy < -26 ==> l.dir == 0 && l.acc == 0 && l.allow
            &&& -26 <= dy <= 26 ==> (l.allow <==> (dy >= 4 && dir == 1 && acc + dy >= 8) || (dy <= -4
                && dir == -1 && acc - dy >= 8))
        }),
        locked(dir, acc, true, dy).allow <==> dy > 3 || dy < -3,
{
}

/// What an anchor asks for is on the desktop from left to right, with the shadow at the right of
/// the content, where it fits; and not above the desktop.
pub proof fn asked_place_is_on_desk(f: Frame, r: Rect)
    requires
        f.desk.y <= r.bottom + 4,
    ensures
        f.desk.x <= asked(f, r).0,
        f.margin + f.width <= f.desk.w ==> asked(f, r).0 + f.width + f.margin <= f.desk.x + f.desk.w,
        f.desk.y <= asked(f, r).1,
{
}

} // verus!
