//! How the candidate window changes its size, and what it draws into.

use vstd::prelude::*;

use crate::geometry;
use crate::geometry::{abs_of, max_of};
use crate::motion::Pair;

verus! {

/// The largest size there is.
pub const LARGE: i64 = 0x10_0000_0000;

/// Whether a size is one that a window can have.
pub open spec fn fair(p: Pair) -> bool {
    -LARGE <= p.0 <= LARGE && -LARGE <= p.1 <= LARGE
}

/// The size of the window as it changes.
#[derive(Clone, Copy, Debug)]
pub struct Morph {
    /// The sizes between which it changes.
    pub anim: Option<(Pair, Pair)>,
    /// The size of the window.
    pub live: Pair,
    /// The size at which the shell is drawn while the size changes.
    pub shell: Option<Pair>,
    /// The size of the content.
    pub content: Pair,
    /// When a step of the change was last drawn, in milliseconds.
    pub last_render: u64,
}

/// What a frame sizes by.
#[derive(Clone, Copy, Debug)]
pub struct Resize {
    /// The frame only draws a step of an animation.
    pub rerender: bool,
    /// The frame is drawn to be read back.
    pub readback: bool,
    /// The window was in view before this frame.
    pub visible: bool,
    /// Sizes change step by step.
    pub enabled: bool,
    /// The size that the window has at this moment.
    pub current: Pair,
    /// The size that it is to have.
    pub target: Pair,
}

/// Whether a frame starts a change of size: the window is in view with a shell to speak of,
/// and one side changes by more than fourteen pixels.
pub open spec fn starts(v: Resize) -> bool {
    &&& !v.rerender && !v.readback && v.visible && v.enabled
    &&& geometry::abs(v.target.0 - v.current.0) > 14 || geometry::abs(v.target.1 - v.current.1) > 14
    &&& v.current.0 > 4 && v.current.1 > 4
}

/// The steps of a change are drawn once per picture of the screen at most; the last always.
pub open spec fn due(last: int, now: int, interval: int) -> bool {
    geometry::max(now - last, 0) >= interval
}

/// The size after a tick of the clock, at this step of the change; whether the change is over,
/// and whether to draw. Without a change there is nothing to do.
pub open spec fn stepped(m: Morph, step: Pair, now: u64, interval: u64) -> (Morph, (bool, bool)) {
    match m.anim {
        Some((_, to)) => if step == to {
            (Morph { anim: None, shell: None, live: step, ..m }, (true, true))
        } else {
            let drawn = due(m.last_render as int, now as int, interval as int);
            (
                Morph {
                    shell: Some(step),
                    live: step,
                    last_render: if drawn {
                        now
                    } else {
                        m.last_render
                    },
                    ..m
                },
                (false, drawn),
            )
        },
        None => (m, (true, false)),
    }
}

impl Morph {
    /// A window without a size.
    pub fn new() -> (r: Morph)
        ensures
            r == (Morph { anim: None, live: (0, 0), shell: None, content: (0, 0), last_render: 0 }),
    {
        Morph { anim: None, live: (0, 0), shell: None, content: (0, 0), last_render: 0 }
    }

    /// Sets the size of a frame: whether a change starts, so that the clock must run. A frame
    /// that only draws a step changes nothing; any other ends a change that it does not start.
    pub fn begin(&mut self, v: &Resize) -> (r: bool)
        requires
            fair(v.current),
            fair(v.target),
        ensures
            r == starts(*v),
            *final(self) == if v.rerender {
                *old(self)
            } else if r {
                Morph {
                    anim: Some((v.current, v.target)),
                    shell: Some(v.current),
                    ..*old(self)
                }
            } else {
                Morph { anim: None, shell: None, ..*old(self) }
            },
    {
        if v.rerender {
            return false;
        }
        let (tx, ty) = v.target;
        let (cx, cy) = v.current;
        if !v.readback && v.visible && v.enabled && (abs_of(tx - cx) > 14 || abs_of(ty - cy) > 14) && cx
            > 4 && cy > 4 {
            self.anim = Some((v.current, v.target));
            self.shell = Some(v.current);
            true
        } else {
            self.anim = None;
            self.shell = None;
            false
        }
    }

    /// The size of the window in this frame: at least that of the content, and no smaller than
    /// the step of a change, so that the shell is never cut.
    pub fn frame_size(&mut self, step: Pair, target: Pair) -> (r: Pair)
        ensures
            r == if old(self).anim is Some {
                (
                    geometry::max(step.0 as int, target.0 as int) as i64,
                    geometry::max(step.1 as int, target.1 as int) as i64,
                )
            } else {
                target
            },
            *final(self) == (Morph { live: r, content: target, ..*old(self) }),
    {
        let size = if self.anim.is_some() {
            (max_of(step.0, target.0), max_of(step.1, target.1))
        } else {
            target
        };
        self.live = size;
        self.content = target;
        size
    }

    /// A tick of the clock, at this step of the change: whether the change is over, and whether
    /// to draw. Without a change there is nothing to do.
    pub fn tick(&mut self, step: Pair, now: u64, interval: u64) -> (r: (bool, bool))
        ensures
            (*final(self), r) == stepped(*old(self), step, now, interval),
    {
        let to = match self.anim {
            Some((_, to)) => to,
            None => return (true, false),
        };
        self.live = step;
        if step.0 == to.0 && step.1 == to.1 {
            self.anim = None;
            self.shell = None;
            return (true, true);
        }
        self.shell = Some(step);
        let since: u64 = if now > self.last_render {
            now - self.last_render
        } else {
            0
        };
        if since >= interval {
            self.last_render = now;
            (false, true)
        } else {
            (false, false)
        }
    }

    /// The window goes out of view: the next session has its own sizes.
    pub fn hide_window(&mut self)
        ensures
            *final(self) == (Morph { anim: None, shell: None, live: (0, 0), ..*old(self) }),
    {
        self.anim = None;
        self.shell = None;
        self.live = (0, 0);
    }
}

/// The length of a buffer for `n` pixels: a whole number of blocks of sixty-four, and not less
/// than `least`.
pub open spec fn block_len(n: int, least: int) -> int {
    (geometry::max(n, least) + 63) / 64 * 64
}

/// The buffer that is needed to draw `w` by `h`: none where the one there is is large enough.
/// Buffers only grow.
pub fn grown_buffer(have: Option<(u32, u32)>, w: u32, h: u32) -> (r: Option<(u64, u64)>)
    ensures
        match r {
            Some((aw, ah)) => {
                &&& !(have matches Some((bw, bh)) && w <= bw && h <= bh)
                &&& aw == block_len(w as int, 256)
                &&& ah == block_len(h as int, 160)
            },
            None => have matches Some((bw, bh)) && w <= bw && h <= bh,
        },
{
    if let Some((bw, bh)) = have {
        if w <= bw && h <= bh {
            return None;
        }
    }
    let mw: u64 = if w >= 256 {
        w as u64
    } else {
        256
    };
    let mh: u64 = if h >= 160 {
        h as u64
    } else {
        160
    };
    Some(((mw + 63) / 64 * 64, (mh + 63) / 64 * 64))
}

/// A new buffer holds what it was asked for, and less than a block more.
pub proof fn buffer_holds(n: int, least: int)
    requires
        0 <= n,
        0 <= least,
    ensures
        n <= block_len(n, least),
        least <= block_len(n, least),
        block_len(n, least) % 64 == 0,
        block_len(n, least) < geometry::max(n, least) + 64,
{
}

/// The highlight: whether it slides from the candidate that had it to the one that has it now.
/// It does where another candidate of a window in view gets it, and where it was drawn before.
pub fn highlight_slides(
    prev: &mut Option<usize>,
    selected: usize,
    rerender: bool,
    timed: bool,
    visible: bool,
    drawn: bool,
) -> (r: bool)
    ensures
        r == (!rerender && timed && visible && drawn && (*old(prev) matches Some(p) && p
            != selected)),
        *final(prev) == if !rerender && timed {
            Some(selected)
        } else {
            *old(prev)
        },
{
    if rerender || !timed {
        return false;
    }
    let slides = match *prev {
        Some(p) => visible && drawn && p != selected,
        None => false,
    };
    *prev = Some(selected);
    slides
}

/// The remarks of a session: shown at once where they have no delay, else when the clock says
/// so. Whether that clock must run.
pub fn comments_begin(expanded: &mut bool, visible: bool, delay: u32, rerender: bool) -> (r: bool)
    ensures
        *final(expanded) == if visible {
            *old(expanded)
        } else {
            delay == 0
        },
        r == (!*final(expanded) && delay > 0 && !rerender),
{
    if !visible {
        *expanded = delay == 0;
    }
    !*expanded && delay > 0 && !rerender
}

/// The size changes step by step where the window is in view, is more than a few pixels large, and
/// one of its sides changes by more than fourteen pixels; and nowhere else.
pub proof fn large_changes_take_time(v: Resize)
    ensures
        starts(v) ==> v.visible && v.enabled && !v.rerender && !v.readback,
        v.visible && v.enabled && !v.rerender && !v.readback && v.current.0 > 4 && v.current.1 > 4 && (
        v.target.0 > v.current.0 + 14 || v.target.0 < v.current.0 - 14 || v.target.1 > v.current.1
            + 14 || v.target.1 < v.current.1 - 14) ==> starts(v),
        v.current.0 - 14 <= v.target.0 <= v.current.0 + 14 && v.current.1 - 14 <= v.target.1
            <= v.current.1 + 14 ==> !starts(v),
        v.current.0 <= 4 || v.current.1 <= 4 ==> !starts(v),
{
}

/// A change of size goes through its steps and is over with the last, which is the size that the
/// window is to have; the shell is drawn at each step and no more when it is over.
pub proof fn change_goes_through_its_steps(
    m: Morph,
    from: Pair,
    to: Pair,
    step: Pair,
    now: u64,
    interval: u64,
)
    requires
        m.anim == Some((from, to)),
    ensures
        ({
            let (n, (over, drawn)) = stepped(m, step, now, interval);
            &&& n.live == step
            &&& over <==> step == to
            &&& over ==> drawn && n.anim is None && n.shell is None
            &&& !over ==> n.anim == m.anim && n.shell == Some(step)
            &&& n.content == m.content
        }),
{
}

/// Steps are drawn no faster than the screen shows them: between two steps that are drawn lies at
/// least the time of a picture, unless the change is over.
pub proof fn steps_are_drawn_apart(
    m: Morph,
    from: Pair,
    to: Pair,
    first: Pair,
    second: Pair,
    now: u64,
    later: u64,
    interval: u64,
)
    requires
        m.anim == Some((from, to)),
        first != to,
        second != to,
        now <= later,
        stepped(m, first, now, interval).1.1,
    ensures
        stepped(stepped(m, first, now, interval).0, second, later, interval).1.1 <==> later - now
            >= interval,
{
}

/// Without a change of size there is nothing to do.
pub proof fn no_change_no_steps(m: Morph, step: Pair, now: u64, interval: u64)
    requires
        m.anim is None,
    ensures
        stepped(m, step, now, interval) == (m, (true, false)),
{
}

/// A step is drawn once a picture's time has gone since the last that was, and no sooner; the last
/// step is drawn in any case.
pub proof fn step_waits_for_picture(m: Morph, from: Pair, to: Pair, step: Pair, now: u64, interval: u64)
    requires
        m.anim == Some((from, to)),
        m.last_render <= now,
    ensures
        stepped(m, step, now, interval).1.1 <==> step == to || now - m.last_render >= interval,
        step != to && stepped(m, step, now, interval).1.1 ==> stepped(m, step, now, interval).0.last_render
            == now,
        !stepped(m, step, now, interval).1.1 ==> stepped(m, step, now, interval).0.last_render
            == m.last_render,
{
}

} // verus!
