//! How the candidate window gets to its place and to its size: at once, or step by step.
//!
//! Which way it goes is decided here. The steps between, which follow a curve over time, are
//! computed where the clock is.

use vstd::prelude::*;

use crate::geometry;
use crate::geometry::{abs_of, max_of};

verus! {

/// A point or a size, in pixels.
pub type Pair = (i64, i64);

/// The farthest that a point can lie.
pub const FAR: i64 = 0x10_0000_0000;

/// Whether a point is one on a desktop.
pub open spec fn near(p: Pair) -> bool {
    -FAR <= p.0 <= FAR && -FAR <= p.1 <= FAR
}

/// The distance of two points, along the axis on which they lie farther apart.
pub open spec fn distance(a: Pair, b: Pair) -> int {
    geometry::max(geometry::abs(a.0 - b.0), geometry::abs(a.1 - b.1))
}

fn distance_of(a: Pair, b: Pair) -> (r: i64)
    requires
        near(a),
        near(b),
    ensures
        r == distance(a, b),
{
    max_of(abs_of(a.0 - b.0), abs_of(a.1 - b.1))
}

/// The kinds of slide, which differ in pace and curve.
#[derive(Clone, Copy, Debug, PartialEq, Eq, Structural)]
pub enum Pace {
    /// Along with the caret, from key to key.
    Follow,
    /// From a makeshift place to the caret.
    Correct,
    /// Into view.
    Enter,
}

/// A slide from one place to another.
#[derive(Clone, Copy, Debug)]
pub struct Slide {
    pub from: Pair,
    pub to: Pair,
    pub pace: Pace,
}

/// How the window moves.
#[derive(Clone, Copy, Debug)]
pub struct Motion {
    /// Where the window is.
    pub live: Pair,
    pub slide: Option<Slide>,
    /// Where the window is drawn to, while it chases the caret.
    pub chase_target: Option<Pair>,
}

/// What a frame moves by.
#[derive(Clone, Copy, Debug)]
pub struct Move {
    /// Where the window is to be.
    pub target: Pair,
    /// The window chases the caret instead of sliding.
    pub chase: bool,
    /// Moves take time at all.
    pub animated: bool,
    /// The window was in view before this frame.
    pub visible: bool,
    /// The frame only draws a step of an animation.
    pub rerender: bool,
    /// The last place of the window in an earlier frame.
    pub last: Option<Pair>,
    /// The last place came from an anchor or from the user.
    pub last_anchored: bool,
    /// The width of what has been typed, for a chase that has nowhere to start from.
    pub typed_width: Option<i64>,
    /// The width of what has been typed, for an entrance, where there is to be one.
    pub entrance: Option<i64>,
}

impl Motion {
    /// All its points are on a desktop.
    pub open spec fn wf(self) -> bool {
        &&& near(self.live)
        &&& self.slide matches Some(s) ==> near(s.from) && near(s.to)
        &&& self.chase_target matches Some(t) ==> near(t)
    }

    /// A window at rest in the corner.
    pub fn new() -> (r: Motion)
        ensures
            r == (Motion { live: (0, 0), slide: None, chase_target: None }),
            r.wf(),
    {
        Motion { live: (0, 0), slide: None, chase_target: None }
    }
}

impl Move {
    /// All its points are on a desktop, and no text is wider than one.
    pub open spec fn wf(self) -> bool {
        &&& -FAR / 2 <= self.target.0 <= FAR / 2 && -FAR / 2 <= self.target.1 <= FAR / 2
        &&& self.last matches Some(p) ==> near(p)
    }
}

/// Whether a way is one to slide in on: not too short to be seen, and not too long.
pub open spec fn entrance_way(w: Option<i64>) -> Option<int> {
    match w {
        Some(w) => if 3 <= w <= 150 {
            Some(w as int)
        } else {
            None
        },
        None => None,
    }
}

/// Where a chase starts: where the window is; out of view, from its last place if that is
/// near, else from the start of the typed text, else at the target.
pub open spec fn chase_start(m: Motion, v: Move) -> Pair {
    if v.visible {
        m.live
    } else {
        match (v.last, entrance_way(v.typed_width)) {
            (Some(p), w) => if distance(v.target, p) <= 150 {
                p
            } else if w is Some {
                ((v.target.0 - w->0) as i64, v.target.1)
            } else {
                v.target
            },
            (None, Some(w)) => ((v.target.0 - w) as i64, v.target.1),
            (None, None) => v.target,
        }
    }
}

/// How the window moves after a frame has set its target.
///
/// Nothing changes for a frame that only draws a step, or without animation. A chase goes on
/// towards the target from three pixels on; nearer, the window is put there. In view, the
/// window slides along from three pixels on; a jump of more than five hundred from one
/// anchored place to another is made at once. Out of view, the window slides in over the
/// width of the typed text, where there is an entrance.
pub open spec fn planned(m: Motion, v: Move) -> Motion {
    if !v.animated || v.rerender {
        m
    } else if v.chase {
        let s = chase_start(m, v);
        if distance(v.target, s) >= 3 {
            Motion {
                live: if v.visible {
                    m.live
                } else {
                    s
                },
                slide: None,
                chase_target: Some(v.target),
            }
        } else {
            Motion { live: v.target, slide: None, chase_target: None }
        }
    } else if v.visible {
        let d = distance(v.target, m.live);
        if d > 500 && v.last_anchored {
            Motion { live: v.target, slide: None, chase_target: None }
        } else if d >= 3 {
            Motion {
                slide: Some(
                    Slide {
                        from: m.live,
                        to: v.target,
                        pace: if v.last_anchored {
                            Pace::Follow
                        } else {
                            Pace::Correct
                        },
                    },
                ),
                chase_target: None,
                ..m
            }
        } else if d > 0 {
            Motion { slide: None, chase_target: None, ..m }
        } else {
            Motion { chase_target: None, ..m }
        }
    } else {
        match entrance_way(v.entrance) {
            Some(w) => {
                let from = ((v.target.0 - w) as i64, v.target.1);
                Motion {
                    live: from,
                    slide: Some(Slide { from, to: v.target, pace: Pace::Enter }),
                    chase_target: None,
                }
            },
            None => Motion { chase_target: None, ..m },
        }
    }
}

/// Whether a frame starts a move that takes time, so that the clock must run.
pub open spec fn needs_clock(m: Motion, v: Move) -> bool {
    v.animated && !v.rerender && if v.chase {
        distance(v.target, chase_start(m, v)) >= 3
    } else if v.visible {
        let d = distance(v.target, m.live);
        d >= 3 && !(d > 500 && v.last_anchored)
    } else {
        entrance_way(v.entrance) is Some
    }
}

/// Whether a frame starts to slide the window into view.
pub open spec fn enters(v: Move) -> bool {
    v.animated && !v.rerender && !v.chase && !v.visible && entrance_way(v.entrance) is Some
}

fn entrance_way_of(w: Option<i64>) -> (r: Option<i64>)
    ensures
        match r {
            Some(x) => entrance_way(w) == Some(x as int) && 3 <= x <= 150,
            None => entrance_way(w) is None,
        },
{
    match w {
        Some(x) => if 3 <= x && x <= 150 {
            Some(x)
        } else {
            None
        },
        None => None,
    }
}

impl Move {
    /// Whether the frame starts to slide the window into view; see [`enters`].
    pub fn is_entrance(&self) -> (r: bool)
        ensures
            r == enters(*self),
    {
        self.animated && !self.rerender && !self.chase && !self.visible && entrance_way_of(
            self.entrance,
        ).is_some()
    }
}

/// The motion after a tick of the clock in a slide, where to put the window if it moves, and
/// whether the slide is over. The last two pixels are made in one step. A chase goes before a
/// slide.
pub open spec fn slid(m: Motion, step: Pair) -> (Motion, (Option<Pair>, bool)) {
    match (m.chase_target, m.slide) {
        (None, Some(s)) => if distance(s.to, step) <= 2 {
            (Motion { live: s.to, slide: None, ..m }, (Some(s.to), true))
        } else {
            (
                Motion { live: step, ..m },
                (
                    if step != m.live {
                        Some(step)
                    } else {
                        None
                    },
                    false,
                ),
            )
        },
        _ => (m, (None, true)),
    }
}

/// The motion after a tick of the clock in a chase, where to put the window if it moves, and
/// whether the chase is over.
pub open spec fn chased(m: Motion, step: Option<(Pair, Pair)>) -> (Motion, (Option<Pair>, bool)) {
    match (m.chase_target, step) {
        (Some(t), None) => (Motion { live: t, chase_target: None, ..m }, (Some(t), true)),
        (Some(t), Some((a, b))) => (
            Motion { live: b, ..m },
            (
                if a != b {
                    Some(b)
                } else {
                    None
                },
                false,
            ),
        ),
        (None, _) => (m, (None, true)),
    }
}

impl Motion {
    fn chase_start_of(&self, v: &Move) -> (r: Pair)
        requires
            self.wf(),
            v.wf(),
        ensures
            r == chase_start(*self, *v),
            near(r),
    {
        if v.visible {
            return self.live;
        }
        if let Some(p) = v.last {
            if distance_of(v.target, p) <= 150 {
                return p;
            }
        }
        match entrance_way_of(v.typed_width) {
            Some(w) => (v.target.0 - w, v.target.1),
            None => v.target,
        }
    }

    /// Sets the target of a frame; see [`planned`]. Whether the clock must run.
    pub fn plan(&mut self, v: &Move) -> (r: bool)
        requires
            old(self).wf(),
            v.wf(),
        ensures
            *final(self) == planned(*old(self), *v),
            final(self).wf(),
            r == needs_clock(*old(self), *v),
    {
        if !v.animated || v.rerender {
            return false;
        }
        if v.chase {
            self.slide = None;
            let s = self.chase_start_of(v);
            if distance_of(v.target, s) >= 3 {
                if !v.visible {
                    self.live = s;
                }
                self.chase_target = Some(v.target);
                return true;
            }
            self.live = v.target;
            self.chase_target = None;
            return false;
        }
        self.chase_target = None;
        if v.visible {
            let d: i64 = distance_of(v.target, self.live);
            if d > 500 && v.last_anchored {
                self.live = v.target;
                self.slide = None;
                false
            } else if d >= 3 {
                let pace = if v.last_anchored {
                    Pace::Follow
                } else {
                    Pace::Correct
                };
                self.slide = Some(Slide { from: self.live, to: v.target, pace });
                true
            } else {
                if d > 0 {
                    self.slide = None;
                }
                false
            }
        } else {
            match entrance_way_of(v.entrance) {
                Some(w) => {
                    let from = (v.target.0 - w, v.target.1);
                    self.live = from;
                    self.slide = Some(Slide { from, to: v.target, pace: Pace::Enter });
                    true
                },
                None => false,
            }
        }
    }

    /// Where the window is shown in this frame: where a chase has brought it, at this step of
    /// a slide, or at the target.
    pub fn shown_at(&mut self, v: &Move, step: Pair) -> (r: Pair)
        requires
            old(self).wf(),
            v.wf(),
            near(step),
        ensures
            r == if v.chase && old(self).chase_target is Some && v.animated {
                old(self).live
            } else if old(self).slide is Some {
                step
            } else {
                v.target
            },
            *final(self) == (Motion { live: r, ..*old(self) }),
            final(self).wf(),
    {
        let p = if v.chase && self.chase_target.is_some() && v.animated {
            self.live
        } else if self.slide.is_some() {
            step
        } else {
            v.target
        };
        self.live = p;
        p
    }

    /// A tick of the clock in a slide, at this step of it. The last two pixels are made in one
    /// step. Where to put the window, if it moves, and whether the slide is over. A chase goes
    /// before a slide.
    pub fn slide_tick(&mut self, step: Pair) -> (r: (Option<Pair>, bool))
        requires
            old(self).wf(),
            near(step),
        ensures
            final(self).wf(),
            (*final(self), r) == slid(*old(self), step),
    {
        if self.chase_target.is_some() {
            return (None, true);
        }
        let s = match self.slide {
            Some(s) => s,
            None => return (None, true),
        };
        if distance_of(s.to, step) <= 2 {
            self.slide = None;
            self.live = s.to;
            return (Some(s.to), true);
        }
        let before = self.live;
        self.live = step;
        if step.0 != before.0 || step.1 != before.1 {
            (Some(step), false)
        } else {
            (None, false)
        }
    }

    /// A tick of the clock in a chase. `step` is where the tick brings the window from and to,
    /// or nothing where it is within a pixel of its target. Where to put the window, if it
    /// moves, and whether the chase is over.
    pub fn chase_tick(&mut self, step: Option<(Pair, Pair)>) -> (r: (Option<Pair>, bool))
        requires
            old(self).wf(),
            step matches Some((a, b)) ==> near(a) && near(b),
        ensures
            final(self).wf(),
            (*final(self), r) == chased(*old(self), step),
    {
        let t = match self.chase_target {
            Some(t) => t,
            None => return (None, true),
        };
        match step {
            None => {
                self.chase_target = None;
                self.live = t;
                (Some(t), true)
            },
            Some((a, b)) => {
                self.live = b;
                if a.0 != b.0 || a.1 != b.1 {
                    (Some(b), false)
                } else {
                    (None, false)
                }
            },
        }
    }

    /// Moves no more: the window goes out of view.
    pub fn stop(&mut self)
        requires
            old(self).wf(),
        ensures
            *final(self) == (Motion { slide: None, chase_target: None, ..*old(self) }),
            final(self).wf(),
    {
        self.slide = None;
        self.chase_target = None;
    }
}

/// A window in view that is moved by less than three pixels starts no slide, and one that jumps
/// more than five hundred from one anchored place to another is there at once.
pub proof fn short_and_far_moves_are_immediate(m: Motion, v: Move)
    requires
        v.animated,
        !v.rerender,
        !v.chase,
        v.visible,
        0 < distance(v.target, m.live) < 3 || (distance(v.target, m.live) > 500 && v.last_anchored),
    ensures
        planned(m, v).slide is None,
        planned(m, v).chase_target is None,
        !needs_clock(m, v),
{
}

/// A slide and a chase never go on at once after a frame has set its target.
pub proof fn one_way_at_a_time(m: Motion, v: Move)
    requires
        !(m.slide is Some && m.chase_target is Some),
    ensures
        !(planned(m, v).slide is Some && planned(m, v).chase_target is Some),
{
}

/// Every move that is started ends at the target of its frame.
pub proof fn moves_end_at_target(m: Motion, v: Move)
    requires
        needs_clock(m, v),
    ensures
        planned(m, v).slide matches Some(s) ==> s.to == v.target,
        planned(m, v).chase_target matches Some(t) ==> t == v.target,
        planned(m, v).slide is Some || planned(m, v).chase_target is Some,
{
}

/// A window in view slides from where it is to where it is to be, wherever the way is neither too
/// short to be seen nor a jump between two anchored places; and it has not moved yet.
pub proof fn window_in_view_slides(m: Motion, v: Move)
    requires
        v.animated,
        !v.rerender,
        !v.chase,
        v.visible,
        geometry::abs(v.target.0 - m.live.0) >= 3 || geometry::abs(v.target.1 - m.live.1) >= 3,
        !v.last_anchored || (geometry::abs(v.target.0 - m.live.0) <= 500 && geometry::abs(
            v.target.1 - m.live.1,
        ) <= 500),
    ensures
        ({
            let n = planned(m, v);
            &&& n.live == m.live
            &&& n.chase_target is None
            &&& n.slide matches Some(s) && s.from == m.live && s.to == v.target && s.pace == (
            if v.last_anchored {
                Pace::Follow
            } else {
                Pace::Correct
            })
        }),
        needs_clock(m, v),
        !enters(v),
{
}

/// A window that comes into view slides in from the left, over the width of what was typed, where
/// that is neither too short to be seen nor too long; else it starts nothing.
pub proof fn window_slides_into_view(m: Motion, v: Move, w: i64)
    requires
        v.animated,
        !v.rerender,
        !v.chase,
        !v.visible,
        v.wf(),
        v.entrance == Some(w),
    ensures
        3 <= w <= 150 ==> {
            let n = planned(m, v);
            &&& n.live.0 == v.target.0 - w && n.live.1 == v.target.1
            &&& n.slide matches Some(s) && s.from == n.live && s.to == v.target && s.pace
                == Pace::Enter
            &&& needs_clock(m, v) && enters(v)
        },
        w < 3 || w > 150 ==> planned(m, v).slide == m.slide && planned(m, v).live == m.live
            && !needs_clock(m, v) && !enters(v),
        planned(m, v).chase_target is None,
{
}

/// A window that chases the caret is drawn to where it is to be, from three pixels on, and is put
/// there when it is nearer. In view it starts where it is; out of view at its last place if that
/// is near, else at the start of what was typed, else where it is to be.
pub proof fn window_chases(m: Motion, v: Move)
    requires
        v.animated,
        !v.rerender,
        v.chase,
        v.wf(),
    ensures
        ({
            let n = planned(m, v);
            let near_last = v.last matches Some(p) && geometry::abs(v.target.0 - p.0) <= 150
                && geometry::abs(v.target.1 - p.1) <= 150;
            let typed = v.typed_width matches Some(w) && 3 <= w <= 150;
            &&& n.slide is None
            &&& n.chase_target matches Some(t) ==> t == v.target && needs_clock(m, v)
            &&& n.chase_target is None ==> n.live == v.target && !needs_clock(m, v)
            &&& v.visible && (geometry::abs(v.target.0 - m.live.0) >= 3 || geometry::abs(
                v.target.1 - m.live.1,
            ) >= 3) ==> n.chase_target == Some(v.target) && n.live == m.live
            &&& !v.visible && near_last && n.chase_target is Some ==> v.last == Some(n.live)
            &&& !v.visible && !near_last && typed ==> n.chase_target == Some(v.target) && n.live.0
                == v.target.0 - v.typed_width->0 && n.live.1 == v.target.1
            &&& !v.visible && !near_last && !typed ==> n.chase_target is None
            &&& !enters(v)
        }),
{
}

/// Nothing is planned where moves take no time, and by a frame that only draws a step.
pub proof fn still_frames_plan_nothing(m: Motion, v: Move)
    requires
        !v.animated || v.rerender,
    ensures
        planned(m, v) == m,
        !needs_clock(m, v),
        !enters(v),
{
}

/// A tick of a slide puts the window at its step, and at the end of the slide once it is within
/// two pixels of it: then the slide is over.
pub proof fn slide_ends_at_its_end(m: Motion, s: Slide, step: Pair)
    requires
        m.slide == Some(s),
        m.chase_target is None,
    ensures
        ({
            let (n, (to, over)) = slid(m, step);
            &&& over <==> geometry::abs(s.to.0 - step.0) <= 2 && geometry::abs(s.to.1 - step.1) <= 2
            &&& over ==> n.live == s.to && n.slide is None && to == Some(s.to)
            &&& !over ==> n.live == step && n.slide == m.slide && (to == Some(step) || (to is None
                && step == m.live))
            &&& n.chase_target is None
        }),
{
}

/// A tick of a chase puts the window where it brings it, and where it is drawn to once it is
/// there: then the chase is over. A slide has to wait for a chase.
pub proof fn chase_ends_at_its_end(m: Motion, t: Pair, from: Pair, to: Pair, step: Pair)
    requires
        m.chase_target == Some(t),
    ensures
        chased(m, None).0.live == t,
        chased(m, None).0.chase_target is None,
        chased(m, None).1 == (Some(t), true),
        chased(m, Some((from, to))).0.live == to,
        chased(m, Some((from, to))).0.chase_target == Some(t),
        !chased(m, Some((from, to))).1.1,
        from != to ==> chased(m, Some((from, to))).1.0 == Some(to),
        slid(m, step).0 == m,
        slid(m, step).1 == (None::<Pair>, true),
{
}

/// A window without a slide and without a chase is not moved by the clock.
pub proof fn resting_window_is_not_moved(m: Motion, step: Pair, chase: Option<(Pair, Pair)>)
    requires
        m.slide is None,
        m.chase_target is None,
    ensures
        slid(m, step) == (m, (None::<Pair>, true)),
        chased(m, chase) == (m, (None::<Pair>, true)),
{
}

/// A window in view that came to its place by an anchor is put at once where the next anchor asks
/// for it, where that is farther than five hundred pixels.
pub proof fn far_anchor_is_jumped_to(m: Motion, v: Move)
    requires
        v.animated,
        !v.rerender,
        !v.chase,
        v.visible,
        v.last_anchored,
        geometry::abs(v.target.0 - m.live.0) > 500 || geometry::abs(v.target.1 - m.live.1) > 500,
    ensures
        planned(m, v).live == v.target,
        planned(m, v).slide is None,
        planned(m, v).chase_target is None,
        !needs_clock(m, v),
{
}

/// A window in view that is to move by less than three pixels starts no slide.
pub proof fn tiny_moves_take_no_time(m: Motion, v: Move)
    requires
        v.animated,
        !v.rerender,
        !v.chase,
        v.visible,
        geometry::abs(v.target.0 - m.live.0) < 3,
        geometry::abs(v.target.1 - m.live.1) < 3,
    ensures
        !needs_clock(m, v),
        planned(m, v).chase_target is None,
        planned(m, v).slide is None || planned(m, v).slide == m.slide,
{
}

} // verus!
