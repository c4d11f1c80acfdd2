//! The candidate window as a whole: a frame from the caret to the screen, going out of view, and
//! the messages that the window gets.
//!
//! A frame is made in two steps. The first decides where the window is to be and whether it goes
//! there at once or over time. The second takes the steps of slides and changes of size, which
//! follow curves over time and are computed where the clock is.

use vstd::prelude::*;
use vstd::string::*;

use crate::drag::Drag;
use crate::geometry;
use crate::geometry::{abs_of, Rect};
use crate::json;
use crate::json::{add_member, merge_json, Json, Tree};
use crate::morph;
use crate::morph::{comments_begin, highlight_slides, Morph, Resize};
use crate::motion;
use crate::motion::{Motion, Move, Pair};
use crate::place;
use crate::place::{Frame, Placement};
use crate::skin;
use crate::text;
use crate::text::contains_part;
use crate::watch::cloaked_streak;

verus! {

/// How near an anchor must be to the last place for the window to be shown there at once.
pub const STICKY_NEAR: i64 = 24;

/// The candidate window.
#[derive(Clone, Copy, Debug)]
pub struct CandidateWindowV2 {
    pub place: Placement,
    pub motion: Motion,
    pub morph: Morph,
    /// The candidate that had the highlight in the last frame.
    pub highlight: Option<usize>,
    pub comments_expanded: bool,
    /// The frames in a row in which the window could not be seen.
    pub cloaked_streak: u32,
    /// When the window last went out of view.
    pub hidden_at: Option<u64>,
}

/// What a frame is made from.
#[derive(Clone, Copy, Debug)]
pub struct Show {
    /// The host may show the window.
    pub may_show: bool,
    /// The host is a table, whose anchors may be those of its edit line.
    pub table_host: bool,
    /// What the frame is placed by, with the anchor as the host gave it.
    pub frame: Frame,
    pub now: u64,
    /// The window was in view before this frame.
    pub visible: bool,
    /// The frame only draws a step of an animation.
    pub rerender: bool,
    /// The frame is drawn to be read back.
    pub readback: bool,
    /// The window chases the caret instead of sliding.
    pub chase: bool,
    /// Moves take time.
    pub move_timed: bool,
    /// Changes of size take time.
    pub size_timed: bool,
    /// The size that the window has at this moment.
    pub current: Pair,
    /// The size that it is to have.
    pub size: Pair,
    /// The width of what has been typed, for a chase that has nowhere to start from.
    pub typed_width: Option<i64>,
    /// The width of what has been typed, for an entrance, where there is to be one.
    pub entrance: Option<i64>,
    pub selected: usize,
    /// Moves of the highlight take time.
    pub highlight_timed: bool,
    /// The highlight was drawn before.
    pub highlight_drawn: bool,
    /// The milliseconds after which the remarks are shown.
    pub comment_delay: u32,
    /// The system keeps the window from being seen.
    pub cloaked: bool,
}

/// What a frame starts.
#[derive(Clone, Copy, Debug, PartialEq, Eq, Structural)]
pub struct Begun {
    /// The window is not to be shown: it is hidden at once.
    pub refused: bool,
    /// The clock of the animations must run.
    pub clock: bool,
    /// The clock of the remarks must run.
    pub comments_clock: bool,
    /// The highlight slides.
    pub highlight: bool,
    /// The window slides into view: its time counts from when it can be seen.
    pub entrance: bool,
    /// A time to hide the window that was set before counts no more.
    pub cancel_hide: bool,
}

impl Show {
    /// The sizes are ones that a window can have.
    pub open spec fn wf(self) -> bool {
        morph::fair(self.current) && morph::fair(self.size)
    }

    /// What the size changes by.
    pub open spec fn resize(self) -> Resize {
        Resize {
            rerender: self.rerender,
            readback: self.readback,
            visible: self.visible,
            enabled: self.size_timed,
            current: self.current,
            target: self.size,
        }
    }

    fn resize_of(&self) -> (r: Resize)
        ensures
            r == self.resize(),
    {
        Resize {
            rerender: self.rerender,
            readback: self.readback,
            visible: self.visible,
            enabled: self.size_timed,
            current: self.current,
            target: self.size,
        }
    }
}

/// What the clock of the animations brings for the window's place.
#[derive(Clone, Copy, Debug)]
pub struct Tick {
    /// The window is in view.
    pub visible: bool,
    /// Where the chase brings the window from and to, or nothing where it is at its target.
    pub chase: Option<(Pair, Pair)>,
    /// The step of the slide at this moment.
    pub slide: Pair,
    /// The highlight is on its way.
    pub highlight: bool,
}

impl Tick {
    /// Its points are on a desktop.
    pub open spec fn wf(self) -> bool {
        &&& self.chase matches Some((a, b)) ==> motion::near(a) && motion::near(b)
        &&& motion::near(self.slide)
    }
}

/// What a tick asks for.
#[derive(Clone, Copy, Debug)]
pub struct Ticked {
    /// The window is to be drawn anew.
    pub render: bool,
    /// Where the window is to be put.
    pub move_to: Option<Pair>,
    /// All animations are over: the clock is to be stopped.
    pub done: bool,
}

/// A place of the content as one of the window's corner.
pub open spec fn corner(p: (int, int), margin: int) -> Pair {
    ((p.0 - margin) as i64, (p.1 - margin) as i64)
}

impl CandidateWindowV2 {
    /// The parts are well-formed.
    pub open spec fn wf(self) -> bool {
        self.place.wf() && self.motion.wf()
    }

    /// A window that has not been shown.
    pub fn new() -> (r: CandidateWindowV2)
        ensures
            r.wf(),
            r.place == (Placement {
                sticky: None,
                sticky_drag: false,
                sticky_focus: 0,
                fresh: true,
                ylock_dir: 0,
                ylock_acc: 0,
                forward_hold: false,
                anchored: false,
                last_line_h: None,
            }),
            r.motion == (Motion { live: (0, 0), slide: None, chase_target: None }),
            r.morph == (Morph {
                anim: None,
                live: (0, 0),
                shell: None,
                content: (0, 0),
                last_render: 0,
            }),
            r.highlight is None,
            r.comments_expanded,
            r.cloaked_streak == 0,
            r.hidden_at is None,
    {
        CandidateWindowV2 {
            place: Placement::new(),
            motion: Motion::new(),
            morph: Morph::new(),
            highlight: None,
            comments_expanded: true,
            cloaked_streak: 0,
            hidden_at: None,
        }
    }

    /// Whether the window has been somewhere.
    pub fn has_sticky(&self) -> (r: bool)
        ensures
            r == self.place.sticky is Some,
    {
        self.place.sticky.is_some()
    }

    /// Whether a place is near to the window's last one.
    pub fn sticky_near(&self, x: i32, y: i32) -> (r: bool)
        requires
            self.wf(),
        ensures
            r == match self.place.sticky {
                Some((sx, sy)) => geometry::abs(x - sx) <= STICKY_NEAR && geometry::abs(y - sy)
                    <= STICKY_NEAR,
                None => false,
            },
    {
        match self.place.sticky {
            Some((sx, sy)) => abs_of(x as i64 - sx) <= STICKY_NEAR && abs_of(y as i64 - sy)
                <= STICKY_NEAR,
            None => false,
        }
    }

    /// The window's last place.
    pub fn sticky_xy(&self) -> (r: Option<(i64, i64)>)
        ensures
            r == self.place.sticky,
    {
        self.place.sticky
    }

    /// What the frame is placed by: the anchor that counts, and the time since the window went
    /// out of view.
    pub open spec fn gated_frame(self, s: Show) -> Frame {
        Frame {
            anchor: place::gated(self.place, s.table_host, s.frame.anchor),
            hidden_for: match self.hidden_at {
                Some(t) => Some(
                    if s.now > t {
                        (s.now - t) as u64
                    } else {
                        0
                    },
                ),
                None => None,
            },
            ..s.frame
        }
    }

    /// The memory of places once the anchor was looked at.
    pub open spec fn gated_place(self, s: Show) -> Placement {
        Placement {
            last_line_h: match s.frame.anchor {
                Some(a) => if !place::too_wide(s.table_host, a) && a.bottom - a.top >= 8 {
                    Some((a.bottom - a.top) as i64)
                } else {
                    self.place.last_line_h
                },
                None => self.place.last_line_h,
            },
            ..self.place
        }
    }

    /// What the window moves by: its corner goes to the place of the content, less the shadow;
    /// where it was, and how it came there, is what was so before this frame.
    pub open spec fn moved_by(self, d: Drag, s: Show) -> Move {
        let p = self.gated_place(s);
        Move {
            target: corner(place::place(p, d, self.gated_frame(s)), s.frame.margin as int),
            chase: s.chase,
            animated: s.move_timed,
            visible: s.visible,
            rerender: s.rerender,
            last: match self.place.sticky {
                Some((x, y)) => Some(corner((x as int, y as int), s.frame.margin as int)),
                None => None,
            },
            last_anchored: self.place.anchored,
            typed_width: s.typed_width,
            entrance: s.entrance,
        }
    }

    /// The window after the first step of a frame. A host that may not show it changes only what
    /// is known of its lines; while the window is dragged, the mouse alone moves and sizes it.
    pub open spec fn begun(self, d: Drag, s: Show) -> CandidateWindowV2 {
        let p = self.gated_place(s);
        if !s.may_show {
            CandidateWindowV2 { place: p, ..self }
        } else {
            CandidateWindowV2 {
                place: place::remembered(p, d, self.gated_frame(s)),
                motion: if d.grip is Some {
                    self.motion
                } else {
                    motion::planned(self.motion, self.moved_by(d, s))
                },
                morph: if s.rerender {
                    self.morph
                } else if morph::starts(s.resize()) {
                    Morph { anim: Some((s.current, s.size)), shell: Some(s.current), ..self.morph }
                } else {
                    Morph { anim: None, shell: None, ..self.morph }
                },
                highlight: if !s.rerender && s.highlight_timed {
                    Some(s.selected)
                } else {
                    self.highlight
                },
                comments_expanded: if s.visible {
                    self.comments_expanded
                } else {
                    s.comment_delay == 0
                },
                cloaked_streak: if !s.cloaked {
                    0
                } else if self.cloaked_streak < u32::MAX {
                    (self.cloaked_streak + 1) as u32
                } else {
                    u32::MAX
                },
                hidden_at: self.hidden_at,
            }
        }
    }

    /// What the first step of a frame starts.
    pub open spec fn starts(self, d: Drag, s: Show) -> Begun {
        if !s.may_show {
            Begun {
                refused: true,
                clock: false,
                comments_clock: false,
                highlight: false,
                entrance: false,
                cancel_hide: !s.rerender,
            }
        } else {
            let slides = !s.rerender && s.highlight_timed && s.visible && s.highlight_drawn && (
            self.highlight matches Some(p) && p != s.selected);
            Begun {
                refused: false,
                clock: slides || morph::starts(s.resize()) || (d.grip is None
                    && motion::needs_clock(self.motion, self.moved_by(d, s))),
                comments_clock: !self.begun(d, s).comments_expanded && s.comment_delay > 0
                    && !s.rerender,
                highlight: slides,
                entrance: d.grip is None && motion::enters(self.moved_by(d, s)),
                cancel_hide: !s.rerender,
            }
        }
    }

    /// The first step of a frame; see [`CandidateWindowV2::begun`] and
    /// [`CandidateWindowV2::starts`].
    #[verifier::rlimit(40)]
    pub fn show(&mut self, drag: &mut Drag, s: &Show) -> (r: (Begun, Move))
        requires
            old(self).wf(),
            old(drag).wf(),
            s.wf(),
        ensures
            *final(self) == old(self).begun(*old(drag), *s),
            r.0 == old(self).starts(*old(drag), *s),
            s.may_show ==> r.1 == old(self).moved_by(*old(drag), *s) && r.1.wf(),
            *final(drag) == if s.may_show {
                place::drag_after(*old(drag), old(self).gated_frame(*s))
            } else {
                *old(drag)
            },
            final(self).wf(),
            final(drag).wf(),
    {
        let last = match self.place.sticky {
            Some((x, y)) => Some((x - s.frame.margin as i64, y - s.frame.margin as i64)),
            None => None,
        };
        let last_anchored = self.place.anchored;
        let dragged = drag.grip.is_some();
        let hidden_for: Option<u64> = match self.hidden_at {
            Some(t) => Some(
                if s.now > t {
                    s.now - t
                } else {
                    0
                },
            ),
            None => None,
        };
        let ghost w = *self;
        let anchor = self.place.gate_anchor(s.table_host, s.frame.anchor);
        let mut v = Move {
            target: (0, 0),
            chase: s.chase,
            animated: s.move_timed,
            visible: s.visible,
            rerender: s.rerender,
            last,
            last_anchored,
            typed_width: s.typed_width,
            entrance: s.entrance,
        };
        if !s.may_show {
            let none = Begun {
                refused: true,
                clock: false,
                comments_clock: false,
                highlight: false,
                entrance: false,
                cancel_hide: !s.rerender,
            };
            return (none, v);
        }
        let comments_clock = comments_begin(
            &mut self.comments_expanded,
            s.visible,
            s.comment_delay,
            s.rerender,
        );
        let slides = highlight_slides(
            &mut self.highlight,
            s.selected,
            s.rerender,
            s.highlight_timed,
            s.visible,
            s.highlight_drawn,
        );
        let sizes = self.morph.begin(&s.resize_of());
        let f = Frame { anchor, hidden_for, ..s.frame };
        assert(f == w.gated_frame(*s));
        let (x, y) = self.place.place_frame(drag, &f);
        proof {
            let (px, py) = place::place(w.gated_place(*s), *old(drag), f);
            assert((x as int, y as int) == (px, py));
            assert(self.place.sticky == Some((x, y)));
        }
        self.cloaked_streak = cloaked_streak(self.cloaked_streak, s.cloaked);
        v.target = (x - s.frame.margin as i64, y - s.frame.margin as i64);
        assert(v == w.moved_by(*old(drag), *s));
        let moves = if dragged {
            false
        } else {
            self.motion.plan(&v)
        };
        assert(*self == w.begun(*old(drag), *s));
        let begun = Begun {
            refused: false,
            clock: slides || sizes || moves,
            comments_clock,
            highlight: slides,
            entrance: !dragged && v.is_entrance(),
            cancel_hide: !s.rerender,
        };
        (begun, v)
    }

    /// Where the window is at the end of a frame: where a chase has brought it, at this step of a
    /// slide, or where it is to be.
    pub open spec fn shown_at(self, v: Move, slide: Pair) -> Pair {
        if v.chase && self.motion.chase_target is Some && v.animated {
            self.motion.live
        } else if self.motion.slide is Some {
            slide
        } else {
            v.target
        }
    }

    /// How large the window is at the end of a frame.
    pub open spec fn shown_size(self, s: Show, size: Pair) -> Pair {
        if self.morph.anim is Some {
            (
                geometry::max(size.0 as int, s.size.0 as int) as i64,
                geometry::max(size.1 as int, s.size.1 as int) as i64,
            )
        } else {
            s.size
        }
    }

    /// The second step of a frame that is shown, with the steps of slide and size at this
    /// moment: where the window goes and how large it is. While it is dragged, it stays as it is.
    pub fn show_end(&mut self, dragged: bool, s: &Show, v: &Move, slide: Pair, size: Pair) -> (r:
        Option<(Pair, Pair)>)
        requires
            old(self).wf(),
            v.wf(),
            motion::near(slide),
        ensures
            if dragged {
                r is None && *final(self) == *old(self)
            } else {
                let at = old(self).shown_at(*v, slide);
                let large = old(self).shown_size(*s, size);
                &&& r == Some((at, large))
                &&& *final(self) == (CandidateWindowV2 {
                    motion: Motion { live: at, ..old(self).motion },
                    morph: Morph { live: large, content: s.size, ..old(self).morph },
                    ..*old(self)
                })
            },
            final(self).wf(),
    {
        if dragged {
            return None;
        }
        let large = self.morph.frame_size(size, s.size);
        let at = self.motion.shown_at(v, slide);
        Some((at, large))
    }

    /// Takes the window out of view. The window itself is hidden when the message to do so is
    /// handled; see [`CandidateWindowV2::hidden`]. Its last place stays.
    pub open spec fn going(self, now: u64) -> CandidateWindowV2 {
        CandidateWindowV2 {
            place: Placement { sticky_drag: false, ..self.place },
            motion: Motion { slide: None, chase_target: None, ..self.motion },
            hidden_at: Some(now),
            ..self
        }
    }

    /// Takes the window out of view at once; see [`CandidateWindowV2::going`].
    pub fn hide_now(&mut self, now: u64)
        requires
            old(self).wf(),
        ensures
            *final(self) == old(self).going(now),
            final(self).wf(),
    {
        self.motion.stop();
        self.hidden_at = Some(now);
        self.place.hide_now();
    }

    /// Takes the window out of view; that is done at once.
    pub fn hide_window(&mut self, now: u64)
        requires
            old(self).wf(),
        ensures
            *final(self) == old(self).going(now),
            final(self).wf(),
    {
        self.hide_now(now);
    }

    /// Takes a window out of view that has gone stale; that is done at once.
    pub fn hide_stale(&mut self, now: u64)
        requires
            old(self).wf(),
        ensures
            *final(self) == old(self).going(now),
            final(self).wf(),
    {
        self.hide_window(now);
    }

    /// Takes the window out of view unless it is in view: one that can be seen is not to flicker.
    /// Whether the message to hide it is to be sent.
    pub fn hide_suppress(&mut self, visible: bool, now: u64) -> (r: bool)
        requires
            old(self).wf(),
        ensures
            r == !visible,
            *final(self) == if visible {
                *old(self)
            } else {
                old(self).going(now)
            },
            final(self).wf(),
    {
        if visible {
            return false;
        }
        self.hide_now(now);
        true
    }

    /// The window has gone out of view: its moves and sizes are over. Its places, and what is
    /// known of how anchors move, stay for a session that comes soon.
    pub fn hidden(&mut self, now: u64)
        requires
            old(self).wf(),
        ensures
            *final(self) == (CandidateWindowV2 {
                motion: Motion { slide: None, chase_target: None, ..old(self).motion },
                morph: Morph { anim: None, shell: None, live: (0, 0), ..old(self).morph },
                hidden_at: Some(now),
                ..*old(self)
            }),
            final(self).wf(),
    {
        self.hidden_at = Some(now);
        self.morph.hide_window();
        self.motion.stop();
    }

    /// Another window has the keyboard: nothing is remembered.
    pub fn focus_reset(&mut self)
        requires
            old(self).wf(),
        ensures
            *final(self) == old(self).reset(),
            final(self).wf(),
    {
        self.place.focus_reset();
        self.motion.stop();
        self.cloaked_streak = 0;
        self.hidden_at = None;
    }

    /// The window once nothing is remembered.
    pub open spec fn reset(self) -> CandidateWindowV2 {
        CandidateWindowV2 {
            place: Placement {
                sticky: None,
                sticky_drag: false,
                ylock_dir: 0,
                ylock_acc: 0,
                fresh: true,
                ..self.place
            },
            motion: Motion { slide: None, chase_target: None, ..self.motion },
            cloaked_streak: 0,
            hidden_at: None,
            ..self
        }
    }

    /// The first half of a tick, for the size, at this step of its change: whether the change is
    /// over, and whether the window is to be drawn anew before the other half.
    pub open spec fn sized(self, visible: bool, size: Pair, now: u64, interval: u64) -> (
        CandidateWindowV2,
        (bool, bool),
    ) {
        let r = morph::stepped(self.morph, size, now, interval);
        (CandidateWindowV2 { morph: r.0, ..self }, (r.1.0, visible && r.1.1))
    }

    /// The first half of a tick; see [`CandidateWindowV2::sized`].
    pub fn size_tick(&mut self, visible: bool, size: Pair, now: u64, interval: u64) -> (r: (bool, bool))
        requires
            old(self).wf(),
        ensures
            (*final(self), r) == old(self).sized(visible, size, now, interval),
            final(self).wf(),
    {
        let (over, drawn) = self.morph.tick(size, now, interval);
        (over, visible && drawn)
    }

    /// The second half of a tick, for the place and the highlight, with whether the change of size
    /// is over: the window goes its step, by a chase or a slide, and the highlight is drawn anew
    /// while it is on its way.
    pub open spec fn ticked(self, size_over: bool, t: Tick) -> (CandidateWindowV2, Ticked) {
        let chase = motion::chased(self.motion, t.chase);
        let slide = motion::slid(chase.0, t.slide);
        (
            CandidateWindowV2 { motion: slide.0, ..self },
            Ticked {
                render: t.visible && t.highlight,
                move_to: if !t.visible {
                    None
                } else if slide.1.0 is Some {
                    slide.1.0
                } else {
                    chase.1.0
                },
                done: size_over && chase.1.1 && slide.1.1 && !t.highlight,
            },
        )
    }

    /// The second half of a tick; see [`CandidateWindowV2::ticked`].
    pub fn tick(&mut self, size_over: bool, t: &Tick) -> (r: Ticked)
        requires
            old(self).wf(),
            t.wf(),
        ensures
            (*final(self), r) == old(self).ticked(size_over, *t),
            final(self).wf(),
    {
        let (chase_to, chased) = self.motion.chase_tick(t.chase);
        let (slide_to, slid) = self.motion.slide_tick(t.slide);
        let move_to = if !t.visible {
            None
        } else if slide_to.is_some() {
            slide_to
        } else {
            chase_to
        };
        Ticked {
            render: t.visible && t.highlight,
            move_to,
            done: size_over && chased && slid && !t.highlight,
        }
    }

    /// The delay of the remarks is over: whether its clock is to be stopped, and whether a frame
    /// with the remarks is to be drawn. A window out of view, or one without a frame, draws none.
    pub fn expand(&mut self, visible: bool, has_frame: bool) -> (r: (bool, bool))
        ensures
            r.1 == (visible && has_frame && !old(self).comments_expanded),
            r.0 == (!visible || r.1),
            *final(self) == (CandidateWindowV2 {
                comments_expanded: old(self).comments_expanded || r.1,
                ..*old(self)
            }),
    {
        if !visible {
            return (true, false);
        }
        if has_frame && !self.comments_expanded {
            self.comments_expanded = true;
            return (true, true);
        }
        (false, false)
    }
}

/// Where the window goes next does not rest on where it was before another window got the
/// keyboard.
pub proof fn reset_forgets(a: CandidateWindowV2, b: CandidateWindowV2, d: Drag, f: Frame)
    requires
        a.reset().place.forward_hold == b.reset().place.forward_hold,
    ensures
        place::place(a.reset().place, d, f) == place::place(b.reset().place, d, f),
{
    let p = a.reset().place;
    let q = b.reset().place;
    let p1 = place::taken_over(p, d, f.margin as int);
    let q1 = place::taken_over(q, d, f.margin as int);
    assert(p1.sticky == q1.sticky);
    assert(p1.sticky_drag == q1.sticky_drag);
}

/// Going out of view forgets where the window was dropped, and not where it was.
pub proof fn hiding_keeps_place(w: CandidateWindowV2, now: u64)
    ensures
        w.going(now).place.sticky == w.place.sticky,
        !w.going(now).place.sticky_drag,
        w.going(now).motion.live == w.motion.live,
{
}

/// A frame with its anchor replaced.
pub open spec fn with_anchor(s: Show, a: Rect) -> Show {
    Show { frame: Frame { anchor: Some(a), ..s.frame }, ..s }
}

/// An anchor that is lower than a line puts the window where the whole line would: the frame is
/// placed, moved and drawn as one whose anchor reaches down by the height of the last line that
/// was seen.
pub proof fn low_anchor_is_filled(w: CandidateWindowV2, d: Drag, s: Show, a: Rect, lh: i64)
    requires
        8 <= lh,
        s.frame.anchor == Some(a),
        a.bottom - a.top < 8,
        !place::too_wide(s.table_host, a),
        w.place.last_line_h == Some(lh),
        a.top + lh <= i32::MAX,
    ensures
        ({
            let full = with_anchor(s, Rect { bottom: (a.top + lh) as i32, ..a });
            &&& w.gated_frame(s) == w.gated_frame(full)
            &&& place::place(w.gated_place(s), d, w.gated_frame(s)) == place::place(
                w.gated_place(full),
                d,
                w.gated_frame(full),
            )
            &&& w.moved_by(d, s) == w.moved_by(d, full)
            &&& w.begun(d, s) == w.begun(d, full)
            &&& w.starts(d, s) == w.starts(d, full)
        }),
{
    let full = with_anchor(s, Rect { bottom: (a.top + lh) as i32, ..a });
    assert(w.gated_place(s) == w.gated_place(full));
    assert(s.resize() == full.resize());
}

/// While no line was seen, an anchor that is lower than a line is taken as it is.
pub proof fn low_anchor_is_taken_at_first(w: CandidateWindowV2, s: Show, a: Rect)
    requires
        s.frame.anchor == Some(a),
        a.bottom - a.top < 8,
        !place::too_wide(s.table_host, a),
        w.place.last_line_h is None,
    ensures
        w.gated_frame(s).anchor == Some(a),
        w.gated_place(s) == w.place,
{
}

/// The height of a line is that of the last anchor that was as high as one: a frame with such an
/// anchor notes it, and one without keeps what was noted, as do going out of view and another
/// window's getting the keyboard.
pub proof fn line_height_is_noted(w: CandidateWindowV2, d: Drag, s: Show, now: u64)
    ensures
        w.begun(d, s).place.last_line_h == match s.frame.anchor {
            Some(a) => if !place::too_wide(s.table_host, a) && a.bottom - a.top >= 8 {
                Some((a.bottom - a.top) as i64)
            } else {
                w.place.last_line_h
            },
            None => w.place.last_line_h,
        },
        w.going(now).place.last_line_h == w.place.last_line_h,
        w.reset().place.last_line_h == w.place.last_line_h,
{
}

/// What comes to pass between two frames.
pub enum Passed {
    /// A frame is shown.
    Shown(Drag, Show),
    /// The window goes out of view.
    Gone(u64),
    /// Another window gets the keyboard.
    Reset,
}

/// The window after all this has come to pass.
pub open spec fn after(w: CandidateWindowV2, past: Seq<Passed>) -> CandidateWindowV2
    decreases past.len(),
{
    if past.len() == 0 {
        w
    } else {
        let before = after(w, past.drop_last());
        match past.last() {
            Passed::Shown(d, s) => before.begun(d, s),
            Passed::Gone(now) => before.going(now),
            Passed::Reset => before.reset(),
        }
    }
}

/// The height of a line that a frame tells: that of its anchor, where it is as high as a line.
pub open spec fn line_of(p: Passed) -> Option<int> {
    match p {
        Passed::Shown(_, s) => match s.frame.anchor {
            Some(a) => if !place::too_wide(s.table_host, a) && a.bottom - a.top >= 8 {
                Some(a.bottom - a.top)
            } else {
                None
            },
            None => None,
        },
        _ => None,
    }
}

/// The last frame that told of a line says how high a low anchor is taken to be: the window is
/// placed, moved and drawn as if the anchor reached down by the height of that line, whatever
/// came to pass since.
pub proof fn last_line_fills_low_anchor(
    w: CandidateWindowV2,
    past: Seq<Passed>,
    last: int,
    d: Drag,
    s: Show,
    a: Rect,
    lh: i64,
)
    requires
        0 <= last < past.len(),
        line_of(past[last]) == Some(lh as int),
        forall|i: int| last < i < past.len() ==> line_of(#[trigger] past[i]) is None,
        s.frame.anchor == Some(a),
        a.bottom - a.top < 8,
        !place::too_wide(s.table_host, a),
        a.top + lh <= i32::MAX,
    ensures
        ({
            let v = after(w, past);
            let full = with_anchor(s, Rect { bottom: (a.top + lh) as i32, ..a });
            &&& place::place(v.gated_place(s), d, v.gated_frame(s)) == place::place(
                v.gated_place(full),
                d,
                v.gated_frame(full),
            )
            &&& v.moved_by(d, s) == v.moved_by(d, full)
            &&& v.begun(d, s) == v.begun(d, full)
            &&& v.starts(d, s) == v.starts(d, full)
        }),
{
    last_line_stays(w, past, last, lh);
    low_anchor_is_filled(after(w, past), d, s, a, lh);
}

proof fn last_line_stays(w: CandidateWindowV2, past: Seq<Passed>, last: int, lh: i64)
    requires
        0 <= last < past.len(),
        line_of(past[last]) == Some(lh as int),
        forall|i: int| last < i < past.len() ==> line_of(#[trigger] past[i]) is None,
    ensures
        after(w, past).place.last_line_h == Some(lh),
    decreases past.len(),
{
    if last < past.len() - 1 {
        let before = past.drop_last();
        assert forall|i: int| last < i < before.len() implies line_of(#[trigger] before[i]) is None by {
            assert(line_of(past[i]) is None);
        }
        last_line_stays(w, before, last, lh);
        assert(line_of(past[past.len() - 1]) is None);
    }
}

/// As long as no frame told of a line, a new window takes a low anchor as it is.
pub proof fn no_line_fills_nothing(w: CandidateWindowV2, past: Seq<Passed>, s: Show, a: Rect)
    requires
        w.place.last_line_h is None,
        forall|i: int| 0 <= i < past.len() ==> line_of(#[trigger] past[i]) is None,
        s.frame.anchor == Some(a),
        !place::too_wide(s.table_host, a),
    ensures
        after(w, past).place.last_line_h is None,
        after(w, past).gated_frame(s).anchor == Some(a),
    decreases past.len(),
{
    if past.len() > 0 {
        let before = past.drop_last();
        assert forall|i: int| 0 <= i < before.len() implies line_of(#[trigger] before[i]) is None by {
            assert(line_of(past[i]) is None);
        }
        no_line_fills_nothing(w, before, s, a);
        assert(line_of(past[past.len() - 1]) is None);
    }
}

/// A frame that is refused moves nothing.
pub proof fn refused_frame_moves_nothing(w: CandidateWindowV2, d: Drag, s: Show)
    requires
        !s.may_show,
    ensures
        w.begun(d, s).motion == w.motion,
        w.begun(d, s).morph == w.morph,
        w.begun(d, s).place.sticky == w.place.sticky,
{
}

/// A window that is not dragged and whose moves take no time is at the end of a frame where the
/// frame placed it, less the shadow, and in its full size.
pub proof fn untimed_frame_lands(w: CandidateWindowV2, d: Drag, s: Show, slide: Pair, size: Pair)
    requires
        s.may_show,
        !s.move_timed,
        !s.size_timed,
        !s.rerender,
        d.grip is None,
        w.motion.slide is None,
    ensures
        w.begun(d, s).shown_at(w.moved_by(d, s), slide) == corner(
            place::place(w.gated_place(s), d, w.gated_frame(s)),
            s.frame.margin as int,
        ),
        w.begun(d, s).shown_size(s, size) == s.size,
{
}

/// A frame that only draws a step of an animation changes nothing of the animations, and cancels
/// no time that was set to hide the window.
pub proof fn redraw_leaves_animations(w: CandidateWindowV2, d: Drag, s: Show)
    requires
        s.rerender,
    ensures
        w.begun(d, s).morph == w.morph,
        w.begun(d, s).motion == w.motion,
        w.begun(d, s).highlight == w.highlight,
        !w.starts(d, s).clock,
        !w.starts(d, s).cancel_hide,
{
}

/// When a tick says that all is over, with a frame drawn between its halves or not, nothing is on
/// its way any more, and the window is at the end of the slide or the chase that it was in.
pub proof fn done_is_at_rest(
    w: CandidateWindowV2,
    visible: bool,
    size: Pair,
    now: u64,
    interval: u64,
    d: Drag,
    s: Show,
    t: Tick,
)
    requires
        s.rerender,
    ensures
        ({
            let (w1, (over, _)) = w.sized(visible, size, now, interval);
            let w2 = w1.begun(d, s);
            &&& w1.ticked(over, t).1.done == w2.ticked(over, t).1.done
            &&& w2.ticked(over, t).1.done ==> {
                let r = w2.ticked(over, t).0;
                &&& r.morph.anim is None
                &&& r.motion.chase_target is None
                &&& r.motion.slide is None
                &&& w.motion.slide matches Some(x) ==> r.motion.live == x.to
                &&& w.motion.slide is None ==> (w.motion.chase_target matches Some(p)
                    ==> r.motion.live == p)
            }
        }),
{
    let (w1, _) = w.sized(visible, size, now, interval);
    redraw_leaves_animations(w1, d, s);
}

/// What a message asks for.
#[derive(Clone, Copy, Debug, PartialEq, Eq, Structural)]
pub enum Message {
    /// What lies under the mouse: the window's own area, all of it.
    HitTest,
    LeftDown,
    MouseMove,
    LeftUp,
    RightDown,
    Wheel,
    CaptureChanged,
    /// Nothing: the message goes no further.
    Swallow,
    /// Hide the window.
    HideWindow,
    /// A tick of the animations.
    AnimTick,
    /// The input method was switched.
    ImeSwitch,
    /// A key, straight from the keyboard; the message goes on.
    RawInput,
    /// Show the remarks.
    Expand,
    /// The time to hide the window has come: stop that clock and ask for it.
    HideLater,
    /// Look whether the input method is still in use.
    Watchdog,
    /// Nothing of ours: the message goes on.
    Other,
}

/// The message that hides the window.
pub const WM_APP_HIDE_CAND: u32 = 0x4948;

/// The message that the input method was switched.
pub const WM_APP_IME_SWITCH: u32 = 0x4953;

/// The message of the fast clock.
pub const WM_APP_ANIM: u32 = 0x4941;

/// The clock of the animations.
pub const FADE_TIMER_ID: usize = 0x4846_5550;

/// The clock of the remarks.
pub const EXPAND_TIMER_ID: usize = 0x4846_5551;

/// The clock that hides the window.
pub const HIDE_LATER_TIMER_ID: usize = 0x4846_5552;

/// The clock that looks whether the input method is still in use.
pub const IME_WATCHDOG_TIMER_ID: usize = 0x4846_5553;

/// The time from tick to tick of the animations, in milliseconds.
pub const FADE_TICK_MS: u32 = 5;

/// What a message asks for, by its number and its parameter.
pub open spec fn message(msg: u32, wparam: usize) -> Message {
    if msg == 0x84 {
        Message::HitTest
    } else if msg == 0x201 {
        Message::LeftDown
    } else if msg == 0x200 {
        Message::MouseMove
    } else if msg == 0x202 {
        Message::LeftUp
    } else if msg == 0x204 {
        Message::RightDown
    } else if msg == 0x20A {
        Message::Wheel
    } else if msg == 0x215 {
        Message::CaptureChanged
    } else if msg == 0x205 || msg == 0x207 || msg == 0x208 {
        Message::Swallow
    } else if msg == WM_APP_HIDE_CAND {
        Message::HideWindow
    } else if msg == WM_APP_ANIM || (msg == 0x113 && wparam == FADE_TIMER_ID) {
        Message::AnimTick
    } else if msg == WM_APP_IME_SWITCH {
        Message::ImeSwitch
    } else if msg == 0xFF {
        Message::RawInput
    } else if msg == 0x113 && wparam == EXPAND_TIMER_ID {
        Message::Expand
    } else if msg == 0x113 && wparam == HIDE_LATER_TIMER_ID {
        Message::HideLater
    } else if msg == 0x113 && wparam == IME_WATCHDOG_TIMER_ID {
        Message::Watchdog
    } else {
        Message::Other
    }
}

/// What a message asks for; see [`message`].
pub fn message_of(msg: u32, wparam: usize) -> (r: Message)
    ensures
        r == message(msg, wparam),
{
    if msg == 0x113 {
        if wparam == FADE_TIMER_ID {
            return Message::AnimTick;
        }
        if wparam == EXPAND_TIMER_ID {
            return Message::Expand;
        }
        if wparam == HIDE_LATER_TIMER_ID {
            return Message::HideLater;
        }
        if wparam == IME_WATCHDOG_TIMER_ID {
            return Message::Watchdog;
        }
        return Message::Other;
    }
    match msg {
        0x84 => Message::HitTest,
        0x201 => Message::LeftDown,
        0x200 => Message::MouseMove,
        0x202 => Message::LeftUp,
        0x204 => Message::RightDown,
        0x20A => Message::Wheel,
        0x215 => Message::CaptureChanged,
        0x205 => Message::Swallow,
        0x207 => Message::Swallow,
        0x208 => Message::Swallow,
        0x4948 => Message::HideWindow,
        0x4941 => Message::AnimTick,
        0x4953 => Message::ImeSwitch,
        0xFF => Message::RawInput,
        _ => Message::Other,
    }
}

/// What the window answers to a message that it dealt with: 1 where it is asked what lies under
/// the mouse, which is its own area, and 0 else. Nothing where the message goes on to the system,
/// which answers it.
pub fn answer_of(m: Message) -> (r: Option<i64>)
    ensures
        r == match m {
            Message::HitTest => Some(1i64),
            Message::RawInput => None,
            Message::Other => None,
            _ => Some(0i64),
        },
{
    match m {
        Message::HitTest => Some(1),
        Message::RawInput => None,
        Message::Other => None,
        _ => Some(0),
    }
}

/// Whether a window is a candidate window of this process, of any kind.
pub fn is_cand_window(class_name: &str, same_process: bool) -> (r: bool)
    ensures
        r == (text::has_part(class_name@, "HuFuCand"@) && same_process),
{
    contains_part(class_name, "HuFuCand") && same_process
}

/// Whether what is being typed is given up because the input method was switched: the window is
/// in view, and something is being typed.
pub fn switch_aborts(fires: bool, visible: bool, composing: bool, raw: &str) -> (r: bool)
    ensures
        r == (fires && visible && (composing || raw@.len() > 0)),
{
    fires && visible && (composing || raw.unicode_len() > 0)
}

/// What the watchdog does.
#[derive(Clone, Copy, Debug, PartialEq, Eq, Structural)]
pub enum WatchdogAct {
    /// Stops its clock.
    Stop,
    Nothing,
    /// Gives up what is being typed.
    Abort,
}

/// What the watchdog does, given whether the input method in use is known and then whether it is
/// this one.
pub fn watchdog(visible: bool, ours: Option<bool>) -> (r: WatchdogAct)
    ensures
        r == if !visible {
            WatchdogAct::Stop
        } else if ours == Some(false) {
            WatchdogAct::Abort
        } else {
            WatchdogAct::Nothing
        },
{
    if !visible {
        return WatchdogAct::Stop;
    }
    match ours {
        Some(false) => WatchdogAct::Abort,
        _ => WatchdogAct::Nothing,
    }
}

/// A request to change the size of the skin's font.
pub open spec fn font_delta_tree(delta: int) -> Tree {
    Tree::Object(map!["op"@ => Tree::Str("skin_font_delta"@), "delta"@ => Tree::Int(delta)])
}

/// A request to change the size of the skin's font.
pub fn font_delta_request(delta: i32) -> (r: Json)
    ensures
        r.tree() == font_delta_tree(delta as int),
{
    let mut m: Vec<(String, Json)> = Vec::new();
    add_member(&mut m, "op", Json::Str("skin_font_delta".to_owned()));
    add_member(&mut m, "delta", Json::Int(delta as i64));
    Json::Object(m)
}

/// What is set in a layout.
pub open spec fn font_tree(font: Tree, label: Option<Tree>) -> Tree {
    match label {
        Some(l) => Tree::Object(map!["font_point"@ => font, "label_font_point"@ => l]),
        None => Tree::Object(map!["font_point"@ => font]),
    }
}

/// Whether a size can be set in a layout: it is an object, or nothing that becomes one.
pub open spec fn open_to(l: Tree) -> bool {
    l is Object || l is Null
}

/// Whether a size of font can be set in a skin, or there is no layout to set it in.
pub open spec fn takes_font(t: Tree) -> bool {
    match skin::member2(t, "skin"@, "layout"@) {
        Some(l) => open_to(l),
        None => match t.member("layout"@) {
            Some(l) => open_to(l),
            None => true,
        },
    }
}

/// The skin with another size of font. A skin that the engine wrapped is changed inside; one
/// without a layout has none to set it in.
pub open spec fn with_font(t: Tree, font: Tree, label: Option<Tree>) -> Option<Tree> {
    let p = font_tree(font, label);
    if skin::member2(t, "skin"@, "layout"@) is Some {
        Some(json::merge(t, Tree::Object(map!["skin"@ => Tree::Object(map!["layout"@ => p])])))
    } else if t.member("layout"@) is Some {
        Some(json::merge(t, Tree::Object(map!["layout"@ => p])))
    } else {
        None
    }
}

fn is_open(j: &Json) -> (r: bool)
    ensures
        r == open_to(j.tree()),
{
    match j {
        Json::Object(_) => true,
        Json::Null => true,
        _ => false,
    }
}

/// The layout of a skin that the engine wrapped.
fn wrapped_layout(skin: &Json) -> (r: Option<&Json>)
    ensures
        json::tree_of(r) == skin::member2(skin.tree(), "skin"@, "layout"@),
{
    match skin.get("skin") {
        Some(s) => s.get("layout"),
        None => None,
    }
}

/// Whether a size of font can be set in a skin; see [`takes_font`].
pub fn can_patch_font(skin: &Json) -> (r: bool)
    ensures
        r == takes_font(skin.tree()),
{
    match wrapped_layout(skin) {
        Some(l) => is_open(l),
        None => match skin.get("layout") {
            Some(l) => is_open(l),
            None => true,
        },
    }
}

fn one_member(name: &str, value: Json) -> (r: Json)
    ensures
        r.tree() == Tree::Object(map![name@ => value.tree()]),
{
    let mut m: Vec<(String, Json)> = Vec::new();
    add_member(&mut m, name, value);
    Json::Object(m)
}

/// Sets another size of font, and of the labels where one is given, in a skin; whether there is
/// a layout to set it in. See [`with_font`].
pub fn patch_font(skin: &mut Json, font: Json, label: Option<Json>) -> (r: bool)
    requires
        takes_font(old(skin).tree()),
    ensures
        ({
            let l = match label {
                Some(x) => Some(x.tree()),
                None => None,
            };
            match with_font(old(skin).tree(), font.tree(), l) {
                Some(t) => r && final(skin).tree() == t,
                None => !r && *final(skin) == *old(skin),
            }
        }),
{
    let wrapped = wrapped_layout(skin).is_some();
    if !wrapped && skin.get("layout").is_none() {
        return false;
    }
    let mut m: Vec<(String, Json)> = Vec::new();
    add_member(&mut m, "font_point", font);
    if let Some(l) = label {
        add_member(&mut m, "label_font_point", l);
    }
    let layout = one_member("layout", Json::Object(m));
    if wrapped {
        let patch = one_member("skin", layout);
        merge_json(skin, &patch);
    } else {
        merge_json(skin, &layout);
    }
    true
}

/// The size that was set is the one that the layout tells.
pub proof fn font_reads_back(t: Tree, font: Tree, label: Option<Tree>)
    requires
        takes_font(t),
        with_font(t, font, label) is Some,
        !(font is Object),
    ensures
        skin::layout(with_font(t, font, label)->0, "font_point"@) == Some(font),
{
    reveal_strlit("font_point");
    reveal_strlit("label_font_point");
    reveal_strlit("skin");
    reveal_strlit("layout");
    let p = font_tree(font, label);
    assert("font_point"@.len() != "label_font_point"@.len());
    assert("skin"@.len() != "layout"@.len());
    assert(p.member("font_point"@) == Some(font));
    let wrapped = skin::member2(t, "skin"@, "layout"@);
    reveal_with_fuel(json::merge, 5);
    if wrapped is Some {
        let l = wrapped->0;
        let ml = json::merge(l, p);
        assert(ml.member("font_point"@) == Some(font));
        let a = Tree::Object(map!["layout"@ => p]);
        let s = t.member("skin"@)->0;
        let ms = json::merge(s, a);
        assert(ms.member("layout"@) == Some(ml));
        let b = Tree::Object(map!["skin"@ => a]);
        assert(json::merge(t, b).member("skin"@) == Some(ms));
        assert(forall|i: int|
            0 <= i < "font_point"@.len() ==> "font_point"@[i] != '/' && "font_point"@[i] != '~');
        skin::plain_key_names_member(json::merge(t, b), "layout"@, "font_point"@);
    } else {
        let l = t.member("layout"@)->0;
        let ml = json::merge(l, p);
        assert(ml.member("font_point"@) == Some(font));
        let a = Tree::Object(map!["layout"@ => p]);
        assert(json::merge(t, a).member("layout"@) == Some(ml));
        assert(json::merge(t, a).member("skin"@) == t.member("skin"@));
    }
}

/// The window moves to where its content is placed, less the shadow around it, and that place is
/// remembered. It comes from its last place, less the shadow too.
pub proof fn window_moves_to_its_place(w: CandidateWindowV2, d: Drag, s: Show)
    requires
        s.may_show,
        ({
            let (x, y) = place::place(w.gated_place(s), d, w.gated_frame(s));
            -0x4000_0000_0000 <= x <= 0x4000_0000_0000 && -0x4000_0000_0000 <= y <= 0x4000_0000_0000
        }),
        w.wf(),
    ensures
        ({
            let v = w.moved_by(d, s);
            let (x, y) = place::place(w.gated_place(s), d, w.gated_frame(s));
            &&& v.target.0 + s.frame.margin == x
            &&& v.target.1 + s.frame.margin == y
            &&& w.begun(d, s).place.sticky == Some((x as i64, y as i64))
            &&& w.place.sticky is None ==> v.last is None
            &&& w.place.sticky matches Some((sx, sy)) ==> (v.last matches Some(q) && q.0
                + s.frame.margin == sx && q.1 + s.frame.margin == sy)
            &&& v.visible == s.visible && v.animated == s.move_timed && v.rerender == s.rerender
                && v.chase == s.chase && v.last_anchored == w.place.anchored
        }),
{
}

/// A frame counts the time since the window went out of view, whatever else it is placed by.
pub proof fn time_out_of_view_counts(w: CandidateWindowV2, s: Show, then: u64)
    ensures
        then <= s.now ==> (w.going(then).gated_frame(s).hidden_for matches Some(t) && t == s.now
            - then),
        then > s.now ==> w.going(then).gated_frame(s).hidden_for == Some(0u64),
        w.reset().gated_frame(s).hidden_for is None,
        w.gated_frame(s).width == s.frame.width,
        w.gated_frame(s).height == s.frame.height,
        w.gated_frame(s).desk == s.frame.desk,
        w.gated_frame(s).margin == s.frame.margin,
        s.frame.anchor is None ==> w.gated_frame(s).anchor is None,
{
}

/// The size changes over time where the window is in view and one of its sides changes by more
/// than fourteen pixels: the change starts from the size that the window has and ends in the one
/// that it is to have. Every other frame ends the change that went before.
pub proof fn large_change_of_size_takes_time(w: CandidateWindowV2, d: Drag, s: Show)
    requires
        s.may_show,
        !s.rerender,
        s.current.0 > 4,
        s.current.1 > 4,
    ensures
        ({
            let n = w.begun(d, s).morph;
            let large = s.size.0 > s.current.0 + 14 || s.size.0 < s.current.0 - 14 || s.size.1
                > s.current.1 + 14 || s.size.1 < s.current.1 - 14;
            &&& s.visible && s.size_timed && !s.readback && large ==> n.anim == Some((s.current, s.size))
                && n.shell == Some(s.current) && w.starts(d, s).clock
            &&& !(s.visible && s.size_timed && !s.readback && large) ==> n.anim is None
                && n.shell is None
        }),
{
}

/// The highlight is noted with each frame, and slides when the next frame has it elsewhere.
pub proof fn highlight_slides_to_selection(
    w: CandidateWindowV2,
    d: Drag,
    s: Show,
    d2: Drag,
    s2: Show,
)
    requires
        s.may_show,
        !s.rerender,
        s.highlight_timed,
        s2.may_show,
        !s2.rerender,
        s2.highlight_timed,
        s2.visible,
        s2.highlight_drawn,
    ensures
        w.begun(d, s).starts(d2, s2).highlight <==> s2.selected != s.selected,
        w.begun(d, s).starts(d2, s2).highlight ==> w.begun(d, s).starts(d2, s2).clock,
        w.begun(d, s).highlight == Some(s.selected),
{
}

/// The highlight of a window that comes into view, or that was not drawn, does not slide.
pub proof fn first_highlight_stands(w: CandidateWindowV2, d: Drag, s: Show)
    requires
        !s.visible || !s.highlight_drawn || !s.highlight_timed || s.rerender || w.highlight is None,
    ensures
        !w.starts(d, s).highlight,
{
}

/// A window that comes into view shows its remarks at once where there is no delay; else it waits
/// for them, and their clock runs. In view it keeps them as they are.
pub proof fn remarks_wait(w: CandidateWindowV2, d: Drag, s: Show)
    requires
        s.may_show,
    ensures
        !s.visible && s.comment_delay == 0 ==> w.begun(d, s).comments_expanded && !w.starts(
            d,
            s,
        ).comments_clock,
        !s.visible && s.comment_delay > 0 ==> !w.begun(d, s).comments_expanded && (w.starts(
            d,
            s,
        ).comments_clock <==> !s.rerender),
        s.visible ==> w.begun(d, s).comments_expanded == w.comments_expanded,
{
}

/// The frames in a row in which the window could not be seen are counted; one in which it could
/// ends them.
pub proof fn unseen_frames_are_counted(w: CandidateWindowV2, d: Drag, s: Show)
    requires
        s.may_show,
    ensures
        !s.cloaked ==> w.begun(d, s).cloaked_streak == 0,
        s.cloaked && w.cloaked_streak < u32::MAX ==> w.begun(d, s).cloaked_streak == w.cloaked_streak
            + 1,
        s.cloaked && w.cloaked_streak == u32::MAX ==> w.begun(d, s).cloaked_streak == u32::MAX,
        w.reset().cloaked_streak == 0,
{
}

/// A frame that the host may show is not refused, and one that it may not show is.
pub proof fn only_the_host_refuses(w: CandidateWindowV2, d: Drag, s: Show)
    ensures
        w.starts(d, s).refused <==> !s.may_show,
        w.starts(d, s).cancel_hide <==> !s.rerender,
        !s.may_show ==> !w.starts(d, s).clock && !w.starts(d, s).entrance,
{
}

/// While the window is dragged no frame moves it, and none makes it slide into view.
pub proof fn dragged_window_is_left_alone(w: CandidateWindowV2, d: Drag, s: Show)
    requires
        d.grip is Some,
    ensures
        w.begun(d, s).motion == w.motion,
        !w.starts(d, s).entrance,
{
}

/// A window that is not in an animation is at the end of a frame where the frame placed it; one
/// that slides is at the step of the slide; one that chases is where the chase has brought it.
/// While its size changes it is drawn neither smaller than its content nor smaller than the step.
pub proof fn frame_ends_at_its_step(w: CandidateWindowV2, s: Show, v: Move, slide: Pair, size: Pair)
    ensures
        w.motion.slide is None && w.motion.chase_target is None ==> w.shown_at(v, slide) == v.target,
        w.motion.slide is Some && w.motion.chase_target is None ==> w.shown_at(v, slide) == slide,
        v.chase && v.animated && w.motion.chase_target is Some ==> w.shown_at(v, slide) == w.motion.live,
        w.morph.anim is None ==> w.shown_size(s, size) == s.size,
        w.morph.anim is Some ==> {
            let r = w.shown_size(s, size);
            &&& r.0 >= s.size.0 && r.1 >= s.size.1 && r.0 >= size.0 && r.1 >= size.1
            &&& (r.0 == s.size.0 || r.0 == size.0) && (r.1 == s.size.1 || r.1 == size.1)
        },
{
}

/// Going out of view ends what is on its way and is noted with its time; that another window has
/// the keyboard ends it too, and nothing is known of any place then.
pub proof fn going_ends_moves(w: CandidateWindowV2, now: u64)
    ensures
        w.going(now).motion.slide is None,
        w.going(now).motion.chase_target is None,
        w.going(now).hidden_at == Some(now),
        w.going(now).morph == w.morph,
        w.going(now).highlight == w.highlight,
        w.reset().motion.slide is None,
        w.reset().motion.chase_target is None,
        w.reset().hidden_at is None,
        w.reset().place.sticky is None,
        w.reset().place.fresh,
        !w.reset().place.sticky_drag,
{
}

/// A tick brings a window that slides, and is in view, to the step of its slide, and to its end
/// when the step is within two pixels of it. As long as anything is on its way the clock runs on.
pub proof fn tick_brings_window_on(w: CandidateWindowV2, over: bool, t: Tick, to: Pair)
    requires
        w.motion.chase_target is None,
        w.motion.slide matches Some(x) && x.to == to,
    ensures
        ({
            let (n, r) = w.ticked(over, t);
            let there = geometry::abs(to.0 - t.slide.0) <= 2 && geometry::abs(to.1 - t.slide.1) <= 2;
            &&& there ==> n.motion.live == to && n.motion.slide is None
            &&& !there ==> n.motion.live == t.slide && n.motion.slide == w.motion.slide && !r.done
            &&& r.done <==> there && over && !t.highlight
            &&& r.move_to matches Some(q) ==> t.visible && q == n.motion.live
            &&& t.visible && n.motion.live != w.motion.live ==> r.move_to is Some
            &&& r.render <==> t.visible && t.highlight
        }),
{
}

/// A tick brings a window that chases the caret, and is in view, to where the chase brings it, and
/// the chase ends where it is drawn to.
pub proof fn tick_brings_chase_on(w: CandidateWindowV2, over: bool, t: Tick, to: Pair)
    requires
        w.motion.slide is None,
        w.motion.chase_target == Some(to),
    ensures
        ({
            let (n, r) = w.ticked(over, t);
            &&& t.chase is None ==> n.motion.live == to && n.motion.chase_target is None && (t.visible
                ==> r.move_to == Some(to))
            &&& t.chase matches Some((a, b)) ==> n.motion.live == b && n.motion.chase_target == Some(to)
                && !r.done && (t.visible && a != b ==> r.move_to == Some(b))
            &&& r.done <==> t.chase is None && over && !t.highlight
            &&& !t.visible ==> r.move_to is None
        }),
{
}

/// A step of the size is drawn only while the window is in view.
pub proof fn unseen_size_is_not_drawn(
    w: CandidateWindowV2,
    size: Pair,
    now: u64,
    interval: u64,
)
    ensures
        !w.sized(false, size, now, interval).1.1,
        w.sized(false, size, now, interval).0 == w.sized(true, size, now, interval).0,
        w.morph.anim is None ==> w.sized(true, size, now, interval) == (w, (true, false)),
        w.morph.anim matches Some((from, to)) ==> {
            let (n, (over, drawn)) = w.sized(true, size, now, interval);
            &&& n.morph.live == size
            &&& over <==> size == to
            &&& over ==> drawn && n.morph.anim is None
            &&& n.motion == w.motion && n.place == w.place
        },
{
}

/// The buttons of the mouse, its wheel and its moves are told apart; the middle button, and the
/// right one when it goes up, do nothing. A clock is known by its number, and is no other message.
pub proof fn messages_are_told_apart(msg: u32, wparam: usize)
    ensures
        message(msg, wparam) is HitTest <==> msg == 0x84,
        message(msg, wparam) is MouseMove <==> msg == 0x200,
        message(msg, wparam) is LeftDown <==> msg == 0x201,
        message(msg, wparam) is LeftUp <==> msg == 0x202,
        message(msg, wparam) is RightDown <==> msg == 0x204,
        message(msg, wparam) is Wheel <==> msg == 0x20A,
        message(msg, wparam) is CaptureChanged <==> msg == 0x215,
        message(msg, wparam) is Swallow <==> msg == 0x205 || msg == 0x207 || msg == 0x208,
        message(msg, wparam) is RawInput <==> msg == 0xFF,
        message(msg, wparam) is HideWindow <==> msg == 0x4948,
        message(msg, wparam) is ImeSwitch <==> msg == 0x4953,
        message(msg, wparam) is AnimTick <==> msg == 0x4941 || (msg == 0x113 && wparam == 0x4846_5550),
        message(msg, wparam) is Expand <==> msg == 0x113 && wparam == 0x4846_5551,
        message(msg, wparam) is HideLater <==> msg == 0x113 && wparam == 0x4846_5552,
        message(msg, wparam) is Watchdog <==> msg == 0x113 && wparam == 0x4846_5553,
{
}

/// A request to change the size of the font says so, and by how much.
pub proof fn font_request_says_how_much(delta: int)
    ensures
        font_delta_tree(delta).member("op"@) == Some(Tree::Str("skin_font_delta"@)),
        font_delta_tree(delta).member("delta"@) == Some(Tree::Int(delta)),
{
    reveal_strlit("op");
    reveal_strlit("delta");
    assert("op"@.len() != "delta"@.len());
}

/// The size of the labels that was set is the one that the layout tells, and everything else that
/// the layout told it still tells. A skin has to have a layout, wrapped or bare, for a size to be
/// set in it.
pub proof fn font_leaves_rest(t: Tree, font: Tree, label: Option<Tree>, key: Seq<char>)
    requires
        takes_font(t),
        forall|i: int| 0 <= i < key.len() ==> key[i] != '/' && key[i] != '~',
    ensures
        with_font(t, font, label) is None <==> skin::member2(t, "skin"@, "layout"@) is None && t.member(
            "layout"@,
        ) is None,
        with_font(t, font, label) is Some && key == "label_font_point"@ && (label matches Some(l) && !(
        l is Object)) ==> skin::layout(with_font(t, font, label)->0, key) == label,
        with_font(t, font, label) is Some && key != "font_point"@ && (key != "label_font_point"@
            || label is None) ==> skin::layout(with_font(t, font, label)->0, key) == skin::layout(t, key),
{
    reveal_strlit("font_point");
    reveal_strlit("label_font_point");
    reveal_strlit("skin");
    reveal_strlit("layout");
    let p = font_tree(font, label);
    assert("font_point"@.len() != "label_font_point"@.len());
    assert("skin"@.len() != "layout"@.len());
    let set = key == "label_font_point"@ && label is Some;
    if set {
        assert(p.member(key) == label);
    } else if key != "font_point"@ {
        assert(p.member(key) is None);
    }
    let wrapped = skin::member2(t, "skin"@, "layout"@);
    reveal_with_fuel(json::merge, 5);
    if with_font(t, font, label) is Some {
        if wrapped is Some {
            let l = wrapped->0;
            let ml = json::merge(l, p);
            let a = Tree::Object(map!["layout"@ => p]);
            let s = t.member("skin"@)->0;
            let ms = json::merge(s, a);
            assert(ms.member("layout"@) == Some(ml));
            let b = Tree::Object(map!["skin"@ => a]);
            assert(json::merge(t, b).member("skin"@) == Some(ms));
            assert(json::merge(t, b).member("layout"@) == t.member("layout"@));
            skin::plain_key_names_member(json::merge(t, b), "layout"@, key);
            skin::plain_key_names_member(t, "layout"@, key);
        } else {
            let l = t.member("layout"@)->0;
            let ml = json::merge(l, p);
            let a = Tree::Object(map!["layout"@ => p]);
            assert(json::merge(t, a).member("layout"@) == Some(ml));
            assert(json::merge(t, a).member("skin"@) == t.member("skin"@));
        }
    }
}

} // verus!
