//! The mouse on the candidate window: dragging pins the window where it is dropped, a right
//! click lets it follow the caret again.

use vstd::prelude::*;

use crate::geometry;
use crate::geometry::{abs_of, max_of, Desk, Rect};

verus! {

/// How far the mouse may move with the button down before the window is dragged.
pub const DEAD_ZONE: i64 = 4;

/// What the mouse has done to the window.
#[derive(Clone, Copy, Debug)]
pub struct Drag {
    /// Where the left button went down, while it is down.
    pub down: Option<(i32, i32)>,
    /// The way from the window's corner to the mouse, while the window is dragged.
    pub grip: Option<(i64, i64)>,
    /// The window was dragged since the button went down.
    pub dragged_once: bool,
    /// Where the window was dropped, until the next frame takes it.
    pub drop_at: Option<(i32, i32)>,
    /// Where the window is pinned.
    pub pinned: Option<(i32, i32)>,
    /// The window was unpinned, until the next frame takes note of it.
    pub unstick: bool,
}

impl Drag {
    /// The grip is one that a window and a mouse on the desktop can give.
    pub open spec fn wf(self) -> bool {
        match self.grip {
            Some((dx, dy)) => -0x1_0000_0000 <= dx <= 0x1_0000_0000 && -0x1_0000_0000 <= dy
                <= 0x1_0000_0000,
            None => true,
        }
    }

    /// No button down, nothing pinned.
    pub fn new() -> (r: Drag)
        ensures
            r == (Drag {
                down: None,
                grip: None,
                dragged_once: false,
                drop_at: None,
                pinned: None,
                unstick: false,
            }),
            r.wf(),
    {
        Drag {
            down: None,
            grip: None,
            dragged_once: false,
            drop_at: None,
            pinned: None,
            unstick: false,
        }
    }

    /// Whether the window is being dragged.
    pub fn dragging(&self) -> (r: bool)
        ensures
            r == self.grip is Some,
    {
        self.grip.is_some()
    }

    /// The state once the left button went down at `at`: a new press, of which nothing was
    /// dragged yet.
    pub open spec fn pressed(self, at: (i32, i32)) -> Drag {
        Drag { down: Some(at), grip: None, dragged_once: false, ..self }
    }

    /// The left button goes down: the place is noted, and the mouse is captured. A drag whose
    /// end was never told is over.
    pub fn left_down(&mut self, at: (i32, i32))
        requires
            old(self).wf(),
        ensures
            *final(self) == old(self).pressed(at),
            final(self).wf(),
    {
        self.down = Some(at);
        self.grip = None;
        self.dragged_once = false;
    }

    /// Whether a move to `at` starts to drag: the button is down, and the mouse has left the
    /// dead zone round the place where it went down.
    pub open spec fn starts(self, at: (i32, i32)) -> bool {
        match self.down {
            Some(s) => geometry::abs(at.0 - s.0) > DEAD_ZONE || geometry::abs(at.1 - s.1) > DEAD_ZONE,
            None => false,
        }
    }

    /// The state after a move of the mouse to `at`, with the window at `win`.
    pub open spec fn moved(self, at: (i32, i32), win: Rect) -> Drag {
        if self.grip is None && self.starts(at) {
            Drag {
                grip: Some(((at.0 - win.left) as i64, (at.1 - win.top) as i64)),
                dragged_once: true,
                ..self
            }
        } else {
            self
        }
    }

    /// Where the window goes when the mouse moves to `at`: the place under the grip, kept on
    /// the desktop.
    pub open spec fn dragged_to(self, at: (i32, i32), win: Rect, desk: Desk) -> Option<(int, int)> {
        match self.moved(at, win).grip {
            Some((dx, dy)) => Some(
                (
                    desk.keep_x(at.0 - dx, geometry::max(win.right - win.left, 1)),
                    desk.keep_y(at.1 - dy, geometry::max(win.bottom - win.top, 1)),
                ),
            ),
            None => None,
        }
    }

    /// The mouse moves: where the window goes, if it is dragged.
    pub fn mouse_move(&mut self, at: (i32, i32), win: Rect, desk: Desk) -> (r: Option<(i64, i64)>)
        requires
            old(self).wf(),
        ensures
            *final(self) == old(self).moved(at, win),
            final(self).wf(),
            match r {
                Some((x, y)) => old(self).dragged_to(at, win, desk) == Some((x as int, y as int)),
                None => old(self).dragged_to(at, win, desk) is None,
            },
    {
        if self.grip.is_none() {
            match self.down {
                Some(s) => {
                    if abs_of(at.0 as i64 - s.0 as i64) <= DEAD_ZONE && abs_of(
                        at.1 as i64 - s.1 as i64,
                    ) <= DEAD_ZONE {
                        return None;
                    }
                },
                None => {
                    return None;
                },
            }
            self.grip = Some((at.0 as i64 - win.left as i64, at.1 as i64 - win.top as i64));
            self.dragged_once = true;
        }
        match self.grip {
            Some((dx, dy)) => {
                let w: i64 = max_of(win.right as i64 - win.left as i64, 1);
                let h: i64 = max_of(win.bottom as i64 - win.top as i64, 1);
                Some((desk.clamp_x(at.0 as i64 - dx, w), desk.clamp_y(at.1 as i64 - dy, h)))
            },
            None => None,
        }
    }

    /// Whether the window was dragged since the button went down.
    pub open spec fn was_dragged(self) -> bool {
        self.grip is Some || self.dragged_once
    }

    /// The state once the left button went up, with the window at `win`: where the window was
    /// dragged since the button went down, it is pinned where it is.
    pub open spec fn released(self, win: Rect) -> Drag {
        let up = Drag { down: None, grip: None, dragged_once: false, ..self };
        if self.was_dragged() {
            Drag {
                drop_at: Some((win.left, win.top)),
                pinned: Some((win.left, win.top)),
                ..up
            }
        } else {
            up
        }
    }

    /// The left button goes up, with the window at `win`. If the window was dragged since the
    /// button went down, it is pinned where it is: whether it was.
    pub fn left_up(&mut self, win: Rect) -> (r: bool)
        requires
            old(self).wf(),
        ensures
            r == old(self).was_dragged(),
            *final(self) == old(self).released(win),
            final(self).wf(),
    {
        self.down = None;
        let dragged = self.grip.is_some() || self.dragged_once;
        self.grip = None;
        self.dragged_once = false;
        if dragged {
            self.drop_at = Some((win.left, win.top));
            self.pinned = Some((win.left, win.top));
        }
        dragged
    }

    /// The state once the right button went down: a pinned window is let go.
    pub open spec fn let_go(self) -> Drag {
        if self.pinned is Some {
            Drag { pinned: None, drop_at: None, unstick: true, ..self }
        } else {
            self
        }
    }

    /// The right button goes down: a pinned window is let go. Whether it was pinned.
    pub fn right_down(&mut self) -> (r: bool)
        requires
            old(self).wf(),
        ensures
            r == old(self).pinned is Some,
            *final(self) == old(self).let_go(),
            final(self).wf(),
    {
        if self.pinned.is_some() {
            self.pinned = None;
            self.drop_at = None;
            self.unstick = true;
            true
        } else {
            false
        }
    }

    /// The state once the capture of the mouse was taken away: while the button is down the drag
    /// goes on, else it is over.
    pub open spec fn uncaptured(self) -> Drag {
        if self.down is Some {
            self
        } else {
            Drag { grip: None, ..self }
        }
    }

    /// The capture of the mouse is taken away. While the button is down it is to be taken
    /// back, and the drag goes on; else the drag is over. Whether to take it back.
    pub fn capture_changed(&mut self) -> (r: bool)
        requires
            old(self).wf(),
        ensures
            r == old(self).down is Some,
            *final(self) == old(self).uncaptured(),
            final(self).wf(),
    {
        if self.down.is_some() {
            true
        } else {
            self.grip = None;
            false
        }
    }
}

/// The grip, where there is one.
pub open spec fn grip_of(d: Drag) -> (i64, i64) {
    d.grip->0
}

/// The place, where there is one.
pub open spec fn place_of(p: Option<(int, int)>) -> (int, int) {
    p->0
}

/// The state after a run of moves, each with where the window was then.
pub open spec fn moved_over(d: Drag, moves: Seq<((i32, i32), Rect)>) -> Drag
    decreases moves.len(),
{
    if moves.len() == 0 {
        d
    } else {
        moved_over(d, moves.drop_last()).moved(moves.last().0, moves.last().1)
    }
}

/// Whether a place lies in the dead zone round the place where the button went down.
pub open spec fn in_dead_zone(down: (i32, i32), at: (i32, i32)) -> bool {
    geometry::abs(at.0 - down.0) <= DEAD_ZONE && geometry::abs(at.1 - down.1) <= DEAD_ZONE
}

/// Pressing, moving about without leaving the dead zone, and letting go is a click, whatever came
/// before it: it moves the window nowhere and changes nothing about where the window is pinned.
pub proof fn click_does_not_pin(
    d: Drag,
    down: (i32, i32),
    moves: Seq<((i32, i32), Rect)>,
    win: Rect,
    desk: Desk,
)
    requires
        forall|i: int| 0 <= i < moves.len() ==> in_dead_zone(down, (#[trigger] moves[i]).0),
    ensures
        forall|i: int|
            0 <= i < moves.len() ==> moved_over(d.pressed(down), #[trigger] moves.take(i)).dragged_to(
                moves[i].0,
                moves[i].1,
                desk,
            ) is None,
        !moved_over(d.pressed(down), moves).was_dragged(),
        moved_over(d.pressed(down), moves).released(win) == (Drag {
            down: None,
            grip: None,
            dragged_once: false,
            ..d
        }),
{
    moves_in_zone_change_nothing(d.pressed(down), down, moves);
    assert forall|i: int| 0 <= i < moves.len() implies moved_over(
        d.pressed(down),
        #[trigger] moves.take(i),
    ).dragged_to(moves[i].0, moves[i].1, desk) is None by {
        moves_in_zone_change_nothing(d.pressed(down), down, moves.take(i));
        assert(in_dead_zone(down, moves[i].0));
    }
}

proof fn moves_in_zone_change_nothing(
    d: Drag,
    down: (i32, i32),
    moves: Seq<((i32, i32), Rect)>,
)
    requires
        d.down == Some(down),
        forall|i: int| 0 <= i < moves.len() ==> in_dead_zone(down, (#[trigger] moves[i]).0),
    ensures
        moved_over(d, moves) == d,
    decreases moves.len(),
{
    if moves.len() > 0 {
        moves_in_zone_change_nothing(d, down, moves.drop_last());
        assert(in_dead_zone(down, moves[moves.len() - 1].0));
    }
}

/// A move out of the dead zone while the button is down makes the press a drag, whatever moves
/// come before and behind it: letting go pins the window where it is, and a right click then lets
/// it follow the caret again.
pub proof fn drag_pins_until_right_click(
    d: Drag,
    down: (i32, i32),
    moves: Seq<((i32, i32), Rect)>,
    out: int,
    win: Rect,
)
    requires
        0 <= out < moves.len(),
        !in_dead_zone(down, moves[out].0),
    ensures
        ({
            let dropped = moved_over(d.pressed(down), moves).released(win);
            &&& moved_over(d.pressed(down), moves).was_dragged()
            &&& dropped.pinned == Some((win.left, win.top))
            &&& dropped.drop_at == Some((win.left, win.top))
            &&& dropped.let_go().pinned is None
            &&& dropped.let_go().drop_at is None
            &&& dropped.let_go().unstick
        }),
{
    leaving_zone_drags(d.pressed(down), down, moves, out);
}

/// Once the button is up, the mouse is given back for good: the change of capture that this brings
/// with it finds no button down, so the mouse is not captured again, and changes nothing.
pub proof fn release_gives_mouse_back(d: Drag, win: Rect)
    ensures
        d.released(win).down is None,
        d.released(win).uncaptured() == d.released(win),
{
}

proof fn leaving_zone_drags(
    d: Drag,
    down: (i32, i32),
    moves: Seq<((i32, i32), Rect)>,
    out: int,
)
    requires
        d.down == Some(down),
        0 <= out < moves.len(),
        !in_dead_zone(down, moves[out].0),
    ensures
        moved_over(d, moves).grip is Some,
    decreases moves.len(),
{
    moves_keep_button(d, moves.drop_last());
    if out < moves.len() - 1 {
        leaving_zone_drags(d, down, moves.drop_last(), out);
    }
}

proof fn moves_keep_button(d: Drag, moves: Seq<((i32, i32), Rect)>)
    ensures
        moved_over(d, moves).down == d.down,
    decreases moves.len(),
{
    if moves.len() > 0 {
        moves_keep_button(d, moves.drop_last());
    }
}

/// A window that is being dragged stays under the mouse by the point at which it was gripped,
/// wherever the desktop leaves room for it.
pub proof fn grip_is_kept(d: Drag, at: (i32, i32), win: Rect, desk: Desk)
    requires
        d.moved(at, win).grip is Some,
        desk.x <= at.0 - grip_of(d.moved(at, win)).0 <= desk.x + desk.w - geometry::max(
            win.right - win.left,
            1,
        ),
    ensures
        place_of(d.dragged_to(at, win, desk)).0 == at.0 - grip_of(d.moved(at, win)).0,
{
}

/// Where a dragged window goes is on the desktop.
pub proof fn dragged_stays_on_desk(d: Drag, at: (i32, i32), win: Rect, desk: Desk)
    requires
        d.dragged_to(at, win, desk) is Some,
    ensures
        desk.x <= place_of(d.dragged_to(at, win, desk)).0,
        desk.y <= place_of(d.dragged_to(at, win, desk)).1,
        0 < win.right - win.left <= desk.w ==> place_of(d.dragged_to(at, win, desk)).0 + (win.right
            - win.left) <= desk.x + desk.w,
        0 < win.bottom - win.top <= desk.h ==> place_of(d.dragged_to(at, win, desk)).1 + (win.bottom
            - win.top) <= desk.y + desk.h,
{
}

/// A drag starts where the window is: the first move of it leaves the window in its place, wherever
/// that is on the desktop.
pub proof fn drag_starts_in_place(d: Drag, down: (i32, i32), at: (i32, i32), win: Rect, desk: Desk)
    requires
        d.down == Some(down),
        d.grip is None,
        !in_dead_zone(down, at),
        win.left < win.right,
        win.top < win.bottom,
        desk.x <= win.left,
        win.right <= desk.x + desk.w,
        desk.y <= win.top,
        win.bottom <= desk.y + desk.h,
    ensures
        d.dragged_to(at, win, desk) == Some((win.left as int, win.top as int)),
        d.moved(at, win).dragged_once,
{
}

/// A dragged window goes as far as the mouse does, in both directions.
pub proof fn window_goes_with_mouse(
    d: Drag,
    a: (i32, i32),
    b: (i32, i32),
    win: Rect,
    then: Rect,
    desk: Desk,
)
    requires
        d.grip is Some,
        win.left < win.right,
        win.top < win.bottom,
        then.right - then.left == win.right - win.left,
        then.bottom - then.top == win.bottom - win.top,
        desk.x <= a.0 - grip_of(d).0 <= desk.x + desk.w - (win.right - win.left),
        desk.y <= a.1 - grip_of(d).1 <= desk.y + desk.h - (win.bottom - win.top),
        desk.x <= b.0 - grip_of(d).0 <= desk.x + desk.w - (win.right - win.left),
        desk.y <= b.1 - grip_of(d).1 <= desk.y + desk.h - (win.bottom - win.top),
    ensures
        place_of(d.dragged_to(b, then, desk)).0 - place_of(d.dragged_to(a, win, desk)).0 == b.0 - a.0,
        place_of(d.dragged_to(b, then, desk)).1 - place_of(d.dragged_to(a, win, desk)).1 == b.1 - a.1,
        d.moved(a, win) == d,
{
}

/// Without a button down a move drags nothing; a window that is not pinned has nothing to let go.
pub proof fn idle_mouse_does_nothing(d: Drag, at: (i32, i32), win: Rect, desk: Desk)
    ensures
        d.down is None && d.grip is None ==> d.moved(at, win) == d && d.dragged_to(at, win, desk) is None,
        d.pinned is None ==> d.let_go() == d,
        d.down is Some ==> d.uncaptured() == d,
        d.down is None ==> d.uncaptured().grip is None && d.uncaptured().pinned == d.pinned,
        d.pressed(at).pinned == d.pinned,
        d.pressed(at).down == Some(at),
        d.pressed(at).grip is None,
{
}

} // verus!
