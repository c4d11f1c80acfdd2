//! What goes on round the candidate window: the keys that switch the input method, the clock of
//! the animations, and whose window it is.

use vstd::prelude::*;

verus! {

/// The keys that can switch the input method, as far as they are down.
#[derive(Clone, Copy, Debug)]
pub struct SwitchKeys {
    pub win: bool,
    pub ctrl: bool,
    pub shift: bool,
}

/// The space bar.
pub const VK_SPACE: u16 = 0x20;

/// Either shift key.
pub const VK_SHIFT: u16 = 0x10;

/// Either control key.
pub const VK_CONTROL: u16 = 0x11;

/// The left Windows key.
pub const VK_LWIN: u16 = 0x5b;

/// The right Windows key.
pub const VK_RWIN: u16 = 0x5c;

impl SwitchKeys {
    /// No key down.
    pub fn new() -> (r: SwitchKeys)
        ensures
            r == (SwitchKeys { win: false, ctrl: false, shift: false }),
    {
        SwitchKeys { win: false, ctrl: false, shift: false }
    }

    /// The keys after one more event.
    pub open spec fn after(self, vk: u16, up: bool) -> SwitchKeys {
        if vk == VK_LWIN || vk == VK_RWIN {
            SwitchKeys { win: !up, ..self }
        } else if vk == VK_CONTROL {
            SwitchKeys { ctrl: !up, ..self }
        } else if vk == VK_SHIFT {
            SwitchKeys { shift: !up, ..self }
        } else {
            self
        }
    }

    /// Whether the event switches the input method: the space bar goes down with a Windows key,
    /// or control and shift come together.
    pub open spec fn switches(self, vk: u16, up: bool) -> bool {
        let k = self.after(vk, up);
        !up && ((vk == VK_SPACE && k.win) || (vk == VK_SHIFT && k.ctrl) || (vk == VK_CONTROL && k.shift))
    }

    /// Takes note of a key that goes down or up: whether that switches the input method.
    pub fn key(&mut self, vk: u16, up: bool) -> (r: bool)
        ensures
            *final(self) == old(self).after(vk, up),
            r == old(self).switches(vk, up),
    {
        if vk == VK_LWIN || vk == VK_RWIN {
            self.win = !up;
            return false;
        }
        if vk == VK_CONTROL {
            self.ctrl = !up;
        } else if vk == VK_SHIFT {
            self.shift = !up;
        }
        let fires = (vk == VK_SPACE && self.win) || (vk == VK_SHIFT && self.ctrl) || (vk == VK_CONTROL
            && self.shift);
        fires && !up
    }
}

/// Letting a key go never switches the input method.
pub proof fn release_switches_nothing(k: SwitchKeys, vk: u16)
    ensures
        !k.switches(vk, true),
{
}

/// How long the fast clock runs after it was last asked for, in milliseconds.
pub const BOOST_MS: u64 = 400;

/// The fast clock of the animations, and the windows that it wakes.
pub struct Boost {
    deadline: u64,
    windows: Vec<i64>,
    running: bool,
}

/// What the fast clock knows.
pub struct BoostView {
    pub deadline: int,
    pub windows: Seq<i64>,
    pub running: bool,
}

impl View for Boost {
    type V = BoostView;

    closed spec fn view(&self) -> BoostView {
        BoostView { deadline: self.deadline as int, windows: self.windows@, running: self.running }
    }
}

impl Boost {
    /// A clock that does not run.
    pub fn new() -> (r: Boost)
        ensures
            r@ == (BoostView { deadline: 0, windows: seq![], running: false }),
    {
        let r = Boost { deadline: 0, windows: Vec::new(), running: false };
        assert(r@.windows =~= seq![]);
        r
    }

    /// Asks for the clock: it runs for a while from `now`, and wakes the window too. Whether it
    /// has to be started.
    pub fn arm(&mut self, now: u64, window: i64) -> (r: bool)
        requires
            now <= u64::MAX - BOOST_MS,
        ensures
            r == !old(self)@.running,
            final(self)@ == (BoostView {
                deadline: now + BOOST_MS,
                windows: if old(self)@.windows.contains(window) {
                    old(self)@.windows
                } else {
                    old(self)@.windows.push(window)
                },
                running: old(self)@.running,
            }),
    {
        self.deadline = now + BOOST_MS;
        let mut there = false;
        let mut i: usize = 0;
        while i < self.windows.len() && !there
            invariant
                i <= self.windows.len(),
                self.windows@ == old(self).windows@,
                self.running == old(self).running,
                self.deadline == now + BOOST_MS,
                there ==> self.windows@.contains(window),
                !there ==> forall|j: int| 0 <= j < i ==> self.windows@[j] != window,
            decreases self.windows.len() - i,
        {
            if self.windows[i] == window {
                assert(self.windows@[i as int] == window);
                there = true;
            }
            i += 1;
        }
        if !there {
            self.windows.push(window);
        }
        !self.running
    }

    /// The clock was started, or could not be.
    pub fn started(&mut self, ok: bool)
        ensures
            final(self)@ == (BoostView { running: old(self)@.running || ok, ..old(self)@ }),
    {
        if ok {
            self.running = true;
        }
    }

    /// A tick: the windows to wake; nothing where the clock's time is up, and the clock is to be
    /// stopped and all windows are forgotten.
    pub fn tick(&mut self, now: u64) -> (r: Option<Vec<i64>>)
        ensures
            if now > old(self)@.deadline {
                r is None && final(self)@ == (BoostView {
                    windows: seq![],
                    running: false,
                    ..old(self)@
                })
            } else {
                r is Some && r->0@ == old(self)@.windows && final(self)@ == old(self)@
            },
    {
        if now > self.deadline {
            self.windows.clear();
            self.running = false;
            assert(self@.windows =~= seq![]);
            None
        } else {
            let list = self.windows.clone();
            assert(list@ =~= self.windows@);
            Some(list)
        }
    }
}

/// The time from one picture of the screen to the next, in whole milliseconds and rounded up,
/// for a refresh rate; that of sixty pictures per second where the rate is not a likely one.
pub open spec fn frame_ms(hz: int) -> int {
    if 30 <= hz <= 1000 {
        (1000 + hz - 1) / hz
    } else {
        17
    }
}

/// See [`frame_ms`].
pub fn frame_interval(hz: u32) -> (r: u64)
    ensures
        r == frame_ms(hz as int),
        1 <= r <= 34,
{
    let rate: u64 = if 30 <= hz && hz <= 1000 {
        hz as u64
    } else {
        60
    };
    let r: u64 = (1000 + rate - 1) / rate;
    assert(1 <= r <= 34) by (nonlinear_arith)
        requires
            30 <= rate <= 1000,
            r == (1000 + rate - 1) / (rate as int),
    ;
    assert((1000 + 60 - 1) / 60 == 17);
    r
}

/// The frame interval is the least number of whole milliseconds in which a picture is over.
pub proof fn interval_is_least(hz: int)
    requires
        30 <= hz <= 1000,
    ensures
        frame_ms(hz) * hz >= 1000,
        (frame_ms(hz) - 1) * hz < 1000,
{
    let q = (1000 + hz - 1) / hz;
    assert(q * hz >= 1000 && (q - 1) * hz < 1000) by (nonlinear_arith)
        requires
            30 <= hz <= 1000,
            q == (1000 + hz - 1) / hz,
    ;
}

/// The frame interval of the screen, asked for again after two seconds.
#[derive(Clone, Copy, Debug)]
pub struct FrameClock {
    pub asked_at: u64,
    pub interval: u64,
}

impl FrameClock {
    /// An interval that has never been asked for.
    pub fn new() -> (r: FrameClock)
        ensures
            r == (FrameClock { asked_at: 0, interval: 17 }),
    {
        FrameClock { asked_at: 0, interval: 17 }
    }

    /// Whether to ask again.
    pub fn is_stale(&self, now: u64) -> (r: bool)
        ensures
            r == (now > self.asked_at && now - self.asked_at > 2000),
    {
        now > self.asked_at && now - self.asked_at > 2000
    }

    /// Notes the refresh rate of the screen.
    pub fn note(&mut self, now: u64, hz: u32)
        ensures
            *final(self) == (FrameClock { asked_at: now, interval: frame_ms(hz as int) as u64 }),
    {
        self.asked_at = now;
        self.interval = frame_interval(hz);
    }
}

/// What becomes of a window that was taken out of its place for a while.
#[derive(Clone, Copy, Debug, PartialEq, Eq, Structural)]
pub enum PutBack {
    /// It goes back into its place.
    Return,
    /// It is hidden and given up; its place stays as it is.
    Discard,
    /// There is nothing to put back; the place stays as it is.
    Nothing,
}

/// What becomes of a window that was taken out: it goes back; one for which hiding was asked
/// meanwhile is hidden, and one whose place another has taken too.
pub fn put_back(mine: bool, newer: bool, pending_hide: bool) -> (r: PutBack)
    ensures
        r == if !mine {
            PutBack::Nothing
        } else if newer || pending_hide {
            PutBack::Discard
        } else {
            PutBack::Return
        },
{
    if !mine {
        PutBack::Nothing
    } else if newer || pending_hide {
        PutBack::Discard
    } else {
        PutBack::Return
    }
}

/// Whose state a tick of the clock belongs to.
#[derive(Clone, Copy, Debug, PartialEq, Eq, Structural)]
pub enum TickOwner {
    /// That of the whole process.
    Process,
    /// That of this thread.
    Thread,
    /// Nobody's.
    Nobody,
}

/// Whose state a tick belongs to, given of each whether it is there and then whether the window
/// is its own: that of the process, unless only the thread's has the window.
pub fn tick_owner(process: Option<bool>, thread: Option<bool>) -> (r: TickOwner)
    ensures
        r == match (process, thread) {
            (Some(p), Some(t)) => if !p && t {
                TickOwner::Thread
            } else {
                TickOwner::Process
            },
            (None, Some(_)) => TickOwner::Thread,
            (Some(_), None) => TickOwner::Process,
            (None, None) => TickOwner::Nobody,
        },
{
    match (process, thread) {
        (Some(p), Some(t)) => if !p && t {
            TickOwner::Thread
        } else {
            TickOwner::Process
        },
        (None, Some(_)) => TickOwner::Thread,
        (Some(_), None) => TickOwner::Process,
        (None, None) => TickOwner::Nobody,
    }
}

/// What a turn of the wheel asks for, from the high word of the message's parameter: one point
/// larger, or one smaller.
pub open spec fn wheel(high: int) -> int {
    if 0 < high < 0x8000 {
        1
    } else {
        -1
    }
}

/// What a turn of the wheel asks for: 1 or -1.
pub fn wheel_delta(wparam: u64) -> (r: i32)
    ensures
        r == wheel((wparam / 0x1_0000 % 0x1_0000) as int),
        r == 1 <==> 1 <= wparam / 0x1_0000 % 0x1_0000 <= 0x7fff,
        r == 1 || r == -1,
{
    let high: u64 = wparam / 0x1_0000 % 0x1_0000;
    if 0 < high && high < 0x8000 {
        1
    } else {
        -1
    }
}

/// The frames in a row in which a window was on the screen and could not be seen.
pub fn cloaked_streak(streak: u32, cloaked: bool) -> (r: u32)
    ensures
        r == if !cloaked {
            0
        } else if streak < u32::MAX {
            (streak + 1) as u32
        } else {
            u32::MAX
        },
{
    if !cloaked {
        0
    } else if streak < u32::MAX {
        streak + 1
    } else {
        u32::MAX
    }
}

/// The input method is switched by the space bar while a Windows key is down, and by control and
/// shift together, in either order; and by nothing else.
pub proof fn only_hotkeys_switch(k: SwitchKeys, vk: u16)
    ensures
        k.switches(vk, false) <==> (vk == 0x20 && k.win) || (vk == 0x10 && k.ctrl) || (vk == 0x11
            && k.shift),
{
}

/// A key counts as down from when it goes down until it goes up, whatever other keys do; either
/// Windows key counts as the Windows key.
pub proof fn keys_are_down_until_they_go_up(k: SwitchKeys, vk: u16, up: bool)
    ensures
        ({
            let n = k.after(vk, up);
            &&& n.win == if vk == 0x5b || vk == 0x5c {
                !up
            } else {
                k.win
            }
            &&& n.ctrl == if vk == 0x11 {
                !up
            } else {
                k.ctrl
            }
            &&& n.shift == if vk == 0x10 {
                !up
            } else {
                k.shift
            }
        }),
{
}

} // verus!
