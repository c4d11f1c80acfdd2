//! The pipe to the engine: waiting for it, starting it, and what goes through it.

use vstd::prelude::*;
use vstd::string::*;

use crate::frame;
use crate::json;
use crate::json::{add_member, Json, Tree};
use crate::text;
use crate::text::{cat, chars_of, string_of, trimmed_end_of};
use crate::utf16;
use crate::utf16::lossy_text;

verus! {

/// The name of the pipe.
pub const PIPE: &'static str = "\\\\.\\pipe\\hufu-ime";

/// What to do next to reach the engine.
#[derive(Clone, Copy, Debug, PartialEq, Eq, Structural)]
pub enum PipeStep {
    /// Open the pipe.
    Open,
    /// Start the engine.
    Spawn,
    /// Wait for the pipe, so many milliseconds at most.
    Wait(u32),
    /// Give up.
    GiveUp,
}

/// What came of it.
#[derive(Clone, Copy, Debug, PartialEq, Eq, Structural)]
pub enum PipeEvent {
    /// The pipe could not be opened.
    OpenFailed,
    /// The engine was started, or was not.
    Spawned(bool),
    /// The pipe is free, or did not become so.
    Waited(bool),
}

/// An attempt to reach the engine. Where the engine was started, it is given three seconds in
/// three turns; else two short turns, so that no key waits for an engine that is not there.
#[derive(Clone, Copy, Debug, PartialEq, Eq, Structural)]
pub struct PipeWait {
    pub waits: u32,
    pub wait_ms: u32,
    pub max_waits: u32,
    pub asked_to_spawn: bool,
}

impl PipeWait {
    /// One of the two ways to wait, within its bounds.
    pub open spec fn wf(self) -> bool {
        &&& self.waits <= self.max_waits
        &&& (self.wait_ms == 150 && self.max_waits == 2) || (self.wait_ms == 1000 && self.max_waits
            == 3)
    }

    /// The milliseconds that the attempt has waited at most.
    pub open spec fn waited(self) -> int {
        self.waits * self.wait_ms
    }

    /// An attempt that has not begun: the pipe is to be opened.
    pub fn new() -> (r: PipeWait)
        ensures
            r == (PipeWait { waits: 0, wait_ms: 150, max_waits: 2, asked_to_spawn: false }),
            r.wf(),
    {
        PipeWait { waits: 0, wait_ms: 150, max_waits: 2, asked_to_spawn: false }
    }

    /// The turn after this one.
    pub open spec fn turn(self) -> (PipeWait, PipeStep) {
        if self.waits >= self.max_waits {
            (self, PipeStep::GiveUp)
        } else {
            (PipeWait { waits: (self.waits + 1) as u32, ..self }, PipeStep::Wait(self.wait_ms))
        }
    }

    /// The attempt after an event, and what to do next.
    pub open spec fn stepped(self, e: PipeEvent) -> (PipeWait, PipeStep) {
        match e {
            PipeEvent::OpenFailed => if !self.asked_to_spawn {
                (PipeWait { asked_to_spawn: true, ..self }, PipeStep::Spawn)
            } else {
                self.turn()
            },
            PipeEvent::Spawned(ok) => if ok && self.waits == 0 {
                (PipeWait { wait_ms: 1000, max_waits: 3, ..self }).turn()
            } else {
                self.turn()
            },
            PipeEvent::Waited(ok) => if ok {
                (self, PipeStep::Open)
            } else {
                (self, PipeStep::GiveUp)
            },
        }
    }

    fn next_turn(&mut self) -> (r: PipeStep)
        requires
            old(self).wf(),
        ensures
            (*final(self), r) == old(self).turn(),
            final(self).wf(),
    {
        if self.waits >= self.max_waits {
            PipeStep::GiveUp
        } else {
            self.waits = self.waits + 1;
            PipeStep::Wait(self.wait_ms)
        }
    }

    /// Goes on with the attempt; see [`PipeWait::stepped`].
    pub fn step(&mut self, e: PipeEvent) -> (r: PipeStep)
        requires
            old(self).wf(),
        ensures
            (*final(self), r) == old(self).stepped(e),
            final(self).wf(),
    {
        match e {
            PipeEvent::OpenFailed => {
                if !self.asked_to_spawn {
                    self.asked_to_spawn = true;
                    PipeStep::Spawn
                } else {
                    self.next_turn()
                }
            },
            PipeEvent::Spawned(ok) => {
                if ok && self.waits == 0 {
                    self.wait_ms = 1000;
                    self.max_waits = 3;
                }
                self.next_turn()
            },
            PipeEvent::Waited(ok) => if ok {
                PipeStep::Open
            } else {
                PipeStep::GiveUp
            },
        }
    }
}

/// An attempt never waits longer than three seconds, and not longer than three tenths of one
/// where it did not start the engine.
pub proof fn waits_are_bounded(p: PipeWait, e: PipeEvent)
    requires
        p.wf(),
    ensures
        p.stepped(e).0.waited() <= 3000,
        p.wait_ms == 150 && e != PipeEvent::Spawned(true) ==> p.stepped(e).0.waited() <= 300,
{
    let q = p.stepped(e).0;
    assert(q.wf());
    if q.wait_ms == 150 {
        assert(q.waits * 150 <= 300);
    } else {
        assert(q.waits * 1000 <= 3000);
    }
}

/// The engine is asked to start once in an attempt at most.
pub proof fn spawns_once(p: PipeWait, e: PipeEvent)
    ensures
        p.stepped(e).1 == PipeStep::Spawn ==> !p.asked_to_spawn && p.stepped(e).0.asked_to_spawn,
        p.asked_to_spawn ==> p.stepped(e).0.asked_to_spawn,
{
}

/// The places where the engine's program may lie: beside the host; where it was installed;
/// among the user's programs; and where a developer says.
pub open spec fn server_places(
    exe_dir: Seq<char>,
    install_dir: Option<Seq<char>>,
    local_app: Seq<char>,
    dev: Option<Seq<char>>,
) -> Seq<Seq<char>> {
    seq![exe_dir + "\\hufu-server.exe"@] + (match install_dir {
        Some(d) => seq![text::trim_end_of(d, '\\') + "\\hufu-server.exe"@],
        None => seq![],
    }) + seq![local_app + "\\HuFu\\hufu-server.exe"@] + (match dev {
        Some(d) => if d.len() > 0 {
            seq![d]
        } else {
            seq![]
        },
        None => seq![],
    })
}

/// The places where the engine's program may lie, in the order in which they are tried; see
/// [`server_places`].
pub fn server_candidates(
    exe_dir: &str,
    install_dir: &Option<String>,
    local_app: &str,
    dev: &Option<String>,
) -> (r: Vec<String>)
    ensures
        text::strings(r@) == server_places(
            exe_dir@,
            crate::session::opt_text(*install_dir),
            local_app@,
            crate::session::opt_text(*dev),
        ),
{
    let mut r: Vec<String> = Vec::new();
    let a = cat(exe_dir, "\\hufu-server.exe");
    r.push(a);
    if let Some(d) = install_dir {
        let cs = chars_of(d.as_str());
        let t = trimmed_end_of(&cs, '\\');
        let dir = string_of(&t, 0, t.len());
        assert(dir@ =~= t@);
        r.push(cat(dir.as_str(), "\\hufu-server.exe"));
    }
    r.push(cat(local_app, "\\HuFu\\hufu-server.exe"));
    if let Some(d) = dev {
        if d.as_str().unicode_len() > 0 {
            r.push(d.clone());
        }
    }
    assert(text::strings(r@) =~= server_places(
        exe_dir@,
        crate::session::opt_text(*install_dir),
        local_app@,
        crate::session::opt_text(*dev),
    ));
    r
}

/// The data directory that the engine is told of: none where it has its own beside it, else the
/// developer's, if there is one.
pub fn data_dir(beside: bool, dev_data: &str) -> (r: Option<String>)
    ensures
        crate::session::opt_text(r) == if beside || dev_data@.len() == 0 {
            None
        } else {
            Some(dev_data@)
        },
{
    if beside || dev_data.unicode_len() == 0 {
        None
    } else {
        Some(dev_data.to_owned())
    }
}

/// The command line that starts the engine.
pub fn command_line(exe: &str, data: &Option<String>) -> (r: String)
    ensures
        r@ == match *data {
            Some(d) => "\""@ + exe@ + "\" --data \""@ + d@ + "\""@,
            None => "\""@ + exe@ + "\""@,
        },
{
    let mut r = cat("\"", exe);
    if let Some(d) = data {
        r.append("\" --data \"");
        r.append(d.as_str());
    }
    r.append("\"");
    r
}

/// The code units of a registry text: pairs of bytes, the low one first, up to the first NUL.
pub open spec fn registry_units(b: Seq<u8>) -> Seq<u16>
    decreases b.len(),
{
    if b.len() < 2 {
        seq![]
    } else {
        let u = (b[0] + 256 * b[1]) as u16;
        if u == 0 {
            seq![]
        } else {
            seq![u] + registry_units(b.skip(2))
        }
    }
}

/// The code units of a registry text; see [`registry_units`].
pub fn registry_text(b: &Vec<u8>) -> (r: Vec<u16>)
    ensures
        r@ == registry_units(b@),
{
    let mut r: Vec<u16> = Vec::new();
    let mut i: usize = 0;
    assert(b@.skip(0) =~= b@);
    assert(r@ + registry_units(b@.skip(0)) =~= registry_units(b@));
    while b.len() - i >= 2
        invariant
            i <= b.len(),
            r@ + registry_units(b@.skip(i as int)) == registry_units(b@),
        decreases b.len() - i,
    {
        let u: u16 = b[i] as u16 + 256 * (b[i + 1] as u16);
        let ghost rest = b@.skip(i as int);
        assert(rest[0] == b@[i as int] && rest[1] == b@[i + 1]);
        if u == 0 {
            assert(r@ + Seq::<u16>::empty() =~= r@);
            return r;
        }
        assert(rest.skip(2) =~= b@.skip(i + 2));
        let ghost before = r@;
        r.push(u);
        assert(r@ + registry_units(b@.skip(i + 2)) =~= before + (seq![u] + registry_units(
            b@.skip(i + 2),
        )));
        i += 2;
    }
    assert(r@ + Seq::<u16>::empty() =~= r@);
    r
}

/// How many bytes of a registry value are read: none where it is not a text or is empty.
pub fn registry_len(kind: u32, size: u32) -> (r: Option<u32>)
    ensures
        r == if kind != 1 || size == 0 {
            None
        } else if size < 32768 {
            Some(size)
        } else {
            Some(32768u32)
        },
{
    if kind != 1 || size == 0 {
        return None;
    }
    Some(
        if size < 32768 {
            size
        } else {
            32768
        },
    )
}

/// The directory that a registry text names.
pub fn install_dir(b: &Vec<u8>) -> (r: String)
    ensures
        r@ == utf16::lossy(registry_units(b@)),
{
    let u = registry_text(b);
    lossy_text(&u)
}

/// Whether the engine may be started: a process tries that once.
pub fn may_start(tried: &mut bool) -> (r: bool)
    ensures
        r == !*old(tried),
        *final(tried),
{
    let first = !*tried;
    *tried = true;
    first
}

/// Whether the engine was reset: it has answered [`crate::request::reset_request`].
pub fn reset_session(reply: &Option<Json>) -> (r: bool)
    ensures
        r == (*reply is Some),
{
    reply.is_some()
}

/// The frame of a request body.
pub fn pipe_frame(body: &Vec<u8>) -> (r: Vec<u8>)
    ensures
        r@ == frame::le4(body.len() as int) + body@,
        r.len() == 4 + body.len(),
        r@.skip(4) == body@,
        r[0] == body.len() % 0x100,
        r[1] == body.len() / 0x100 % 0x100,
        r[2] == body.len() / 0x10000 % 0x100,
        r[3] == body.len() / 0x1000000 % 0x100,
{
    let n: u64 = body.len() as u64;
    let mut f: Vec<u8> = Vec::new();
    f.push((n % 256) as u8);
    f.push((n / 256 % 256) as u8);
    f.push((n / 65536 % 256) as u8);
    f.push((n / 16777216 % 256) as u8);
    assert(f@ =~= frame::le4(n as int));
    f.extend_from_slice(body.as_slice());
    assert(f@ =~= frame::le4(n as int) + body@);
    assert(f@.skip(4) =~= body@);
    f
}

/// A key request of this front end.
pub open spec fn key_tree(key: Seq<char>, shift: bool, ctrl: bool, alt: bool) -> Tree {
    Tree::Object(
        map![
            "op"@ => Tree::Str("key"@),
            "key"@ => Tree::Str(key),
            "modifiers"@ => Tree::Object(
                map![
                    "shift"@ => Tree::Bool(shift),
                    "ctrl"@ => Tree::Bool(ctrl),
                    "alt"@ => Tree::Bool(alt),
                ],
            ),
        ],
    )
}

/// A key request.
pub fn key_request(key: &str, shift: bool, ctrl: bool, alt: bool) -> (r: Json)
    ensures
        r.tree() == key_tree(key@, shift, ctrl, alt),
        r.tree().member("op"@) == Some(Tree::Str("key"@)),
        r.tree().member("key"@) == Some(Tree::Str(key@)),
        (r.tree().member("modifiers"@) matches Some(m) && m.member("shift"@) == Some(Tree::Bool(shift))
            && m.member("ctrl"@) == Some(Tree::Bool(ctrl)) && m.member("alt"@) == Some(Tree::Bool(alt))),
{
    proof {
        key_names_apart();
    }
    let mut mods: Vec<(String, Json)> = Vec::new();
    add_member(&mut mods, "shift", Json::Bool(shift));
    add_member(&mut mods, "ctrl", Json::Bool(ctrl));
    add_member(&mut mods, "alt", Json::Bool(alt));
    let mut m: Vec<(String, Json)> = Vec::new();
    add_member(&mut m, "op", Json::Str("key".to_owned()));
    add_member(&mut m, "key", Json::Str(key.to_owned()));
    add_member(&mut m, "modifiers", Json::Object(mods));
    Json::Object(m)
}

/// What the engine answers to a key.
#[derive(Debug)]
pub struct KeyReply {
    pub consumed: bool,
    /// The text to commit, or nothing.
    pub commit: String,
    pub state: Json,
    pub sound: Option<String>,
}

/// What a reply to a key tells: nothing where it has no outcome. A key is not consumed and commits
/// nothing unless the outcome says so; a reply without a state has an empty one.
pub fn key_reply(resp: &Json) -> (r: Option<KeyReply>)
    ensures
        match resp.tree().member("outcome"@) {
            Some(o) => match r {
                Some(k) => {
                    &&& k.consumed == (json::bool_of(o.member("consumed"@)) == Some(true))
                    &&& k.commit@ == match json::str_of(o.member("commit"@)) {
                        Some(s) => s,
                        None => seq![],
                    }
                    &&& k.state.tree() == match resp.tree().member("state"@) {
                        Some(s) => s,
                        None => Tree::Null,
                    }
                    &&& crate::session::opt_text(k.sound) == json::str_of(o.member("sound"@))
                },
                None => false,
            },
            None => r is None,
        },
{
    let o = match resp.get("outcome") {
        Some(o) => o,
        None => return None,
    };
    let commit = match o.get_str("commit") {
        Some(s) => s.to_owned(),
        None => String::new(),
    };
    let state = match resp.get("state") {
        Some(s) => s.copy(),
        None => Json::Null,
    };
    let sound = match o.get_str("sound") {
        Some(s) => Some(s.to_owned()),
        None => None,
    };
    Some(KeyReply { consumed: o.is_true("consumed"), commit, state, sound })
}

/// Whether the engine answered [`crate::request::ping_request`].
pub fn ping(reply: &Option<Json>) -> (r: bool)
    ensures
        r == match *reply {
            Some(j) => json::bool_of(j.tree().member("ok"@)) == Some(true),
            None => false,
        },
{
    match reply {
        Some(j) => j.is_true("ok"),
        None => false,
    }
}

/// The state that a reply to [`crate::request::state_request`] brings.
pub fn state_reply(resp: &Json) -> (r: Option<Json>)
    ensures
        match r {
            Some(s) => resp.tree().member("state"@) == Some(s.tree()),
            None => resp.tree().member("state"@) is None,
        },
{
    match resp.get("state") {
        Some(s) => Some(s.copy()),
        None => None,
    }
}

/// A request for the clipboard, for the program of this name.
pub open spec fn clipboard_tree(exe: Seq<char>) -> Tree {
    Tree::Object(map!["op"@ => Tree::Str("clipboard"@), "exe"@ => Tree::Str(exe)])
}

/// A request for the clipboard, for the program of this name.
pub fn clipboard_request(exe: &str) -> (r: Json)
    ensures
        r.tree() == clipboard_tree(exe@),
        r.tree().member("op"@) == Some(Tree::Str("clipboard"@)),
        r.tree().member("exe"@) == Some(Tree::Str(exe@)),
{
    proof {
        reveal_strlit("op");
        reveal_strlit("exe");
        assert("op"@.len() != "exe"@.len());
    }
    let mut m: Vec<(String, Json)> = Vec::new();
    add_member(&mut m, "op", Json::Str("clipboard".to_owned()));
    add_member(&mut m, "exe", Json::Str(exe.to_owned()));
    Json::Object(m)
}

/// The text that a reply to `clipboard` brings.
pub fn clipboard_reply(resp: &Json) -> (r: Option<String>)
    ensures
        crate::session::opt_text(r) == json::str_of(resp.tree().member("text"@)),
{
    match resp.get_str("text") {
        Some(s) => Some(s.to_owned()),
        None => None,
    }
}

proof fn key_names_apart()
    ensures
        "op"@ != "key"@,
        "op"@ != "modifiers"@,
        "key"@ != "modifiers"@,
        "shift"@ != "ctrl"@,
        "shift"@ != "alt"@,
        "ctrl"@ != "alt"@,
{
    reveal_strlit("op");
    reveal_strlit("key");
    reveal_strlit("modifiers");
    reveal_strlit("shift");
    reveal_strlit("ctrl");
    reveal_strlit("alt");
    assert("op"@.len() == 2 && "key"@.len() == 3 && "modifiers"@.len() == 9);
    assert("shift"@.len() == 5 && "ctrl"@.len() == 4 && "alt"@.len() == 3);
}

/// Requests of two keys are the same only where key and modifiers are.
pub proof fn key_requests_differ(
    k1: Seq<char>,
    s1: bool,
    c1: bool,
    a1: bool,
    k2: Seq<char>,
    s2: bool,
    c2: bool,
    a2: bool,
)
    requires
        key_tree(k1, s1, c1, a1) == key_tree(k2, s2, c2, a2),
    ensures
        k1 == k2 && s1 == s2 && c1 == c2 && a1 == a2,
{
    key_names_apart();
    let x = key_tree(k1, s1, c1, a1);
    let y = key_tree(k2, s2, c2, a2);
    assert(x.member("key"@) == Some(Tree::Str(k1)));
    assert(y.member("key"@) == Some(Tree::Str(k2)));
    let m = x.member("modifiers"@)->0;
    let n = y.member("modifiers"@)->0;
    assert(m.member("shift"@) == Some(Tree::Bool(s1)) && n.member("shift"@) == Some(Tree::Bool(s2)));
    assert(m.member("ctrl"@) == Some(Tree::Bool(c1)) && n.member("ctrl"@) == Some(Tree::Bool(c2)));
    assert(m.member("alt"@) == Some(Tree::Bool(a1)) && n.member("alt"@) == Some(Tree::Bool(a2)));
}

/// A pipe that cannot be opened has the engine started first. An engine that was started is waited
/// for in turns of a second, one that was not in turns of a seventh of one; after a turn the pipe
/// is opened anew, or given up where it did not become free.
pub proof fn attempt_goes_its_way(p: PipeWait)
    requires
        p.waits == 0,
        p.wait_ms == 150,
        p.max_waits == 2,
    ensures
        !p.asked_to_spawn ==> p.stepped(PipeEvent::OpenFailed).1 == PipeStep::Spawn,
        p.asked_to_spawn ==> p.stepped(PipeEvent::OpenFailed).1 == PipeStep::Wait(150),
        p.stepped(PipeEvent::Spawned(true)).1 == PipeStep::Wait(1000),
        p.stepped(PipeEvent::Spawned(false)).1 == PipeStep::Wait(150),
        p.stepped(PipeEvent::Waited(true)).1 == PipeStep::Open,
        p.stepped(PipeEvent::Waited(false)).1 == PipeStep::GiveUp,
{
}

/// The attempt after its first turn and so many more: each time the pipe became free and still
/// could not be opened.
pub open spec fn waited_again(p: PipeWait, turns: nat) -> PipeWait
    decreases turns,
{
    if turns == 0 {
        p
    } else {
        waited_again(p, (turns - 1) as nat).stepped(PipeEvent::Waited(true)).0.stepped(
            PipeEvent::OpenFailed,
        ).0
    }
}

/// A started engine gets three turns, one that was not started two; the attempt is given up
/// behind the last of them, and no sooner.
pub proof fn turns_are_counted(p: PipeWait, started: bool)
    requires
        p.waits == 0,
        p.wait_ms == 150,
        p.max_waits == 2,
        p.asked_to_spawn,
    ensures
        ({
            let first = p.stepped(PipeEvent::Spawned(started)).0;
            &&& waited_again(first, 0).stepped(PipeEvent::OpenFailed).1 is Wait
            &&& waited_again(first, 1).stepped(PipeEvent::OpenFailed).1 is Wait <==> started
            &&& waited_again(first, 1).stepped(PipeEvent::OpenFailed).1 is GiveUp <==> !started
            &&& waited_again(first, 2).stepped(PipeEvent::OpenFailed).1 is GiveUp
        }),
{
    reveal_with_fuel(waited_again, 4);
}

/// The engine's program is looked for beside the host first, and where a developer says last.
pub proof fn places_come_in_order(
    exe_dir: Seq<char>,
    install_dir: Option<Seq<char>>,
    local_app: Seq<char>,
    dev: Option<Seq<char>>,
)
    ensures
        ({
            let v = server_places(exe_dir, install_dir, local_app, dev);
            let n: int = if install_dir is Some {
                1
            } else {
                0
            };
            let named = dev is Some && dev->0.len() > 0;
            &&& v.len() == if named {
                n + 3
            } else {
                n + 2
            }
            &&& v[0] == exe_dir + "\\hufu-server.exe"@
            &&& v[n + 1] == local_app + "\\HuFu\\hufu-server.exe"@
            &&& install_dir matches Some(d) ==> v[1] == text::trim_end_of(d, '\\')
                + "\\hufu-server.exe"@
            &&& named ==> v[n + 2] == dev->0
        }),
{
}

/// The code units are read pair by pair, the low byte first, up to the first that is nought.
pub proof fn units_are_read_in_pairs(a: u8, b: u8, rest: Seq<u8>)
    ensures
        a != 0 || b != 0 ==> registry_units(seq![a, b] + rest).len() == 1 + registry_units(rest).len()
            && registry_units(seq![a, b] + rest)[0] == a + 0x100 * b && registry_units(
            seq![a, b] + rest,
        ).skip(1) == registry_units(rest),
        registry_units(seq![0u8, 0u8] + rest).len() == 0,
        rest.len() < 2 ==> registry_units(rest).len() == 0,
{
    let s = seq![a, b] + rest;
    assert(s.skip(2) =~= rest);
    let z = seq![0u8, 0u8] + rest;
    assert(z[0] == 0 && z[1] == 0);
    if a != 0 || b != 0 {
        assert(registry_units(s).skip(1) =~= registry_units(rest));
    }
}

} // verus!
