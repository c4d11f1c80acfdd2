//! The client of the engine: one session, connected when first needed and again after a
//! break.
//!
//! The host performs what a [`Step`] asks for and hands back the [`Event`] that came of
//! it, until the exchange is done. What a reply means is the client's business.

use vstd::prelude::*;
use vstd::string::*;

use crate::base64;
use crate::base64::base64_decode;
use crate::frame;
use crate::frame::reply_len;
use crate::json;
use crate::json::{merge_json, Json, Tree};
use crate::lookup::CharLookup;
use crate::request;
use crate::request::{
    config_get_request, config_set_request, sound_request, sound_state_request,
};
use crate::session;
use crate::session::{delivery, Delivery, DeliveryView, KeyOutcome, SessionState, StateView};
use crate::sound;
use crate::sound::{Clip, SoundClips};
use crate::text;
use crate::text::{c_text_of, cat};

verus! {

/// The bit of a key's answer that says that the key was consumed.
pub const HUFU_KEY_CONSUMED: i32 = 1;

/// How far a key's answer shifts the number of characters to delete.
pub const HUFU_KEY_BACK_SHIFT: u32 = 8;

/// What the host is to do next in an exchange.
#[derive(Debug)]
pub enum Step {
    /// Connect to the engine.
    Connect,
    /// Write these bytes.
    Write(Vec<u8>),
    /// Read the four bytes of a frame's head.
    ReadHead,
    /// Read as many bytes of a frame's body.
    ReadBody(usize),
    /// Nothing: the exchange is done, with the reply or without one.
    Done(Option<Json>),
}

/// What came of a step.
#[derive(Debug)]
pub enum Event {
    Connected,
    /// Connecting failed, for the reason given.
    ConnectFailed(String),
    Written,
    Head([u8; 4]),
    Body(Vec<u8>),
    /// Writing or reading failed, for the reason given.
    Failed(String),
}

/// A reply to a key, to a choice of candidate, to `reset` or to `focus`.
#[derive(Debug)]
pub struct EngineReply {
    pub body: Json,
    /// What the reply's member `outcome` reads as, where it can be read.
    pub outcome: Option<KeyOutcome>,
    /// What the reply's member `state` reads as, where it can be read.
    pub state: Option<SessionState>,
}

/// What a key comes to.
#[derive(Debug)]
pub struct KeyResult {
    pub consumed: bool,
    pub back: u8,
    /// What the host is told, where it is told anything.
    pub delivery: Option<Delivery>,
}

/// The client.
pub struct HufuClient {
    connected: bool,
    status: String,
    /// Whether the session is in its Chinese mode, as last told to the host.
    pub chinese: bool,
    last_back: u8,
    config: Option<Json>,
    char_lookup: Option<CharLookup>,
    sound_pending: String,
    sound_clips: SoundClips,
    sound_bytes: Vec<u8>,
}

/// What the client knows.
pub struct ClientView {
    pub connected: bool,
    pub status: Seq<char>,
    pub chinese: bool,
    pub last_back: u8,
    pub config: Option<Tree>,
    pub char_lookup: Option<CharLookup>,
    pub sound_pending: Seq<char>,
    pub sound_clips: Map<Seq<char>, Clip>,
    pub sound_bytes: Seq<u8>,
}

impl View for HufuClient {
    type V = ClientView;

    closed spec fn view(&self) -> ClientView {
        ClientView {
            connected: self.connected,
            status: self.status@,
            chinese: self.chinese,
            last_back: self.last_back,
            config: match self.config {
                Some(c) => Some(c.tree()),
                None => None,
            },
            char_lookup: self.char_lookup,
            sound_pending: self.sound_pending@,
            sound_clips: self.sound_clips@,
            sound_bytes: self.sound_bytes@,
        }
    }
}

/// The engine's socket below the directory for sockets, or in `/tmp` where there is no such
/// directory.
pub open spec fn socket_path(dir: Option<Seq<char>>) -> Seq<char> {
    let base = match dir {
        Some(d) => if d.len() > 0 {
            d
        } else {
            "/tmp"@
        },
        None => "/tmp"@,
    };
    if base.last() == '/' {
        base + "hufu-ime.sock"@
    } else {
        base + "/hufu-ime.sock"@
    }
}

/// The engine's socket; see [`socket_path`].
pub fn default_socket_path(dir: &Option<String>) -> (r: String)
    ensures
        r@ == socket_path(session::opt_text(*dir)),
{
    proof {
        reveal_strlit("/tmp");
    }
    let base = match dir {
        Some(d) => if d.as_str().unicode_len() > 0 {
            d.as_str()
        } else {
            "/tmp"
        },
        None => "/tmp",
    };
    let n: usize = base.unicode_len();
    if base.get_char(n - 1) == '/' {
        cat(base, "hufu-ime.sock")
    } else {
        cat(base, "/hufu-ime.sock")
    }
}

/// What a reply says, where there is one.
pub open spec fn reply_tree(reply: Option<Json>) -> Option<Tree> {
    match reply {
        Some(j) => Some(j.tree()),
        None => None,
    }
}

/// The member of a reply with the name `k`, where there is a reply and it has one.
pub open spec fn reply_member(reply: Option<Tree>, k: Seq<char>) -> Option<Tree> {
    match reply {
        Some(t) => t.member(k),
        None => None,
    }
}

/// 1, 0 or -1 for true, false and unknown.
pub open spec fn flag(b: Option<bool>) -> int {
    match b {
        Some(true) => 1,
        Some(false) => 0,
        None => -1,
    }
}

/// The state of the switch that a reply tells: 1 on, 0 off, -1 where there is no reply or
/// its member `enabled` is no truth value.
pub fn enabled_flag(reply: &Option<Json>) -> (r: i32)
    ensures
        r == flag(json::bool_of(reply_member(reply_tree(*reply), "enabled"@))),
{
    match reply {
        Some(j) => match j.get("enabled") {
            Some(v) => match v.as_bool() {
                Some(true) => 1,
                Some(false) => 0,
                None => -1,
            },
            None => -1,
        },
        None => -1,
    }
}

/// A number brought into the range of a volume.
pub open spec fn volume(v: i64) -> i32 {
    if v < 0 {
        0
    } else if v > 100 {
        100
    } else {
        v as i32
    }
}

fn volume_of(v: i64) -> (r: i32)
    ensures
        r == volume(v),
{
    if v < 0 {
        0
    } else if v > 100 {
        100
    } else {
        v as i32
    }
}

/// The client after a failed exchange: the connection counts as broken.
pub open spec fn broken(c: ClientView, why: Seq<char>) -> ClientView {
    ClientView {
        connected: false,
        status: text::c_text("请求失败（已断开）: "@ + why),
        ..c
    }
}

/// The bytes of a request.
pub open spec fn request_frame(t: Tree) -> Seq<u8> {
    frame::le4(json::json_bytes(t).len() as int) + json::json_bytes(t)
}

/// What sending the request is: its frame is written. A request that is too long for a
/// frame breaks the exchange off.
pub open spec fn sends(c: ClientView, t: Tree, after: ClientView, step: Step) -> bool {
    if json::json_bytes(t).len() <= frame::FRAME_MAX {
        step is Write && step->Write_0@ == request_frame(t) && after == c
    } else {
        step == Step::Done(None) && after == broken(c, "请求帧过大"@)
    }
}

/// What starting an exchange is: without a connection one is asked for.
pub open spec fn starts(c: ClientView, t: Tree, after: ClientView, step: Step) -> bool {
    if c.connected {
        sends(c, t, after, step)
    } else {
        step == Step::Connect && after == c
    }
}

/// What going on with an exchange is, after this event.
pub open spec fn goes_on(
    c: ClientView,
    t: Tree,
    event: Event,
    after: ClientView,
    step: Step,
) -> bool {
    match event {
        Event::Connected => sends(ClientView { connected: true, ..c }, t, after, step),
        Event::ConnectFailed(why) => {
            &&& step == Step::Done(None)
            &&& after == ClientView { status: text::c_text("连接失败: "@ + why@), ..c }
        },
        Event::Written => step == Step::ReadHead && after == c,
        Event::Head(h) => {
            let n = frame::le4_value(h[0], h[1], h[2], h[3]);
            if 0 < n <= frame::FRAME_MAX {
                step == Step::ReadBody(n as usize) && after == c
            } else {
                step == Step::Done(None) && after == broken(c, "响应帧长度非法"@)
            }
        },
        Event::Body(b) => match json::json_read(b@) {
            Ok(tree) => step is Done && reply_tree(step->Done_0) == Some(tree) && after == c,
            Err(why) => step == Step::Done(None) && after == broken(c, why),
        },
        Event::Failed(why) => step == Step::Done(None) && after == broken(c, why@),
    }
}

impl HufuClient {
    /// A client for the engine at the socket of this name, which is not connected yet.
    pub fn new(sock_path: &str) -> (r: HufuClient)
        ensures
            r@ == (ClientView {
                connected: false,
                status: text::c_text("未连接（"@ + sock_path@ + "）"@),
                chinese: true,
                last_back: 0,
                config: None,
                char_lookup: None,
                sound_pending: seq![],
                sound_clips: Map::empty(),
                sound_bytes: seq![],
            }),
    {
        let status = cat(cat("未连接（", sock_path).as_str(), "）");
        let r = HufuClient {
            connected: false,
            status: c_text_of(status.as_str()),
            chinese: true,
            last_back: 0,
            config: None,
            char_lookup: None,
            sound_pending: String::new(),
            sound_clips: SoundClips::new(),
            sound_bytes: Vec::new(),
        };
        assert(r@.sound_pending =~= seq![]);
        assert(r@.sound_bytes =~= seq![]);
        r
    }

    fn set_status(&mut self, s: &str)
        ensures
            final(self)@ == (ClientView { status: text::c_text(s@), ..old(self)@ }),
    {
        self.status = c_text_of(s);
    }

    /// The last status text.
    pub fn status(&self) -> (r: &str)
        ensures
            r@ == self@.status,
    {
        self.status.as_str()
    }

    /// Whether there is a connection.
    pub fn connected(&self) -> (r: bool)
        ensures
            r == self@.connected,
    {
        self.connected
    }

    fn give_up(&mut self, why: &str) -> (r: Step)
        ensures
            final(self)@ == broken(old(self)@, why@),
            r == Step::Done(None),
    {
        self.connected = false;
        let s = cat("请求失败（已断开）: ", why);
        self.set_status(s.as_str());
        Step::Done(None)
    }

    fn send(&mut self, req: &Json) -> (r: Step)
        ensures
            sends(old(self)@, req.tree(), final(self)@, r),
    {
        let body = req.to_bytes();
        match frame::frame(&body) {
            Some(f) => Step::Write(f),
            None => self.give_up("请求帧过大"),
        }
    }

    /// Starts an exchange: connects first where there is no connection.
    pub fn call(&mut self, req: &Json) -> (r: Step)
        ensures
            starts(old(self)@, req.tree(), final(self)@, r),
            !old(self)@.connected ==> r == Step::Connect && final(self)@ == old(self)@,
            old(self)@.connected && json::json_bytes(req.tree()).len() <= 0x100000 ==> {
                &&& r is Write
                &&& r->Write_0@.len() == 4 + json::json_bytes(req.tree()).len()
                &&& r->Write_0@.skip(4) == json::json_bytes(req.tree())
                &&& final(self)@ == old(self)@
            },
            old(self)@.connected && json::json_bytes(req.tree()).len() > 0x100000 ==> r
                == Step::Done(None) && !final(self)@.connected,
    {
        proof {
            if json::json_bytes(req.tree()).len() <= frame::FRAME_MAX {
                frame_carries_request(req.tree());
            }
        }
        if self.connected {
            self.send(req)
        } else {
            Step::Connect
        }
    }

    /// Goes on with an exchange.
    ///
    /// A connection that was made is used to send the request; one that was not leaves the
    /// client unconnected, with the reason in its status. After the request comes the head
    /// of the reply, then its body. A head with a length that no reply has, a body that is
    /// no JSON and any failure to write or read break the exchange off: the client is
    /// unconnected then, and connects again when it next has something to ask.
    pub fn roundtrip(&mut self, req: &Json, event: Event) -> (r: Step)
        ensures
            goes_on(old(self)@, req.tree(), event, final(self)@, r),
            match event {
                Event::Connected => if json::json_bytes(req.tree()).len() <= 0x100000 {
                    &&& r is Write
                    &&& r->Write_0@.skip(4) == json::json_bytes(req.tree())
                    &&& final(self)@ == (ClientView { connected: true, ..old(self)@ })
                } else {
                    r == Step::Done(None) && !final(self)@.connected
                },
                Event::ConnectFailed(_) => r == Step::Done(None) && final(self)@.connected
                    == old(self)@.connected,
                Event::Written => r == Step::ReadHead && final(self)@ == old(self)@,
                Event::Head(h) => {
                    let n = h[0] + 0x100 * h[1] + 0x10000 * h[2] + 0x1000000 * h[3];
                    if 0 < n <= 0x100000 {
                        r == Step::ReadBody(n as usize) && final(self)@ == old(self)@
                    } else {
                        r == Step::Done(None) && !final(self)@.connected
                    }
                },
                Event::Body(b) => match json::json_read(b@) {
                    Ok(t) => r is Done && (r->Done_0 matches Some(j) && j.tree() == t)
                        && final(self)@ == old(self)@,
                    Err(_) => r == Step::Done(None) && !final(self)@.connected,
                },
                Event::Failed(_) => r == Step::Done(None) && !final(self)@.connected,
            },
            final(self)@ == (ClientView {
                connected: final(self)@.connected,
                status: final(self)@.status,
                ..old(self)@
            }),
    {
        proof {
            if json::json_bytes(req.tree()).len() <= frame::FRAME_MAX {
                frame_carries_request(req.tree());
            }
        }
        match event {
            Event::Connected => {
                self.connected = true;
                self.send(req)
            },
            Event::ConnectFailed(why) => {
                let s = cat("连接失败: ", why.as_str());
                self.set_status(s.as_str());
                Step::Done(None)
            },
            Event::Written => Step::ReadHead,
            Event::Head(h) => match reply_len(h) {
                Some(n) => Step::ReadBody(n),
                None => self.give_up("响应帧长度非法"),
            },
            Event::Body(b) => match Json::parse(b.as_slice()) {
                Ok(j) => Step::Done(Some(j)),
                Err(e) => self.give_up(e.message.as_str()),
            },
            Event::Failed(why) => self.give_up(why.as_str()),
        }
    }
}

/// The client after a reply with an outcome. The number of characters to delete is kept;
/// a sound tag waits for the host where the outcome names one. The host is told where the
/// key was consumed or the outcome brings a state of its own.
pub open spec fn after_outcome(c: ClientView, o: KeyOutcome, state: StateView) -> ClientView {
    ClientView {
        last_back: o.back,
        sound_pending: match o.sound {
            Some(tag) => if tag@.len() == 0 {
                c.sound_pending
            } else {
                text::c_text(tag@)
            },
            None => c.sound_pending,
        },
        chinese: if o.consumed || o.state is Some {
            state.chinese
        } else {
            c.chinese
        },
        ..c
    }
}

/// The state beside the outcome, where the reply has one that can be read.
pub open spec fn state_beside(a: EngineReply) -> Option<SessionState> {
    if a.body.tree().member("state"@) is Some {
        a.state
    } else {
        None
    }
}

/// What a state says; without one it is empty.
pub open spec fn state_or_empty(s: Option<SessionState>) -> StateView {
    match s {
        Some(s) => s@,
        None => session::empty_state(),
    }
}

/// The state that counts: that of the outcome, else that of the reply, else an empty one.
pub open spec fn state_that_counts(o: KeyOutcome, a: EngineReply) -> StateView {
    match o.state {
        Some(s) => s@,
        None => state_or_empty(state_beside(a)),
    }
}

fn read_state(body: &Json, state: Option<SessionState>) -> (r: SessionState)
    ensures
        r@ == state_or_empty(
            if body.tree().member("state"@) is Some {
                state
            } else {
                None
            },
        ),
{
    if body.get("state").is_none() {
        return SessionState::default();
    }
    match state {
        Some(s) => s,
        None => SessionState::default(),
    }
}

/// What a delivery says, where there is one.
pub open spec fn delivery_view(d: Option<Delivery>) -> Option<DeliveryView> {
    match d {
        Some(d) => Some(d@),
        None => None,
    }
}

/// What a reply does to the client and comes to: nothing where it holds no outcome, a status
/// where it holds one that cannot be read.
pub open spec fn applied(c: ClientView, a: EngineReply, after: ClientView, r: KeyResult) -> bool {
    match (a.body.tree().member("outcome"@), a.outcome) {
        (None, _) => {
            &&& after == c
            &&& !r.consumed && r.back == 0 && r.delivery is None
        },
        (Some(_), None) => {
            &&& after == (ClientView { status: text::c_text("outcome 解析失败"@), ..c })
            &&& !r.consumed && r.back == 0 && r.delivery is None
        },
        (Some(_), Some(o)) => {
            let state = state_that_counts(o, a);
            &&& after == after_outcome(c, o, state)
            &&& r.consumed == o.consumed
            &&& r.back == o.back
            &&& delivery_view(r.delivery) == if o.consumed || o.state is Some {
                Some(
                    DeliveryView {
                        commit: session::delivered_commit(session::opt_text(o.commit)),
                        update: session::panel(state),
                    },
                )
            } else {
                None
            }
        },
    }
}

/// What a key or a choice comes to: without a reply it is not consumed, and nothing changes.
pub open spec fn answered(
    c: ClientView,
    reply: Option<EngineReply>,
    after: ClientView,
    r: KeyResult,
) -> bool {
    match reply {
        Some(a) => applied(c, a, after, r),
        None => after == c && !r.consumed && r.back == 0 && r.delivery is None,
    }
}

/// The client after `reset` or `focus`. Without a reply nothing changes.
pub open spec fn after_state(c: ClientView, reply: Option<EngineReply>) -> ClientView {
    match reply {
        Some(a) => ClientView {
            last_back: 0,
            chinese: state_or_empty(state_beside(a)).chinese,
            ..c
        },
        None => c,
    }
}

/// What the host is told after `reset` or `focus`: of no commit, and of the state.
pub open spec fn told_state(reply: Option<EngineReply>) -> Option<DeliveryView> {
    match reply {
        Some(a) => Some(
            DeliveryView { commit: None, update: session::panel(state_or_empty(state_beside(a))) },
        ),
        None => None,
    }
}

/// The bit mask of a key's answer.
pub open spec fn key_mask(consumed: bool, back: u8) -> int {
    (if consumed { 1int } else { 0int }) + 256 * back
}

impl KeyResult {
    /// The key's answer as a bit mask: [`HUFU_KEY_CONSUMED`], and the number of characters
    /// to delete, shifted by [`HUFU_KEY_BACK_SHIFT`].
    pub fn mask(&self) -> (r: i32)
        ensures
            r == key_mask(self.consumed, self.back),
    {
        let b: i32 = self.back as i32 * 256;
        if self.consumed {
            HUFU_KEY_CONSUMED + b
        } else {
            b
        }
    }
}

impl HufuClient {
    /// Whether the reply to [`request::ping_request`] is that all is well.
    pub fn ping(&self, reply: &Option<Json>) -> (r: bool)
        ensures
            r == (json::bool_of(reply_member(reply_tree(*reply), "ok"@)) == Some(true)),
            r <==> (*reply matches Some(j) && j.tree().member("ok"@) == Some(Tree::Bool(true))),
    {
        match reply {
            Some(j) => j.is_true("ok"),
            None => false,
        }
    }

    /// Whether the reply to [`request::reload_schema_request`] is that the schema was loaded again.
    pub fn reload_schema(&self, reply: &Option<Json>) -> (r: bool)
        ensures
            r == (json::bool_of(reply_member(reply_tree(*reply), "ok"@)) == Some(true)),
            r <==> (*reply matches Some(j) && j.tree().member("ok"@) == Some(Tree::Bool(true))),
    {
        match reply {
            Some(j) => j.is_true("ok"),
            None => false,
        }
    }

    /// Whether the reply to [`request::open_schema_dir_request`] is that the directory was opened.
    pub fn open_schema_dir(&self, reply: &Option<Json>) -> (r: bool)
        ensures
            r == (json::bool_of(reply_member(reply_tree(*reply), "ok"@)) == Some(true)),
            r <==> (*reply matches Some(j) && j.tree().member("ok"@) == Some(Tree::Bool(true))),
    {
        match reply {
            Some(j) => j.is_true("ok"),
            None => false,
        }
    }

    /// The new state of the sound switch after [`request::sound_toggle_request`]: 1, 0 or -1. Where it is
    /// known, the clips are forgotten: which there are may have changed.
    pub fn sound_toggle(&mut self, reply: &Option<Json>) -> (r: i32)
        ensures
            r == flag(json::bool_of(reply_member(reply_tree(*reply), "enabled"@))),
            r == 1 <==> (*reply matches Some(j) && j.tree().member("enabled"@) == Some(
                Tree::Bool(true),
            )),
            r == 0 <==> (*reply matches Some(j) && j.tree().member("enabled"@) == Some(
                Tree::Bool(false),
            )),
            -1 <= r <= 1,
            final(self)@ == if r >= 0 {
                ClientView { sound_clips: Map::empty(), ..old(self)@ }
            } else {
                old(self)@
            },
    {
        let state: i32 = enabled_flag(reply);
        if state >= 0 {
            self.sound_clips.clear();
        }
        state
    }

    /// The state of the sound switch after [`request::sound_state_request`]: 1, 0 or -1.
    pub fn sound_state(&self, reply: &Option<Json>) -> (r: i32)
        ensures
            r == flag(json::bool_of(reply_member(reply_tree(*reply), "enabled"@))),
            r == 1 <==> (*reply matches Some(j) && j.tree().member("enabled"@) == Some(
                Tree::Bool(true),
            )),
            r == 0 <==> (*reply matches Some(j) && j.tree().member("enabled"@) == Some(
                Tree::Bool(false),
            )),
            -1 <= r <= 1,
    {
        enabled_flag(reply)
    }

    /// Takes the sound tag that waits, empty where none does. It waits no more then.
    pub fn take_sound(&mut self) -> (r: String)
        ensures
            r@ == old(self)@.sound_pending,
            final(self)@ == (ClientView { sound_pending: seq![], ..old(self)@ }),
    {
        let mut tag = String::new();
        std::mem::swap(&mut tag, &mut self.sound_pending);
        assert(self.sound_pending@ =~= seq![]);
        tag
    }

    /// What fetching the clip of a tag asks the engine first: nothing for an empty tag; the
    /// volume of the moment where the clip is there; else the clip.
    pub fn sound_fetch_request(&self, tag: &str) -> (r: Option<Json>)
        ensures
            reply_tree(r) == if tag@.len() == 0 {
                None
            } else if self@.sound_clips.contains_key(tag@) {
                Some(request::op_tree("sound_state"@))
            } else {
                Some(request::sound_tree(tag@))
            },
    {
        if tag.unicode_len() == 0 {
            None
        } else if self.sound_clips.contains(tag) {
            Some(sound_state_request())
        } else {
            Some(sound_request(tag))
        }
    }

    /// Fetches the clip of a tag, given the reply to [`Self::sound_fetch_request`]: the volume,
    /// or -1 where there is no clip to be had.
    ///
    /// The bytes of a clip that is there are used again; its volume becomes that of the
    /// reply, and stays where the reply has none. A clip that was not there comes with
    /// the reply, and is kept. The answer and every volume that is kept are in range, and
    /// fetching that fails changes nothing but the status.
    pub fn sound_fetch(&mut self, tag: &str, reply: Option<Json>) -> (r: i32)
        ensures
            ({
                let (c, n) = fetched(old(self)@, tag@, reply_tree(reply));
                final(self)@ == c && r == n
            }),
            -1 <= r <= 100,
            sound::volumes_in_range(final(self)@.sound_clips),
            r < 0 ==> final(self)@ == (ClientView { status: final(self)@.status, ..old(self)@ }),
    {
        proof {
            use_type_invariant(&self.sound_clips);
        }
        if tag.unicode_len() == 0 {
            return -1;
        }
        let mut known: Option<(Vec<u8>, i32)> = None;
        if let Some((b, v)) = self.sound_clips.get(tag) {
            let again = b.clone();
            assert(again@ =~= b@);
            known = Some((again, v));
        }
        if let Some((bytes, had)) = known {
            let live: i32 = sound_volume(&reply);
            let now: i32 = if live >= 0 {
                live
            } else {
                had
            };
            let keep = bytes.clone();
            assert(keep@ =~= bytes@);
            self.sound_bytes = keep;
            self.sound_clips.insert(tag, bytes, now);
            return now;
        }
        let resp = match reply {
            Some(j) => j,
            None => return -1,
        };
        let bytes = match resp.get_str("data") {
            Some(data) => match base64_decode(data) {
                Some(b) => b,
                None => {
                    self.set_status("音效 base64 解码失败");
                    return -1;
                },
            },
            None => return -1,
        };
        if bytes.len() == 0 {
            self.set_status("音效数据为空");
            return -1;
        }
        let v: i32 = volume_of(
            match resp.get_i64("volume") {
                Some(v) => v,
                None => 0,
            },
        );
        let keep = bytes.clone();
        assert(keep@ =~= bytes@);
        self.sound_bytes = keep;
        self.sound_clips.insert(tag, bytes, v);
        v
    }

    /// The bytes of the clip that was fetched last, empty where none was.
    pub fn sound_data(&self) -> (r: &Vec<u8>)
        ensures
            r@ == self@.sound_bytes,
    {
        &self.sound_bytes
    }
}

/// The volume that a reply tells, from 0 to 100; -1 where it tells none.
pub open spec fn live_volume(reply: Option<Tree>) -> i32 {
    match json::i64_of(reply_member(reply, "volume"@)) {
        Some(v) => volume(v),
        None => -1i32,
    }
}

fn sound_volume(reply: &Option<Json>) -> (r: i32)
    ensures
        r == live_volume(reply_tree(*reply)),
{
    match reply {
        Some(j) => match j.get_i64("volume") {
            Some(v) => volume_of(v),
            None => -1,
        },
        None => -1,
    }
}

/// The client and the answer after fetching the clip of a tag.
pub open spec fn fetched(c: ClientView, tag: Seq<char>, reply: Option<Tree>) -> (ClientView, int) {
    if tag.len() == 0 {
        (c, -1)
    } else if c.sound_clips.contains_key(tag) {
        let had = c.sound_clips[tag];
        let now = if live_volume(reply) >= 0 {
            live_volume(reply)
        } else {
            had.volume
        };
        (
            ClientView {
                sound_bytes: had.bytes,
                sound_clips: c.sound_clips.insert(tag, Clip { bytes: had.bytes, volume: now }),
                ..c
            },
            now as int,
        )
    } else {
        match json::str_of(reply_member(reply, "data"@)) {
            None => (c, -1),
            Some(data) => match base64::decoded(vstd::utf8::encode_utf8(data)) {
                None => (ClientView { status: text::c_text("音效 base64 解码失败"@), ..c }, -1),
                Some(bytes) => if bytes.len() == 0 {
                    (ClientView { status: text::c_text("音效数据为空"@), ..c }, -1)
                } else {
                    let now = if live_volume(reply) >= 0 {
                        live_volume(reply)
                    } else {
                        0
                    };
                    (
                        ClientView {
                            sound_bytes: bytes,
                            sound_clips: c.sound_clips.insert(tag, Clip { bytes, volume: now }),
                            ..c
                        },
                        now as int,
                    )
                },
            },
        }
    }
}

/// Whether a number is the code point of a character.
pub open spec fn is_char(u: u32) -> bool {
    u < 0xd800 || 0xe000 <= u <= 0x10ffff
}

/// The configuration value at a dotted path, where there is a snapshot and it has one.
pub open spec fn config_at(c: ClientView, path: Seq<char>) -> Option<Tree> {
    match c.config {
        Some(t) => json::at_path(t, text::split(path, '.')),
        None => None,
    }
}

/// The client after a reply to [`request::config_get_request`], and whether the reply held a
/// snapshot.
pub open spec fn refreshed(c: ClientView, reply: Option<Tree>) -> (ClientView, bool) {
    match reply_member(reply, "config"@) {
        Some(t) => if t is Null {
            (c, false)
        } else {
            (ClientView { config: Some(t), ..c }, true)
        },
        None => (c, false),
    }
}

/// What a client asks to write a patch: the snapshot where there is none; else that the snapshot
/// with the patch merged into it be written.
pub open spec fn patch_asks(c: ClientView, patch: Tree) -> Tree {
    match c.config {
        Some(t) => request::config_set_tree(json::merge(t, patch)),
        None => request::op_tree("config_get"@),
    }
}

/// What the host is to ask to write a patch.
#[derive(Debug)]
pub enum PatchStep {
    /// The snapshot. Where none comes, the patch is not written.
    Fetch(Json),
    /// That the merged configuration be written.
    Write(Json),
}

/// The text of a failed configuration write.
pub open spec fn write_failed(reply: Tree) -> Seq<char> {
    text::c_text(
        "配置写入失败: "@ + match json::str_of(reply.member("error"@)) {
            Some(s) => s,
            None => "未知"@,
        },
    )
}

impl HufuClient {
    /// Takes the configuration snapshot from the reply to [`request::config_get_request`]: whether it held one.
    pub fn refresh_config(&mut self, reply: &Option<Json>) -> (r: bool)
        ensures
            ({
                let (c, held) = refreshed(old(self)@, reply_tree(*reply));
                final(self)@ == c && r == held
            }),
    {
        if let Some(j) = reply {
            if let Some(c) = j.get("config") {
                if !c.is_null() {
                    self.config = Some(c.copy());
                    return true;
                }
            }
        }
        false
    }

    /// The configuration value at a dotted path.
    fn config_get(&self, path: &str) -> (r: Option<&Json>)
        ensures
            json::tree_of(r) == config_at(self@, path@),
    {
        match &self.config {
            Some(c) => c.at(path),
            None => None,
        }
    }

    /// What to ask next to write a patch; see [`patch_asks`]. The reply to a fetch goes to
    /// [`Self::refresh_config`], the reply to a write to [`Self::config_patch`].
    pub fn config_patch_step(&self, patch: &Json) -> (r: PatchStep)
        ensures
            match r {
                PatchStep::Fetch(q) => self@.config is None && q.tree() == patch_asks(
                    self@,
                    patch.tree(),
                ),
                PatchStep::Write(q) => self@.config is Some && q.tree() == patch_asks(
                    self@,
                    patch.tree(),
                ),
            },
    {
        match &self.config {
            Some(c) => {
                let mut merged = c.copy();
                merge_json(&mut merged, patch);
                PatchStep::Write(config_set_request(merged))
            },
            None => PatchStep::Fetch(config_get_request()),
        }
    }

    /// Takes the reply to the write of a patch: whether the engine wrote it. Then the
    /// merged configuration is the snapshot; else the snapshot stays, and the status says
    /// why where the engine answered.
    pub fn config_patch(&mut self, patch: &Json, reply: &Option<Json>) -> (r: bool)
        ensures
            match (old(self)@.config, reply_tree(*reply)) {
                (Some(t), Some(a)) => if json::bool_of(a.member("ok"@)) == Some(true) {
                    r && final(self)@ == (ClientView {
                        config: Some(json::merge(t, patch.tree())),
                        ..old(self)@
                    })
                } else {
                    !r && final(self)@ == (ClientView { status: write_failed(a), ..old(self)@ })
                },
                _ => !r && final(self)@ == old(self)@,
            },
    {
        let mut merged = match &self.config {
            Some(c) => c.copy(),
            None => return false,
        };
        let resp = match reply {
            Some(j) => j,
            None => return false,
        };
        if resp.is_true("ok") {
            merge_json(&mut merged, patch);
            self.config = Some(merged);
            return true;
        }
        let s = match resp.get_str("error") {
            Some(e) => cat("配置写入失败: ", e),
            None => cat("配置写入失败: ", "未知"),
        };
        self.set_status(s.as_str());
        false
    }

    /// The truth value at a dotted path: 1, 0 or -1.
    pub fn config_bool(&self, path: &str) -> (r: i32)
        ensures
            r == flag(json::bool_of(config_at(self@, path@))),
    {
        match self.config_get(path) {
            Some(v) => match v.as_bool() {
                Some(true) => 1,
                Some(false) => 0,
                None => -1,
            },
            None => -1,
        }
    }

    /// The whole number at a dotted path.
    pub fn config_int(&self, path: &str) -> (r: Option<i64>)
        ensures
            r == json::i64_of(config_at(self@, path@)),
    {
        match self.config_get(path) {
            Some(v) => v.as_i64(),
            None => None,
        }
    }

    /// The text at a dotted path, as a C string pointer can show it; empty where there is
    /// none.
    pub fn config_str_ptr(&self, path: &str) -> (r: String)
        ensures
            r@ == match json::str_of(config_at(self@, path@)) {
                Some(s) => text::c_text(s),
                None => seq![],
            },
    {
        match self.config_get(path) {
            Some(v) => match v.as_str() {
                Some(s) => c_text_of(s),
                None => String::new(),
            },
            None => String::new(),
        }
    }

    /// Builds the reverse lookup index from the texts of the three files, each as far as
    /// it could be read: whether the index is of use. One that is not leaves none.
    pub fn char_lookup_init(
        &mut self,
        pinyin: Option<String>,
        codes: Option<String>,
        splits: Option<String>,
    ) -> (r: bool)
        ensures
            exists|l: CharLookup|
                {
                    &&& l.pinyin_map() == crate::lookup::optional_pairs(
                        crate::lookup::optional_view(pinyin),
                    )
                    &&& l.code_map() == crate::lookup::optional_codes(
                        crate::lookup::optional_view(codes),
                    )
                    &&& l.split_map() == crate::lookup::optional_pairs(
                        crate::lookup::optional_view(splits),
                    )
                    &&& r == #[trigger] l.usable()
                    &&& final(self)@ == (ClientView {
                        char_lookup: if r {
                            Some(l)
                        } else {
                            None
                        },
                        ..old(self)@
                    })
                },
    {
        let lookup = CharLookup::load(pinyin, codes, splits);
        let usable = lookup.is_usable();
        let ghost l = lookup;
        if usable {
            self.char_lookup = Some(lookup);
        } else {
            self.char_lookup = None;
        }
        assert(usable == l.usable());
        usable
    }

    /// What the index says of the character with this code point, as a C string pointer
    /// can show it; empty without an index, and for a number that is no character.
    pub fn char_lookup(&self, ucs4: u32) -> (r: String)
        ensures
            r@ == match self@.char_lookup {
                Some(l) => if is_char(ucs4) {
                    text::c_text(l.row_of(ucs4))
                } else {
                    seq![]
                },
                None => seq![],
            },
    {
        if !(ucs4 < 0xd800 || (0xe000 <= ucs4 && ucs4 <= 0x10ffff)) {
            return String::new();
        }
        match &self.char_lookup {
            Some(l) => {
                let row = l.row_at(ucs4);
                c_text_of(row.as_str())
            },
            None => String::new(),
        }
    }

    /// Takes a reply to a key or to a choice of candidate.
    ///
    /// A key that was consumed, or whose outcome brings a state, is told to the host: its commit,
    /// and the state of the outcome before one beside it.
    pub fn apply_outcome_response(&mut self, a: EngineReply) -> (r: KeyResult)
        ensures
            applied(old(self)@, a, final(self)@, r),
            a.body.tree().member("outcome"@) is Some ==> (a.outcome matches Some(o) ==> {
                &&& r.consumed == o.consumed
                &&& r.back == o.back
                &&& final(self)@.last_back == o.back
                &&& r.delivery is Some <==> o.consumed || o.state is Some
                &&& o.sound is None ==> final(self)@.sound_pending == old(self)@.sound_pending
                &&& (o.sound matches Some(tag) ==> (tag@.len() > 0 && !tag@.contains('\0')
                    ==> final(self)@.sound_pending == tag@) && (tag@.len() == 0
                    ==> final(self)@.sound_pending == old(self)@.sound_pending))
                &&& (o.state matches Some(s) ==> final(self)@.chinese == s.chinese && (r.delivery
                    matches Some(d) && d@.update == session::panel(s@)))
                &&& (o.consumed && o.state is None && a.body.tree().member("state"@) is Some ==> (
                a.state matches Some(s) ==> final(self)@.chinese == s.chinese && (r.delivery
                    matches Some(d) && d@.update == session::panel(s@))))
                &&& (r.delivery matches Some(d) ==> d@.commit == match o.commit {
                    Some(t) => session::delivered_commit(Some(t@)),
                    None => None,
                })
            }),
            a.body.tree().member("outcome"@) is None || a.outcome is None ==> !r.consumed && r.back
                == 0 && r.delivery is None && final(self)@ == (ClientView {
                status: final(self)@.status,
                ..old(self)@
            }),
            final(self)@ == (ClientView {
                status: final(self)@.status,
                chinese: final(self)@.chinese,
                last_back: final(self)@.last_back,
                sound_pending: final(self)@.sound_pending,
                ..old(self)@
            }),
    {
        let EngineReply { body, outcome, state: beside } = a;
        if body.get("outcome").is_none() {
            return KeyResult { consumed: false, back: 0, delivery: None };
        }
        let o = match outcome {
            Some(o) => o,
            None => {
                self.set_status("outcome 解析失败");
                return KeyResult { consumed: false, back: 0, delivery: None };
            },
        };
        self.last_back = o.back;
        if let Some(tag) = &o.sound {
            if tag.as_str().unicode_len() > 0 {
                self.sound_pending = c_text_of(tag.as_str());
            }
        }
        let tell = o.consumed || o.state.is_some();
        let state = match o.state {
            Some(s) => s,
            None => read_state(&body, beside),
        };
        if tell {
            let d = self.deliver(&o.commit, &state);
            KeyResult { consumed: o.consumed, back: o.back, delivery: Some(d) }
        } else {
            KeyResult { consumed: o.consumed, back: o.back, delivery: None }
        }
    }

    /// What the host is told of a commit and a state. The mode of the state is kept.
    pub fn deliver(&mut self, commit: &Option<String>, state: &SessionState) -> (r: Delivery)
        ensures
            final(self)@ == (ClientView { chinese: state@.chinese, ..old(self)@ }),
            r@ == (DeliveryView {
                commit: session::delivered_commit(session::opt_text(*commit)),
                update: session::panel(state@),
            }),
    {
        self.chinese = state.chinese;
        delivery(commit, state)
    }

    /// A key that was answered, or was not: then it is not consumed, and nothing changes.
    pub fn key(&mut self, reply: Option<EngineReply>) -> (r: KeyResult)
        ensures
            answered(old(self)@, reply, final(self)@, r),
    {
        match reply {
            Some(a) => self.apply_outcome_response(a),
            None => KeyResult { consumed: false, back: 0, delivery: None },
        }
    }

    /// A choice of candidate that was answered, or was not.
    pub fn select(&mut self, reply: Option<EngineReply>) -> (r: KeyResult)
        ensures
            answered(old(self)@, reply, final(self)@, r),
    {
        match reply {
            Some(a) => self.apply_outcome_response(a),
            None => KeyResult { consumed: false, back: 0, delivery: None },
        }
    }

    /// A [`request::reset_request`] that was answered, or was not.
    pub fn reset(&mut self, reply: Option<EngineReply>) -> (r: Option<Delivery>)
        ensures
            final(self)@ == after_state(old(self)@, reply),
            delivery_view(r) == told_state(reply),
            reply is None ==> r is None && final(self)@ == old(self)@,
            reply is Some ==> r is Some && final(self)@.last_back == 0 && r->0.commit is None,
            reply matches Some(a) ==> (a.body.tree().member("state"@) is Some ==> (a.state matches Some(
                s,
            ) ==> r->0@.update == session::panel(s@) && final(self)@.chinese == s.chinese)),
            final(self)@ == (ClientView {
                last_back: final(self)@.last_back,
                chinese: final(self)@.chinese,
                ..old(self)@
            }),
    {
        self.simple_state_op(reply)
    }

    /// A [`request::focus_request`] that was answered, or was not.
    pub fn focus(&mut self, reply: Option<EngineReply>) -> (r: Option<Delivery>)
        ensures
            final(self)@ == after_state(old(self)@, reply),
            delivery_view(r) == told_state(reply),
            reply is None ==> r is None && final(self)@ == old(self)@,
            reply is Some ==> r is Some && final(self)@.last_back == 0 && r->0.commit is None,
            reply matches Some(a) ==> (a.body.tree().member("state"@) is Some ==> (a.state matches Some(
                s,
            ) ==> r->0@.update == session::panel(s@) && final(self)@.chinese == s.chinese)),
            final(self)@ == (ClientView {
                last_back: final(self)@.last_back,
                chinese: final(self)@.chinese,
                ..old(self)@
            }),
    {
        self.simple_state_op(reply)
    }

    fn simple_state_op(&mut self, reply: Option<EngineReply>) -> (r: Option<Delivery>)
        ensures
            final(self)@ == after_state(old(self)@, reply),
            delivery_view(r) == told_state(reply),
    {
        match reply {
            Some(a) => {
                let s = read_state(&a.body, a.state);
                self.last_back = 0;
                Some(self.deliver(&None, &s))
            },
            None => None,
        }
    }

    /// How many characters the last key asked to delete.
    pub fn last_back(&self) -> (r: u8)
        ensures
            r == self@.last_back,
    {
        self.last_back
    }
}

/// A sound tag is taken once: a key without a sound does not bring the taken one back.
pub proof fn sound_taken_once(c: ClientView, o: KeyOutcome, state: StateView)
    requires
        o.sound is None,
    ensures
        after_outcome(ClientView { sound_pending: seq![], ..c }, o, state).sound_pending == Seq::<
            char,
        >::empty(),
{
}

/// A clip that was fetched is used again: its bytes are the same whatever the engine answers
/// later, and its volume is that of the moment, or the last known where that is not told.
pub proof fn clip_is_used_again(
    c: ClientView,
    tag: Seq<char>,
    first: Option<Tree>,
    later: Option<Tree>,
)
    requires
        fetched(c, tag, first).1 >= 0,
    ensures
        ({
            let c1 = fetched(c, tag, first).0;
            let c2 = fetched(c1, tag, later).0;
            &&& c2.sound_bytes == c1.sound_bytes
            &&& fetched(c1, tag, later).1 == if live_volume(later) >= 0 {
                live_volume(later) as int
            } else {
                fetched(c, tag, first).1
            }
        }),
{
}

/// The first fetch of a clip answers with the volume that comes with it, brought into the range
/// from 0 to 100, and with 0 where none comes with it.
pub proof fn first_fetch_tells_volume(c: ClientView, tag: Seq<char>, reply: Option<Tree>)
    requires
        !c.sound_clips.contains_key(tag),
        fetched(c, tag, reply).1 >= 0,
    ensures
        fetched(c, tag, reply).1 == match json::i64_of(reply_member(reply, "volume"@)) {
            Some(v) => volume(v) as int,
            None => 0,
        },
        fetched(c, tag, reply).0.sound_clips[tag].volume == fetched(c, tag, reply).1,
{
}

/// The frame of a request carries it: its head gives the length of its body, and its body is
/// the request.
pub proof fn frame_carries_request(t: Tree)
    requires
        json::json_bytes(t).len() <= frame::FRAME_MAX,
    ensures
        ({
            let f = request_frame(t);
            &&& frame::le4_value(f[0], f[1], f[2], f[3]) == f.len() - 4
            &&& f.skip(4) == json::json_bytes(t)
        }),
{
    frame::head_gives_length(json::json_bytes(t).len() as int);
    assert(request_frame(t).skip(4) =~= json::json_bytes(t));
}

/// The bit mask of a key's answer tells both of its parts.
pub proof fn mask_reads_back(consumed: bool, back: u8)
    ensures
        key_mask(consumed, back) / 256 == back,
        key_mask(consumed, back) % 256 == if consumed {
            HUFU_KEY_CONSUMED as int
        } else {
            0
        },
{
}

/// A break is mended: an exchange that ends without a reply, but for want of a connection,
/// leaves all that the client knows but its connection and its status; what it is asked next
/// begins with a new connection.
pub proof fn break_is_mended(
    c: ClientView,
    t: Tree,
    event: Event,
    after: ClientView,
    next: Tree,
    later: ClientView,
    step: Step,
)
    requires
        !(event is ConnectFailed),
        goes_on(c, t, event, after, Step::Done(None)),
        starts(after, next, later, step),
    ensures
        step == Step::Connect,
        later == (ClientView { connected: false, status: after.status, ..c }),
{
}

/// A patch is written after one fetch at most: with the snapshot that a fetch brought, what is
/// asked next is that it be written with the patch merged into it; a fetch that brings none
/// changes nothing.
pub proof fn patch_follows_fetch(c: ClientView, reply: Option<Tree>, patch: Tree)
    ensures
        refreshed(c, reply).1 ==> (reply_member(reply, "config"@) matches Some(t) && patch_asks(
            refreshed(c, reply).0,
            patch,
        ) == request::config_set_tree(json::merge(t, patch))),
        !refreshed(c, reply).1 ==> refreshed(c, reply).0 == c,
{
}

/// What a patch sets, the configuration says once the patch is written.
pub proof fn patch_reads_back(c: ClientView, config: Tree, patch: Tree, path: Seq<char>)
    requires
        json::at_path(patch, text::split(path, '.')) is Some,
        !(json::at_path(patch, text::split(path, '.'))->0 is Object),
    ensures
        config_at(ClientView { config: Some(json::merge(config, patch)), ..c }, path) == json::at_path(
            patch,
            text::split(path, '.'),
        ),
{
    json::merge_sets(config, patch, text::split(path, '.'));
}

/// A volume that is in range is taken as it is; one beyond it is taken to be the end of the range
/// that is nearer; a louder one is never made softer than another.
pub proof fn volume_is_brought_into_range(v: i64, w: i64)
    ensures
        0 <= volume(v) <= 100,
        0 <= v <= 100 ==> volume(v) == v,
        v < 0 ==> volume(v) == 0,
        v > 100 ==> volume(v) == 100,
        v <= w ==> volume(v) <= volume(w),
{
}

/// A clip that comes with a reply is what the engine put into it: the bytes whose base64 text the
/// reply holds. The clips of other tags stay as they were.
pub proof fn clip_is_what_was_sent(
    c: ClientView,
    tag: Seq<char>,
    reply: Tree,
    data: Seq<char>,
    clip: Seq<u8>,
)
    requires
        tag.len() > 0,
        !c.sound_clips.contains_key(tag),
        clip.len() > 0,
        reply.member("data"@) == Some(Tree::Str(data)),
        vstd::utf8::encode_utf8(data) == base64::encoded(clip),
    ensures
        ({
            let (d, n) = fetched(c, tag, Some(reply));
            &&& n >= 0
            &&& d.sound_bytes == clip
            &&& d.sound_clips.contains_key(tag)
            &&& d.sound_clips[tag].bytes == clip
            &&& forall|t: Seq<char>|
                t != tag ==> (#[trigger] d.sound_clips.contains_key(t) <==> c.sound_clips.contains_key(
                    t,
                )) && d.sound_clips[t] == c.sound_clips[t]
            &&& d.chinese == c.chinese && d.connected == c.connected && d.config == c.config
                && d.sound_pending == c.sound_pending && d.last_back == c.last_back
        }),
{
    base64::decode_encode(clip);
}

/// A clip that is there is not asked for again: its bytes are those that are there, and its
/// volume that of the reply, or the one it had.
pub proof fn known_clip_is_used(c: ClientView, tag: Seq<char>, reply: Option<Tree>)
    requires
        tag.len() > 0,
        c.sound_clips.contains_key(tag),
    ensures
        ({
            let (d, n) = fetched(c, tag, reply);
            &&& d.sound_bytes == c.sound_clips[tag].bytes
            &&& d.sound_clips[tag].bytes == c.sound_clips[tag].bytes
            &&& n == match reply_member(reply, "volume"@) {
                Some(Tree::Int(v)) => if i64::MIN <= v <= i64::MAX {
                    volume(v as i64) as int
                } else {
                    c.sound_clips[tag].volume as int
                },
                _ => c.sound_clips[tag].volume as int,
            }
            &&& d.status == c.status
        }),
{
}

/// A dotted path leads from member to member.
pub proof fn path_leads_through_members(t: Tree, name: Seq<char>, rest: Seq<char>)
    requires
        !name.contains('.'),
    ensures
        json::at_path(t, text::split(name, '.')) == t.member(name),
        json::at_path(t, text::split(name.push('.') + rest, '.')) == match t.member(name) {
            Some(x) => json::at_path(x, text::split(rest, '.')),
            None => None,
        },
{
    assert forall|i: int| 0 <= i < name.len() implies name[i] != '.' by {
        assert(name[i] != '.' || name.contains('.'));
    }
    text::split_whole(name, '.');
    reveal_with_fuel(json::at_path, 2);
    assert(seq![name].drop_first() =~= seq![]);
    text::split_joins_back(rest, '.');
    let parts = seq![name] + text::split(rest, '.');
    text::join_front(name, text::split(rest, '.'), '.');
    assert forall|i: int| 0 <= i < parts.len() implies !(#[trigger] parts[i]).contains('.') by {
        if i > 0 {
            assert(!text::split(rest, '.')[i - 1].contains('.'));
        }
    }
    text::join_splits_back(parts, '.');
    assert(parts.drop_first() =~= text::split(rest, '.'));
}

/// The socket lies in the directory for sockets, and in `/tmp` where there is none.
pub proof fn socket_lies_in_directory(dir: Seq<char>)
    requires
        dir.len() > 0,
    ensures
        dir.last() != '/' ==> socket_path(Some(dir)) == dir + "/hufu-ime.sock"@,
        dir.last() == '/' ==> socket_path(Some(dir)) == dir + "hufu-ime.sock"@,
        socket_path(None) == "/tmp"@ + "/hufu-ime.sock"@,
        socket_path(Some(seq![])) == "/tmp"@ + "/hufu-ime.sock"@,
{
    reveal_strlit("/tmp");
    assert("/tmp"@.last() == 'p');
}

/// An exchange goes its way: with a connection the request is written, then the head of the reply
/// is read, then as many bytes as the head says, and what they say is the reply. Where anything
/// fails there is no reply, and the connection counts as broken. Nothing that the client knows
/// changes but its connection and its status.
pub proof fn exchange_goes_its_way(
    c: ClientView,
    t: Tree,
    event: Event,
    after: ClientView,
    step: Step,
)
    requires
        goes_on(c, t, event, after, step),
    ensures
        after == (ClientView { connected: after.connected, status: after.status, ..c }),
        event is Connected && json::json_bytes(t).len() <= 0x100000 ==> after.connected && step is Write
            && step->Write_0@.skip(4) == json::json_bytes(t) && step->Write_0@.len() == 4
            + json::json_bytes(t).len(),
        event matches Event::ConnectFailed(why) ==> step == Step::Done(None) && after.connected
            == c.connected && after.status == text::c_text("连接失败: "@ + why@),
        event is Written ==> step is ReadHead && after == c,
        event matches Event::Head(h) ==> {
            let n = h[0] + 0x100 * h[1] + 0x10000 * h[2] + 0x1000000 * h[3];
            &&& 0 < n <= 0x100000 ==> step == Step::ReadBody(n as usize) && after == c
            &&& n == 0 || n > 0x100000 ==> step == Step::Done(None) && !after.connected
        },
        event matches Event::Body(b) ==> {
            &&& json::json_read(b@) matches Ok(tree) ==> after == c && (step matches Step::Done(Some(j))
                && j.tree() == tree)
            &&& json::json_read(b@) is Err ==> step == Step::Done(None) && !after.connected
        },
        event matches Event::Failed(why) ==> step == Step::Done(None) && !after.connected
            && after.status == text::c_text("请求失败（已断开）: "@ + why@),
{
    if event is Connected && json::json_bytes(t).len() <= 0x100000 {
        assert(step->Write_0@.skip(4) =~= json::json_bytes(t));
    }
}

/// An exchange starts with the request where there is a connection, and with the wish for one
/// where there is none; a request that is too long for a frame is not sent.
pub proof fn exchange_starts(c: ClientView, t: Tree, after: ClientView, step: Step)
    requires
        starts(c, t, after, step),
    ensures
        !c.connected ==> step is Connect && after == c,
        c.connected && json::json_bytes(t).len() <= 0x100000 ==> after == c && step is Write
            && step->Write_0@.skip(4) == json::json_bytes(t),
        c.connected && json::json_bytes(t).len() > 0x100000 ==> step == Step::Done(None)
            && !after.connected,
{
    if c.connected && json::json_bytes(t).len() <= 0x100000 {
        assert(step->Write_0@.skip(4) =~= json::json_bytes(t));
    }
}

/// A key that is consumed, and an outcome with a state of its own, tell the host of the state: the
/// outcome's own, else that beside it. The mode is then the state's. Any other outcome tells the
/// host nothing and leaves the mode. How many characters go is noted in each case.
pub proof fn outcome_is_told(
    c: ClientView,
    a: EngineReply,
    o: KeyOutcome,
    after: ClientView,
    r: KeyResult,
)
    requires
        a.body.tree().member("outcome"@) is Some,
        a.outcome == Some(o),
        applied(c, a, after, r),
    ensures
        r.consumed == o.consumed,
        r.back == o.back,
        after.last_back == o.back,
        r.delivery is Some <==> o.consumed || o.state is Some,
        r.delivery is None ==> after.chinese == c.chinese,
        r.delivery matches Some(d) ==> after.chinese == d@.update.chinese,
        o.state matches Some(s) ==> (r.delivery matches Some(d) && d@.update == session::panel(s@)),
        o.state is None && o.consumed && a.body.tree().member("state"@) is Some ==> (
        a.state matches Some(s) ==> (r.delivery matches Some(d) && d@.update == session::panel(s@))),
        (r.delivery matches Some(d) && o.commit is None) ==> r.delivery->0@.commit is None,
        after.config == c.config && after.sound_clips == c.sound_clips && after.connected
            == c.connected && after.status == c.status,
        o.sound is None ==> after.sound_pending == c.sound_pending,
        o.sound matches Some(tag) ==> (tag@.len() > 0 && !tag@.contains('\0') ==> after.sound_pending
            == tag@) && (tag@.len() == 0 ==> after.sound_pending == c.sound_pending),
{
}

/// A reply without an outcome, one whose outcome cannot be read, and no reply at all leave the key
/// to the host and tell it nothing.
pub proof fn no_outcome_tells_nothing(
    c: ClientView,
    reply: Option<EngineReply>,
    after: ClientView,
    r: KeyResult,
)
    requires
        answered(c, reply, after, r),
        reply matches Some(a) ==> a.outcome is None || a.body.tree().member("outcome"@) is None,
    ensures
        !r.consumed,
        r.back == 0,
        r.delivery is None,
        after == (ClientView { status: after.status, ..c }),
        reply is None ==> after == c,
{
}

/// A reset tells the host of the state that comes with the reply, and of no commit; the mode is
/// the state's.
pub proof fn reset_tells_state(c: ClientView, a: EngineReply, s: SessionState)
    ensures
        after_state(c, Some(a)).last_back == 0,
        told_state(Some(a)) matches Some(d) && d.commit is None && after_state(c, Some(a)).chinese
            == d.update.chinese,
        a.body.tree().member("state"@) is Some && a.state == Some(s) ==> told_state(Some(a))->0.update
            == session::panel(s@),
        a.body.tree().member("state"@) is None || a.state is None ==> told_state(Some(a))->0.update
            == session::panel(session::empty_state()),
        after_state(c, None) == c,
        told_state(None) is None,
{
}

/// A reply with a configuration becomes the snapshot; one without leaves the one there is.
pub proof fn configuration_becomes_snapshot(c: ClientView, t: Tree, x: Tree)
    ensures
        t.member("config"@) == Some(x) && !(x is Null) ==> refreshed(c, Some(t)).1 && refreshed(
            c,
            Some(t),
        ).0 == (ClientView { config: Some(x), ..c }),
        t.member("config"@) is None || t.member("config"@) == Some(Tree::Null) ==> refreshed(c, Some(t))
            == (c, false),
        refreshed(c, None) == (c, false),
{
}

/// Without a snapshot a patch asks for one first; with one it asks to write it with the patch in
/// it.
pub proof fn patch_asks_for_snapshot(c: ClientView, patch: Tree)
    ensures
        c.config is None ==> patch_asks(c, patch).member("op"@) == Some(Tree::Str("config_get"@)),
        c.config matches Some(t) ==> patch_asks(c, patch).member("op"@) == Some(
            Tree::Str("config_set"@),
        ) && patch_asks(c, patch).member("config"@) == Some(json::merge(t, patch)),
{
    reveal_strlit("op");
    reveal_strlit("config");
    assert("op"@.len() != "config"@.len());
}

/// Fetching a clip that is not to be had answers so and keeps all clips.
pub proof fn missing_clip_is_told(c: ClientView, tag: Seq<char>, reply: Option<Tree>)
    requires
        tag.len() == 0 || (!c.sound_clips.contains_key(tag) && (reply is None || reply->0.member(
            "data"@,
        ) is None)),
    ensures
        fetched(c, tag, reply) == (c, -1int),
{
}

/// The volume that a reply tells is brought into range; one that tells none is known by it.
pub proof fn told_volume_is_in_range(t: Tree, v: i64)
    ensures
        t.member("volume"@) == Some(Tree::Int(v as int)) ==> live_volume(Some(t)) == volume(v),
        t.member("volume"@) is None ==> live_volume(Some(t)) == -1,
        live_volume(None) == -1,
{
}

} // verus!
