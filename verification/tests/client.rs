//! The client of the engine, over exchanges that a made-up engine answers.

use hufu_front::base64::base64_decode;
use hufu_front::client::{
    default_socket_path, enabled_flag, EngineReply, Event, HufuClient, KeyResult, PatchStep, Step,
    HUFU_KEY_BACK_SHIFT, HUFU_KEY_CONSUMED,
};
use hufu_front::json::Json;
use hufu_front::request::{
    config_get_request, focus_request, key_request, open_schema_dir_request, ping_request,
    reload_schema_request, reset_request, select_request, sound_state_request,
    sound_toggle_request, Modifiers,
};
use hufu_front::session::{Candidate, Delivery, KeyOutcome, SessionState};

/// An engine that answers one request after another with these texts, and what it was asked.
struct Engine {
    replies: Vec<String>,
    next: usize,
    requests: Vec<Json>,
}

impl Engine {
    fn new(replies: Vec<&str>) -> Engine {
        Engine {
            replies: replies.iter().map(|s| s.to_string()).collect(),
            next: 0,
            requests: Vec::new(),
        }
    }

    /// Nobody listens.
    fn offline() -> Engine {
        Engine::new(Vec::new())
    }

    fn event(&mut self, step: Step) -> Event {
        match step {
            Step::Connect => {
                if self.next < self.replies.len() {
                    Event::Connected
                } else {
                    Event::ConnectFailed("No such file or directory".to_string())
                }
            }
            Step::Write(frame) => {
                let n = u32::from_le_bytes([frame[0], frame[1], frame[2], frame[3]]) as usize;
                assert_eq!(n, frame.len() - 4);
                self.requests.push(Json::parse(&frame[4..]).unwrap());
                Event::Written
            }
            Step::ReadHead => match self.replies.get(self.next) {
                Some(r) => Event::Head((r.len() as u32).to_le_bytes()),
                None => Event::Failed("failed to fill whole buffer".to_string()),
            },
            Step::ReadBody(n) => {
                let body = self.replies[self.next].as_bytes().to_vec();
                assert_eq!(n, body.len());
                self.next += 1;
                Event::Body(body)
            }
            Step::Done(_) => unreachable!(),
        }
    }

    fn ask(&mut self, c: &mut HufuClient, req: &Json) -> Option<Json> {
        let mut step = c.call(req);
        loop {
            if let Step::Done(reply) = step {
                return reply;
            }
            let event = self.event(step);
            step = c.roundtrip(req, event);
        }
    }

    fn asked(&self, i: usize, path: &str) -> String {
        self.requests[i].at(path).unwrap().as_str().unwrap().to_string()
    }
}

fn text_at(j: &Json, key: &str) -> String {
    j.get_str(key).unwrap_or("").to_string()
}

fn candidate(j: &Json) -> Candidate {
    Candidate {
        text: text_at(j, "text"),
        comment: text_at(j, "comment"),
        commit_override: j.get_str("commit_override").map(|s| s.to_string()),
    }
}

fn session_state(j: &Json) -> SessionState {
    let candidates = match j.get("candidates") {
        Some(Json::Array(v)) => v.iter().map(candidate).collect(),
        _ => Vec::new(),
    };
    SessionState {
        raw: text_at(j, "raw"),
        preedit: text_at(j, "preedit"),
        aux: text_at(j, "aux"),
        candidates,
        selected: j.get_i64("selected").unwrap_or(0) as usize,
        chinese: j.is_true("chinese"),
    }
}

fn engine_reply(j: &Json) -> EngineReply {
    EngineReply {
        body: j.copy(),
        outcome: j.get("outcome").map(|o| KeyOutcome {
            consumed: o.is_true("consumed"),
            commit: o.get_str("commit").map(|s| s.to_string()),
            back: o.get_i64("back").unwrap_or(0) as u8,
            state: o.get("state").map(session_state),
            sound: o.get_str("sound").map(|s| s.to_string()),
        }),
        state: j.get("state").map(session_state),
    }
}

fn bare_reply(text: &str, outcome: Option<KeyOutcome>) -> EngineReply {
    EngineReply { body: Json::parse(text.as_bytes()).unwrap(), outcome, state: None }
}

fn no_mods() -> Modifiers {
    Modifiers { shift: false, ctrl: false, alt: false, meta: false, caps: false }
}

fn press(e: &mut Engine, c: &mut HufuClient, key: &str) -> KeyResult {
    let reply = e.ask(c, &key_request(key, no_mods(), -1));
    c.key(reply.as_ref().map(engine_reply))
}

fn client() -> HufuClient {
    HufuClient::new("/run/user/1000/hufu-ime.sock")
}

fn told(r: &KeyResult) -> &Delivery {
    r.delivery.as_ref().unwrap()
}

#[test]
fn key_commit_update_and_back() {
    let mut e = Engine::new(vec![
        r#"{"outcome": {"consumed": true, "commit": "的", "back": 1,
            "state": {"raw": "u", "preedit": "u", "candidates": [
                {"text": "的", "code": "u", "source": {"kind": "dict"}},
                {"text": "得", "code": "u", "source": {"kind": "dict"}}],
              "page": 0, "page_count": 1, "selected": 1, "mode": "Normal", "chinese": true,
              "full_shape": false, "ascii_punct": false}},
          "state": {"raw": "u", "candidates": [], "page": 0, "page_count": 0,
                    "mode": "Normal", "chinese": true}}"#,
    ]);
    let mut c = client();
    let r = press(&mut e, &mut c, "u");
    assert!(r.consumed);
    assert_eq!(r.back, 1);
    assert_eq!(told(&r).commit.as_deref(), Some("的"));
    let u = &told(&r).update;
    assert_eq!(u.preedit, "u");
    assert_eq!(u.raw, "u");
    assert_eq!(u.texts, vec!["的".to_string(), "得".to_string()]);
    assert_eq!(
        u.commits,
        vec!["的".to_string(), "得".to_string()],
        "上屏文本数组（无 commit_override 时=显示文本）"
    );
    assert_eq!(u.selected, 1);
    assert!(u.chinese);
    assert_eq!(c.last_back(), 1);
    assert_eq!(r.mask(), HUFU_KEY_CONSUMED | (1 << HUFU_KEY_BACK_SHIFT));
}

#[test]
fn passthrough_no_commit() {
    let mut e = Engine::new(vec![
        r#"{"outcome": {"consumed": false},
            "state": {"raw": "", "candidates": [], "page": 0, "page_count": 0,
                      "mode": "Normal", "chinese": true}}"#,
    ]);
    let mut c = client();
    let r = press(&mut e, &mut c, "x");
    assert!(!r.consumed);
    assert_eq!(r.back, 0);
    assert!(r.delivery.is_none());
    assert_eq!(r.mask(), 0);
}

#[test]
fn no_server_passthrough() {
    let mut e = Engine::offline();
    let mut c = client();
    let r = press(&mut e, &mut c, "a");
    assert!(!r.consumed);
    assert_eq!(r.back, 0);
    let reply = e.ask(&mut c, &ping_request());
    assert!(!c.ping(&reply));
    assert_eq!(c.status(), "连接失败: No such file or directory");
}

#[test]
fn flash_frame_raw_empty_with_candidates() {
    let mut e = Engine::new(vec![
        r#"{"outcome": {"consumed": true, "commit": "的",
            "state": {"raw": "", "preedit": "", "candidates": [
                {"text": "的", "code": "u", "source": {"kind": "dict"}},
                {"text": "得", "code": "u", "source": {"kind": "dict"}}],
              "page": 0, "page_count": 1, "selected": 0, "mode": "Normal", "chinese": true,
              "full_shape": false, "ascii_punct": false}}}"#,
    ]);
    let mut c = client();
    let r = press(&mut e, &mut c, "1");
    assert!(r.consumed);
    assert_eq!(told(&r).commit.as_deref(), Some("的"));
    assert_eq!(told(&r).update.preedit, "");
    assert_eq!(told(&r).update.raw, "");
    assert_eq!(told(&r).update.texts.len(), 2);
}

#[test]
fn select_candidate_commits() {
    let mut e = Engine::new(vec![
        r#"{"outcome": {"consumed": true, "commit": "衣",
            "state": {"raw": "", "preedit": "", "candidates": [],
              "page": 0, "page_count": 0, "mode": "Normal", "chinese": true,
              "full_shape": false, "ascii_punct": false}},
          "state": {"raw": "", "candidates": [], "page": 0, "page_count": 0,
                    "mode": "Normal", "chinese": true,
                    "full_shape": false, "ascii_punct": false}}"#,
    ]);
    let mut c = client();
    let reply = e.ask(&mut c, &select_request(0));
    let r = c.select(reply.as_ref().map(engine_reply));
    assert!(r.consumed, "select 应返回已处理");
    assert_eq!(told(&r).commit.as_deref(), Some("衣"));
    assert!(r.delivery.is_some());
    assert_eq!(e.asked(0, "op"), "select");
    assert_eq!(e.requests[0].get_i64("index"), Some(0));
}

/// Asks what the client says is to be asked, until the patch is written or given up.
fn write_patch(e: &mut Engine, c: &mut HufuClient, patch: &Json) -> bool {
    loop {
        match c.config_patch_step(patch) {
            PatchStep::Fetch(req) => {
                let reply = e.ask(c, &req);
                if !c.refresh_config(&reply) {
                    return false;
                }
            }
            PatchStep::Write(req) => {
                let reply = e.ask(c, &req);
                return c.config_patch(patch, &reply);
            }
        }
    }
}

#[test]
fn config_roundtrip_merge_and_get() {
    let mut e = Engine::new(vec![
        r#"{"config": {"candidates": {"page_size": 4, "show_split": true},
                       "input": {"alphabet": "abc", "enter_clear": false},
                       "sound": {"enabled": false, "volume": 50}}}"#,
        r#"{"ok": true}"#,
    ]);
    let mut c = client();
    let reply = e.ask(&mut c, &config_get_request());
    assert!(c.refresh_config(&reply), "拉取配置");
    assert_eq!(c.config_int("candidates.page_size"), Some(4));
    assert_eq!(c.config_bool("candidates.show_split"), 1);
    assert_eq!(c.config_bool("不存在的路径"), -1);

    let patch =
        Json::parse(br#"{"candidates": {"page_size": 6}, "sound": {"enabled": true}}"#).unwrap();
    assert!(write_patch(&mut e, &mut c, &patch));
    assert_eq!(c.config_int("candidates.page_size"), Some(6), "缓存更新");
    assert_eq!(e.requests.len(), 2);
    let posted = &e.requests[1];
    assert_eq!(posted.at("config.candidates.page_size").unwrap().as_i64(), Some(6));
    assert_eq!(
        posted.at("config.candidates.show_split").unwrap().as_bool(),
        Some(true),
        "未提及字段须保留（读-改-写）"
    );
    assert_eq!(posted.at("config.input.alphabet").unwrap().as_str(), Some("abc"));
    assert_eq!(posted.at("config.sound.enabled").unwrap().as_bool(), Some(true));
    assert_eq!(c.config_bool("sound.enabled"), 1);
}

#[test]
fn reset_clears_panel() {
    let mut e = Engine::new(vec![
        r#"{"state": {"raw": "", "preedit": "", "candidates": [],
                      "page": 0, "page_count": 0, "mode": "Normal", "chinese": true}}"#,
    ]);
    let mut c = client();
    let reply = e.ask(&mut c, &reset_request());
    let d = c.reset(reply.as_ref().map(engine_reply)).unwrap();
    assert_eq!(d.update.preedit, "");
    assert_eq!(d.update.raw, "");
    assert!(d.update.texts.is_empty());
    assert!(d.commit.is_none());
    assert_eq!(c.last_back(), 0);
    assert_eq!(e.requests.len(), 1);
    assert_eq!(e.asked(0, "op"), "reset");
}

#[test]
fn focus_tells_the_state() {
    let mut e = Engine::new(vec![
        r#"{"outcome": {"consumed": true, "back": 2}}"#,
        r#"{"state": {"raw": "u", "preedit": "u", "candidates": [], "chinese": false}}"#,
    ]);
    let mut c = client();
    press(&mut e, &mut c, "u");
    assert_eq!(c.last_back(), 2);
    let reply = e.ask(&mut c, &focus_request());
    let d = c.focus(reply.as_ref().map(engine_reply)).unwrap();
    assert_eq!(d.update.raw, "u");
    assert!(!d.update.chinese && !c.chinese);
    assert_eq!(c.last_back(), 0);
    assert_eq!(e.asked(1, "op"), "focus");
    assert!(c.focus(None).is_none());
}

#[test]
fn reload_schema_and_open_dir_requests() {
    let mut e = Engine::new(vec![
        r#"{"ok": true, "current": "虎整句"}"#,
        r#"{"ok": true, "path": "/home/u/.local/share/hufu/码表/虎整句"}"#,
        r#"{"ok": false, "path": "/不存在"}"#,
    ]);
    let mut c = client();
    let reply = e.ask(&mut c, &reload_schema_request());
    assert!(c.reload_schema(&reply), "重载码表：引擎回 ok=true 即成功");
    let reply = e.ask(&mut c, &open_schema_dir_request());
    assert!(c.open_schema_dir(&reply), "打开方案文件夹：ok=true 即成功");
    let reply = e.ask(&mut c, &open_schema_dir_request());
    assert!(!c.open_schema_dir(&reply), "ok=false（方案目录不存在）按失败处理");
    assert_eq!(e.requests.len(), 3);
    assert_eq!(e.asked(0, "op"), "reload_schema");
    assert_eq!(e.asked(1, "op"), "open_schema_dir");
    assert_eq!(e.asked(2, "op"), "open_schema_dir");
}

#[test]
fn sound_toggle_and_state() {
    let mut e = Engine::new(vec![
        r#"{"enabled": false, "volume": 50}"#,
        r#"{"enabled": true}"#,
        r#"{"enabled": true, "volume": 50}"#,
        r#"{}"#,
    ]);
    let mut c = client();
    let reply = e.ask(&mut c, &sound_state_request());
    assert_eq!(c.sound_state(&reply), 0, "默认关");
    let reply = e.ask(&mut c, &sound_toggle_request());
    assert_eq!(c.sound_toggle(&reply), 1, "取反返回新态（开）");
    let reply = e.ask(&mut c, &sound_state_request());
    assert_eq!(c.sound_state(&reply), 1, "再读=开");
    let reply = e.ask(&mut c, &sound_state_request());
    assert_eq!(c.sound_state(&reply), -1, "回包缺 enabled 字段=未知");
    assert_eq!(e.requests.len(), 4);
    assert_eq!(e.asked(0, "op"), "sound_state");
    assert_eq!(e.asked(1, "op"), "sound_toggle");
    assert_eq!(e.asked(2, "op"), "sound_state");
    assert_eq!(e.asked(3, "op"), "sound_state");
}

#[test]
fn menu_ops_offline_semantics() {
    let mut e = Engine::offline();
    let mut c = client();
    let reply = e.ask(&mut c, &reload_schema_request());
    assert!(!c.reload_schema(&reply));
    let reply = e.ask(&mut c, &open_schema_dir_request());
    assert!(!c.open_schema_dir(&reply));
    let reply = e.ask(&mut c, &sound_toggle_request());
    assert_eq!(c.sound_toggle(&reply), -1);
    let reply = e.ask(&mut c, &sound_state_request());
    assert_eq!(c.sound_state(&reply), -1);
}

/// Standard base64, written apart from the decoder.
fn b64(data: &[u8]) -> String {
    const T: &[u8; 64] = b"ABCDEFGHIJKLMNOPQRSTUVWXYZabcdefghijklmnopqrstuvwxyz0123456789+/";
    let mut out = String::new();
    for chunk in data.chunks(3) {
        let b = [chunk[0], *chunk.get(1).unwrap_or(&0), *chunk.get(2).unwrap_or(&0)];
        let n = (u32::from(b[0]) << 16) | (u32::from(b[1]) << 8) | u32::from(b[2]);
        out.push(T[(n >> 18) as usize & 63] as char);
        out.push(T[(n >> 12) as usize & 63] as char);
        out.push(if chunk.len() > 1 { T[(n >> 6) as usize & 63] as char } else { '=' });
        out.push(if chunk.len() > 2 { T[n as usize & 63] as char } else { '=' });
    }
    out
}

#[test]
fn base64_decode_known_vectors_and_bad_input() {
    assert_eq!(base64_decode("UklGRg==").unwrap(), b"RIFF");
    assert_eq!(base64_decode("V0FWRQ==").unwrap(), b"WAVE");
    assert_eq!(base64_decode("aGVsbG8=").unwrap(), b"hello");
    assert_eq!(base64_decode("AAECAwQ=").unwrap(), vec![0, 1, 2, 3, 4]);
    assert_eq!(base64_decode("+/8=").unwrap(), vec![0xfb, 0xff]);
    assert!(base64_decode("").is_none(), "空串");
    assert!(base64_decode("AAA").is_none(), "长度不是 4 的倍数");
    assert!(base64_decode("AA*A").is_none(), "非法字符");
    assert!(base64_decode("A=AA").is_none(), "填充不在末尾");
    assert!(base64_decode("AA=A").is_none(), "填充后还有数据");
    assert!(base64_decode("====").is_none(), "整组填充");
}

#[test]
fn base64_reads_back_every_length() {
    for n in 1..70usize {
        let data: Vec<u8> = (0..n).map(|i| (i * 37 + n) as u8).collect();
        assert_eq!(base64_decode(&b64(&data)).unwrap(), data);
    }
    assert!(base64_decode("AA==AAAA").is_none());
    assert_eq!(hufu_front::base64::b64_val(b'/'), Some(63));
    assert_eq!(hufu_front::base64::b64_val(b'a'), Some(26));
    assert_eq!(hufu_front::base64::b64_val(b'-'), None);
}

#[test]
fn sound_tag_taken_once() {
    let mut e = Engine::new(vec![
        r#"{"outcome": {"consumed": true, "sound": "key"},
            "state": {"raw": "u", "candidates": [], "page": 0, "page_count": 0,
                      "mode": "Normal", "chinese": true}}"#,
        r#"{"outcome": {"consumed": true},
            "state": {"raw": "", "candidates": [], "page": 0, "page_count": 0,
                      "mode": "Normal", "chinese": true}}"#,
    ]);
    let mut c = client();
    assert_eq!(c.take_sound(), "", "还没按键");
    press(&mut e, &mut c, "u");
    assert_eq!(c.take_sound(), "key", "回包里的 tag");
    assert_eq!(c.take_sound(), "", "取走即清空");
    press(&mut e, &mut c, "i");
    assert_eq!(c.take_sound(), "");
    assert_eq!(e.requests.len(), 2);
    assert_eq!(e.asked(0, "op"), "key");
}

fn fetch(e: &mut Engine, c: &mut HufuClient, tag: &str) -> i32 {
    let reply = match c.sound_fetch_request(tag) {
        Some(req) => e.ask(c, &req),
        None => None,
    };
    c.sound_fetch(tag, reply)
}

#[test]
fn sound_fetch_returns_volume_and_bytes() {
    let mut wav = b"RIFF".to_vec();
    wav.extend_from_slice(&[0x24, 0x00, 0x00, 0x00]);
    wav.extend_from_slice(b"WAVEfmt ");
    wav.extend_from_slice(&[0x10, 0x00, 0x00, 0x00]);
    wav.extend(0u8..=63);
    let first = format!("{{\"data\": \"{}\", \"volume\": 42}}", b64(&wav));
    let mut e = Engine::new(vec![first.as_str(), r#"{"enabled": true, "volume": 77}"#]);
    let mut c = client();
    assert_eq!(fetch(&mut e, &mut c, "key"), 42, "成功返回引擎音量");
    assert_eq!(c.sound_data().len(), wav.len(), "长度=WAV 字节数");
    assert_eq!(c.sound_data(), &wav, "字节与 base64 原文一致");
    assert_eq!(fetch(&mut e, &mut c, "key"), 77, "音量随引擎现值生效，不必等开关翻转");
    assert_eq!(c.sound_data().len(), wav.len(), "缓存命中的字节数不变");
    assert_eq!(c.sound_data(), &wav, "缓存命中的字节仍是同一份 WAV");
    assert_eq!(e.requests.len(), 2, "第二次只补一个音量小回包");
    assert_eq!(e.asked(0, "op"), "sound");
    assert_eq!(e.asked(0, "tag"), "key");
    assert_eq!(e.asked(1, "op"), "sound_state");
}

#[test]
fn sound_volume_falls_back_when_state_unavailable() {
    let wav = b"RIFF\x24\x00\x00\x00WAVEfmt \x10\x00\x00\x00".to_vec();
    let first = format!("{{\"data\": \"{}\", \"volume\": 33}}", b64(&wav));
    let mut e = Engine::new(vec![first.as_str(), r#"{"enabled": true}"#]);
    let mut c = client();
    assert_eq!(fetch(&mut e, &mut c, "key"), 33);
    assert_eq!(fetch(&mut e, &mut c, "key"), 33, "取不到现值就沿用上次音量");
    assert_eq!(c.sound_data().len(), wav.len());
}

#[test]
fn sound_fetch_failures_are_silent() {
    let mut e = Engine::new(vec![
        r#"{"data": null, "volume": 50}"#,
        r#"{"error": "未知音效"}"#,
    ]);
    let mut c = client();
    assert_eq!(fetch(&mut e, &mut c, "key"), -1, "data:null");
    assert_eq!(c.sound_data().len(), 0, "失败不产出字节");
    assert!(c.sound_data().is_empty());
    assert_eq!(fetch(&mut e, &mut c, "bogus"), -1, "未知 tag");
    assert_eq!(fetch(&mut e, &mut c, ""), -1, "空 tag");
    assert_eq!(e.requests.len(), 2, "空 tag 不发请求");

    let mut off = client();
    let mut nobody = Engine::offline();
    assert_eq!(fetch(&mut nobody, &mut off, "key"), -1);
    assert_eq!(off.sound_data().len(), 0);
    assert_eq!(off.take_sound(), "");
}

#[test]
fn sound_volume_is_brought_into_range() {
    let mut c = client();
    let over = Json::parse(br#"{"data": "AAAA", "volume": 400}"#).unwrap();
    assert_eq!(c.sound_fetch("a", Some(over)), 100);
    let under = Json::parse(br#"{"data": "AAAA", "volume": -3}"#).unwrap();
    assert_eq!(c.sound_fetch("b", Some(under)), 0);
    let none = Json::parse(br#"{"data": "AAAA"}"#).unwrap();
    assert_eq!(c.sound_fetch("c", Some(none)), 0);
    let louder = Json::parse(br#"{"volume": 101}"#).unwrap();
    assert_eq!(c.sound_fetch("c", Some(louder)), 100);
    let lower = Json::parse(br#"{"volume": -1}"#).unwrap();
    assert_eq!(c.sound_fetch("a", Some(lower)), 0);
    assert_eq!(c.sound_fetch("a", None), 0);
    let bad = Json::parse(br#"{"data": "AAA"}"#).unwrap();
    assert_eq!(c.sound_fetch("d", Some(bad)), -1);
    assert_eq!(c.status(), "音效 base64 解码失败");
    assert_eq!(c.sound_data(), &vec![0u8, 0, 0]);
}

#[test]
fn toggling_forgets_clips() {
    let mut c = client();
    let clip = Json::parse(br#"{"data": "AAAA", "volume": 7}"#).unwrap();
    assert_eq!(c.sound_fetch("key", Some(clip)), 7);
    let asks = c.sound_fetch_request("key").unwrap();
    assert_eq!(asks.get_str("op"), Some("sound_state"));
    assert_eq!(c.sound_toggle(&None), -1);
    assert_eq!(c.sound_fetch_request("key").unwrap().get_str("op"), Some("sound_state"));
    let on = Json::parse(br#"{"enabled": true}"#).unwrap();
    assert_eq!(c.sound_toggle(&Some(on)), 1);
    assert_eq!(c.sound_fetch_request("key").unwrap().get_str("op"), Some("sound"));
}

#[test]
fn char_lookup_reads_pinyin_codes_and_split() {
    let pinyin =
        "中\tzhōng zhòng\r\n的\tdí dì de\r\n𱊳\tlěi\t\r\n坏行没有制表符\r\n多字键\tcuò\r\n";
    let codes =
        "\nname: tiger\nsort: by_weight\ncolumns:\n  - text\n  - code\n  - weight\n...\n\n\
         中\td\t900\n中\tdgs\t900\n的\tu\t800\n的\tuni\t800\n# 注释行\n坏行\n";
    let splits = "中\t口丨\r\n";
    let mut c = client();
    assert!(
        c.char_lookup_init(
            Some(pinyin.to_string()),
            Some(codes.to_string()),
            Some(splits.to_string())
        ),
        "三份数据齐全应可用"
    );
    assert_eq!(
        c.char_lookup('中' as u32),
        "zhōng zhòng\td/dgs\t口丨",
        "拼音原样 + 同字多码 `/` 连接 + 拆分第三列"
    );
    assert_eq!(c.char_lookup('的' as u32), "dí dì de\tu/uni");
    assert_eq!(c.char_lookup('𱊳' as u32), "lěi\t", "尾随空列的行仍可用");
    assert_eq!(c.char_lookup('多' as u32), "", "多字键的行被跳过");
    assert_eq!(c.char_lookup('龘' as u32), "", "三份数据都没有的字");
    assert_eq!(c.char_lookup(0xd800), "");
    assert_eq!(c.char_lookup(0x110000), "");
}

#[test]
fn char_lookup_missing_files_degrade() {
    let mut c = client();
    assert!(!c.char_lookup_init(None, None, None), "目录不存在应判不可用");
    assert_eq!(c.char_lookup('中' as u32), "", "未装载时返回空串");

    assert!(
        c.char_lookup_init(Some("中\tzhōng\n".to_string()), None, None),
        "拼音注释在即算可用"
    );
    assert_eq!(c.char_lookup('中' as u32), "zhōng\t", "码表缺失：虎码列留空");
    assert!(!c.char_lookup_init(None, None, None), "重载到坏目录应清空索引");
    assert_eq!(c.char_lookup('中' as u32), "");
}

#[test]
fn char_lookup_bad_columns_and_rows() {
    let pinyin = "中\tzhōng\n".to_string();
    let bad = "name: tiger\ncolumns:\n  - word\n  - stroke\n...\n中\td\n".to_string();
    let mut c = client();
    assert!(
        c.char_lookup_init(Some(pinyin.clone()), Some(bad), None),
        "拼音注释可用 ⇒ 索引仍可用"
    );
    assert_eq!(c.char_lookup('中' as u32), "zhōng\t", "码表列名不对 ⇒ 无虎码列");

    let good = "name: tiger\ncolumns:\n  - code\n  - text\n...\ndgs\t中\n".to_string();
    assert!(c.char_lookup_init(Some(pinyin), Some(good), None));
    assert_eq!(c.char_lookup('中' as u32), "zhōng\tdgs", "按 columns 声明的列位取字与码");
}

#[test]
fn malformed_outcome_is_told_in_status() {
    let mut c = client();
    let r = c.key(Some(bare_reply(r#"{"outcome": 1}"#, None)));
    assert!(!r.consumed);
    assert_eq!(c.status(), "outcome 解析失败");
    let r = c.key(Some(bare_reply("{}", None)));
    assert!(!r.consumed && r.delivery.is_none());
}

#[test]
fn function_words_are_not_committed() {
    for word in ["{加词}", "{隐藏候选}", "", "a\0b"] {
        let mut c = client();
        let o = KeyOutcome {
            consumed: true,
            commit: Some(word.to_string()),
            back: 0,
            state: None,
            sound: None,
        };
        let r = c.key(Some(bare_reply(r#"{"outcome": {}}"#, Some(o))));
        assert!(r.consumed);
        assert!(told(&r).commit.is_none());
        assert!(!c.chinese);
    }
}

#[test]
fn override_is_what_is_committed() {
    let s = SessionState {
        raw: "ab".to_string(),
        preedit: String::new(),
        aux: "x\0y".to_string(),
        candidates: vec![Candidate {
            text: "显示".to_string(),
            comment: "注".to_string(),
            commit_override: Some("输出".to_string()),
        }],
        selected: 0,
        chinese: true,
    };
    let mut c = client();
    let d = c.deliver(&Some("好".to_string()), &s);
    assert_eq!(d.commit.as_deref(), Some("好"));
    assert_eq!(d.update.preedit, "ab");
    assert_eq!(d.update.aux, "");
    assert_eq!(d.update.texts, vec!["显示".to_string()]);
    assert_eq!(d.update.comments, vec!["注".to_string()]);
    assert_eq!(d.update.commits, vec!["输出".to_string()]);
    assert!(c.chinese);
}

#[test]
fn exchange_breaks_off_and_connects_again() {
    let mut c = client();
    assert_eq!(c.status(), "未连接（/run/user/1000/hufu-ime.sock）");
    let req = ping_request();
    assert!(matches!(c.call(&req), Step::Connect));
    assert!(matches!(c.roundtrip(&req, Event::Connected), Step::Write(_)));
    assert!(c.connected());
    assert!(matches!(c.roundtrip(&req, Event::Written), Step::ReadHead));
    assert!(matches!(c.roundtrip(&req, Event::Head([2, 0, 0, 0])), Step::ReadBody(2)));
    assert!(matches!(c.roundtrip(&req, Event::Head([0, 0, 0, 0])), Step::Done(None)));
    assert_eq!(c.status(), "请求失败（已断开）: 响应帧长度非法");
    assert!(!c.connected());
    assert!(matches!(c.roundtrip(&req, Event::Connected), Step::Write(_)));
    assert!(matches!(c.roundtrip(&req, Event::Head([1, 0, 16, 0])), Step::Done(None)));
    assert!(matches!(c.roundtrip(&req, Event::Connected), Step::Write(_)));
    assert!(matches!(c.roundtrip(&req, Event::Head([0, 0, 16, 0])), Step::ReadBody(1048576)));
    assert!(matches!(c.roundtrip(&req, Event::Body(b"{".to_vec())), Step::Done(None)));
    assert!(c.status().starts_with("请求失败（已断开）: EOF"));
    assert!(matches!(c.roundtrip(&req, Event::Connected), Step::Write(_)));
    assert!(matches!(
        c.roundtrip(&req, Event::Failed("Broken pipe".to_string())),
        Step::Done(None)
    ));
    assert_eq!(c.status(), "请求失败（已断开）: Broken pipe");
    assert!(matches!(c.call(&req), Step::Connect));
}

#[test]
fn request_that_is_too_long_is_not_sent() {
    let mut c = client();
    let req = Json::Str("a".repeat(1048576));
    assert!(matches!(c.roundtrip(&req, Event::Connected), Step::Done(None)));
    assert_eq!(c.status(), "请求失败（已断开）: 请求帧过大");
    let req = Json::Str("a".repeat(1048574));
    assert!(matches!(c.roundtrip(&req, Event::Connected), Step::Write(_)));
}

#[test]
fn patch_fetches_the_snapshot_first() {
    let patch = Json::parse(br#"{"a": {"b": 2}}"#).unwrap();
    let mut e = Engine::new(vec![r#"{"config": {"a": {"b": 1, "c": 3}}}"#, r#"{"ok": true}"#]);
    let mut c = client();
    assert!(write_patch(&mut e, &mut c, &patch));
    assert_eq!(e.requests.len(), 2);
    assert_eq!(e.asked(0, "op"), "config_get");
    assert_eq!(e.asked(1, "op"), "config_set");
    assert_eq!(e.requests[1].at("config.a.b").unwrap().as_i64(), Some(2));
    assert_eq!(e.requests[1].at("config.a.c").unwrap().as_i64(), Some(3));
    assert_eq!(c.config_int("a.b"), Some(2));

    let mut e = Engine::new(vec![r#"{"config": null}"#]);
    let mut c = client();
    assert!(!write_patch(&mut e, &mut c, &patch));
    assert_eq!(e.requests.len(), 1);
    assert_eq!(e.asked(0, "op"), "config_get");
    assert!(!write_patch(&mut Engine::offline(), &mut client(), &patch));
}

#[test]
fn failed_config_write_keeps_snapshot() {
    let mut c = client();
    let patch = Json::parse(br#"{"a": {"b": 2}}"#).unwrap();
    assert!(matches!(c.config_patch_step(&patch), PatchStep::Fetch(_)));
    let got = Json::parse(br#"{"config": {"a": {"b": 1}}}"#).unwrap();
    assert!(c.refresh_config(&Some(got)));
    assert!(matches!(c.config_patch_step(&patch), PatchStep::Write(_)));
    assert!(!c.config_patch(&patch, &None));
    let no = Json::parse(br#"{"ok": false, "error": "disk full"}"#).unwrap();
    assert!(!c.config_patch(&patch, &Some(no)));
    assert_eq!(c.status(), "配置写入失败: disk full");
    let no = Json::parse(br#"{"ok": 1}"#).unwrap();
    assert!(!c.config_patch(&patch, &Some(no)));
    assert_eq!(c.status(), "配置写入失败: 未知");
    assert_eq!(c.config_int("a.b"), Some(1));
    let nothing = Json::parse(br#"{"config": null}"#).unwrap();
    assert!(!c.refresh_config(&Some(nothing)));
    assert_eq!(c.config_int("a.b"), Some(1));
}

#[test]
fn config_text_is_cut_at_no_nul() {
    let mut c = client();
    let got = Json::parse(br#"{"config": {"a": "x", "n": "p\u0000q", "i": 3}}"#).unwrap();
    assert!(c.refresh_config(&Some(got)));
    assert_eq!(c.config_str_ptr("a"), "x");
    assert_eq!(c.config_str_ptr("n"), "");
    assert_eq!(c.config_str_ptr("i"), "");
    assert_eq!(c.config_str_ptr("z.y"), "");
}

#[test]
fn enabled_flag_is_three_valued() {
    assert_eq!(enabled_flag(&None), -1);
    assert_eq!(enabled_flag(&Json::parse(br#"{"enabled": 1}"#).ok()), -1);
    assert_eq!(enabled_flag(&Json::parse(br#"{"enabled": false}"#).ok()), 0);
}

#[test]
fn key_request_tells_line_end_when_known() {
    let m = Modifiers { shift: true, ctrl: false, alt: true, meta: false, caps: true };
    let r = key_request("u", m, 1);
    assert_eq!(r.at("line_end").unwrap().as_bool(), Some(true));
    assert_eq!(r.at("modifiers.shift").unwrap().as_bool(), Some(true));
    assert_eq!(r.at("modifiers.caps").unwrap().as_bool(), Some(true));
    assert_eq!(r.at("modifiers.meta").unwrap().as_bool(), Some(false));
    assert_eq!(key_request("u", m, 0).at("line_end").unwrap().as_bool(), Some(false));
    assert!(key_request("u", m, -1).at("line_end").is_none());
}

#[test]
fn socket_lies_in_runtime_dir() {
    assert_eq!(
        default_socket_path(&Some("/run/user/1000".to_string())),
        "/run/user/1000/hufu-ime.sock"
    );
    assert_eq!(default_socket_path(&Some("/run/".to_string())), "/run/hufu-ime.sock");
    assert_eq!(default_socket_path(&Some(String::new())), "/tmp/hufu-ime.sock");
    assert_eq!(default_socket_path(&None), "/tmp/hufu-ime.sock");
}
