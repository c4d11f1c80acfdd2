//! The text service: the pipe, the language bar, the registration and the dialog.

use hufu_front::addword::{
    button_row, can_preview, command, draw_items, field, form, item_color, load_skin, metrics, opens_at,
    place_number, refresh_preview, simulate, submit, text_w, Command, Face, Item, Kind, Metrics,
    ID_AFT_BASE, ID_AFT_NEW, ID_CANCEL, ID_CODE, ID_CUR_BASE, ID_OK, ID_POS, ID_WORD, NEW_RED,
};
use hufu_front::canduielement::{HostQueries, HuFuCandElement, UPDATED_FLAGS};
use hufu_front::com::{
    register_result, server_entries, server_keys, value_bytes, HuFuClassFactory,
    CLASS_E_NOAGGREGATION, E_FAIL, E_INVALIDARG, E_POINTER, S_FALSE, S_OK,
};
use hufu_front::displayattr::{
    get_display_attribute_info, next_status, HuFuAttrEnum, HuFuAttrInfo, ATTR_GUID, LINE_SOLID,
};
use hufu_front::http::{
    add_request, code_preview, percent_encoded, preview_list, preview_request, quote, reply_ok,
};
use hufu_front::ipc;
use hufu_front::ipc::{KeyReply, PipeEvent, PipeStep, PipeWait};
use hufu_front::json::Json;
use hufu_front::langbar::{
    change_differs, halo, ink_rows, is_chinese, item_info, on_click, on_menu_select,
    push_compartments, recentre, schemas_of, toggled, var_i32, ClickAct, HuFuLangBar, Mode,
    ModeChange, Sinks, RELOAD_TEXT, SETTINGS_TEXT,
};
use hufu_front::request;
use hufu_front::smoke::{
    bmp_dims, body_of, current_skin_of, dll_file, http_request, icon_file, is_ours, skin_saved,
    task_of, Task, DEV_DLL,
};

fn json(s: &str) -> Json {
    Json::parse(s.as_bytes()).unwrap()
}

fn strings(v: &[&str]) -> Vec<String> {
    v.iter().map(|s| s.to_string()).collect()
}

#[test]
fn absent_engine_is_given_up_soon() {
    let mut p = PipeWait::new();
    assert_eq!(p.step(PipeEvent::OpenFailed), PipeStep::Spawn);
    assert_eq!(p.step(PipeEvent::Spawned(false)), PipeStep::Wait(150));
    assert_eq!(p.step(PipeEvent::Waited(true)), PipeStep::Open);
    assert_eq!(p.step(PipeEvent::OpenFailed), PipeStep::Wait(150));
    assert_eq!(p.step(PipeEvent::Waited(true)), PipeStep::Open);
    assert_eq!(p.step(PipeEvent::OpenFailed), PipeStep::GiveUp);
    let mut p = PipeWait::new();
    p.step(PipeEvent::OpenFailed);
    p.step(PipeEvent::Spawned(false));
    assert_eq!(p.step(PipeEvent::Waited(false)), PipeStep::GiveUp);
}

#[test]
fn started_engine_is_given_time() {
    let mut p = PipeWait::new();
    p.step(PipeEvent::OpenFailed);
    assert_eq!(p.step(PipeEvent::Spawned(true)), PipeStep::Wait(1000));
    for _ in 0..2 {
        assert_eq!(p.step(PipeEvent::Waited(true)), PipeStep::Open);
        assert_eq!(p.step(PipeEvent::OpenFailed), PipeStep::Wait(1000));
    }
    p.step(PipeEvent::Waited(true));
    assert_eq!(p.step(PipeEvent::OpenFailed), PipeStep::GiveUp);
    let mut tried = false;
    assert!(ipc::may_start(&mut tried));
    assert!(!ipc::may_start(&mut tried));
}

#[test]
fn engine_is_looked_for_in_order() {
    let v = ipc::server_candidates(
        "C:\\App",
        &Some("D:\\HuFu\\\\".to_string()),
        "C:\\Local",
        &Some("E:\\dev.exe".to_string()),
    );
    assert_eq!(
        v,
        strings(&[
            "C:\\App\\hufu-server.exe",
            "D:\\HuFu\\hufu-server.exe",
            "C:\\Local\\HuFu\\hufu-server.exe",
            "E:\\dev.exe",
        ])
    );
    assert_eq!(ipc::server_candidates("", &None, "", &Some(String::new())).len(), 2);
    assert_eq!(ipc::data_dir(true, "d"), None);
    assert_eq!(ipc::data_dir(false, ""), None);
    assert_eq!(ipc::data_dir(false, "d"), Some("d".to_string()));
    assert_eq!(ipc::command_line("a b", &None), "\"a b\"");
    assert_eq!(ipc::command_line("a", &Some("d".to_string())), "\"a\" --data \"d\"");
}

#[test]
fn registry_texts_end_at_nul() {
    assert_eq!(ipc::registry_text(&vec![0x41, 0, 0x4e, 0x86, 0, 0, 0x42, 0]), vec![0x41, 0x864e]);
    assert_eq!(ipc::install_dir(&vec![0x41, 0, 0x4e, 0x86, 7]), "A虎".to_string());
    assert_eq!(ipc::registry_len(1, 0), None);
    assert_eq!(ipc::registry_len(2, 8), None);
    assert_eq!(ipc::registry_len(1, 8), Some(8));
    assert_eq!(ipc::registry_len(1, 99999), Some(32768));
    assert_eq!(ipc::install_dir(&value_bytes("D:\\虎符\\𱊳")), "D:\\虎符\\𱊳");
}

#[test]
fn pipe_requests_and_replies() {
    assert_eq!(ipc::pipe_frame(&vec![9, 9]), vec![2, 0, 0, 0, 9, 9]);
    let r = ipc::key_request("u", true, false, true);
    assert_eq!(r.at("modifiers.alt").unwrap().as_bool(), Some(true));
    assert!(r.at("modifiers.meta").is_none());
    let k: KeyReply =
        ipc::key_reply(&json(r#"{"outcome": {"consumed": true, "commit": "的", "sound": "key"}}"#))
            .unwrap();
    assert!(k.consumed && k.commit == "的" && k.state.is_null());
    assert_eq!(k.sound.as_deref(), Some("key"));
    let k = ipc::key_reply(&json(r#"{"outcome": {}, "state": {"raw": "u"}}"#)).unwrap();
    assert!(!k.consumed && k.commit.is_empty() && k.sound.is_none());
    assert_eq!(k.state.get_str("raw"), Some("u"));
    assert!(ipc::key_reply(&json("{}")).is_none());
    assert!(ipc::ping(&Some(json(r#"{"ok": true}"#))) && !ipc::ping(&None));
    assert!(ipc::state_reply(&json(r#"{"state": 1}"#)).is_some());
    assert!(ipc::state_reply(&json("{}")).is_none());
    assert!(ipc::reset_session(&Some(json("{}"))) && !ipc::reset_session(&None));
    assert_eq!(ipc::clipboard_request("x.exe").get_str("exe"), Some("x.exe"));
    assert_eq!(ipc::clipboard_reply(&json(r#"{"text": "t"}"#)), Some("t".to_string()));
    assert_eq!(ipc::clipboard_reply(&json(r#"{"text": 1}"#)), None);
}

#[test]
fn mode_is_set_and_pushed() {
    let mut m = Mode::new();
    assert!(is_chinese(&m));
    assert_eq!(m.set_mode(true), ModeChange::Same);
    assert_eq!(m.set_mode(false), ModeChange::Now);
    assert_eq!(push_compartments(&m).conversion, 0);
    m.window = true;
    assert_eq!(m.set_mode(true), ModeChange::Deferred);
    assert_eq!((push_compartments(&m).open, push_compartments(&m).conversion), (1, 1));
    assert!(change_differs(&m, true, Some(0)));
    assert!(!change_differs(&m, true, Some(1)));
    assert!(!change_differs(&m, true, None));
    assert!(!change_differs(&m, false, Some(0)));
    let l = HuFuLangBar::new(11, 12);
    assert_eq!(l.get_icon(&m), 11);
    m.set_mode(false);
    assert_eq!(l.get_icon(&m), 12);
}

#[test]
fn sinks_have_numbers() {
    let mut s: Sinks<char> = Sinks::new();
    assert_eq!(s.advise_sink(false, Some('a')), Err(E_INVALIDARG));
    assert_eq!(s.advise_sink(true, None), Err(E_INVALIDARG));
    assert_eq!(s.advise_sink(true, Some('a')), Ok(0x4846_0001));
    assert_eq!(s.advise_sink(true, Some('b')), Ok(0x4846_0002));
    assert_eq!(s.unadvise_sink(7), Err(E_INVALIDARG));
    assert_eq!(s.unadvise_sink(0x4846_0001), Ok(()));
    assert_eq!(s.list, vec![(0x4846_0002, 'b')]);
    assert_eq!(s.unadvise_sink(0x4846_0001), Err(E_INVALIDARG));
}

#[test]
fn item_is_described() {
    let i = item_info();
    assert_eq!((i.style, i.sort, i.description.len()), (0x10002, 1, 32));
    let name: Vec<u16> = "虎符输入法".encode_utf16().collect();
    assert_eq!(&i.description[..5], name.as_slice());
    assert!(i.description[5..].iter().all(|u| *u == 0));
    let mut v = vec![0u8; 16];
    v[0] = 3;
    v[8] = 0xfe;
    v[9] = 0xff;
    v[10] = 0xff;
    v[11] = 0xff;
    assert_eq!(var_i32(&v), Some(-2));
    v[0] = 2;
    assert_eq!(var_i32(&v), None);
}

#[test]
fn menu_of_code_tables() {
    let s = schemas_of(&Some(json(r#"{"schemas": ["虎单", 1, "虎整句"], "current": "虎整句"}"#)));
    assert_eq!(s.names, strings(&["虎单", "虎整句"]));
    let m = s.menu();
    assert_eq!(m.iter().map(|i| i.id).collect::<Vec<usize>>(), vec![100, 101, 0, 2, 1]);
    assert_eq!(m.iter().map(|i| i.checked).collect::<Vec<bool>>(), vec![false, true, false, false, false]);
    assert_eq!(m[3].text.as_deref(), Some(RELOAD_TEXT));
    assert_eq!(m[4].text.as_deref(), Some(SETTINGS_TEXT));
    assert_eq!(s.choice(101).unwrap().get_str("name"), Some("虎整句"));
    assert_eq!(s.choice(101).unwrap().get_str("op"), Some("set_schema"));
    assert_eq!(s.choice(1).unwrap().get_str("op"), Some("settings"));
    assert_eq!(s.choice(2).unwrap().get_str("op"), Some("reload_schema"));
    assert!(s.choice(0).is_none() && s.choice(102).is_none() && s.choice(-1).is_none());
    let none = schemas_of(&None);
    assert_eq!(none.menu().len(), 2);
    assert_eq!(on_menu_select(1).unwrap().get_str("op"), Some("settings"));
    assert!(on_menu_select(2).is_none());
}

#[test]
fn clicks_on_the_item() {
    assert_eq!(on_click(1), ClickAct::Menu);
    assert_eq!(on_click(2), ClickAct::Toggle);
    assert_eq!(toggled(true, &None), None);
    assert_eq!(toggled(true, &Some(json(r#"{"state": {"chinese": false}}"#))), Some(false));
    assert_eq!(toggled(true, &Some(json(r#"{"state": {}}"#))), Some(true));
}

#[test]
fn glyph_is_centred_with_a_halo() {
    let mut cov = vec![0u8; 1024];
    assert_eq!(ink_rows(&cov), None);
    assert_eq!(recentre(None), 0);
    cov[20 * 32 + 5] = 200;
    cov[25 * 32 + 6] = 6;
    cov[28 * 32 + 6] = 5;
    assert_eq!(ink_rows(&cov), Some((20, 25)));
    assert_eq!(recentre(Some((20, 25))), -7);
    assert_eq!(recentre(Some((0, 4))), 14);
    let h = halo(&cov, -7);
    assert_eq!(h[13 * 32 + 5], (200, 0));
    assert_eq!(h[13 * 32 + 4], (0, 200));
    assert_eq!(h[12 * 32 + 5], (0, 200));
    assert_eq!(h[0], (0, 0));
}

#[test]
fn attribute_is_handed_out_once() {
    let mut e = HuFuAttrEnum::new();
    assert_eq!(e.next(5, false).len(), 0);
    assert_eq!(e.next(0, true).len(), 0);
    let mut other = e.clone();
    assert_eq!(e.next(5, true), vec![HuFuAttrInfo]);
    assert_eq!(e.next(5, true).len(), 0);
    assert_eq!(other.next(1, true).len(), 1);
    e.reset();
    assert_eq!(e.skip(0), S_OK);
    assert_eq!(e.clone().next(1, true).len(), 1);
    assert_eq!(e.clone().skip(1), S_OK);
    assert_eq!(e.skip(u32::MAX), S_FALSE);
    assert_eq!(e.skip(0), S_OK);
    assert_eq!(e.skip(1), S_FALSE);
    assert_eq!(e.next(1, true).len(), 0);
    assert_eq!(HuFuAttrEnum::default().next(1, true).len(), 1);
    assert_eq!(get_display_attribute_info(None), Err(E_INVALIDARG));
    assert_eq!(get_display_attribute_info(Some(1)), Err(E_INVALIDARG));
    let a = get_display_attribute_info(Some(ATTR_GUID)).unwrap();
    assert_eq!(a.get_guid(), ATTR_GUID);
    assert_eq!(a.get_attribute_info(true).unwrap().line, LINE_SOLID);
    assert_eq!(a.get_attribute_info(false), Err(E_POINTER));
}

#[test]
fn status_says_whether_all_came() {
    let mut e = HuFuAttrEnum::new();
    assert_eq!(next_status(0, &e.next(0, true)), S_OK);
    assert_eq!(next_status(1, &e.next(1, false)), S_FALSE);
    assert_eq!(next_status(1, &e.next(1, true)), S_OK);
    assert_eq!(next_status(1, &e.next(1, true)), S_FALSE);
    e.reset();
    assert_eq!(next_status(2, &e.next(2, true)), S_FALSE);
}

#[test]
fn requests_name_their_operation() {
    let all = [
        (request::ping_request(), "ping"),
        (request::state_request(), "state"),
        (request::reset_request(), "reset"),
        (request::focus_request(), "focus"),
        (request::reload_schema_request(), "reload_schema"),
        (request::open_schema_dir_request(), "open_schema_dir"),
        (request::sound_toggle_request(), "sound_toggle"),
        (request::sound_state_request(), "sound_state"),
        (request::config_get_request(), "config_get"),
        (request::schemas_request(), "schemas"),
        (request::toggle_lang_request(), "toggle_lang"),
        (request::settings_request(), "settings"),
        (request::skin_request(), "skin"),
    ];
    for (r, op) in all {
        assert_eq!(String::from_utf8(r.to_bytes()).unwrap(), format!("{{\"op\":\"{op}\"}}"));
    }
}

#[test]
fn element_tells_its_candidates() {
    let mut e: HuFuCandElement<u8> = HuFuCandElement::new();
    assert_eq!(e.get_count(), 0);
    assert_eq!(e.get_string(0), Err(E_FAIL));
    assert_eq!(e.get_document_mgr(), Err(E_FAIL));
    e.state.items = strings(&["的", "得"]);
    e.state.selected = 1;
    e.state.doc = Some(9);
    e.set_shown(true);
    assert!(e.is_shown());
    assert_eq!((e.get_count(), e.get_selection(), e.get_current_page()), (2, 1, 0));
    assert_eq!(e.get_string(1), Ok("得".to_string()));
    assert_eq!(e.get_string(2), Err(E_FAIL));
    assert_eq!(e.get_document_mgr(), Ok(&9));
    assert_eq!(e.get_page_index(0), (1, None));
    assert_eq!(e.get_page_index(3), (1, Some(0)));
    assert_eq!(UPDATED_FLAGS, 2 | 4 | 8 | 16);
    let mut q = HostQueries { count: 59 };
    assert_eq!(q.note(), Some(60));
    assert_eq!(q.note(), None);
}

#[test]
fn factory_and_registration() {
    let f = HuFuClassFactory;
    assert_eq!(f.create_instance(true, true, true), Err(CLASS_E_NOAGGREGATION));
    assert_eq!(f.create_instance(false, false, true), Err(E_POINTER));
    assert_eq!(f.create_instance(false, true, false), Err(E_POINTER));
    assert_eq!(f.create_instance(false, true, true), Ok(()));
    let e = server_entries();
    assert_eq!(e.len(), 7);
    assert_eq!(
        e[2].subkey,
        "Software\\Classes\\CLSID\\{8F5C2A10-3E77-4B9C-A1D4-9E0B7C2F5A88}\\InprocServer32"
    );
    assert_eq!((e[2].name.as_deref(), e[2].value.as_str()), (Some("ThreadingModel"), "Apartment"));
    assert_eq!(
        e[6].subkey,
        "Software\\Microsoft\\CTF\\TIP\\{8F5C2A10-3E77-4B9C-A1D4-9E0B7C2F5A88}\\Profiles\\{8F5C2A10-3E77-4B9C-A1D4-9E0B7C2F5A88}"
    );
    assert_eq!(server_keys().len(), 2);
    assert_eq!(e[0].subkey, server_keys()[0]);
    assert_eq!(register_result(0), 0);
    assert_eq!(register_result(5), 0x8007_0005u32 as i32);
    assert_eq!(value_bytes("A"), vec![0x41, 0, 0, 0]);
}

#[test]
fn helper_reads_its_command_line() {
    assert_eq!(task_of(&strings(&["x"])), Task::Test);
    assert_eq!(task_of(&strings(&["x", "unreg"])), Task::Unregister);
    assert_eq!(task_of(&strings(&["x", "reg", "i.ico"])), Task::Register);
    assert_eq!(task_of(&strings(&["x", "y"])), Task::Test);
    assert_eq!(icon_file(&strings(&["x", "reg", "i.ico"]), &None), "i.ico");
    assert_eq!(icon_file(&strings(&["x", "reg"]), &Some("e".to_string())), "e");
    assert_eq!(icon_file(&strings(&["x", "reg"]), &None), DEV_DLL);
    assert_eq!(dll_file(&None, &Some("b".to_string())), "b");
    assert_eq!(dll_file(&Some("e".to_string()), &Some("b".to_string())), "e");
    assert_eq!(dll_file(&None, &None), DEV_DLL);
    assert!(is_ours("8F5C2A10-3E77-4B9C-A1D4-9E0B7C2F5A88"));
    assert!(!is_ours("8F5C2A11-3E77-4B9C-A1D4-9E0B7C2F5A88"));
}

#[test]
fn helper_talks_to_the_pages() {
    assert_eq!(
        http_request("POST", "/api/skin", "虎"),
        "POST /api/skin HTTP/1.1\r\nHost: 127.0.0.1\r\nContent-Length: 3\r\nConnection: close\r\n\r\n虎"
    );
    assert_eq!(body_of("HTTP/1.1 200\r\n\r\nab\r\n\r\ncd"), "ab");
    assert_eq!(body_of("HTTP/1.1 200\r\n"), "");
    assert_eq!(current_skin_of(r#"{"current":"crystal","x":1}"#), "crystal");
    assert_eq!(current_skin_of("{}"), "hufu-default");
    assert!(skin_saved(r#"{"ok":true}"#) && !skin_saved(r#"{"ok":false}"#));
    let mut b = vec![0u8; 26];
    b[18] = 0x2c;
    b[19] = 1;
    b[22..26].copy_from_slice(&(-40i32).to_le_bytes());
    assert_eq!(bmp_dims(&b), (300, 40));
    b[22..26].copy_from_slice(&i32::MAX.to_le_bytes());
    b[18..22].copy_from_slice(&(-1i32).to_le_bytes());
    assert_eq!(bmp_dims(&b), (-1, i32::MAX));
}

#[test]
fn previews_are_asked_for_and_read() {
    assert_eq!(percent_encoded("a b虎"), "a%20b%E8%99%8E");
    assert_eq!(
        preview_request("u;"),
        "GET /api/code_preview?code=u%3B HTTP/1.1\r\nHost: 127.0.0.1\r\nConnection: close\r\n\r\n"
    );
    assert_eq!(
        code_preview("HTTP/1.1 200 OK\r\n\r\n {\"texts\":[\"的\",1,\"得\"]}"),
        Some(strings(&["的", "得"]))
    );
    assert_eq!(code_preview("HTTP/1.1 200 OK\r\n\r\n{\"texts\":1}"), None);
    assert_eq!(code_preview("HTTP/1.1 200 OK\r\n\r\nnot json"), None);
    assert_eq!(code_preview("HTTP/1.1 200 OK"), None);
    assert_eq!(preview_list(&json(r#"{"texts": []}"#)), Some(Vec::new()));
    assert_eq!(quote("a\"b\\c"), "a\\\"b\\\\c");
    assert!(reply_ok("HTTP/1.1 200 OK") && reply_ok("HTTP/1.0 200 OK"));
    assert!(!reply_ok("HTTP/1.1 404"));
}

#[test]
fn added_word_is_sent() {
    assert_eq!(
        add_request("uu", "虎", 2),
        "POST /api/user_word/add HTTP/1.1\r\nHost: 127.0.0.1\r\nContent-Type: application/json\r\nContent-Length: 34\r\nConnection: close\r\n\r\n{\"code\":\"uu\",\"text\":\"虎\",\"pos\":2}"
    );
}

fn sizes() -> Metrics {
    Metrics { em: 20, em_ascii: 11, lem: 16, lem_ascii: 9, spacing: 4, line_h: 28 }
}

#[test]
fn word_is_put_into_the_list() {
    let t = strings(&["的", "得", "地"]);
    assert_eq!(simulate(&t, "第", 2), (strings(&["的", "第", "得", "地"]), 1));
    assert_eq!(simulate(&t, "地", 1), (strings(&["地", "的", "得"]), 0));
    assert_eq!(simulate(&t, "第", 0).1, 0);
    assert_eq!(simulate(&t, "第", 99).1, 3);
    assert_eq!(text_w("a虎", 11, 20), 31);
}

#[test]
fn lists_are_laid_out() {
    let m = sizes();
    let mut items: Vec<Item> = Vec::new();
    let bottom =
        draw_items(&mut items, &m, 228, "现有：", &strings(&["的", "得"]), Some(1), ID_AFT_BASE);
    assert_eq!(items[0].text, "现有：");
    let words: Vec<(&str, i64, i32)> =
        items.iter().filter(|i| i.face != Face::Label).map(|i| (i.text.as_str(), i.x, i.id)).collect();
    assert_eq!(words.len(), 2);
    assert_eq!(words[0].0, "的");
    assert_eq!(words[0].1, 16 + 48 + 4 + 20);
    assert!(words[0].2 < ID_AFT_NEW && words[1].2 >= ID_AFT_NEW);
    assert_eq!(bottom, 228 + 28);
    let (items, bottom) = refresh_preview(&m, "", "", 0, None);
    assert_eq!((items.len(), items[0].text.as_str(), bottom), (1, "（输入编码后显示该码候选）", 256));
    let (items, _) = refresh_preview(&m, "u", "", 0, None);
    assert_eq!(items[0].text, "（查询失败）");
    let (items, _) = refresh_preview(&m, "u", "", 0, Some(Vec::new()));
    assert!(items.iter().any(|i| i.text == "（无候选——新词将成为首选）" && i.id >= ID_CUR_BASE));
    let long = || Some(strings(&["的", "得"]));
    let wide = Metrics { em: 1 << 30, line_h: (1 << 30) + 14, ..m };
    assert!(can_preview(&wide, "", "第", 1, &long()) && can_preview(&wide, "u", "第", 1, &None));
    assert!(!can_preview(&wide, "u", "第", 1, &long()));
    assert!(!can_preview(&Metrics { em: -1, ..m }, "", "", 0, &None));
    assert!(can_preview(&m, "u", "第", 1, &long()));
    let (items, bottom) = refresh_preview(&m, "u", "第", 1, Some(strings(&["的"])));
    assert!(items.iter().any(|i| i.text == "加入后："));
    assert!(items.iter().any(|i| i.text == "第" && i.face == Face::New));
    assert_eq!(button_row(bottom), (bottom + 10, bottom + 54));
}

#[test]
fn dialog_takes_commands_and_fields() {
    assert_eq!(command(0x0400_0000 | ID_CODE as u64), Command::Refresh);
    assert_eq!(command(0x0300_0000 | ID_CODE as u64), Command::Nothing);
    assert_eq!(command(ID_OK as u64), Command::Submit);
    assert_eq!(command(1), Command::Submit);
    assert_eq!(command(ID_CANCEL as u64), Command::Close);
    assert_eq!(command(2), Command::Close);
    assert_eq!(command(77), Command::Nothing);
    assert_eq!(place_number(" 3 "), 3);
    assert_eq!(place_number("-3"), 0);
    assert_eq!(field(" 虎 "), "虎");
    let n = submit(Some(" 虎 ".to_string()), Some("uu".to_string()), Some("-2".to_string())).unwrap();
    assert_eq!((n.word.as_str(), n.code.as_str(), n.pos), ("虎", "uu", -2));
    assert!(submit(Some(" ".to_string()), Some("uu".to_string()), None).is_none());
    assert!(submit(Some("虎".to_string()), None, None).is_none());
    let n = submit(Some("虎".to_string()), Some("u".to_string()), Some("x".to_string())).unwrap();
    assert_eq!(n.pos, 0);
}

#[test]
fn dialog_takes_its_look_from_the_skin() {
    let s = load_skin(&json("{}"), 14, 0, 1);
    assert_eq!((s.text, s.label, s.hilite), (0xece2d7, 0xb5a68a, 0xf0c78c));
    assert_eq!((s.font_pt, s.label_pt, s.cand_spacing), (20, 13, 2));
    assert_eq!(s.font_face.last(), Some(&0));
    let s = load_skin(&json(r##"{"colors": {"candidate_text_color": "#010203"}}"##), 1, 20, 6);
    assert_eq!((s.text, s.font_pt, s.label_pt, s.cand_spacing), (0x030201, 17, 25, 6));
    assert_eq!(item_color(ID_AFT_NEW, &s), NEW_RED);
    assert_eq!(item_color(ID_CUR_BASE, &s), s.text);
    assert_eq!(item_color(0, &s), s.label);
}

#[test]
fn dialog_has_its_controls() {
    let f = form();
    let kinds: Vec<Kind> = f.iter().map(|c| c.kind).collect();
    assert_eq!(
        kinds,
        vec![
            Kind::Label,
            Kind::Edit,
            Kind::Label,
            Kind::Edit,
            Kind::Label,
            Kind::Digits,
            Kind::Label,
            Kind::Button,
            Kind::Button
        ]
    );
    let ids: Vec<i32> = f.iter().map(|c| c.id).collect();
    assert_eq!(ids, vec![0, ID_WORD, 0, ID_CODE, 0, ID_POS, 0, ID_OK, ID_CANCEL]);
    let ys: Vec<i64> = f.iter().map(|c| c.y).collect();
    assert_eq!(ys, vec![14, 40, 76, 102, 138, 164, 202, 260, 260]);
    assert_eq!((f[1].x, f[1].w, f[1].h), (16, 284, 33));
    assert_eq!((f[8].x, f[8].w, f[8].h, f[8].text), (311, 82, 34, "取消"));
    assert_eq!(opens_at((1920, 1080), 331), (762, 374));
    assert_eq!(opens_at((395, 300), 331), (0, -15));
}

#[test]
fn dialog_sizes_follow_its_skin() {
    let m = metrics(None, 8, 6);
    assert_eq!((m.em, m.em_ascii, m.lem, m.lem_ascii), (16, 8, 12, 6));
    assert_eq!((m.spacing, m.line_h), (6, 34));
    let m = metrics(Some(&load_skin(&json("{}"), 14, 12, 8)), 11, 9);
    assert_eq!((m.em, m.em_ascii, m.lem, m.lem_ascii), (20, 11, 17, 9));
    assert_eq!((m.spacing, m.line_h), (8, 34));
}
