//! Texts, numbers, JSON, colours and the reverse lookup.

use hufu_front::color::{lighten, pack_abgr, pack_bgr, parse_hex, parse_hex4};
use hufu_front::frame::{frame, reply_len, FRAME_MAX};
use hufu_front::json::{add_member, merge_json, texts_in, Json};
use hufu_front::lookup::{
    parse_char_map, parse_rime_dict, rime_columns, single_key_char, CharLookup, CODE_DICT,
    PINYIN_ANNOTATION, SPLIT_ANNOTATION,
};
use hufu_front::number::{decimal_of, decimal_of_len, parse_int};
use hufu_front::skin::{
    anim_on, color_f, color_of, first_show_slide, font_face, layout_bool, layout_str, layout_value,
    mark_enabled, show_index, skin_color4,
};
use hufu_front::sound::SoundClips;
use hufu_front::text::{
    c_text_of, contains_part, find_part, joined, lines_of, same, split_at, starts_with, trimmed,
};
use hufu_front::utf16::{lossy_text, utf16_of, utf16z};

fn json(s: &str) -> Json {
    Json::parse(s.as_bytes()).unwrap()
}

fn chars(s: &str) -> Vec<char> {
    s.chars().collect()
}

fn written(j: &Json) -> String {
    String::from_utf8(j.to_bytes()).unwrap()
}

#[test]
fn members_of_one_name_are_written_once() {
    let twice = Json::Object(vec![
        ("a".to_string(), Json::Int(1)),
        ("b".to_string(), Json::Bool(true)),
        ("a".to_string(), Json::Int(2)),
    ]);
    assert_eq!(twice.get_i64("a"), Some(2));
    assert_eq!(written(&twice), r#"{"a":2,"b":true}"#);
}

#[test]
fn pointers_lead_through_objects_and_lists() {
    let j = json(r#"{"a/b": 1, "m~n": 2, "~1": 3, "l": [10, {"x": 11}, 12], "": {"": 4}}"#);
    let at = |p: &str| j.at_pointer(p).and_then(|v| v.as_i64());
    assert_eq!(at("a~1b"), Some(1));
    assert_eq!(at("m~0n"), Some(2));
    assert_eq!(at("~01"), Some(3));
    assert_eq!(at("a/b"), None);
    assert_eq!(at("l/0"), Some(10));
    assert_eq!(at("l/1/x"), Some(11));
    assert_eq!(at("l/2"), Some(12));
    for p in ["l/3", "l/00", "l/+1", "l/-1", "l/", "l/x", "l/2/0", "l/99999999999999999999"] {
        assert_eq!(at(p), None);
    }
    assert_eq!(at("/"), Some(4));
    assert!(j.at_pointer("").is_some());
    assert!(json(r#"{"a": 1}"#).at_pointer("").is_none());
    assert_eq!(json("[7]").at_pointer("0").and_then(|v| v.as_i64()), Some(7));
}

#[test]
fn keys_of_a_wrapped_skin_are_pointers() {
    let skin = json(
        r##"{"skin": {"layout": {"a": {"b": "in"}, "c~d": "esc", "l": ["x", "y"]},
                      "colors": ["#010203", {"k": "#04050607"}]},
             "layout": {"a/b": "bare", "l/7": "seven"}, "colors": {"2": "#0A0B0C"}}"##,
    );
    assert_eq!(layout_str(&skin, "a/b", ""), "in");
    assert_eq!(layout_str(&skin, "c~0d", ""), "esc");
    assert_eq!(layout_str(&skin, "c~d", "none"), "esc");
    assert_eq!(layout_str(&skin, "l/1", ""), "y");
    assert_eq!(layout_str(&skin, "l/7", ""), "seven");
    assert!(!layout_bool(&skin, "a/b", false));
    assert_eq!(skin_color4(&skin, "0", "#FFFFFFFF"), (1, 2, 3, 255));
    assert_eq!(color_f(&skin, "1/k", "#FFFFFFFF"), (4, 5, 6, 7));
    assert_eq!(color_f(&skin, "2", "#FFFFFFFF"), (10, 11, 12, 255));
}

#[test]
fn json_is_read_and_written() {
    let j = json(r#" {"b": [1, -2, 18446744073709551615, 1.5, "x\n", null, true], "a": {}} "#);
    assert_eq!(j.at("b").map(|b| matches!(b, Json::Array(v) if v.len() == 7)), Some(true));
    assert_eq!(written(&json(r#"{"b":1,"a":"中"}"#)), r#"{"a":"中","b":1}"#);
    assert_eq!(written(&json("[1.5,-3,18446744073709551615]")), "[1.5,-3,18446744073709551615]");
    assert_eq!(written(&Json::Str("a\"b".to_string())), r#""a\"b""#);
    assert_eq!(written(&Json::Uint(7)), "7");
    assert_eq!(written(&Json::Int(-7)), "-7");
    assert_eq!(written(&j.copy()), written(&j));
}

#[test]
fn json_errors_say_why() {
    let e = Json::parse(b"{").unwrap_err();
    assert!(e.message.starts_with("EOF while parsing"));
    assert!(Json::parse(b"").is_err());
    assert!(Json::parse(b"{\"a\":1,}").is_err());
    assert!(Json::parse(&[0xff]).is_err());
    assert!(Json::parse(b"1 2").unwrap_err().message.starts_with("trailing characters"));
}

#[test]
fn json_values_are_what_they_are() {
    let j = json(r#"{"t": true, "f": false, "i": 9, "s": "x", "n": null, "d": 1.0, "big": 9223372036854775808}"#);
    assert!(j.is_true("t") && !j.is_true("f") && !j.is_true("i") && !j.is_true("zz"));
    assert_eq!(j.get_i64("i"), Some(9));
    assert_eq!(j.get_i64("d"), None);
    assert_eq!(j.get_i64("big"), None);
    assert_eq!(j.get_str("s"), Some("x"));
    assert_eq!(j.get_str("i"), None);
    assert!(j.get("n").unwrap().is_null());
    assert!(j.get("s").unwrap().get("x").is_none());
    assert!(j.at("s.x").is_none());
}

#[test]
fn last_member_of_a_name_counts() {
    let mut m = Vec::new();
    add_member(&mut m, "a", Json::Int(1));
    add_member(&mut m, "a", Json::Int(2));
    let o = Json::Object(m);
    assert_eq!(o.get_i64("a"), Some(2));
    assert_eq!(written(&o), r#"{"a":2}"#);
    assert_eq!(json(r#"{"a":1,"a":3}"#).get_i64("a"), Some(3));
}

#[test]
fn merging_goes_member_by_member() {
    let mut a = json(r#"{"x": {"p": 1, "q": 2}, "y": [1, 2], "z": 3}"#);
    merge_json(&mut a, &json(r#"{"x": {"q": 5, "r": {"s": 1}}, "y": [9], "w": null}"#));
    assert_eq!(
        written(&a),
        r#"{"w":null,"x":{"p":1,"q":5,"r":{"s":1}},"y":[9],"z":3}"#
    );
    let again = a.copy();
    merge_json(&mut a, &json(r#"{"x": {"q": 5}}"#));
    assert_eq!(written(&a), written(&again));
    merge_json(&mut a, &json("4"));
    assert_eq!(written(&a), "4");
    merge_json(&mut a, &json(r#"{"k": 1}"#));
    assert_eq!(written(&a), r#"{"k":1}"#);
}

#[test]
fn texts_are_picked_from_a_list() {
    match json(r#"["a", 1, "b", null]"#) {
        Json::Array(v) => assert_eq!(texts_in(&v), vec!["a".to_string(), "b".to_string()]),
        _ => panic!(),
    }
}

#[test]
fn frames_have_bounds() {
    assert_eq!(frame(&b"{}".to_vec()).unwrap(), vec![2, 0, 0, 0, b'{', b'}']);
    assert_eq!(frame(&vec![0; FRAME_MAX]).unwrap()[..4], [0, 0, 16, 0]);
    assert!(frame(&vec![0; FRAME_MAX + 1]).is_none());
    assert_eq!(reply_len([1, 2, 0, 0]), Some(513));
    assert_eq!(reply_len([0, 0, 16, 0]), Some(1048576));
    assert_eq!(reply_len([1, 0, 16, 0]), None);
    assert_eq!(reply_len([0, 0, 0, 0]), None);
    assert_eq!(reply_len([255, 255, 255, 255]), None);
}

#[test]
fn files_of_the_lookup() {
    assert_eq!(PINYIN_ANNOTATION, "数据/注释/拼音.注释");
    assert_eq!(CODE_DICT, "码表/虎码单字/tiger.dict.yaml");
    assert_eq!(SPLIT_ANNOTATION, "数据/拆分/虎码.拆分");
}

#[test]
fn keys_are_single_characters() {
    assert_eq!(single_key_char("中"), Some('中'));
    assert_eq!(single_key_char(""), None);
    assert_eq!(single_key_char("中国"), None);
}

#[test]
fn first_line_of_a_character_counts() {
    let m = parse_char_map("中\ta\n中\tb\n#x\ty\n国\t\n国\tc\td\n\n无\n");
    assert_eq!(m.get(&('中' as u32)).map(|s| s.as_str()), Some("a"));
    assert_eq!(m.get(&('国' as u32)).map(|s| s.as_str()), Some("c"));
    assert_eq!(m.len(), 2);
}

#[test]
fn columns_are_found_by_name() {
    assert_eq!(rime_columns("columns:\n - a\n - code\n - text\n...\n"), Some((2, 1)));
    assert_eq!(rime_columns("columns:\r\n  - text\r\n  - code\r\n"), Some((0, 1)));
    assert_eq!(rime_columns("columns:\n - text\n"), None);
    assert_eq!(rime_columns("name: x\n"), None);
    assert_eq!(rime_columns("columns:\n...\ncolumns:\n - text\n - code\n"), None);
}

#[test]
fn codes_keep_their_order_and_do_not_repeat() {
    let m = parse_rime_dict("# 中\tx\n中\tb\n中\ta\n中\tb\n中国\tc\n国\t\n国\td\t3\n", 0, 1);
    assert_eq!(m.get(&('中' as u32)).unwrap(), &vec!["b".to_string(), "a".to_string()]);
    assert_eq!(m.get(&('国' as u32)).unwrap(), &vec!["d".to_string()]);
    assert_eq!(m.len(), 2);
}

#[test]
fn rows_have_three_columns_at_most() {
    let l = CharLookup::load(None, None, Some("中\t口丨".to_string()));
    assert!(!l.is_usable());
    assert_eq!(l.row('中'), "\t\t口丨");
    assert_eq!(l.row('国'), "");
    let l = CharLookup::load(Some("中\tz".to_string()), None, None);
    assert!(l.is_usable());
    assert_eq!(l.row('中'), "z\t");
    assert_eq!(l.row_at('中' as u32), "z\t");
}

#[test]
fn numbers_are_read_as_rust_reads_them() {
    assert_eq!(parse_int(&chars("42"), 0, 100), Some(42));
    assert_eq!(parse_int(&chars("+42"), 0, 100), Some(42));
    assert_eq!(parse_int(&chars("-42"), -100, 100), Some(-42));
    assert_eq!(parse_int(&chars("-42"), 0, 100), None);
    assert_eq!(parse_int(&chars("101"), 0, 100), None);
    assert_eq!(parse_int(&chars(""), 0, 100), None);
    assert_eq!(parse_int(&chars("+"), 0, 100), None);
    assert_eq!(parse_int(&chars("4 2"), 0, 100), None);
    assert_eq!(parse_int(&chars("99999999999999999999999999999999999999999"), 0, 100), None);
}

#[test]
fn numbers_are_written() {
    assert_eq!(decimal_of(0), "0");
    assert_eq!(decimal_of(-305), "-305");
    assert_eq!(decimal_of(i64::MIN), "-9223372036854775808");
    assert_eq!(decimal_of_len(1048576), "1048576");
}

#[test]
fn texts_are_taken_apart() {
    assert!(same("虎", "虎") && !same("虎", "虎符"));
    assert_eq!(trimmed(&chars("\u{3000} a b\t")), chars("a b"));
    assert_eq!(split_at(&chars("a,,b"), ','), vec![chars("a"), chars(""), chars("b")]);
    assert_eq!(lines_of("a\r\nb\n"), vec![chars("a"), chars("b")]);
    assert_eq!(joined(&vec!["a".to_string(), "b".to_string()], '/'), "a/b");
    assert_eq!(c_text_of("a\0b"), "");
    assert_eq!(c_text_of("ab"), "ab");
    assert!(contains_part("xHuFuCandWin2", "HuFuCand") && !contains_part("HuFuCan", "HuFuCand"));
    assert_eq!(find_part(&chars("a--b--"), "--"), Some(1));
    assert_eq!(find_part(&chars("a-b"), "--"), None);
    assert!(starts_with("HTTP/1.1 200 OK", "HTTP/1.1 200"));
}

#[test]
fn utf16_reads_back() {
    for s in ["", "虎符", "a𱊳b", "\u{10ffff}\u{ffff}"] {
        assert_eq!(utf16_of(s), s.encode_utf16().collect::<Vec<u16>>());
        assert_eq!(lossy_text(&utf16_of(s)), s);
    }
    assert_eq!(utf16z("a"), vec![97, 0]);
    assert_eq!(lossy_text(&vec![0xd800, 0x61, 0xdc00, 0xd83d]), "\u{fffd}a\u{fffd}\u{fffd}");
}

#[test]
fn colours_are_read() {
    assert_eq!(parse_hex4("#202022E6"), Some((0x20, 0x20, 0x22, 0xe6)));
    assert_eq!(parse_hex4("8CC7f0"), Some((0x8c, 0xc7, 0xf0, 255)));
    assert_eq!(parse_hex4("#12345"), None);
    assert_eq!(parse_hex4("#12345g"), None);
    assert_eq!(parse_hex("#8CC7F0"), Some(0xf0c78c));
    assert_eq!(pack_bgr((0x12, 0x34, 0x56, 0x78)), 0x563412);
    assert_eq!(pack_abgr((0x12, 0x34, 0x56, 0x78)), 0x78563412);
    assert!(lighten(0x222e16) >= 0x222e16);
}

#[test]
fn skins_are_read_wrapped_or_bare() {
    let wrapped = json(
        r##"{"skin": {"layout": {"font_face": "X", "horizontal": true, "mark_text": " | "},
            "colors": {"back_color": "#010203"}, "anim": false, "first_show_slide": true}}"##,
    );
    let bare = json(
        r##"{"layout": {"font_face": "", "label_style": "zh"}, "colors": {"back_color": "#zz"},
            "show_index": false}"##,
    );
    assert_eq!(font_face(&wrapped), "X");
    assert_eq!(font_face(&bare), "Microsoft YaHei UI");
    assert!(layout_bool(&wrapped, "horizontal", false));
    assert!(layout_bool(&bare, "horizontal", true));
    assert_eq!(layout_str(&bare, "label_style", "digit"), "zh");
    assert_eq!(layout_str(&bare, "label_format", "%s."), "%s.");
    assert!(layout_value(&bare, "nothing").is_none());
    assert!(mark_enabled(&wrapped) && !mark_enabled(&bare));
    assert!(!anim_on(&wrapped) && anim_on(&bare));
    assert!(first_show_slide(&wrapped) && !first_show_slide(&bare));
    assert!(show_index(&wrapped) && !show_index(&bare));
    assert_eq!(skin_color4(&wrapped, "back_color", "#FFFFFFFF"), (1, 2, 3, 255));
    assert_eq!(skin_color4(&bare, "back_color", "#FFFFFFFF"), (32, 32, 34, 230));
    assert_eq!(skin_color4(&bare, "border_color", "#FFFFFF26"), (255, 255, 255, 0x26));
    assert_eq!(color_f(&wrapped, "back_color", "#FFFFFFFF"), (1, 2, 3, 255));
    assert_eq!(color_of(&wrapped, "text_color", (9, 8, 7, 6)), (9, 8, 7, 6));
}

#[test]
fn clips_are_kept_by_tag() {
    let mut c = SoundClips::new();
    assert!(!c.contains("key"));
    c.insert("key", vec![1], 10);
    c.insert("del", vec![2], 20);
    c.insert("key", vec![3], 30);
    assert_eq!(c.get("key"), Some((&vec![3u8], 30)));
    assert_eq!(c.get("del"), Some((&vec![2u8], 20)));
    c.clear();
    assert!(c.get("key").is_none());
}
