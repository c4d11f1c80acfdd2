//! The candidate windows: the mouse, the places, the moves, the sizes and what is shown.

use hufu_front::candwin;
use hufu_front::candwin::DrawOp;
use hufu_front::candwin2::{
    answer_of, can_patch_font, font_delta_request, is_cand_window, message_of, patch_font,
    switch_aborts, watchdog, CandidateWindowV2, Message, Show, Tick, WatchdogAct, EXPAND_TIMER_ID, FADE_TIMER_ID,
    HIDE_LATER_TIMER_ID, IME_WATCHDOG_TIMER_ID, WM_APP_ANIM, WM_APP_HIDE_CAND, WM_APP_IME_SWITCH,
};
use hufu_front::candwin3;
use hufu_front::candwin3::{covered_pixels, rows_of, spans_of, Area, CandWin3};
use hufu_front::drag::Drag;
use hufu_front::geometry::{Desk, Rect};
use hufu_front::json::Json;
use hufu_front::labels::{fmt_label, shown_comments, trunc_cmt, trunc_tail};
use hufu_front::layered::{copy_rows, has_content, presents};
use hufu_front::morph::{comments_begin, grown_buffer, highlight_slides, Morph, Resize};
use hufu_front::motion::{Motion, Move, Pace};
use hufu_front::place::{pin_hook, tray_like, Focus, Foreground, Frame, Placement};
use hufu_front::rows::{diag_stage, layers, palette, rows, Labels};
use hufu_front::skin::{material_of, Material};
use hufu_front::watch::{
    cloaked_streak, frame_interval, put_back, tick_owner, wheel_delta, Boost, FrameClock, PutBack,
    SwitchKeys, TickOwner, VK_CONTROL, VK_LWIN, VK_SHIFT, VK_SPACE,
};

const DESK: Desk = Desk { x: 0, y: 0, w: 1920, h: 1080 };

fn rect(left: i32, top: i32, right: i32, bottom: i32) -> Rect {
    Rect { left, top, right, bottom }
}

fn frame(anchor: Option<Rect>) -> Frame {
    Frame {
        desk: DESK,
        anchor,
        margin: 10,
        width: 200,
        height: 100,
        unscaled_height: 100,
        focus: Focus::Unknown,
        hidden_for: None,
        pin_hook: None,
        search_host: false,
        foreground: None,
        work_area: rect(0, 0, 1920, 1040),
    }
}

fn strings(v: &[&str]) -> Vec<String> {
    v.iter().map(|s| s.to_string()).collect()
}

fn json(s: &str) -> Json {
    Json::parse(s.as_bytes()).unwrap()
}

#[test]
fn click_does_not_drag() {
    let mut d = Drag::new();
    d.left_down((100, 100));
    assert_eq!(d.mouse_move((104, 96), rect(50, 50, 250, 150), DESK), None);
    assert!(!d.dragging());
    assert!(!d.left_up(rect(50, 50, 250, 150)));
    assert_eq!(d.pinned, None);
}

#[test]
fn click_after_a_lost_release_does_not_pin() {
    let mut d = Drag::new();
    d.left_down((100, 100));
    assert!(d.mouse_move((200, 100), rect(50, 50, 250, 150), DESK).is_some());
    d.left_down((160, 80));
    assert!(!d.dragging());
    for at in [(164, 84), (156, 76), (160, 80)] {
        assert_eq!(d.mouse_move(at, rect(150, 50, 350, 150), DESK), None);
    }
    assert!(!d.left_up(rect(150, 50, 350, 150)));
    assert_eq!((d.pinned, d.drop_at), (None, None));

    d.pinned = Some((7, 8));
    d.left_down((0, 0));
    assert!(!d.left_up(rect(150, 50, 350, 150)));
    assert_eq!(d.pinned, Some((7, 8)));
}

#[test]
fn one_move_out_of_the_zone_pins() {
    let mut d = Drag::new();
    d.left_down((100, 100));
    for at in [(102, 100), (100, 105), (100, 100)] {
        let _ = d.mouse_move(at, rect(50, 50, 250, 150), DESK);
    }
    assert!(d.left_up(rect(60, 61, 260, 161)));
    assert_eq!(d.pinned, Some((60, 61)));
    assert!(!d.capture_changed());
    assert_eq!(d.pinned, Some((60, 61)));
    assert!(d.right_down());
    assert_eq!((d.pinned, d.drop_at, d.unstick), (None, None, true));
}

#[test]
fn dragging_pins_where_it_is_dropped() {
    let mut d = Drag::new();
    d.left_down((100, 100));
    assert_eq!(d.mouse_move((105, 100), rect(50, 50, 250, 150), DESK), Some((50, 50)));
    assert!(d.dragging());
    assert_eq!(d.mouse_move((205, 110), rect(50, 50, 250, 150), DESK), Some((150, 60)));
    assert_eq!(d.mouse_move((-500, 5000), rect(150, 60, 350, 160), DESK), Some((0, 980)));
    assert!(d.left_up(rect(150, 60, 350, 160)));
    assert_eq!(d.pinned, Some((150, 60)));
    assert_eq!(d.drop_at, Some((150, 60)));
    assert!(!d.dragging());
}

#[test]
fn capture_is_taken_back_while_the_button_is_down() {
    let mut d = Drag::new();
    d.left_down((0, 0));
    let _ = d.mouse_move((50, 0), rect(0, 0, 10, 10), DESK);
    assert!(d.capture_changed());
    assert!(d.dragging());
    let mut d = Drag::new();
    assert!(!d.capture_changed());
}

#[test]
fn right_click_unpins() {
    let mut d = Drag::new();
    assert!(!d.right_down());
    d.pinned = Some((3, 4));
    d.drop_at = Some((3, 4));
    assert!(d.right_down());
    assert_eq!((d.pinned, d.drop_at, d.unstick), (None, None, true));
}

#[test]
fn window_goes_below_the_caret_or_above() {
    let mut p = Placement::new();
    let mut d = Drag::new();
    assert_eq!(p.place_frame(&mut d, &frame(Some(rect(500, 300, 510, 320)))), (510, 324));
    let mut p = Placement::new();
    assert_eq!(p.place_frame(&mut d, &frame(Some(rect(500, 1000, 510, 1020)))), (510, 886));
    let mut p = Placement::new();
    assert_eq!(p.place_frame(&mut d, &frame(Some(rect(1900, 300, 1910, 320)))), (1710, 324));
    assert!(p.anchored);
}

#[test]
fn jitter_does_not_move_the_window() {
    let mut p = Placement::new();
    let mut d = Drag::new();
    assert_eq!(p.place_frame(&mut d, &frame(Some(rect(500, 300, 510, 320)))), (510, 324));
    for dy in [2, -2, 3, 1] {
        let r = rect(520, 300 + dy, 530, 320 + dy);
        assert_eq!(p.place_frame(&mut d, &frame(Some(r))).1, 324);
    }
    assert_eq!(p.place_frame(&mut d, &frame(Some(rect(40, 330, 50, 350)))), (50, 354));
}

#[test]
fn scrolling_is_followed() {
    let mut p = Placement::new();
    let mut d = Drag::new();
    p.place_frame(&mut d, &frame(Some(rect(500, 500, 510, 520))));
    p.place_frame(&mut d, &frame(Some(rect(500, 490, 510, 510))));
    let (_, y) = p.place_frame(&mut d, &frame(Some(rect(500, 480, 510, 500))));
    assert_eq!(y, 504);
}

#[test]
fn pinned_window_stays() {
    let mut p = Placement::new();
    let mut d = Drag::new();
    d.pinned = Some((300, 400));
    assert_eq!(p.place_frame(&mut d, &frame(Some(rect(500, 300, 510, 320)))), (310, 410));
    assert_eq!(p.place_frame(&mut d, &frame(None)), (310, 410));
    assert!(d.right_down());
    assert_eq!(p.place_frame(&mut d, &frame(Some(rect(500, 300, 510, 320)))), (510, 324));
    let mut f = frame(Some(rect(500, 300, 510, 320)));
    f.pin_hook = Some((20, 30));
    assert_eq!(p.place_frame(&mut d, &f), (30, 40));
}

#[test]
fn dropped_window_stays_until_it_is_hidden() {
    let mut p = Placement::new();
    let mut d = Drag::new();
    d.drop_at = Some((600, 600));
    assert_eq!(p.place_frame(&mut d, &frame(Some(rect(500, 300, 510, 320)))), (610, 610));
    assert_eq!(p.place_frame(&mut d, &frame(Some(rect(900, 300, 910, 320)))), (610, 610));
    p.hide_now();
    assert_eq!(p.place_frame(&mut d, &frame(Some(rect(900, 300, 910, 320)))), (910, 324));
}

#[test]
fn lost_anchor_keeps_the_place() {
    let mut p = Placement::new();
    let mut d = Drag::new();
    let mut f = frame(Some(rect(500, 300, 510, 320)));
    f.focus = Focus::Window(7, None);
    p.place_frame(&mut d, &f);
    let mut g = frame(None);
    g.focus = Focus::Window(7, Some(rect(0, 0, 300, 20)));
    assert_eq!(p.place_frame(&mut d, &g), (510, 324));
    g.focus = Focus::Window(8, Some(rect(100, 40, 300, 60)));
    assert_eq!(p.place_frame(&mut d, &g), (100, 64));
    p.focus_reset();
    assert_eq!(p.place_frame(&mut d, &frame(None)), (16, 16));
}

#[test]
fn nothing_known_falls_back() {
    let mut d = Drag::new();
    let mut f = frame(None);
    f.foreground = Some(Foreground { tray: false, rect: Some(rect(100, 100, 900, 700)) });
    assert_eq!(Placement::new().place_frame(&mut d, &f), (116, 500));
    f.foreground = Some(Foreground { tray: true, rect: Some(rect(100, 100, 900, 700)) });
    assert_eq!(Placement::new().place_frame(&mut d, &f), (16, 16));
    f.foreground = Some(Foreground { tray: false, rect: Some(rect(0, 0, 1920, 1040)) });
    assert_eq!(Placement::new().place_frame(&mut d, &f), (16, 16));
    f.search_host = true;
    assert_eq!(Placement::new().place_frame(&mut d, &f), (12, 12));
    assert_eq!(
        Placement::new().place_frame(&mut d, &frame(Some(rect(1155, -259, 1163, -240)))),
        (16, 16)
    );
}

#[test]
fn anchors_are_looked_at() {
    let mut p = Placement::new();
    let wide = rect(750, 531, 2334, 553);
    assert_eq!(p.gate_anchor(true, Some(wide)), None);
    assert_eq!(p.gate_anchor(false, Some(wide)), Some(wide));
    let low = rect(1151, 1174, 1153, 1175);
    assert_eq!(p.gate_anchor(false, Some(low)), Some(rect(1151, 1174, 1153, 1196)));
    assert_eq!(Placement::new().gate_anchor(false, Some(low)), Some(low));
}

#[test]
fn low_anchor_places_as_the_whole_line() {
    let tall = show(Some(rect(500, 300, 510, 322)), 1000, false);
    let low = show(Some(rect(560, 300, 562, 301)), 1100, true);
    let full = show(Some(rect(560, 300, 562, 322)), 1100, true);
    let mut d = Drag::new();
    let mut w = CandidateWindowV2::new();
    w.show(&mut d, &tall);
    let mut v = w;
    let a = w.show(&mut d, &low);
    let b = v.show(&mut d, &full);
    assert_eq!(a.0, b.0);
    assert_eq!(a.1.target, (552, 316));
    assert_eq!(a.1.target, b.1.target);
    assert_eq!(w.place.sticky, v.place.sticky);
    assert_eq!(w.place.last_line_h, Some(22));

    let mut u = CandidateWindowV2::new();
    u.show(&mut d, &tall);
    u.show(&mut d, &low);
    u.hide_now(1050);
    u.show(&mut d, &low);
    assert_eq!(u.place.last_line_h, Some(22));

    let mut w = CandidateWindowV2::new();
    assert_eq!(w.place.last_line_h, None);
    let (_, m) = w.show(&mut d, &low);
    assert_eq!(m.target, (552, 295));
    assert_eq!(w.place.last_line_h, None);
}

#[test]
fn small_edit_boxes_hold_the_window_at_their_left() {
    let mut p = Placement::new();
    let mut d = Drag::new();
    let mut f = frame(Some(rect(150, 100, 160, 120)));
    f.focus = Focus::Window(3, Some(rect(40, 98, 240, 122)));
    assert_eq!(p.place_frame(&mut d, &f), (40, 124));
}

#[test]
fn held_window_does_not_go_back() {
    let mut p = Placement::new();
    let mut d = Drag::new();
    p.place_frame(&mut d, &frame(Some(rect(500, 300, 510, 320))));
    p.forward_hold = true;
    assert_eq!(p.place_frame(&mut d, &frame(Some(rect(470, 300, 480, 320)))), (510, 324));
    assert!(p.forward_hold);
    assert_eq!(p.place_frame(&mut d, &frame(Some(rect(540, 300, 550, 320)))), (550, 324));
    assert!(!p.forward_hold);
}

#[test]
fn pins_and_trays_by_name() {
    assert_eq!(pin_hook(" 12 , -7\n"), Some((12, -7)));
    assert_eq!(pin_hook("12"), None);
    assert_eq!(pin_hook("1,2,3"), None);
    assert_eq!(pin_hook("1,x"), None);
    assert!(tray_like("Shell_TrayWnd"));
    assert!(!tray_like("Notepad"));
}

fn step(target: (i64, i64)) -> Move {
    Move {
        target,
        chase: false,
        animated: true,
        visible: true,
        rerender: false,
        last: None,
        last_anchored: true,
        typed_width: None,
        entrance: None,
    }
}

#[test]
fn moves_slide_unless_they_are_short_or_far() {
    let mut m = Motion::new();
    assert!(m.plan(&step((100, 0))));
    let s = m.slide.unwrap();
    assert_eq!((s.from, s.to, s.pace), ((0, 0), (100, 0), Pace::Follow));
    assert_eq!(m.shown_at(&step((100, 0)), (40, 0)), (40, 0));
    assert_eq!(m.slide_tick((70, 0)), (Some((70, 0)), false));
    assert_eq!(m.slide_tick((70, 0)), (None, false));
    assert_eq!(m.slide_tick((98, 0)), (Some((100, 0)), true));
    assert!(!m.plan(&step((102, 0))));
    assert!(!m.plan(&step((700, 0))));
    assert_eq!(m.live, (700, 0));
    let mut far = step((0, 0));
    far.last_anchored = false;
    assert!(m.plan(&far));
    assert_eq!(m.slide.unwrap().pace, Pace::Correct);
}

#[test]
fn window_slides_into_view() {
    let mut m = Motion::new();
    let mut v = step((500, 300));
    v.visible = false;
    assert!(!m.plan(&v));
    v.entrance = Some(40);
    assert!(m.plan(&v));
    assert_eq!(m.live, (460, 300));
    assert_eq!(m.slide.unwrap().pace, Pace::Enter);
    v.entrance = Some(151);
    let mut m = Motion::new();
    assert!(!m.plan(&v));
    assert_eq!(m.shown_at(&v, (0, 0)), (500, 300));
}

#[test]
fn chase_goes_before_a_slide() {
    let mut m = Motion::new();
    m.plan(&step((100, 0)));
    let mut v = step((50, 0));
    v.chase = true;
    assert!(m.plan(&v));
    assert!(m.slide.is_none());
    assert_eq!(m.chase_tick(Some(((0, 0), (20, 0)))), (Some((20, 0)), false));
    assert_eq!(m.chase_tick(Some(((20, 0), (20, 0)))), (None, false));
    assert_eq!(m.chase_tick(None), (Some((50, 0)), true));
    assert!(m.chase_target.is_none());
    m.stop();
    assert_eq!(m.chase_tick(None), (None, true));
}

fn resize(current: (i64, i64), target: (i64, i64)) -> Resize {
    Resize { rerender: false, readback: false, visible: true, enabled: true, current, target }
}

#[test]
fn sizes_change_step_by_step() {
    let mut m = Morph::new();
    assert!(!m.begin(&resize((100, 50), (114, 64))));
    assert!(!m.begin(&resize((0, 0), (153, 105))));
    assert!(m.begin(&resize((100, 50), (160, 50))));
    assert_eq!(m.frame_size((110, 50), (160, 50)), (160, 50));
    assert_eq!(m.tick((120, 50), 100, 17), (false, true));
    assert_eq!(m.tick((130, 50), 110, 17), (false, false));
    assert_eq!(m.shell, Some((130, 50)));
    assert_eq!(m.tick((160, 50), 112, 17), (true, true));
    assert_eq!(m.tick((160, 50), 113, 17), (true, false));
    assert!(m.begin(&resize((160, 50), (100, 50))));
    assert_eq!(m.frame_size((140, 50), (100, 50)), (140, 50));
    m.hide_window();
    assert_eq!((m.anim, m.shell, m.live), (None, None, (0, 0)));
}

#[test]
fn buffers_only_grow() {
    assert_eq!(grown_buffer(None, 10, 10), Some((256, 192)));
    assert_eq!(grown_buffer(Some((256, 192)), 256, 192), None);
    assert_eq!(grown_buffer(Some((256, 192)), 257, 1), Some((320, 192)));
}

#[test]
fn highlight_slides_to_another_candidate() {
    let mut prev = None;
    assert!(!highlight_slides(&mut prev, 0, false, true, true, true));
    assert!(highlight_slides(&mut prev, 1, false, true, true, true));
    assert!(!highlight_slides(&mut prev, 1, false, true, true, true));
    assert!(!highlight_slides(&mut prev, 2, true, true, true, true));
    assert_eq!(prev, Some(1));
    assert!(!highlight_slides(&mut prev, 2, false, true, false, true));
    assert_eq!(prev, Some(2));
}

#[test]
fn remarks_wait_for_their_delay() {
    let mut expanded = true;
    assert!(comments_begin(&mut expanded, false, 200, false));
    assert!(!expanded);
    assert!(!comments_begin(&mut expanded, true, 200, true));
    assert!(!comments_begin(&mut expanded, false, 0, false));
    assert!(expanded);
    assert_eq!(shown_comments(&strings(&["a", "b"]), false), strings(&["", ""]));
    assert_eq!(shown_comments(&strings(&["a", "b"]), true), strings(&["a", "b"]));
}

#[test]
fn labels_by_format_and_style() {
    assert_eq!(fmt_label("%s.", "digit", 1), "1.");
    assert_eq!(fmt_label("%s", "digit", 10), "0");
    assert_eq!(fmt_label("(%s)%s", "zh", 3), "(三)%s");
    assert_eq!(fmt_label("%s", "roman", 10), "Ⅹ");
    assert_eq!(fmt_label("x", "digit", 4), "4.");
    assert_eq!(fmt_label("%s.", "digit", 9), "9.");
    assert_eq!(fmt_label("%s.", "digit", 11), "11.");
    assert_eq!(fmt_label("%s", "", 12), "12");
    assert_eq!(fmt_label("%s", "digit", 100), "100");
}

#[test]
fn long_texts_show_their_end() {
    let fits = |n: usize, most: usize| -> Vec<bool> { (0..=n).map(|k| k <= most).collect() };
    assert_eq!(trunc_tail("abcdefghij", &fits(10, 10)), "abcdefghij");
    assert_eq!(trunc_tail("abcdefghij", &fits(10, 8)), "…cdefghij");
    assert_eq!(trunc_tail("abcdefghij", &fits(10, 2)), "…efghij");
    assert_eq!(trunc_tail("abc", &fits(3, 0)), "…abc");
    assert_eq!(trunc_cmt("abcd", true, &fits(4, 2)), "ab…");
    assert_eq!(trunc_cmt("abcd", false, &fits(4, 2)), "");
    assert_eq!(trunc_cmt("", true, &fits(0, 0)), "");
    assert_eq!(trunc_cmt("ab", true, &vec![false, false, false]), "");
}

#[test]
fn rows_number_and_highlight() {
    let l = Labels { shown: true, format: "%s.".to_string(), style: "digit".to_string() };
    let r = rows(&strings(&["的", "得"]), &strings(&["x"]), 9, &l, 10);
    assert_eq!(r.len(), 2);
    assert_eq!(r[0].label.as_deref(), Some("1."));
    assert_eq!((r[0].comment.as_str(), r[1].comment.as_str()), ("x", ""));
    assert_eq!((r[0].hilited, r[1].hilited), (false, true));
    let many = strings(&["a"; 12]);
    assert_eq!(rows(&many, &Vec::new(), 11, &l, 10).iter().filter(|r| r.hilited).count(), 0);
    let none = Labels { shown: false, ..l };
    assert!(rows(&many, &Vec::new(), 0, &none, 10)[0].label.is_none());
    let r = rows_of(&many, &Vec::new(), 11, true);
    assert_eq!(r.len(), 9);
    assert!(r[8].hilited);
    assert_eq!(r[8].label.as_deref(), Some("9."));
}

#[test]
fn window_palette_and_test_layers() {
    let p = palette(&json(r##"{"colors": {"preedit_back_color": "#11223303"}}"##));
    assert!(p.code_has_back());
    assert_eq!(p.hi_label, (0xff, 0xd7, 0x5e, 0xff));
    assert!(!palette(&json("{}")).code_has_back());
    assert_eq!(diag_stage(" 3\n"), 3);
    assert_eq!(diag_stage("9"), 5);
    assert_eq!(diag_stage("x"), 0);
    let on = |n: u32| (layers(n).shadow, layers(n).back, layers(n).content);
    assert_eq!(on(0), (true, true, true));
    assert_eq!(on(1), (false, false, false));
    assert_eq!(on(3), (false, true, false));
    assert_eq!(on(4), (true, true, false));
    assert_eq!(on(5), (true, true, true));
}

#[test]
fn materials_of_skins() {
    let solid = json(r##"{"colors": {"back_color": "#01020304"}}"##);
    assert_eq!(material_of(&solid), (Material::Solid, (1, 2, 3, 4)));
    let glass = json(r##"{"skin": {"material": {"kind": "glass", "tint": "#0A0B0C"}}}"##);
    assert_eq!(material_of(&glass), (Material::Glass, (10, 11, 12, 255)));
    let frosted = json(r#"{"material": {"kind": "frosted", "tint": "blue"}}"#);
    assert_eq!(material_of(&frosted), (Material::Tinted, (28, 28, 30, 204)));
    let p = candwin3::palette(&json(r##"{"colors": {"label_color": "#010203"}}"##));
    assert_eq!(p.row_colors(false), ((1, 2, 3, 255), p.text, p.comment));
    assert_eq!(p.row_colors(true), (p.hi_label, p.hi_text, p.hi_comment));
    assert_eq!(p.border, (255, 255, 255, 0x26));
}

#[test]
fn spans_are_clipped() {
    assert_eq!(spans_of(Area { x: -2, y: -1, w: 4, h: 3 }, 5, 4), vec![(0, 16), (20, 16)]);
    assert_eq!(spans_of(Area { x: 3, y: 3, w: 4, h: 3 }, 5, 4), vec![(72, 8)]);
    assert!(spans_of(Area { x: 0, y: 9, w: 4, h: 3 }, 5, 4).is_empty());
}

#[test]
fn layered_pictures() {
    assert_eq!(copy_rows(&vec![1, 2, 0, 0, 3, 4], 4, 2, 2), vec![1, 2, 3, 4]);
    let mut px = vec![0u8; 4 * 16 * 2];
    assert!(!has_content(&px, 16, 2));
    px[4 * 8 + 3] = 1;
    assert!(has_content(&px, 16, 2));
    let mut had = false;
    assert!(presents(&mut had, false));
    assert!(presents(&mut had, true));
    assert!(!presents(&mut had, false));
    assert!(presents(&mut had, true));
}

#[test]
fn switching_keys() {
    let mut k = SwitchKeys::new();
    assert!(!k.key(VK_SPACE, false));
    assert!(!k.key(VK_LWIN, false));
    assert!(k.key(VK_SPACE, false));
    assert!(!k.key(VK_SPACE, true));
    assert!(!k.key(VK_LWIN, true));
    assert!(!k.key(VK_SPACE, false));
    assert!(!k.key(VK_CONTROL, false));
    assert!(k.key(VK_SHIFT, false));
    assert!(!k.key(VK_CONTROL, true));
}

#[test]
fn fast_clock_stops_by_itself() {
    let mut b = Boost::new();
    assert!(b.arm(1000, 5));
    b.started(true);
    assert!(!b.arm(1100, 6));
    assert!(!b.arm(1100, 5));
    assert_eq!(b.tick(1500), Some(vec![5, 6]));
    assert_eq!(b.tick(1501), None);
    assert!(b.arm(2000, 5));
}

#[test]
fn frames_by_refresh_rate() {
    assert_eq!(frame_interval(60), 17);
    assert_eq!(frame_interval(144), 7);
    assert_eq!(frame_interval(240), 5);
    assert_eq!(frame_interval(1), 17);
    let mut c = FrameClock::new();
    assert!(c.is_stale(2001));
    c.note(5000, 144);
    assert!(!c.is_stale(7000) && c.is_stale(7001));
    assert_eq!(c.interval, 7);
}

#[test]
fn windows_are_put_back_or_given_up() {
    assert_eq!(put_back(true, false, false), PutBack::Return);
    assert_eq!(put_back(true, true, false), PutBack::Discard);
    assert_eq!(put_back(true, false, true), PutBack::Discard);
    assert_eq!(put_back(false, true, true), PutBack::Nothing);
    assert_eq!(tick_owner(Some(false), Some(true)), TickOwner::Thread);
    assert_eq!(tick_owner(Some(true), Some(true)), TickOwner::Process);
    assert_eq!(tick_owner(None, None), TickOwner::Nobody);
    assert_eq!(wheel_delta(0x0078_0000), 1);
    assert_eq!(wheel_delta(0xff88_0000), -1);
    assert_eq!(cloaked_streak(3, true), 4);
    assert_eq!(cloaked_streak(3, false), 0);
}

fn show(anchor: Option<Rect>, now: u64, visible: bool) -> Show {
    Show {
        may_show: true,
        table_host: false,
        frame: frame(anchor),
        now,
        visible,
        rerender: false,
        readback: false,
        chase: false,
        move_timed: true,
        size_timed: true,
        current: (220, 120),
        size: (220, 120),
        typed_width: None,
        entrance: None,
        selected: 0,
        highlight_timed: true,
        highlight_drawn: true,
        comment_delay: 200,
        cloaked: false,
    }
}

#[test]
fn frame_from_caret_to_screen() {
    let mut w = CandidateWindowV2::new();
    let mut d = Drag::new();
    let s = show(Some(rect(500, 300, 510, 320)), 1000, false);
    let (b, v) = w.show(&mut d, &s);
    assert!(!b.refused && !b.clock && b.comments_clock && !b.highlight);
    assert!(b.cancel_hide && !b.entrance);
    assert_eq!(v.target, (500, 314));
    assert_eq!(w.show_end(d.dragging(), &s, &v, (0, 0), (0, 0)), Some(((500, 314), (220, 120))));
    assert!(w.has_sticky());
    assert_eq!(w.sticky_xy(), Some((510, 324)));
    assert!(w.sticky_near(534, 300) && !w.sticky_near(535, 324));

    let mut s = show(Some(rect(560, 300, 570, 320)), 1020, true);
    s.size = (300, 120);
    s.selected = 1;
    let (b, v) = w.show(&mut d, &s);
    assert!(b.clock && b.highlight);
    assert_eq!(
        w.show_end(false, &s, &v, (520, 314), (240, 120)),
        Some(((520, 314), (300, 120)))
    );
    assert_eq!(w.size_tick(true, (260, 120), 1040, 17), (false, true));
    let mut t = Tick { visible: true, chase: None, slide: (540, 314), highlight: true };
    let r = w.tick(false, &t);
    assert!(r.render && !r.done);
    assert_eq!(r.move_to, Some((540, 314)));
    assert_eq!(w.size_tick(true, (280, 120), 1041, 17), (false, false));
    assert_eq!(w.size_tick(true, (300, 120), 1042, 17), (true, true));
    t.slide = (560, 314);
    t.highlight = false;
    let r = w.tick(true, &t);
    assert!(r.done && !r.render);
    assert_eq!(r.move_to, Some((560, 314)));
    assert_eq!(w.motion.live, (560, 314));

    let (kill, draw) = w.expand(true, true);
    assert!(kill && draw && w.comments_expanded);
    assert_eq!(w.expand(true, true), (false, false));
    assert_eq!(w.expand(false, true), (true, false));
}

#[test]
fn redraw_keeps_the_time_to_hide() {
    let mut w = CandidateWindowV2::new();
    let mut d = Drag::new();
    let mut s = show(Some(rect(500, 300, 510, 320)), 1000, false);
    s.entrance = Some(40);
    assert!(w.show(&mut d, &s).0.entrance);
    let slide = w.motion.slide.map(|x| (x.from, x.to));
    s.rerender = true;
    s.visible = true;
    s.frame.anchor = Some(rect(900, 300, 910, 320));
    let (b, _) = w.show(&mut d, &s);
    assert!(!b.cancel_hide && !b.entrance && !b.clock);
    assert_eq!(w.motion.slide.map(|x| (x.from, x.to)), slide);
}

#[test]
fn refused_frame_and_hiding() {
    let mut w = CandidateWindowV2::new();
    let mut d = Drag::new();
    let mut s = show(Some(rect(500, 300, 510, 320)), 1000, true);
    s.may_show = false;
    assert!(w.show(&mut d, &s).0.refused);
    assert!(!w.has_sticky());
    s.may_show = true;
    s.cloaked = true;
    w.show(&mut d, &s);
    assert_eq!(w.cloaked_streak, 1);
    assert!(!w.hide_suppress(true, 2000));
    assert!(w.hide_suppress(false, 2000));
    assert_eq!(w.hidden_at, Some(2000));
    w.hide_window(2100);
    w.hide_stale(2200);
    w.hidden(2300);
    assert_eq!(w.hidden_at, Some(2300));
    assert!(w.has_sticky());
    w.focus_reset();
    assert!(!w.has_sticky() && w.cloaked_streak == 0 && w.hidden_at.is_none());
}

#[test]
fn dragged_window_is_left_alone() {
    let mut w = CandidateWindowV2::new();
    let mut d = Drag::new();
    d.left_down((0, 0));
    let _ = d.mouse_move((50, 50), rect(10, 10, 230, 130), DESK);
    let s = show(Some(rect(500, 300, 510, 320)), 1000, true);
    let (b, v) = w.show(&mut d, &s);
    assert!(!b.clock);
    assert_eq!(w.show_end(d.dragging(), &s, &v, (0, 0), (0, 0)), None);
}

#[test]
fn messages_of_the_window() {
    assert_eq!(message_of(0x84, 0), Message::HitTest);
    assert_eq!(message_of(0x201, 0), Message::LeftDown);
    assert_eq!(message_of(0x20A, 0), Message::Wheel);
    assert_eq!(message_of(0x208, 0), Message::Swallow);
    assert_eq!(message_of(WM_APP_HIDE_CAND, 0), Message::HideWindow);
    assert_eq!(message_of(WM_APP_ANIM, 0), Message::AnimTick);
    assert_eq!(message_of(WM_APP_IME_SWITCH, 0), Message::ImeSwitch);
    assert_eq!(message_of(0x113, FADE_TIMER_ID), Message::AnimTick);
    assert_eq!(message_of(0x113, EXPAND_TIMER_ID), Message::Expand);
    assert_eq!(message_of(0x113, HIDE_LATER_TIMER_ID), Message::HideLater);
    assert_eq!(message_of(0x113, IME_WATCHDOG_TIMER_ID), Message::Watchdog);
    assert_eq!(message_of(0x113, 1), Message::Other);
    assert_eq!(message_of(0xFF, 0), Message::RawInput);
    assert_eq!(message_of(0x0F, 0), Message::Other);
}

#[test]
fn messages_are_answered_or_go_on() {
    assert_eq!(answer_of(message_of(0x84, 0)), Some(1));
    for msg in [0x200, 0x201, 0x202, 0x204, 0x205, 0x207, 0x208, 0x20A, 0x215] {
        assert_eq!(answer_of(message_of(msg, 0)), Some(0));
    }
    for msg in [WM_APP_HIDE_CAND, WM_APP_ANIM, WM_APP_IME_SWITCH] {
        assert_eq!(answer_of(message_of(msg, 0)), Some(0));
    }
    for id in [FADE_TIMER_ID, EXPAND_TIMER_ID, HIDE_LATER_TIMER_ID, IME_WATCHDOG_TIMER_ID] {
        assert_eq!(answer_of(message_of(0x113, id)), Some(0));
    }
    assert_eq!(answer_of(message_of(0xFF, 0)), None);
    assert_eq!(answer_of(message_of(0x0F, 0)), None);
    assert_eq!(answer_of(message_of(0x113, 1)), None);
}

#[test]
fn watching_over_the_window() {
    assert!(is_cand_window("HuFuCandWin2", true));
    assert!(!is_cand_window("HuFuCandWin2", false));
    assert!(!is_cand_window("Edit", true));
    assert!(switch_aborts(true, true, false, "u"));
    assert!(!switch_aborts(true, true, false, ""));
    assert!(!switch_aborts(true, false, true, "u"));
    assert_eq!(watchdog(false, Some(false)), WatchdogAct::Stop);
    assert_eq!(watchdog(true, Some(false)), WatchdogAct::Abort);
    assert_eq!(watchdog(true, Some(true)), WatchdogAct::Nothing);
    assert_eq!(watchdog(true, None), WatchdogAct::Nothing);
}

#[test]
fn wheel_changes_the_font() {
    let r = font_delta_request(-1);
    assert_eq!((r.get_str("op"), r.get_i64("delta")), (Some("skin_font_delta"), Some(-1)));
    let mut s = json(r#"{"skin": {"layout": {"font_point": 14, "x": 1}}, "layout": {"y": 2}}"#);
    assert!(patch_font(&mut s, Json::Int(15), Some(Json::Int(11))));
    assert_eq!(s.at("skin.layout.font_point").unwrap().as_i64(), Some(15));
    assert_eq!(s.at("skin.layout.label_font_point").unwrap().as_i64(), Some(11));
    assert_eq!(s.at("skin.layout.x").unwrap().as_i64(), Some(1));
    assert!(s.at("layout.font_point").is_none());
    let mut s = json(r#"{"layout": null}"#);
    assert!(patch_font(&mut s, Json::Int(15), None));
    assert_eq!(s.at("layout.font_point").unwrap().as_i64(), Some(15));
    let mut s = json(r#"{"colors": {}}"#);
    assert!(!patch_font(&mut s, Json::Int(15), None));
    assert!(s.at("layout").is_none());
    assert!(can_patch_font(&s));
    assert!(can_patch_font(&json(r#"{"skin": {"layout": null}, "layout": 3}"#)));
    assert!(!can_patch_font(&json(r#"{"skin": {"layout": []}, "layout": {}}"#)));
    assert!(!can_patch_font(&json(r#"{"layout": "x"}"#)));
}

#[test]
fn plain_window_is_measured_and_placed() {
    let cands: Vec<(String, String)> =
        vec![("的".to_string(), String::new()), ("得到".to_string(), "注释".to_string())];
    assert_eq!(candwin::measure(&cands, true, false), (240, 28 * 3 + 16));
    assert_eq!(candwin::measure(&cands, true, true), (200, 72));
    let wide: Vec<(String, String)> = vec![("一二三四五六七八九十".to_string(), "abcd".to_string()); 2];
    assert_eq!(candwin::measure(&wide, true, true).0, 24 + 2 * (20 + 180 + 54 + 6) + 8);
    assert_eq!(candwin::place_at(Some(rect(100, 500, 110, 520)), (1920, 1080), (240, 100)), (100, 396));
    assert_eq!(candwin::place_at(Some(rect(1900, 50, 1910, 70)), (1920, 1080), (240, 100)), (1680, 74));
    assert_eq!(candwin::place_at(None, (1920, 1080), (240, 100)), (840, 720));
}

#[test]
fn plain_window_is_drawn() {
    let cands: Vec<(String, String)> = vec![("的".to_string(), "x".to_string())];
    let p = candwin::palette(&json("{}"));
    let ops = candwin::draw_list(&cands, "u", 0, true, false, p);
    assert!(ops.iter().any(|o| matches!(o, DrawOp::Text(_, _, s, _, false) if s == "u")));
    assert!(ops.iter().any(|o| matches!(o, DrawOp::Text(_, _, s, c, _) if s == "的" && *c == p.hilite_label)));
    assert!(ops.iter().any(|o| matches!(o, DrawOp::Fill(6, 32, 234, 58, c) if *c == p.hilite_back)));
    let mut px = candwin::background(3, 3, 7);
    candwin::draw_border(&mut px, 3, 3, 9);
    assert_eq!(px, vec![9, 9, 9, 9, 7, 9, 9, 9, 9]);
}

#[test]
fn layered_window_does_not_go_back_while_typing() {
    let mut c = CandWin3::new();
    let place = |c: &mut CandWin3, r: Rect, n: usize| c.place_frame(DESK, Some(r), (200, 100), n, None);
    assert_eq!(place(&mut c, rect(500, 300, 510, 320), 1), Some((500, 324)));
    assert_eq!(place(&mut c, rect(480, 310, 490, 330), 2), Some((500, 324)));
    assert_eq!(place(&mut c, rect(480, 310, 490, 330), 1), Some((480, 334)));
    c.hide_window();
    assert_eq!(place(&mut c, rect(100, 300, 110, 320), 5), Some((100, 324)));
    assert_eq!(c.place_frame(DESK, None, (200, 100), 5, None), Some((100, 324)));
    c.note_cloaked(true);
    assert_eq!(c.cloaked_streak, 1);
    let mut c = CandWin3::new();
    assert_eq!(c.place_frame(DESK, None, (200, 100), 5, None), None);
    assert_eq!(
        c.place_frame(DESK, None, (200, 100), 5, Some(rect(0, 0, 800, 600))),
        Some((16, 400))
    );
}

#[test]
fn covered_pixels_are_clipped() {
    let mut cov = vec![0u8; 2 * 12];
    cov[0] = 10;
    cov[4] = 20;
    cov[12] = 30;
    cov[12 + 8] = 40;
    let a = Area { x: -1, y: 0, w: 3, h: 2 };
    assert_eq!(covered_pixels(&cov, 12, a, 4, 4), vec![(0, 20), (5, 40)]);
    let a = Area { x: 2, y: 3, w: 3, h: 2 };
    assert_eq!(covered_pixels(&cov, 12, a, 4, 4), vec![(14, 10), (15, 20)]);
    assert!(covered_pixels(&cov, 12, Area { x: 9, y: 9, w: 3, h: 2 }, 4, 4).is_empty());
}
