//! The dialog that adds a word: what it shows of the candidates of a code, as they are and as
//! they will be, and what it sends.

use vstd::prelude::*;
use vstd::string::*;

use crate::color;
use crate::color::{lighten, parse_hex};
use crate::geometry;
use crate::geometry::{halved, max_of};
use crate::json;
use crate::json::{Json, Tree};
use crate::number;
use crate::number::{decimal_of_len, parse_int};
use crate::skin;
use crate::text;
use crate::text::{cat, chars_of, same, string_of, trimmed};
use crate::utf16;
use crate::utf16::utf16z;

verus! {

/// The controls of the dialog.
pub const ID_WORD: i32 = 101;

pub const ID_CODE: i32 = 102;

pub const ID_POS: i32 = 103;

pub const ID_OK: i32 = 1001;

pub const ID_CANCEL: i32 = 1002;

/// The items of the list as it is begin here.
pub const ID_CUR_BASE: i32 = 2000;

/// The items of the list as it will be begin here.
pub const ID_AFT_BASE: i32 = 2200;

/// The new word in the list as it will be.
pub const ID_AFT_NEW: i32 = 2600;

/// The notification that the text of an edit box changes.
pub const EN_UPDATE: u64 = 0x400;

/// The width of the dialog, and where and how wide the lists are.
pub const WIN_W: i64 = 396;

pub const PV_X: i64 = 16;

pub const PV_W: i64 = 364;

/// The colour of the new word.
pub const NEW_RED: u32 = 0x5050ff;

/// How wide the edit boxes are.
pub const EDIT_W: i64 = 284;

/// Kinds of controls.
#[derive(Clone, Copy, Debug, PartialEq, Eq, Structural)]
pub enum Kind {
    Label,
    /// A box for a text.
    Edit,
    /// A box for digits.
    Digits,
    Button,
}

/// A control that the dialog always has.
#[derive(Clone, Copy, Debug)]
pub struct Control {
    pub kind: Kind,
    pub text: &'static str,
    pub x: i64,
    pub y: i64,
    pub w: i64,
    pub h: i64,
    /// The control's number, or nought.
    pub id: i32,
}

/// The label over an edit box; the boxes are counted from nought.
pub open spec fn is_caption(c: Control, row: int, text: Seq<char>) -> bool {
    &&& c.kind == Kind::Label && c.text@ == text && c.id == 0
    &&& c.x == PV_X && c.y == 14 + row * 62 && c.w == 330 && c.h == 24
}

/// An edit box.
pub open spec fn is_box(c: Control, row: int, kind: Kind, id: i32) -> bool {
    &&& c.kind == kind && c.text@ == ""@ && c.id == id
    &&& c.x == PV_X && c.y == 14 + row * 62 + 26 && c.w == EDIT_W && c.h == 33
}

/// A button.
pub open spec fn is_button(c: Control, text: Seq<char>, x: int, id: i32) -> bool {
    &&& c.kind == Kind::Button && c.text@ == text && c.id == id
    &&& c.x == x && c.y == 260 && c.w == 82 && c.h == 34
}

fn row(r: &mut Vec<Control>, i: i64, text: &'static str, kind: Kind, id: i32)
    requires
        0 <= i <= 2,
    ensures
        final(r).len() == old(r).len() + 2,
        forall|k: int| 0 <= k < old(r).len() ==> final(r)@[k] == old(r)@[k],
        is_caption(final(r)@[old(r).len() as int], i as int, text@),
        is_box(final(r)@[old(r).len() + 1], i as int, kind, id),
{
    let y: i64 = 14 + i * 62;
    r.push(Control { kind: Kind::Label, text, x: PV_X, y, w: 330, h: 24, id: 0 });
    r.push(Control { kind, text: "", x: PV_X, y: y + 26, w: EDIT_W, h: 33, id });
}

/// The controls that the dialog always has, in the order in which the keyboard goes through
/// them: boxes for the word, its code and its place, each under a label; the heading of the
/// lists; the two buttons.
pub fn form() -> (r: Vec<Control>)
    ensures
        r.len() == 9,
        is_caption(r[0], 0, "词（要打出的内容）"@),
        is_box(r[1], 0, Kind::Edit, ID_WORD),
        is_caption(r[2], 1, "编码（打什么出它）"@),
        is_box(r[3], 1, Kind::Edit, ID_CODE),
        is_caption(r[4], 2, "选重位（第几选，留空=首选）"@),
        is_box(r[5], 2, Kind::Digits, ID_POS),
        r[6].kind == Kind::Label && r[6].text@ == "该编码候选（实时，第 N 选参考）："@,
        r[6].id == 0 && r[6].x == PV_X && r[6].y == 202 && r[6].w == 340 && r[6].h == 22,
        is_button(r[7], "确定"@, 216, ID_OK),
        is_button(r[8], "取消"@, 311, ID_CANCEL),
        r[0].y == 14 && r[1].y == 40 && r[2].y == 76 && r[3].y == 102 && r[4].y == 138 && r[5].y == 164,
        r[1].kind == Kind::Edit && r[3].kind == Kind::Edit && r[5].kind == Kind::Digits,
        r[1].w == 284 && r[3].w == 284 && r[5].w == 284 && r[1].h == 33 && r[3].h == 33 && r[5].h == 33,
        r[7].text@ == "确定"@ && r[7].x == 216 && r[7].y == 260 && r[7].w == 82 && r[7].h == 34,
        r[8].text@ == "取消"@ && r[8].x == 311 && r[8].y == 260 && r[8].w == 82 && r[8].h == 34,
        r[7].id == 1001 && r[8].id == 1002,
{
    let mut r: Vec<Control> = Vec::new();
    row(&mut r, 0, "词（要打出的内容）", Kind::Edit, ID_WORD);
    row(&mut r, 1, "编码（打什么出它）", Kind::Edit, ID_CODE);
    row(&mut r, 2, "选重位（第几选，留空=首选）", Kind::Digits, ID_POS);
    r.push(
        Control {
            kind: Kind::Label,
            text: "该编码候选（实时，第 N 选参考）：",
            x: PV_X,
            y: 202,
            w: 340,
            h: 22,
            id: 0,
        },
    );
    r.push(
        Control { kind: Kind::Button, text: "确定", x: 216, y: 260, w: 82, h: 34, id: ID_OK },
    );
    r.push(
        Control { kind: Kind::Button, text: "取消", x: 311, y: 260, w: 82, h: 34, id: ID_CANCEL },
    );
    r
}

/// Where the dialog opens: in the middle of a screen of this size; its height is given.
pub fn opens_at(screen: (i32, i32), h: i32) -> (r: (i64, i64))
    ensures
        r.0 == geometry::quotient(screen.0 - WIN_W, 2),
        r.1 == geometry::quotient(screen.1 - h, 2),
{
    (halved(screen.0 as i64 - WIN_W), halved(screen.1 as i64 - h as i64))
}

/// The look of the dialog.
pub struct Skin {
    pub bg: u32,
    pub text: u32,
    pub label: u32,
    pub hilite: u32,
    pub hilite_label: u32,
    pub hilite_bg: u32,
    /// The name of the font in UTF-16, with a NUL at its end.
    pub font_face: Vec<u16>,
    pub font_pt: i64,
    pub label_pt: i64,
    pub cand_spacing: i64,
}

/// A colour that the skin names. The key is read as what is left of a JSON pointer.
pub open spec fn skin_bgr(t: Tree, key: Seq<char>) -> Option<int> {
    let v = match t.member("colors"@) {
        Some(g) => json::at_tokens(g, text::split(key, '/')),
        None => None,
    };
    match json::str_of(v) {
        Some(s) => color::hex_bgr(s),
        None => None,
    }
}

/// The first colour there is.
pub open spec fn or_else(a: Option<int>, b: Option<int>) -> Option<int> {
    match a {
        Some(x) => Some(x),
        None => b,
    }
}

/// A colour, or another where there is none.
pub open spec fn or_color(a: Option<int>, b: int) -> int {
    match a {
        Some(x) => x,
        None => b,
    }
}

/// The background that a colour gives: the dialog is lighter than the candidate window.
pub open spec fn background(c: int) -> int {
    color::bgr(
        color::lighter(c % 0x100),
        color::lighter(c / 0x100 % 0x100),
        color::lighter(c / 0x10000 % 0x100),
    )
}

fn color_at(skin: &Json, key: &str) -> (r: Option<u32>)
    ensures
        match r {
            Some(v) => skin_bgr(skin.tree(), key@) == Some(v as int) && v < 0x100_0000,
            None => skin_bgr(skin.tree(), key@) is None,
        },
{
    match skin.get("colors") {
        Some(c) => match c.at_pointer(key) {
            Some(v) => match v.as_str() {
                Some(s) => parse_hex(s),
                None => None,
            },
            None => None,
        },
        None => None,
    }
}

fn pick(a: Option<u32>, b: Option<u32>, default: u32) -> (r: u32)
    ensures
        r == match (a, b) {
            (Some(x), _) => x,
            (None, Some(y)) => y,
            (None, None) => default,
        },
{
    match a {
        Some(x) => x,
        None => match b {
            Some(y) => y,
            None => default,
        },
    }
}

/// The look that a skin gives the dialog, with the sizes of its type: larger than those of the
/// candidate window.
pub fn load_skin(skin: &Json, font_pt: i32, label_pt: i32, cand_spacing: i32) -> (r: Skin)
    ensures
        ({
            let t = skin.tree();
            &&& r.bg == background(or_color(skin_bgr(t, "back_color"@), 0x222e16))
            &&& r.text == or_color(
                or_else(skin_bgr(t, "text_color"@), skin_bgr(t, "candidate_text_color"@)),
                0xece2d7,
            )
            &&& r.label == or_color(
                or_else(skin_bgr(t, "label_color"@), skin_bgr(t, "comment_text_color"@)),
                0xb5a68a,
            )
            &&& r.hilite == or_color(skin_bgr(t, "hilited_candidate_text_color"@), 0xf0c78c)
            &&& r.hilite_label == or_color(skin_bgr(t, "hilited_label_color"@), 0xf0c78c)
            &&& r.hilite_bg == or_color(skin_bgr(t, "hilited_candidate_back_color"@), 0x664a2c)
            &&& r.font_face@ == utf16::utf16(
                match json::str_of(skin::member2(t, "layout"@, "font_face"@)) {
                    Some(s) => s,
                    None => "Microsoft YaHei UI"@,
                },
            ).push(0)
            &&& r.font_pt == geometry::max(font_pt + 6, 17)
            &&& r.label_pt == geometry::max(label_pt + 5, 13)
            &&& r.cand_spacing == geometry::max(cand_spacing as int, 2)
        }),
{
    let face = match skin.get("layout") {
        Some(l) => match l.get_str("font_face") {
            Some(s) => utf16z(s),
            None => utf16z("Microsoft YaHei UI"),
        },
        None => utf16z("Microsoft YaHei UI"),
    };
    Skin {
        bg: lighten(pick(color_at(skin, "back_color"), None, 0x222e16)),
        text: pick(color_at(skin, "text_color"), color_at(skin, "candidate_text_color"), 0xece2d7),
        label: pick(color_at(skin, "label_color"), color_at(skin, "comment_text_color"), 0xb5a68a),
        hilite: pick(color_at(skin, "hilited_candidate_text_color"), None, 0xf0c78c),
        hilite_label: pick(color_at(skin, "hilited_label_color"), None, 0xf0c78c),
        hilite_bg: pick(color_at(skin, "hilited_candidate_back_color"), None, 0x664a2c),
        font_face: face,
        font_pt: max_of(font_pt as i64 + 6, 17),
        label_pt: max_of(label_pt as i64 + 5, 13),
        cand_spacing: max_of(cand_spacing as i64, 2),
    }
}

/// The colour of the text of a control: the new word has its own, items have that of texts, all
/// else that of labels.
pub fn item_color(id: i32, skin: &Skin) -> (r: u32)
    ensures
        r == if id >= ID_AFT_NEW {
            NEW_RED
        } else if id >= ID_CUR_BASE {
            skin.text
        } else {
            skin.label
        },
{
    if id >= ID_AFT_NEW {
        NEW_RED
    } else if id >= ID_CUR_BASE {
        skin.text
    } else {
        skin.label
    }
}

/// What a command to the dialog comes to.
#[derive(Clone, Copy, Debug, PartialEq, Eq, Structural)]
pub enum Command {
    Nothing,
    /// The lists are to be drawn anew.
    Refresh,
    /// The word is to be added, and the dialog closed.
    Submit,
    /// The dialog is to be closed.
    Close,
}

/// What a command comes to, from the control and the notification in the message's parameter.
pub open spec fn command_of(id: int, notification: int) -> Command {
    if (id == ID_CODE || id == ID_POS || id == ID_WORD) && notification == EN_UPDATE {
        Command::Refresh
    } else if notification != 0 {
        Command::Nothing
    } else if id == ID_OK || id == 1 {
        Command::Submit
    } else if id == ID_CANCEL || id == 2 {
        Command::Close
    } else {
        Command::Nothing
    }
}

/// What a command comes to: an edit refreshes the lists, `OK` or Enter adds the word, `Cancel`
/// or Escape closes the dialog.
pub fn command(wparam: u64) -> (r: Command)
    ensures
        r == command_of((wparam % 0x10000) as int, (wparam / 0x10000 % 0x10000) as int),
{
    let id: i64 = (wparam % 0x10000) as i64;
    let notification: u64 = wparam / 0x10000 % 0x10000;
    if (id == ID_CODE as i64 || id == ID_POS as i64 || id == ID_WORD as i64) && notification
        == EN_UPDATE {
        Command::Refresh
    } else if notification != 0 {
        Command::Nothing
    } else if id == ID_OK as i64 || id == 1 {
        Command::Submit
    } else if id == ID_CANCEL as i64 || id == 2 {
        Command::Close
    } else {
        Command::Nothing
    }
}

/// The width of a text: of each character of ASCII and of each other.
pub open spec fn width(s: Seq<char>, ascii: int, wide: int) -> int
    decreases s.len(),
{
    if s.len() == 0 {
        0
    } else {
        width(s.drop_last(), ascii, wide) + if (s.last() as u32) < 128 {
            ascii
        } else {
            wide
        }
    }
}

proof fn width_nonneg(s: Seq<char>, ascii: int, wide: int)
    requires
        0 <= ascii,
        0 <= wide,
    ensures
        0 <= width(s, ascii, wide),
    decreases s.len(),
{
    if s.len() > 0 {
        width_nonneg(s.drop_last(), ascii, wide);
    }
}

proof fn width_grows(s: Seq<char>, ascii: int, wide: int, n: int)
    requires
        0 <= ascii,
        0 <= wide,
        0 <= n <= s.len(),
    ensures
        0 <= width(s.take(n), ascii, wide) <= width(s, ascii, wide),
    decreases s.len() - n,
{
    width_nonneg(s.take(n), ascii, wide);
    if n < s.len() {
        width_grows(s, ascii, wide, n + 1);
        assert(s.take(n + 1).drop_last() =~= s.take(n));
    } else {
        assert(s.take(n) =~= s);
    }
}

/// The width of a text; see [`width`]. It must be one that a window can have.
pub fn text_w(s: &str, ascii: i64, wide: i64) -> (r: i64)
    requires
        0 <= ascii,
        0 <= wide,
        width(s@, ascii as int, wide as int) <= i32::MAX,
    ensures
        r == width(s@, ascii as int, wide as int),
        0 <= r,
{
    let cs = chars_of(s);
    let mut w: i64 = 0;
    let mut i: usize = 0;
    assert(cs@.take(0) =~= seq![]);
    while i < cs.len()
        invariant
            i <= cs.len(),
            0 <= ascii,
            0 <= wide,
            width(cs@, ascii as int, wide as int) <= i32::MAX,
            w == width(cs@.take(i as int), ascii as int, wide as int),
            0 <= w,
        decreases cs.len() - i,
    {
        assert(cs@.take(i + 1).drop_last() =~= cs@.take(i as int));
        proof {
            width_grows(cs@, ascii as int, wide as int, i + 1);
        }
        if (cs[i] as u32) < 128 {
            w = w + ascii;
        } else {
            w = w + wide;
        }
        i += 1;
    }
    assert(cs@.take(cs@.len() as int) =~= s@);
    w
}

/// The width of a text, where it is one that a window can have; see [`width`].
fn narrow_width(s: &str, ascii: i64, wide: i64) -> (r: Option<i64>)
    requires
        0 <= ascii <= i32::MAX,
        0 <= wide <= i32::MAX,
    ensures
        match r {
            Some(w) => w == width(s@, ascii as int, wide as int) && 0 <= w <= i32::MAX,
            None => width(s@, ascii as int, wide as int) > i32::MAX,
        },
{
    let cs = chars_of(s);
    let mut w: i64 = 0;
    let mut i: usize = 0;
    assert(cs@.take(0) =~= seq![]);
    while i < cs.len()
        invariant
            i <= cs.len(),
            cs@ == s@,
            0 <= ascii <= i32::MAX,
            0 <= wide <= i32::MAX,
            w == width(cs@.take(i as int), ascii as int, wide as int),
            0 <= w <= i32::MAX,
        decreases cs.len() - i,
    {
        assert(cs@.take(i + 1).drop_last() =~= cs@.take(i as int));
        if (cs[i] as u32) < 128 {
            w = w + ascii;
        } else {
            w = w + wide;
        }
        i += 1;
        if w > i32::MAX as i64 {
            proof {
                width_grows(cs@, ascii as int, wide as int, i as int);
            }
            return None;
        }
    }
    assert(cs@.take(cs@.len() as int) =~= s@);
    Some(w)
}

/// The list of a code with a word put in: the word at its place, counted from one, or first
/// where no place is given; and not twice.
pub open spec fn without(texts: Seq<Seq<char>>, word: Seq<char>) -> Seq<Seq<char>>
    decreases texts.len(),
{
    if texts.len() == 0 {
        seq![]
    } else if texts.last() == word {
        without(texts.drop_last(), word)
    } else {
        without(texts.drop_last(), word).push(texts.last())
    }
}

/// Where the word stands in the list then.
pub open spec fn insert_at(texts: Seq<Seq<char>>, word: Seq<char>, pos: int) -> int {
    if pos >= 1 {
        geometry::min(pos - 1, without(texts, word).len() as int)
    } else {
        0
    }
}

/// The list with the word in it.
pub open spec fn with_word(texts: Seq<Seq<char>>, word: Seq<char>, pos: int) -> Seq<Seq<char>> {
    without(texts, word).insert(insert_at(texts, word, pos), word)
}

/// Puts the word into the list as the engine will; see [`with_word`]. The list and the place of
/// the word in it.
pub fn simulate(texts: &Vec<String>, word: &str, pos: usize) -> (r: (Vec<String>, usize))
    ensures
        text::strings(r.0@) == with_word(text::strings(texts@), word@, pos as int),
        r.1 == insert_at(text::strings(texts@), word@, pos as int),
        r.1 < r.0.len(),
{
    let ghost all = text::strings(texts@);
    let mut out: Vec<String> = Vec::new();
    let mut i: usize = 0;
    assert(text::strings(out@) =~= without(all.take(0), word@));
    while i < texts.len()
        invariant
            i <= texts.len(),
            all == text::strings(texts@),
            text::strings(out@) == without(all.take(i as int), word@),
        decreases texts.len() - i,
    {
        assert(all.take(i + 1).drop_last() =~= all.take(i as int));
        assert(all.take(i + 1).last() == texts@[i as int]@);
        if !same(texts[i].as_str(), word) {
            let ghost before = text::strings(out@);
            out.push(texts[i].clone());
            assert(text::strings(out@) =~= before.push(texts@[i as int]@));
        }
        i += 1;
    }
    assert(all.take(all.len() as int) =~= all);
    let idx: usize = if pos >= 1 {
        if pos - 1 < out.len() {
            pos - 1
        } else {
            out.len()
        }
    } else {
        0
    };
    let ghost before = text::strings(out@);
    assert(before.len() == out.len());
    out.insert(idx, word.to_owned());
    assert(text::strings(out@) =~= before.insert(idx as int, word@));
    (out, idx)
}

/// The type in which an item is written.
#[derive(Clone, Copy, Debug, PartialEq, Eq, Structural)]
pub enum Face {
    Label,
    Main,
    /// Bold and underlined.
    New,
}

/// An item of the lists: a text in a box.
#[derive(Debug)]
pub struct Item {
    pub x: i64,
    pub y: i64,
    pub w: i64,
    pub h: i64,
    pub id: i32,
    pub text: String,
    pub face: Face,
}

/// What an item is.
pub struct ItemView {
    pub x: int,
    pub y: int,
    pub w: int,
    pub h: int,
    pub id: int,
    pub text: Seq<char>,
    pub face: Face,
}

impl View for Item {
    type V = ItemView;

    open spec fn view(&self) -> ItemView {
        ItemView {
            x: self.x as int,
            y: self.y as int,
            w: self.w as int,
            h: self.h as int,
            id: self.id as int,
            text: self.text@,
            face: self.face,
        }
    }
}

/// What the items are.
pub open spec fn items_view(v: Seq<Item>) -> Seq<ItemView> {
    Seq::new(v.len(), |i: int| v[i]@)
}

/// The sizes by which the lists are laid out.
#[derive(Clone, Copy, Debug)]
pub struct Metrics {
    /// The width of a character of the main type, and of one of ASCII.
    pub em: i64,
    pub em_ascii: i64,
    /// The width of a character of the labels, and of one of ASCII.
    pub lem: i64,
    pub lem_ascii: i64,
    pub spacing: i64,
    pub line_h: i64,
}

impl Metrics {
    /// The sizes are ones that windows can have.
    pub open spec fn wf(self) -> bool {
        &&& 0 <= self.em <= self.line_h <= i32::MAX
        &&& 0 <= self.em_ascii <= i32::MAX
        &&& 0 <= self.lem <= i32::MAX
        &&& 0 <= self.lem_ascii <= i32::MAX
        &&& 0 <= self.spacing <= i32::MAX
        &&& self.em + 6 <= self.line_h
    }
}

/// The sizes that go with a skin, or those without one; the widths of an ASCII character are
/// given.
pub fn metrics(skin: Option<&Skin>, em_ascii: i64, lem_ascii: i64) -> (r: Metrics)
    requires
        match skin {
            Some(s) => s.font_pt <= i32::MAX + 6,
            None => true,
        },
    ensures
        r.em_ascii == em_ascii,
        r.lem_ascii == lem_ascii,
        match skin {
            Some(s) => {
                &&& r.em == s.font_pt
                &&& r.lem == s.label_pt
                &&& r.spacing == s.cand_spacing
                &&& r.line_h == s.font_pt + 14
            },
            None => r.em == 16 && r.lem == 12 && r.spacing == 6 && r.line_h == 34,
        },
{
    match skin {
        Some(s) => Metrics {
            em: s.font_pt,
            em_ascii,
            lem: s.label_pt,
            lem_ascii,
            spacing: s.cand_spacing,
            line_h: s.font_pt + 14,
        },
        None => Metrics { em: 16, em_ascii, lem: 12, lem_ascii, spacing: 6, line_h: 34 },
    }
}

/// The number before an item.
pub open spec fn item_label(i: int) -> Seq<char> {
    number::decimal(i + 1) + "."@
}

/// The width of the number before an item.
pub open spec fn label_w(m: Metrics, i: int) -> int {
    width(item_label(i), m.lem_ascii as int, m.lem as int) + 2
}

/// The width of an item.
pub open spec fn word_w(m: Metrics, s: Seq<char>) -> int {
    width(s, m.em_ascii as int, m.em as int) + 2
}

/// The width that an item and its number take.
pub open spec fn item_need(m: Metrics, texts: Seq<Seq<char>>, i: int) -> int {
    label_w(m, i) + word_w(m, texts[i]) + m.spacing
}

/// Where the item `i` begins: on the line of the one before it, or on the next where there is
/// no room.
pub open spec fn item_at(m: Metrics, head: Seq<char>, texts: Seq<Seq<char>>, y0: int, i: int) -> (
    int,
    int,
)
    decreases i,
{
    let (x, y) = if i <= 0 {
        (PV_X + width(head, m.lem_ascii as int, m.lem as int) + 4, y0)
    } else {
        let (px, py) = item_at(m, head, texts, y0, i - 1);
        (px + item_need(m, texts, i - 1), py)
    };
    if i < texts.len() && x + item_need(m, texts, i) > PV_X + PV_W {
        (PV_X + 14, y + m.line_h)
    } else {
        (x, y)
    }
}

/// The two boxes of an item: its number and itself.
pub open spec fn item_boxes(
    m: Metrics,
    head: Seq<char>,
    texts: Seq<Seq<char>>,
    y0: int,
    new_idx: Option<int>,
    id_base: int,
    i: int,
) -> Seq<ItemView> {
    let (x, y) = item_at(m, head, texts, y0, i);
    let is_new = new_idx == Some(i);
    let base = if is_new {
        ID_AFT_NEW as int
    } else {
        id_base
    };
    seq![
        ItemView {
            x,
            y: y + (m.line_h - m.lem - 4),
            w: label_w(m, i),
            h: m.lem + 4,
            id: base,
            text: item_label(i),
            face: Face::Label,
        },
        ItemView {
            x: x + label_w(m, i),
            y: y + (m.line_h - m.em - 6) / 2,
            w: word_w(m, texts[i]),
            h: m.em + 6,
            id: base + 1,
            text: texts[i],
            face: if is_new {
                Face::New
            } else {
                Face::Main
            },
        },
    ]
}

/// The boxes of a list up to its item `n`: its head, then item by item.
pub open spec fn list_boxes(
    m: Metrics,
    head: Seq<char>,
    texts: Seq<Seq<char>>,
    y0: int,
    new_idx: Option<int>,
    id_base: int,
    n: int,
) -> Seq<ItemView>
    decreases n,
{
    if n <= 0 {
        seq![
            ItemView {
                x: PV_X as int,
                y: y0,
                w: width(head, m.lem_ascii as int, m.lem as int) + 6,
                h: m.line_h as int,
                id: 0,
                text: head,
                face: Face::Label,
            },
        ]
    } else {
        list_boxes(m, head, texts, y0, new_idx, id_base, n - 1) + item_boxes(
            m,
            head,
            texts,
            y0,
            new_idx,
            id_base,
            n - 1,
        )
    }
}

/// Where the next line below a list begins.
pub open spec fn list_bottom(m: Metrics, head: Seq<char>, texts: Seq<Seq<char>>, y0: int) -> int {
    (if texts.len() == 0 {
        y0
    } else {
        item_at(m, head, texts, y0, texts.len() - 1).1
    }) + m.line_h
}

/// Whether a list can be laid out: its texts, its head and its numbers are no wider, and it
/// reaches no lower, than a window can be.
pub open spec fn list_fits(m: Metrics, head: Seq<char>, texts: Seq<Seq<char>>, y0: int) -> bool {
    &&& m.wf()
    &&& 0 <= y0
    &&& width(head, m.lem_ascii as int, m.lem as int) <= i32::MAX
    &&& forall|i: int|
        0 <= i < texts.len() ==> width(#[trigger] texts[i], m.em_ascii as int, m.em as int)
            <= i32::MAX
    &&& forall|i: int|
        0 <= i < texts.len() ==> width(#[trigger] item_label(i), m.lem_ascii as int, m.lem as int)
            <= i32::MAX
    &&& list_bottom(m, head, texts, y0) <= i32::MAX
}

proof fn item_at_bound(m: Metrics, head: Seq<char>, texts: Seq<Seq<char>>, y0: int, i: int)
    requires
        list_fits(m, head, texts, y0),
        0 <= i < texts.len(),
    ensures
        0 <= item_at(m, head, texts, y0, i).0 <= 0x4_0000_0000,
        y0 <= item_at(m, head, texts, y0, i).1,
    decreases i,
{
    width_nonneg(head, m.lem_ascii as int, m.lem as int);
    width_nonneg(texts[i], m.em_ascii as int, m.em as int);
    width_nonneg(item_label(i), m.lem_ascii as int, m.lem as int);
    if i > 0 {
        item_at_bound(m, head, texts, y0, i - 1);
        width_nonneg(texts[i - 1], m.em_ascii as int, m.em as int);
        width_nonneg(item_label(i - 1), m.lem_ascii as int, m.lem as int);
    }
}

proof fn item_y_grows(m: Metrics, head: Seq<char>, texts: Seq<Seq<char>>, y0: int, i: int, j: int)
    requires
        m.wf(),
        0 <= i <= j < texts.len(),
    ensures
        item_at(m, head, texts, y0, i).1 <= item_at(m, head, texts, y0, j).1,
    decreases j - i,
{
    if i < j {
        item_y_grows(m, head, texts, y0, i, j - 1);
    }
}

fn push_item(items: &mut Vec<Item>, x: i64, y: i64, w: i64, h: i64, id: i32, t: &str, face: Face)
    ensures
        items_view(final(items)@) == items_view(old(items)@).push(
            ItemView {
                x: x as int,
                y: y as int,
                w: w as int,
                h: h as int,
                id: id as int,
                text: t@,
                face,
            },
        ),
{
    let ghost before = items_view(items@);
    let item = Item { x, y, w, h, id, text: t.to_owned(), face };
    let ghost v = item@;
    items.push(item);
    assert(items_view(items@) =~= before.push(v));
}

/// Lays out a list: its head, and its items one behind the other, in as many lines as it takes;
/// see [`list_boxes`]. Where the next line begins.
pub fn draw_items(
    items: &mut Vec<Item>,
    m: &Metrics,
    y0: i64,
    head: &str,
    texts: &Vec<String>,
    new_idx: Option<usize>,
    id_base: i32,
) -> (r: i64)
    requires
        list_fits(*m, head@, text::strings(texts@), y0 as int),
        id_base < i32::MAX,
    ensures
        items_view(final(items)@) == items_view(old(items)@) + list_boxes(
            *m,
            head@,
            text::strings(texts@),
            y0 as int,
            match new_idx {
                Some(i) => Some(i as int),
                None => None,
            },
            id_base as int,
            texts@.len() as int,
        ),
        r == list_bottom(*m, head@, text::strings(texts@), y0 as int),
{
    let ghost all = text::strings(texts@);
    let ghost new_at = match new_idx {
        Some(i) => Some(i as int),
        None => None,
    };
    let ghost before = items_view(items@);
    let hw: i64 = text_w(head, m.lem_ascii, m.lem);
    push_item(items, PV_X, y0, hw + 6, m.line_h, 0, head, Face::Label);
    assert(items_view(items@) =~= before + list_boxes(
        *m,
        head@,
        all,
        y0 as int,
        new_at,
        id_base as int,
        0,
    ));
    let mut x: i64 = PV_X + hw + 4;
    let mut y: i64 = y0;
    let right: i64 = PV_X + PV_W;
    let n: usize = texts.len();
    proof {
        if n > 0 {
            item_at_bound(*m, head@, all, y0 as int, n - 1);
        }
    }
    let mut i: usize = 0;
    while i < n
        invariant
            i <= n == texts.len(),
            all == text::strings(texts@),
            list_fits(*m, head@, all, y0 as int),
            id_base < i32::MAX,
            right == PV_X + PV_W,
            0 <= x <= 0x8_0000_0000,
            i == 0 ==> x == PV_X + width(head@, m.lem_ascii as int, m.lem as int) + 4 && y == y0,
            i > 0 ==> x == item_at(*m, head@, all, y0 as int, i - 1).0 + item_need(*m, all, i - 1),
            i > 0 ==> y == item_at(*m, head@, all, y0 as int, i - 1).1,
            0 <= y <= i32::MAX,
            new_at == match new_idx {
                Some(k) => Some(k as int),
                None => None,
            },
            items_view(items@) == before + list_boxes(
                *m,
                head@,
                all,
                y0 as int,
                new_at,
                id_base as int,
                i as int,
            ),
        decreases n - i,
    {
        assert(all[i as int] == texts@[i as int]@);
        let label = cat(decimal_of_len(i + 1).as_str(), ".");
        assert(label@ == item_label(i as int));
        let lw: i64 = text_w(label.as_str(), m.lem_ascii, m.lem) + 2;
        let tw: i64 = text_w(texts[i].as_str(), m.em_ascii, m.em) + 2;
        let need: i64 = lw + tw + m.spacing;
        proof {
            item_at_bound(*m, head@, all, y0 as int, i as int);
            item_y_grows(*m, head@, all, y0 as int, i as int, n - 1);
        }
        if x + need > right {
            x = PV_X + 14;
            y = y + m.line_h;
        }
        assert((x as int, y as int) == item_at(*m, head@, all, y0 as int, i as int));
        let is_new = match new_idx {
            Some(k) => k == i,
            None => false,
        };
        let base: i32 = if is_new {
            ID_AFT_NEW
        } else {
            id_base
        };
        let ghost mid = items_view(items@);
        push_item(
            items,
            x,
            y + (m.line_h - m.lem - 4),
            lw,
            m.lem + 4,
            base,
            label.as_str(),
            Face::Label,
        );
        let face = if is_new {
            Face::New
        } else {
            Face::Main
        };
        push_item(
            items,
            x + lw,
            y + (m.line_h - m.em - 6) / 2,
            tw,
            m.em + 6,
            base + 1,
            texts[i].as_str(),
            face,
        );
        assert(items_view(items@) =~= mid + item_boxes(
            *m,
            head@,
            all,
            y0 as int,
            new_at,
            id_base as int,
            i as int,
        ));
        assert(items_view(items@) =~= before + list_boxes(
            *m,
            head@,
            all,
            y0 as int,
            new_at,
            id_base as int,
            i + 1,
        ));
        x = x + need;
        i += 1;
    }
    y + m.line_h
}

/// The box of a line that says something about the list instead of being one.
pub open spec fn notice(m: Metrics, s: Seq<char>) -> ItemView {
    ItemView {
        x: PV_X as int,
        y: 228,
        w: PV_W as int,
        h: m.line_h as int,
        id: 0,
        text: s,
        face: Face::Label,
    }
}

/// The list of a code as it is shown: where it is empty, a line says so.
pub open spec fn current_list(texts: Seq<Seq<char>>) -> Seq<Seq<char>> {
    if texts.len() == 0 {
        seq!["（无候选——新词将成为首选）"@]
    } else {
        texts
    }
}

/// Where the list with the new word begins.
pub open spec fn second_list_y(m: Metrics, texts: Seq<Seq<char>>) -> int {
    list_bottom(m, "现有："@, current_list(texts), 228) + m.line_h / 2 + 4
}

/// What the dialog shows of a code: a hint where there is none, a notice where the engine did
/// not answer; else its list as it is, and with a word also the list as it will be.
pub open spec fn preview(
    m: Metrics,
    code: Seq<char>,
    word: Seq<char>,
    pos: int,
    reply: Option<Seq<Seq<char>>>,
) -> Seq<ItemView> {
    if code.len() == 0 {
        seq![notice(m, "（输入编码后显示该码候选）"@)]
    } else {
        match reply {
            None => seq![notice(m, "（查询失败）"@)],
            Some(texts) => {
                let cur = current_list(texts);
                let first = list_boxes(
                    m,
                    "现有："@,
                    cur,
                    228,
                    None,
                    ID_CUR_BASE as int,
                    cur.len() as int,
                );
                if word.len() == 0 {
                    first
                } else {
                    let sim = with_word(texts, word, pos);
                    first + list_boxes(
                        m,
                        "加入后："@,
                        sim,
                        second_list_y(m, texts),
                        Some(insert_at(texts, word, pos)),
                        ID_AFT_BASE as int,
                        sim.len() as int,
                    )
                }
            },
        }
    }
}

/// Where what the dialog shows of a code ends.
pub open spec fn preview_bottom(
    m: Metrics,
    code: Seq<char>,
    word: Seq<char>,
    pos: int,
    reply: Option<Seq<Seq<char>>>,
) -> int {
    if code.len() == 0 || reply is None {
        228 + m.line_h
    } else if word.len() == 0 {
        list_bottom(m, "现有："@, current_list(reply->0), 228)
    } else {
        list_bottom(
            m,
            "加入后："@,
            with_word(reply->0, word, pos),
            second_list_y(m, reply->0),
        )
    }
}

/// Whether what the dialog shows of a code can be laid out.
pub open spec fn preview_fits(
    m: Metrics,
    code: Seq<char>,
    word: Seq<char>,
    pos: int,
    reply: Option<Seq<Seq<char>>>,
) -> bool {
    &&& m.wf()
    &&& code.len() > 0 && reply is Some ==> list_fits(
        m,
        "现有："@,
        current_list(reply->0),
        228,
    )
    &&& code.len() > 0 && reply is Some && word.len() > 0 ==> list_fits(
        m,
        "加入后："@,
        with_word(reply->0, word, pos),
        second_list_y(m, reply->0),
    )
}

/// Where the next line below a list begins, where the list can be laid out; see [`list_fits`].
fn list_room(m: &Metrics, y0: i64, head: &str, texts: &Vec<String>) -> (r: Option<i64>)
    requires
        m.wf(),
        0 <= y0 <= 0x1_0000_0000,
    ensures
        match r {
            Some(b) => list_fits(*m, head@, text::strings(texts@), y0 as int) && b == list_bottom(
                *m,
                head@,
                text::strings(texts@),
                y0 as int,
            ) && 0 <= b <= i32::MAX,
            None => !list_fits(*m, head@, text::strings(texts@), y0 as int),
        },
{
    let ghost all = text::strings(texts@);
    let hw: i64 = match narrow_width(head, m.lem_ascii, m.lem) {
        Some(w) => w,
        None => return None,
    };
    let mut x: i64 = PV_X + hw + 4;
    let mut y: i64 = y0;
    let right: i64 = PV_X + PV_W;
    let n: usize = texts.len();
    let mut i: usize = 0;
    while i < n
        invariant
            i <= n == texts.len(),
            all == text::strings(texts@),
            m.wf(),
            right == PV_X + PV_W,
            hw == width(head@, m.lem_ascii as int, m.lem as int) <= i32::MAX,
            0 <= x <= 0x4_0000_0000,
            0 <= y0 <= y <= 0x2_0000_0000,
            i == 0 ==> x == PV_X + hw + 4 && y == y0,
            i > 0 ==> x == item_at(*m, head@, all, y0 as int, i - 1).0 + item_need(*m, all, i - 1),
            i > 0 ==> y == item_at(*m, head@, all, y0 as int, i - 1).1 <= i32::MAX,
            forall|k: int|
                0 <= k < i ==> width(#[trigger] all[k], m.em_ascii as int, m.em as int) <= i32::MAX,
            forall|k: int|
                0 <= k < i ==> width(#[trigger] item_label(k), m.lem_ascii as int, m.lem as int)
                    <= i32::MAX,
        decreases n - i,
    {
        assert(all[i as int] == texts@[i as int]@);
        let label = cat(decimal_of_len(i + 1).as_str(), ".");
        assert(label@ == item_label(i as int));
        let lw: i64 = match narrow_width(label.as_str(), m.lem_ascii, m.lem) {
            Some(w) => w + 2,
            None => return None,
        };
        let tw: i64 = match narrow_width(texts[i].as_str(), m.em_ascii, m.em) {
            Some(w) => w + 2,
            None => return None,
        };
        let need: i64 = lw + tw + m.spacing;
        if x + need > right {
            x = PV_X + 14;
            y = y + m.line_h;
        }
        assert((x as int, y as int) == item_at(*m, head@, all, y0 as int, i as int));
        if y > i32::MAX as i64 {
            proof {
                item_y_grows(*m, head@, all, y0 as int, i as int, n - 1);
            }
            return None;
        }
        x = x + need;
        i += 1;
    }
    let b: i64 = y + m.line_h;
    assert(b == list_bottom(*m, head@, all, y0 as int));
    if b > i32::MAX as i64 {
        return None;
    }
    Some(b)
}

/// Whether the sizes are ones that windows can have; see [`Metrics::wf`].
fn sizes_fit(m: &Metrics) -> (r: bool)
    ensures
        r == m.wf(),
{
    let most: i64 = i32::MAX as i64;
    0 <= m.em && m.em <= m.line_h && m.line_h <= most && 0 <= m.em_ascii && m.em_ascii <= most && 0
        <= m.lem && m.lem <= most && 0 <= m.lem_ascii && m.lem_ascii <= most && 0 <= m.spacing
        && m.spacing <= most && m.em <= m.line_h - 6
}

/// Whether what the dialog shows of a code can be laid out; see [`preview_fits`].
pub fn can_preview(
    m: &Metrics,
    code: &str,
    word: &str,
    pos: usize,
    reply: &Option<Vec<String>>,
) -> (r: bool)
    ensures
        r == preview_fits(*m, code@, word@, pos as int, reply_texts(*reply)),
{
    if !sizes_fit(m) {
        return false;
    }
    if code.unicode_len() == 0 {
        return true;
    }
    let texts = match reply {
        Some(t) => t,
        None => return true,
    };
    let room = if texts.len() == 0 {
        let mut none: Vec<String> = Vec::new();
        none.push("（无候选——新词将成为首选）".to_owned());
        assert(text::strings(none@) =~= current_list(text::strings(texts@)));
        list_room(m, 228, "现有：", &none)
    } else {
        assert(text::strings(texts@) =~= current_list(text::strings(texts@)));
        list_room(m, 228, "现有：", texts)
    };
    let bottom: i64 = match room {
        Some(b) => b,
        None => return false,
    };
    if word.unicode_len() == 0 {
        return true;
    }
    let (sim, _) = simulate(texts, word, pos);
    list_room(m, bottom + m.line_h / 2 + 4, "加入后：", &sim).is_some()
}

/// What a reply tells, where there is one.
pub open spec fn reply_texts(reply: Option<Vec<String>>) -> Option<Seq<Seq<char>>> {
    match reply {
        Some(v) => Some(text::strings(v@)),
        None => None,
    }
}

/// Lays out what the dialog shows of a code; see [`preview`]. The items, and where they end.
pub fn refresh_preview(
    m: &Metrics,
    code: &str,
    word: &str,
    pos: usize,
    reply: Option<Vec<String>>,
) -> (r: (Vec<Item>, i64))
    requires
        preview_fits(*m, code@, word@, pos as int, reply_texts(reply)),
    ensures
        items_view(r.0@) == preview(*m, code@, word@, pos as int, reply_texts(reply)),
        r.1 == preview_bottom(*m, code@, word@, pos as int, reply_texts(reply)),
{
    let mut items: Vec<Item> = Vec::new();
    assert(items_view(items@) =~= seq![]);
    if code.unicode_len() == 0 {
        push_item(
            &mut items,
            PV_X,
            228,
            PV_W,
            m.line_h,
            0,
            "（输入编码后显示该码候选）",
            Face::Label,
        );
        assert(items_view(items@) =~= preview(*m, code@, word@, pos as int, reply_texts(reply)));
        return (items, 228 + m.line_h);
    }
    let texts = match reply {
        Some(t) => t,
        None => {
            push_item(
                &mut items,
                PV_X,
                228,
                PV_W,
                m.line_h,
                0,
                "（查询失败）",
                Face::Label,
            );
            assert(items_view(items@) =~= preview(*m, code@, word@, pos as int, reply_texts(reply)));
            return (items, 228 + m.line_h);
        },
    };
    let y: i64;
    if texts.len() == 0 {
        let mut none: Vec<String> = Vec::new();
        none.push("（无候选——新词将成为首选）".to_owned());
        assert(text::strings(none@) =~= current_list(text::strings(texts@)));
        y = draw_items(&mut items, m, 228, "现有：", &none, None, ID_CUR_BASE);
    } else {
        assert(text::strings(texts@) =~= current_list(text::strings(texts@)));
        y = draw_items(&mut items, m, 228, "现有：", &texts, None, ID_CUR_BASE);
    }
    let ghost first = items_view(items@);
    assert(first =~= list_boxes(
        *m,
        "现有："@,
        current_list(text::strings(texts@)),
        228,
        None,
        ID_CUR_BASE as int,
        current_list(text::strings(texts@)).len() as int,
    ));
    if word.unicode_len() == 0 {
        return (items, y);
    }
    let (sim, idx) = simulate(&texts, word, pos);
    let bottom: i64 = draw_items(
        &mut items,
        m,
        y + m.line_h / 2 + 4,
        "加入后：",
        &sim,
        Some(idx),
        ID_AFT_BASE,
    );
    (items, bottom)
}

/// Where the buttons go and how high the dialog is, below what it shows.
pub fn button_row(bottom: i64) -> (r: (i64, i64))
    requires
        0 <= bottom <= 2 * i32::MAX,
    ensures
        r.0 == bottom + 10,
        r.1 == bottom + 54,
{
    (bottom + 10, bottom + 10 + 30 + 14)
}

/// The number in an edit box, or nought: the place for the word in the list that is shown.
pub fn place_number(s: &str) -> (r: usize)
    ensures
        r == match number::int_of(text::trim(s@), 0, usize::MAX as int) {
            Some(n) => n,
            None => 0,
        },
{
    let cs = chars_of(s);
    let t = trimmed(&cs);
    match parse_int(&t, 0, usize::MAX as i128) {
        Some(n) => n as usize,
        None => 0,
    }
}

/// The text in an edit box without white space about it.
pub fn field(s: &str) -> (r: String)
    ensures
        r@ == text::trim(s@),
{
    let cs = chars_of(s);
    let t = trimmed(&cs);
    let r = string_of(&t, 0, t.len());
    assert(r@ =~= t@);
    r
}

/// A word to add: its code, itself, and its place.
#[derive(Debug)]
pub struct NewWord {
    pub code: String,
    pub word: String,
    pub pos: i64,
}

/// The place that an edit box gives a word that is sent.
pub open spec fn sent_pos(s: Option<Seq<char>>) -> int {
    match s {
        Some(s) => match number::int_of(text::trim(s), i64::MIN as int, i64::MAX as int) {
            Some(n) => n,
            None => 0,
        },
        None => 0,
    }
}

/// What the dialog sends, from the texts of its edit boxes: nothing where the word or the code is
/// blank or empty. A place that is no number is nought.
pub fn submit(word: Option<String>, code: Option<String>, pos: Option<String>) -> (r: Option<NewWord>)
    ensures
        match r {
            Some(n) => {
                &&& word is Some && code is Some
                &&& n.word@ == text::trim(word->0@) && n.word@.len() > 0
                &&& n.code@ == text::trim(code->0@) && n.code@.len() > 0
                &&& n.pos == sent_pos(crate::session::opt_text(pos))
            },
            None => word is None || code is None || text::trim(word->0@).len() == 0 || text::trim(
                code->0@,
            ).len() == 0,
        },
{
    let n: i64 = match pos {
        Some(s) => {
            let cs = chars_of(s.as_str());
            let t = trimmed(&cs);
            match parse_int(&t, i64::MIN as i128, i64::MAX as i128) {
                Some(n) => n as i64,
                None => 0,
            }
        },
        None => 0,
    };
    let (w, c) = match (word, code) {
        (Some(w), Some(c)) => (field(w.as_str()), field(c.as_str())),
        _ => return None,
    };
    if w.as_str().unicode_len() == 0 || c.as_str().unicode_len() == 0 {
        return None;
    }
    Some(NewWord { code: c, word: w, pos: n })
}

/// The new word stands in the list exactly once, and where it is asked for as far as the list
/// reaches.
pub proof fn word_is_put_in_once(texts: Seq<Seq<char>>, word: Seq<char>, pos: int)
    ensures
        ({
            let l = with_word(texts, word, pos);
            let at = insert_at(texts, word, pos);
            &&& l[at] == word
            &&& forall|i: int| 0 <= i < l.len() && i != at ==> #[trigger] l[i] != word
            &&& pos >= 1 && pos <= without(texts, word).len() + 1 ==> at == pos - 1
        }),
{
    without_lacks(texts, word);
    let l = with_word(texts, word, pos);
    let at = insert_at(texts, word, pos);
    let w = without(texts, word);
    assert forall|i: int| 0 <= i < l.len() && i != at implies #[trigger] l[i] != word by {
        if i < at {
            assert(l[i] == w[i]);
        } else {
            assert(l[i] == w[i - 1]);
        }
    }
}

proof fn without_lacks(texts: Seq<Seq<char>>, word: Seq<char>)
    ensures
        forall|i: int| 0 <= i < without(texts, word).len() ==> #[trigger] without(texts, word)[i] != word,
    decreases texts.len(),
{
    if texts.len() > 0 {
        let head = without(texts.drop_last(), word);
        without_lacks(texts.drop_last(), word);
        assert forall|i: int| 0 <= i < without(texts, word).len() implies #[trigger] without(texts, word)[i]
            != word by {
            if i < head.len() {
                assert(without(texts, word)[i] == head[i]);
            }
        }
    }
}

/// Taking the new word out again leaves the other candidates in their order.
pub proof fn others_keep_order(texts: Seq<Seq<char>>, word: Seq<char>, pos: int)
    ensures
        with_word(texts, word, pos).remove(insert_at(texts, word, pos)) == without(texts, word),
{
    assert(with_word(texts, word, pos).remove(insert_at(texts, word, pos)) =~= without(texts, word));
}

/// The width of a text is that of its parts.
pub proof fn width_adds_up(s: Seq<char>, t: Seq<char>, ascii: int, wide: int)
    ensures
        width(s + t, ascii, wide) == width(s, ascii, wide) + width(t, ascii, wide),
        forall|c: char|
            #[trigger] width(seq![c], ascii, wide) == if (c as u32) < 0x80 {
                ascii
            } else {
                wide
            },
    decreases t.len(),
{
    reveal_with_fuel(width, 2);
    if t.len() == 0 {
        assert(s + t =~= s);
    } else {
        width_adds_up(s, t.drop_last(), ascii, wide);
        assert((s + t).drop_last() =~= s + t.drop_last());
    }
    assert forall|c: char|
        #[trigger] width(seq![c], ascii, wide) == if (c as u32) < 0x80 {
            ascii
        } else {
            wide
        } by {
        assert(seq![c].drop_last() =~= seq![]);
    }
}

/// A list shows every item once: behind its head, for each item its number and itself.
pub proof fn list_shows_every_item(
    m: Metrics,
    head: Seq<char>,
    texts: Seq<Seq<char>>,
    y0: int,
    new_idx: Option<int>,
    id_base: int,
    i: int,
)
    requires
        0 <= i < texts.len(),
    ensures
        ({
            let l = list_boxes(m, head, texts, y0, new_idx, id_base, texts.len() as int);
            let number = l[1 + 2 * i];
            let word = l[2 + 2 * i];
            &&& l.len() == 1 + 2 * texts.len()
            &&& l[0].text == head && l[0].x == PV_X && l[0].y == y0
            &&& number.text == number::decimal(i + 1) + "."@
            &&& word.text == texts[i]
            &&& number.x + number.w == word.x
            &&& word.w == width(texts[i], m.em_ascii as int, m.em as int) + 2
            &&& number.w == width(number.text, m.lem_ascii as int, m.lem as int) + 2
            &&& word.face == if new_idx == Some(i) {
                Face::New
            } else {
                Face::Main
            }
            &&& number.face == Face::Label
            &&& (new_idx == Some(i)) == (number.id == ID_AFT_NEW && word.id == ID_AFT_NEW + 1) || (
            id_base == ID_AFT_NEW)
            &&& new_idx != Some(i) ==> number.id == id_base && word.id == id_base + 1
        }),
{
    boxes_of_item(m, head, texts, y0, new_idx, id_base, texts.len() as int, i);
}

proof fn boxes_of_item(
    m: Metrics,
    head: Seq<char>,
    texts: Seq<Seq<char>>,
    y0: int,
    new_idx: Option<int>,
    id_base: int,
    n: int,
    i: int,
)
    requires
        0 <= i < n,
    ensures
        ({
            let l = list_boxes(m, head, texts, y0, new_idx, id_base, n);
            let b = item_boxes(m, head, texts, y0, new_idx, id_base, i);
            &&& l.len() == 1 + 2 * n
            &&& l[1 + 2 * i] == b[0]
            &&& l[2 + 2 * i] == b[1]
            &&& l[0].text == head && l[0].x == PV_X && l[0].y == y0
        }),
    decreases n,
{
    reveal_with_fuel(list_boxes, 2);
    let l = list_boxes(m, head, texts, y0, new_idx, id_base, n);
    let before = list_boxes(m, head, texts, y0, new_idx, id_base, n - 1);
    let b = item_boxes(m, head, texts, y0, new_idx, id_base, n - 1);
    assert(l == before + b);
    if i < n - 1 {
        boxes_of_item(m, head, texts, y0, new_idx, id_base, n - 1, i);
        assert(l[1 + 2 * i] == before[1 + 2 * i]);
        assert(l[2 + 2 * i] == before[2 + 2 * i]);
        assert(l[0] == before[0]);
    } else if n > 1 {
        boxes_of_item(m, head, texts, y0, new_idx, id_base, n - 1, 0);
        assert(l[1 + 2 * i] == b[0]);
        assert(l[2 + 2 * i] == b[1]);
        assert(l[0] == before[0]);
    } else {
        assert(l[1] == b[0]);
        assert(l[2] == b[1]);
        assert(l[0] == before[0]);
    }
}

/// No two items of a list overlap: the later one stands on a lower line, or on the same line
/// behind the end of the earlier one. The first stands behind the head or below it.
pub proof fn list_items_do_not_overlap(
    m: Metrics,
    head: Seq<char>,
    texts: Seq<Seq<char>>,
    y0: int,
    new_idx: Option<int>,
    id_base: int,
    i: int,
    j: int,
)
    requires
        m.wf(),
        0 <= i < j < texts.len(),
    ensures
        ({
            let l = list_boxes(m, head, texts, y0, new_idx, id_base, texts.len() as int);
            let word = l[2 + 2 * i];
            let later_number = l[1 + 2 * j];
            let later_word = l[2 + 2 * j];
            &&& later_word.y >= word.y + m.line_h || (later_word.y == word.y && later_number.x
                >= word.x + word.w)
            &&& later_word.y >= l[2].y
            &&& list_bottom(m, head, texts, y0) >= item_at(m, head, texts, y0, j).1 + m.line_h
        }),
{
    boxes_of_item(m, head, texts, y0, new_idx, id_base, texts.len() as int, i);
    boxes_of_item(m, head, texts, y0, new_idx, id_base, texts.len() as int, j);
    boxes_of_item(m, head, texts, y0, new_idx, id_base, texts.len() as int, 0);
    items_follow(m, head, texts, y0, i, j);
    item_y_grows(m, head, texts, y0, 0, j);
    item_y_grows(m, head, texts, y0, j, texts.len() - 1);
}

proof fn items_follow(
    m: Metrics,
    head: Seq<char>,
    texts: Seq<Seq<char>>,
    y0: int,
    i: int,
    j: int,
)
    requires
        m.wf(),
        0 <= i < j < texts.len(),
    ensures
        ({
            let (xi, yi) = item_at(m, head, texts, y0, i);
            let (xj, yj) = item_at(m, head, texts, y0, j);
            yj >= yi + m.line_h || (yj == yi && xj >= xi + label_w(m, i) + word_w(m, texts[i]))
        }),
    decreases j - i,
{
    width_nonneg(texts[j - 1], m.em_ascii as int, m.em as int);
    width_nonneg(item_label(j - 1), m.lem_ascii as int, m.lem as int);
    if i < j - 1 {
        items_follow(m, head, texts, y0, i, j - 1);
    }
}

/// A list keeps to its place: its first item stands on the line of the head and behind it, or
/// lower; an item that does not begin a line ends before the right edge; each box lies on its
/// line; and the list ends below its last line.
pub proof fn list_keeps_to_its_place(
    m: Metrics,
    head: Seq<char>,
    texts: Seq<Seq<char>>,
    y0: int,
    new_idx: Option<int>,
    id_base: int,
    i: int,
)
    requires
        m.wf(),
        m.lem + 4 <= m.line_h,
        0 <= i < texts.len(),
    ensures
        ({
            let l = list_boxes(m, head, texts, y0, new_idx, id_base, texts.len() as int);
            let number = l[1 + 2 * i];
            let word = l[2 + 2 * i];
            let bottom = list_bottom(m, head, texts, y0);
            &&& y0 <= number.y && number.y + number.h <= bottom
            &&& y0 <= word.y && word.y + word.h <= bottom
            &&& number.x >= PV_X
            &&& number.x != PV_X + 14 ==> word.x + word.w + m.spacing <= PV_X + PV_W
            &&& word.y < y0 + m.line_h ==> number.x >= PV_X + width(
                head,
                m.lem_ascii as int,
                m.lem as int,
            ) + 4
            &&& bottom >= y0 + m.line_h
        }),
    decreases i,
{
    boxes_of_item(m, head, texts, y0, new_idx, id_base, texts.len() as int, i);
    item_keeps_to_its_place(m, head, texts, y0, i);
    item_y_grows(m, head, texts, y0, i, texts.len() - 1);
}

proof fn item_keeps_to_its_place(
    m: Metrics,
    head: Seq<char>,
    texts: Seq<Seq<char>>,
    y0: int,
    i: int,
)
    requires
        m.wf(),
        0 <= i < texts.len(),
    ensures
        ({
            let (x, y) = item_at(m, head, texts, y0, i);
            &&& y == y0 || y >= y0 + m.line_h
            &&& x >= PV_X
            &&& y == y0 ==> x >= PV_X + width(head, m.lem_ascii as int, m.lem as int) + 4
            &&& x == PV_X + 14 || x + item_need(m, texts, i) <= PV_X + PV_W
        }),
    decreases i,
{
    width_nonneg(head, m.lem_ascii as int, m.lem as int);
    if i > 0 {
        item_keeps_to_its_place(m, head, texts, y0, i - 1);
        width_nonneg(texts[i - 1], m.em_ascii as int, m.em as int);
        width_nonneg(item_label(i - 1), m.lem_ascii as int, m.lem as int);
    }
}

/// What the dialog shows of a code: its candidates as they are, in their order; and below them,
/// where there is a word, the candidates as they will be, with the new word marked.
pub proof fn preview_shows_both_lists(
    m: Metrics,
    code: Seq<char>,
    word: Seq<char>,
    pos: int,
    texts: Seq<Seq<char>>,
    i: int,
)
    requires
        m.wf(),
        m.lem + 4 <= m.line_h,
        code.len() > 0,
        texts.len() > 0,
        0 <= i < texts.len(),
    ensures
        ({
            let p = preview(m, code, word, pos, Some(texts));
            let n = 1 + 2 * texts.len();
            let sim = with_word(texts, word, pos);
            let at = insert_at(texts, word, pos);
            &&& p[2 + 2 * i].text == texts[i]
            &&& p[2 + 2 * i].face == Face::Main
            &&& p[1 + 2 * i].text == number::decimal(i + 1) + "."@
            &&& word.len() == 0 ==> p.len() == n
            &&& word.len() > 0 ==> {
                &&& p.len() == n + 1 + 2 * sim.len()
                &&& p[n as int].y >= p[2 + 2 * i].y + p[2 + 2 * i].h
                &&& p[n + 2 + 2 * at].text == word
                &&& p[n + 2 + 2 * at].face == Face::New
                &&& forall|k: int|
                    #![trigger sim[k]]
                    0 <= k < sim.len() && k != at ==> p[n + 2 + 2 * k].text == sim[k] && p[n + 2 + 2
                        * k].face == Face::Main
            }
        }),
{
    let first = list_boxes(m, "现有："@, texts, 228, None, ID_CUR_BASE as int, texts.len() as int);
    let n = 1 + 2 * texts.len() as int;
    list_shows_every_item(m, "现有："@, texts, 228, None, ID_CUR_BASE as int, i);
    assert(first.len() == n);
    let p = preview(m, code, word, pos, Some(texts));
    if word.len() == 0 {
        assert(p == first);
    } else {
        let sim = with_word(texts, word, pos);
        let at = insert_at(texts, word, pos);
        let y = second_list_y(m, texts);
        let second = list_boxes(m, "加入后："@, sim, y, Some(at), ID_AFT_BASE as int, sim.len() as int);
        assert(p == first + second);
        word_is_put_in_once(texts, word, pos);
        second_list_shows(m, first, sim, y, at, word);
        assert(p[1 + 2 * i] == first[1 + 2 * i]);
        assert(p[2 + 2 * i] == first[2 + 2 * i]);
        assert(p[n] == second[0]);
        assert(first[2 + 2 * i].y + first[2 + 2 * i].h <= y) by {
            list_keeps_to_its_place(m, "现有："@, texts, 228, None, ID_CUR_BASE as int, i);
            assert(0 <= m.line_h / 2);
        }
        assert(p[n].y == y);
        assert(p[n + 2 + 2 * at].text == word);
        assert(p[n + 2 + 2 * at].face == Face::New);
    }
}

proof fn second_list_shows(
    m: Metrics,
    first: Seq<ItemView>,
    sim: Seq<Seq<char>>,
    y: int,
    at: int,
    word: Seq<char>,
)
    requires
        0 <= at < sim.len(),
        sim[at] == word,
    ensures
        ({
            let second = list_boxes(m, "加入后："@, sim, y, Some(at), ID_AFT_BASE as int, sim.len() as int);
            second.len() == 1 + 2 * sim.len() && second[0].y == y
        }),
        ({
            let second = list_boxes(m, "加入后："@, sim, y, Some(at), ID_AFT_BASE as int, sim.len() as int);
            let b = (first + second)[first.len() + 2 + 2 * at];
            b.text == word && b.face == Face::New
        }),
        forall|k: int|
            #![trigger sim[k]]
            0 <= k < sim.len() && k != at ==> {
                let second = list_boxes(
                    m,
                    "加入后："@,
                    sim,
                    y,
                    Some(at),
                    ID_AFT_BASE as int,
                    sim.len() as int,
                );
                let b = (first + second)[first.len() + 2 + 2 * k];
                b.text == sim[k] && b.face == Face::Main
            },
{
    let second = list_boxes(m, "加入后："@, sim, y, Some(at), ID_AFT_BASE as int, sim.len() as int);
    let p = first + second;
    list_shows_every_item(m, "加入后："@, sim, y, Some(at), ID_AFT_BASE as int, at);
    assert(p[first.len() + 2 + 2 * at] == second[2 + 2 * at]);
    assert forall|k: int|
        #![trigger sim[k]]
        0 <= k < sim.len() && k != at implies p[first.len() + 2 + 2 * k].text == sim[k] && p[first.len() + 2
        + 2 * k].face == Face::Main by {
        list_shows_every_item(m, "加入后："@, sim, y, Some(at), ID_AFT_BASE as int, k);
        assert(p[first.len() + 2 + 2 * k] == second[2 + 2 * k]);
    }
}

/// Nothing is shown but a line that says so where there is no code, and where the engine did not
/// answer; and an empty list is said to be empty.
pub proof fn preview_says_why_it_is_empty(
    m: Metrics,
    code: Seq<char>,
    word: Seq<char>,
    pos: int,
)
    ensures
        ({
            let p = preview(m, seq![], word, pos, None);
            p.len() == 1 && p[0].text == "（输入编码后显示该码候选）"@
        }),
        code.len() > 0 ==> ({
            let p = preview(m, code, word, pos, None);
            p.len() == 1 && p[0].text == "（查询失败）"@
        }),
        code.len() > 0 ==> ({
            let p = preview(m, code, word, pos, Some(seq![]));
            p.len() >= 3 && p[2].text == "（无候选——新词将成为首选）"@
        }),
{
    if code.len() > 0 {
        let none = seq!["（无候选——新词将成为首选）"@];
        list_shows_every_item(m, "现有："@, none, 228, None, ID_CUR_BASE as int, 0);
    }
}

/// The list with the new word holds all the other candidates, in their order, and no others.
pub proof fn others_are_all_kept(texts: Seq<Seq<char>>, word: Seq<char>)
    ensures
        without(texts, word) == texts.filter(|t: Seq<char>| t != word),
    decreases texts.len(),
{
    reveal(Seq::filter);
    let f = |t: Seq<char>| t != word;
    if texts.len() == 0 {
        assert(texts.filter(f) =~= seq![]);
    } else {
        others_are_all_kept(texts.drop_last(), word);
        assert(without(texts, word) =~= texts.filter(f));
    }
}

/// The word goes to the place that is asked for, counted from one; first where none is asked for;
/// and last where the list does not reach so far.
pub proof fn word_goes_to_its_place(texts: Seq<Seq<char>>, word: Seq<char>, pos: int)
    ensures
        ({
            let l = with_word(texts, word, pos);
            let others = texts.filter(|t: Seq<char>| t != word);
            &&& l.len() == others.len() + 1
            &&& pos <= 1 ==> l[0] == word
            &&& 1 <= pos <= others.len() + 1 ==> l[pos - 1] == word
            &&& pos > others.len() ==> l[others.len() as int] == word
        }),
{
    others_are_all_kept(texts, word);
}

/// The dialog opens in the middle of the screen.
pub proof fn dialog_is_centred(screen: int, size: int)
    requires
        size <= screen,
    ensures
        ({
            let x = geometry::quotient(screen - size, 2);
            &&& 0 <= x
            &&& 0 <= (screen - size - x) - x <= 1
        }),
{
}

/// Enter and `OK` add the word, Escape and `Cancel` close the dialog, each edit of a box draws the
/// lists anew, and nothing else does any of that.
pub proof fn commands_mean(id: int, notification: int)
    ensures
        command_of(id, notification) == Command::Submit <==> notification == 0 && (id == 1 || id
            == 1001),
        command_of(id, notification) == Command::Close <==> notification == 0 && (id == 2 || id
            == 1002),
        command_of(id, notification) == Command::Refresh <==> notification == 0x400 && (id == 101
            || id == 102 || id == 103),
{
}

/// What is sent is what was typed without the white space about it; a place that is no number is
/// nought, and one that is a number is that number.
pub proof fn place_is_sent(n: int, before: Seq<char>, behind: Seq<char>)
    requires
        i64::MIN <= n <= i64::MAX,
        text::blank(before),
        text::blank(behind),
    ensures
        sent_pos(Some(before + number::decimal(n) + behind)) == n,
        sent_pos(None) == 0,
        sent_pos(Some(seq![])) == 0,
{
    number::decimal_reads_back(n, i64::MIN as int, i64::MAX as int);
    number::decimal_is_tidy(n);
    text::trim_finds_tidy_text(before, number::decimal(n), behind);
}

/// The boxes of an item are as high as their type asks; the number stands on the ground of its
/// line, and the item is in the middle of it.
pub proof fn boxes_stand_on_their_line(
    m: Metrics,
    head: Seq<char>,
    texts: Seq<Seq<char>>,
    y0: int,
    new_idx: Option<int>,
    id_base: int,
    i: int,
)
    requires
        0 <= i < texts.len(),
    ensures
        ({
            let l = list_boxes(m, head, texts, y0, new_idx, id_base, texts.len() as int);
            let number = l[1 + 2 * i];
            let word = l[2 + 2 * i];
            let ground = number.y + number.h;
            &&& number.h == m.lem + 4
            &&& word.h == m.em + 6
            &&& 0 <= (ground - (word.y + word.h)) - (word.y - (ground - m.line_h)) <= 1
            &&& i + 1 == texts.len() ==> ground == list_bottom(m, head, texts, y0)
            &&& l[0].h == m.line_h
        }),
{
    boxes_of_item(m, head, texts, y0, new_idx, id_base, texts.len() as int, i);
    head_of_list(m, head, texts, y0, new_idx, id_base, texts.len() as int);
}

proof fn head_of_list(
    m: Metrics,
    head: Seq<char>,
    texts: Seq<Seq<char>>,
    y0: int,
    new_idx: Option<int>,
    id_base: int,
    n: int,
)
    ensures
        list_boxes(m, head, texts, y0, new_idx, id_base, n).len() > 0,
        list_boxes(m, head, texts, y0, new_idx, id_base, n)[0].h == m.line_h,
    decreases n,
{
    if n > 0 {
        head_of_list(m, head, texts, y0, new_idx, id_base, n - 1);
    }
}

/// What the dialog shows ends with the line of its last item; without a list it ends with the one
/// line that says why.
pub proof fn preview_ends_with_last_line(
    m: Metrics,
    code: Seq<char>,
    word: Seq<char>,
    pos: int,
    texts: Seq<Seq<char>>,
)
    requires
        code.len() > 0,
    ensures
        ({
            let p = preview(m, code, word, pos, Some(texts));
            &&& p.len() >= 3
            &&& p[p.len() - 2].y + p[p.len() - 2].h == preview_bottom(m, code, word, pos, Some(texts))
        }),
        preview_bottom(m, code, word, pos, None) == 228 + m.line_h,
        preview_bottom(m, seq![], word, pos, Some(texts)) == 228 + m.line_h,
{
    let cur = current_list(texts);
    let first = list_boxes(m, "现有："@, cur, 228, None, ID_CUR_BASE as int, cur.len() as int);
    boxes_stand_on_their_line(m, "现有："@, cur, 228, None, ID_CUR_BASE as int, cur.len() - 1);
    list_shows_every_item(m, "现有："@, cur, 228, None, ID_CUR_BASE as int, cur.len() - 1);
    let p = preview(m, code, word, pos, Some(texts));
    if word.len() == 0 {
        assert(p == first);
    } else {
        let sim = with_word(texts, word, pos);
        let at = insert_at(texts, word, pos);
        let y = second_list_y(m, texts);
        let second = list_boxes(m, "加入后："@, sim, y, Some(at), ID_AFT_BASE as int, sim.len() as int);
        word_is_put_in_once(texts, word, pos);
        let k = sim.len() - 1;
        boxes_stand_on_their_line(m, "加入后："@, sim, y, Some(at), ID_AFT_BASE as int, k);
        list_shows_every_item(m, "加入后："@, sim, y, Some(at), ID_AFT_BASE as int, k);
        assert(p == first + second);
        assert(p[p.len() - 2] == second[second.len() - 2]);
    }
}

/// A colour that the skin writes is the one of the dialog; a skin without colours names none.
pub proof fn written_colour_is_drawn(t: Tree, key: Seq<char>, r: u8, g: u8, b: u8)
    requires
        forall|i: int| 0 <= i < key.len() ==> key[i] != '/' && key[i] != '~',
    ensures
        (t.member("colors"@) matches Some(c) && c.member(key) == Some(
            Tree::Str(
                seq!['#'] + color::hex_of(r, true) + color::hex_of(g, true) + color::hex_of(b, true),
            ),
        )) ==> skin_bgr(t, key) == Some(0x10000 * b + 0x100 * g + r),
        t.member("colors"@) is None ==> skin_bgr(t, key) is None,
{
    color::gdi_colour_reads_back(r, g, b, true);
    if let Some(c) = t.member("colors"@) {
        if !(c is Array) {
            json::plain_name_leads_to_member(c, key);
        }
    }
}

/// The background goes a fifth of the way to white in each of its parts.
pub proof fn background_is_lighter(r: int, g: int, b: int)
    requires
        0 <= r <= 255,
        0 <= g <= 255,
        0 <= b <= 255,
    ensures
        ({
            let n = background(0x10000 * b + 0x100 * g + r);
            &&& 0 <= (255 - r) - 5 * (n % 0x100 - r) < 5
            &&& 0 <= (255 - g) - 5 * (n / 0x100 % 0x100 - g) < 5
            &&& 0 <= (255 - b) - 5 * (n / 0x10000 % 0x100 - b) < 5
        }),
{
    color::lighter_goes_a_fifth(r);
    color::lighter_goes_a_fifth(g);
    color::lighter_goes_a_fifth(b);
    color::lighter_is_lighter(r);
    color::lighter_is_lighter(g);
    color::lighter_is_lighter(b);
    parts_of_colour(r, g, b);
    parts_of_colour(color::lighter(r), color::lighter(g), color::lighter(b));
}

proof fn parts_of_colour(r: int, g: int, b: int)
    requires
        0 <= r <= 255,
        0 <= g <= 255,
        0 <= b <= 255,
    ensures
        (0x10000 * b + 0x100 * g + r) % 0x100 == r,
        (0x10000 * b + 0x100 * g + r) / 0x100 % 0x100 == g,
        (0x10000 * b + 0x100 * g + r) / 0x10000 % 0x100 == b,
{
}

/// The controls of the dialog do not overlap: each stands below the one before it, and the two
/// buttons side by side, all of them within its width.
pub proof fn controls_do_not_overlap(a: Control, b: Control, c: Control, row: int, s: Seq<char>, u: Seq<char>)
    ensures
        is_caption(a, row, s) && is_box(b, row, b.kind, b.id) ==> a.y + a.h <= b.y && a.x == b.x && b.y
            < a.y + a.h + 10,
        is_box(b, row, b.kind, b.id) && is_caption(c, row + 1, u) ==> b.y + b.h <= c.y,
        is_caption(a, row, s) ==> a.x + a.w <= WIN_W && a.text@ == s && a.kind == Kind::Label,
        is_box(b, row, b.kind, b.id) ==> b.x + b.w <= WIN_W && b.text@.len() == 0,
        is_button(a, s, 216, a.id) && is_button(b, u, 311, b.id) ==> a.x + a.w <= b.x && a.y == b.y && b.x
            + b.w <= WIN_W && a.h == b.h && a.h > 0 && a.w == b.w,
{
    reveal_strlit("");
}

} // verus!
