//! The item in the language bar: the mode, the item's menu, and its icon.

use vstd::prelude::*;
use vstd::string::*;

use crate::com::E_INVALIDARG;
use crate::json;
use crate::json::{add_member, texts_in, Json, Tree};
use crate::request;
use crate::request::{reload_schema_request, settings_request};
use crate::text;
use crate::text::same;
use crate::utf16;
use crate::utf16::utf16_of;

verus! {

/// What the item shows in place of an icon's text, whatever the mode: hosts keep what they have
/// read, so a text that told the mode would come to lie.
pub const ITEM_TEXT: &'static str = "虎符";

/// The glyph of the item's icons, for both modes alike.
pub const ITEM_GLYPH: &'static str = "虎";

/// What the item is called.
pub const ITEM_DESCRIPTION: &'static str = "虎符输入法";

/// What the item says when the mouse is over it.
pub const ITEM_TOOLTIP: &'static str = "虎符输入法（左键切中英，右键选码表/设置）";

/// The text of the menu's entry for the settings.
pub const SETTINGS_TEXT: &'static str = "设置…";

/// The text of the menu's entry that loads the code table anew.
pub const RELOAD_TEXT: &'static str = "重载码表";

/// What a change of mode updates: the icon, the text and the tooltip.
pub const UPDATE_ALL: u32 = 7;

/// What becomes of a change of mode.
#[derive(Clone, Copy, Debug, PartialEq, Eq, Structural)]
pub enum ModeChange {
    /// The mode is the one it was.
    Same,
    /// The hosts are told once the thread waits for messages again.
    Deferred,
    /// The hosts are told at once, there being no window for messages.
    Now,
}

/// The mode of the process.
#[derive(Clone, Copy, Debug, PartialEq, Eq, Structural)]
pub struct Mode {
    pub chinese: bool,
    /// The mode that hosts are to be told of.
    pub pending: bool,
    /// Whether there is a window for messages.
    pub window: bool,
}

impl Mode {
    /// Chinese, without a window for messages.
    pub fn new() -> (r: Mode)
        ensures
            r == (Mode { chinese: true, pending: true, window: false }),
    {
        Mode { chinese: true, pending: true, window: false }
    }

    /// The mode after it was set.
    pub open spec fn set_to(self, zh: bool) -> Mode {
        if self.chinese == zh {
            self
        } else {
            Mode { chinese: zh, pending: zh, ..self }
        }
    }

    /// What hosts are told of the mode.
    pub open spec fn told(self) -> Compartments {
        Compartments { open: 1, conversion: conversion(self.chinese) }
    }

    /// Sets the mode. It holds at once; hosts are told of it later, so that nothing is sent to
    /// them while a key is being handled.
    pub fn set_mode(&mut self, zh: bool) -> (r: ModeChange)
        ensures
            r == if old(self).chinese == zh {
                ModeChange::Same
            } else if old(self).window {
                ModeChange::Deferred
            } else {
                ModeChange::Now
            },
            *final(self) == old(self).set_to(zh),
            final(self).chinese == zh,
            r != ModeChange::Same ==> final(self).pending == zh,
            final(self).window == old(self).window,
    {
        if self.chinese == zh {
            return ModeChange::Same;
        }
        self.chinese = zh;
        self.pending = zh;
        if self.window {
            ModeChange::Deferred
        } else {
            ModeChange::Now
        }
    }
}

/// Whether the mode is Chinese.
pub fn is_chinese(m: &Mode) -> (r: bool)
    ensures
        r == m.chinese,
{
    m.chinese
}

/// What hosts read of the mode.
#[derive(Clone, Copy, Debug, PartialEq, Eq, Structural)]
pub struct Compartments {
    pub open: i32,
    pub conversion: i32,
}

/// The number by which hosts know a mode.
pub open spec fn conversion(chinese: bool) -> i32 {
    if chinese {
        1
    } else {
        0
    }
}

/// What hosts are told of the mode: the input method is open, and converts as the mode says.
pub fn push_compartments(m: &Mode) -> (r: Compartments)
    ensures
        r == m.told(),
        r.open == 1,
        r.conversion == if m.chinese {
            1i32
        } else {
            0i32
        },
{
    Compartments {
        open: 1,
        conversion: if is_chinese(m) {
            1
        } else {
            0
        },
    }
}

/// Whether a change of what hosts hold is worth a note: it is of the conversion, and it is not
/// what the mode says. The mode never follows it: what hosts remember may be stale.
pub fn change_differs(m: &Mode, of_conversion: bool, actual: Option<i32>) -> (r: bool)
    ensures
        r == (of_conversion && match actual {
            Some(n) => n != conversion(m.chinese),
            None => false,
        }),
{
    if !of_conversion {
        return false;
    }
    match actual {
        Some(n) => n != push_compartments(m).conversion,
        None => false,
    }
}

/// A mode that was set is the one that hosts are told of, and to set it again changes nothing.
pub proof fn set_mode_is_pushed(m: Mode, zh: bool)
    ensures
        m.set_to(zh).told() == (Compartments { open: 1, conversion: conversion(zh) }),
        m.set_to(zh).set_to(zh) == m.set_to(zh),
{
}

/// The number in the bytes of a variant, where it holds one of 32 bits.
pub open spec fn variant_number(b: Seq<u8>) -> Option<i32> {
    if b.len() >= 12 && b[0] == 3 && b[1] == 0 {
        Some((b[8] + 256 * b[9] + 65536 * b[10] + 16777216 * b[11]) as u32 as i32)
    } else {
        None
    }
}

/// The number in the bytes of a variant; see [`variant_number`].
pub fn var_i32(b: &Vec<u8>) -> (r: Option<i32>)
    ensures
        r == variant_number(b@),
{
    if b.len() >= 12 && b[0] == 3 && b[1] == 0 {
        let n: u32 = b[8] as u32 + 256 * (b[9] as u32) + 65536 * (b[10] as u32) + 16777216 * (
        b[11] as u32);
        Some(n as i32)
    } else {
        None
    }
}

/// Those who are told of changes, each under a number of its own.
#[derive(Debug)]
pub struct Sinks<T> {
    pub list: Vec<(u32, T)>,
    pub next: u32,
}

/// The entries with other numbers.
pub open spec fn without<T>(s: Seq<(u32, T)>, cookie: u32) -> Seq<(u32, T)>
    decreases s.len(),
{
    if s.len() == 0 {
        seq![]
    } else if s.last().0 == cookie {
        without(s.drop_last(), cookie)
    } else {
        without(s.drop_last(), cookie).push(s.last())
    }
}

/// Whether an entry has this number.
pub open spec fn numbered<T>(s: Seq<(u32, T)>, cookie: u32) -> bool {
    exists|i: int| 0 <= i < s.len() && (#[trigger] s[i]).0 == cookie
}

impl<T> Sinks<T> {
    /// Nobody is told.
    pub fn new() -> (r: Sinks<T>)
        ensures
            r.list@ == Seq::<(u32, T)>::empty(),
            r.next == 0x4846_0001u32,
    {
        Sinks { list: Vec::new(), next: 0x4846_0001 }
    }

    /// Takes in one more, where it asks for what the item tells and can be told; its number is
    /// returned.
    pub fn advise_sink(&mut self, known: bool, sink: Option<T>) -> (r: Result<u32, i32>)
        ensures
            match sink {
                Some(s) if known => {
                    &&& r == Ok::<u32, i32>(old(self).next)
                    &&& final(self).list@ == old(self).list@.push((old(self).next, s))
                    &&& final(self).next == if old(self).next == u32::MAX {
                        0
                    } else {
                        old(self).next + 1
                    }
                },
                _ => {
                    &&& r == Err::<u32, i32>(E_INVALIDARG)
                    &&& *final(self) == *old(self)
                },
            },
    {
        if !known {
            return Err(E_INVALIDARG);
        }
        match sink {
            Some(s) => {
                let cookie: u32 = self.next;
                self.next = cookie.wrapping_add(1);
                self.list.push((cookie, s));
                Ok(cookie)
            },
            None => Err(E_INVALIDARG),
        }
    }

    /// Lets those with this number go, if there are any.
    pub fn unadvise_sink(&mut self, cookie: u32) -> (r: Result<(), i32>)
        ensures
            final(self).list@ == without(old(self).list@, cookie),
            final(self).next == old(self).next,
            r == if numbered(old(self).list@, cookie) {
                Ok::<(), i32>(())
            } else {
                Err(E_INVALIDARG)
            },
    {
        let ghost all = self.list@;
        let ghost mut seen: int = 0;
        let mut found = false;
        let mut i: usize = 0;
        assert(without(all.take(0), cookie) =~= seq![]);
        assert(self.list@ =~= without(all.take(0), cookie) + all.skip(0));
        while i < self.list.len()
            invariant
                0 <= seen <= all.len(),
                self.next == old(self).next,
                i == without(all.take(seen), cookie).len(),
                self.list@ == without(all.take(seen), cookie) + all.skip(seen),
                found == numbered(all.take(seen), cookie),
            decreases all.len() - seen,
        {
            let ghost kept = without(all.take(seen), cookie);
            let ghost list = self.list@;
            assert(list.len() == kept.len() + all.len() - seen);
            assert(list[i as int] == all[seen]);
            assert(all.take(seen + 1).drop_last() =~= all.take(seen));
            assert(all.take(seen + 1).last() == all[seen]);
            if self.list[i].0 == cookie {
                self.list.remove(i);
                assert(self.list@ =~= kept + all.skip(seen + 1));
                found = true;
                assert(all.take(seen + 1)[seen].0 == cookie);
            } else {
                i += 1;
                assert(self.list@ =~= kept.push(all[seen]) + all.skip(seen + 1));
                assert(numbered(all.take(seen + 1), cookie) == numbered(all.take(seen), cookie)) by {
                    let a = all.take(seen);
                    let b = all.take(seen + 1);
                    if numbered(a, cookie) {
                        let k = choose|k: int| 0 <= k < a.len() && (#[trigger] a[k]).0 == cookie;
                        assert(b[k].0 == cookie);
                    }
                    if numbered(b, cookie) {
                        let k = choose|k: int| 0 <= k < b.len() && (#[trigger] b[k]).0 == cookie;
                        assert(a[k].0 == cookie);
                    }
                }
            }
            proof {
                seen = seen + 1;
            }
        }
        assert(seen == all.len());
        assert(all.take(seen) =~= all);
        assert(all.skip(seen) =~= seq![]);
        assert(self.list@ =~= without(all, cookie));
        if found {
            Ok(())
        } else {
            Err(E_INVALIDARG)
        }
    }
}

/// Where nobody has a number, letting it go changes nothing.
pub proof fn unknown_number_changes_nothing<T>(s: Seq<(u32, T)>, cookie: u32)
    requires
        !numbered(s, cookie),
    ensures
        without(s, cookie) == s,
    decreases s.len(),
{
    if s.len() > 0 {
        assert(s[s.len() - 1] == s.last());
        let d = s.drop_last();
        assert(!numbered(d, cookie)) by {
            if numbered(d, cookie) {
                let k = choose|k: int| 0 <= k < d.len() && (#[trigger] d[k]).0 == cookie;
                assert(s[k].0 == cookie);
            }
        }
        unknown_number_changes_nothing(d, cookie);
        assert(d.push(s.last()) =~= s);
    }
}

/// One that was taken in under a number that nobody had is let go by it, and nobody else is.
pub proof fn number_lets_go_its_own<T>(s: Seq<(u32, T)>, cookie: u32, sink: T)
    requires
        !numbered(s, cookie),
    ensures
        numbered(s.push((cookie, sink)), cookie),
        without(s.push((cookie, sink)), cookie) == s,
{
    let p = s.push((cookie, sink));
    assert(p[s.len() as int].0 == cookie);
    assert(p.drop_last() =~= s);
    unknown_number_changes_nothing(s, cookie);
}

/// What hosts read of the item.
#[derive(Debug)]
pub struct ItemInfo {
    pub style: u32,
    pub sort: u32,
    pub description: Vec<u16>,
}

/// What hosts read of the item: a button that is shown among the indicators, and its name in a
/// field of fixed length.
pub fn item_info() -> (r: ItemInfo)
    ensures
        r.style == 0x10002,
        r.sort == 1,
        r.description@ == utf16::utf16(ITEM_DESCRIPTION@) + Seq::new(
            (32 - utf16::utf16(ITEM_DESCRIPTION@).len()) as nat,
            |i: int| 0u16,
        ),
        r.description.len() == 32,
{
    let mut d = utf16_of(ITEM_DESCRIPTION);
    let ghost name = d@;
    proof {
        reveal_strlit("虎符输入法");
        reveal_with_fuel(utf16::utf16, 6);
        let s = ITEM_DESCRIPTION@;
        assert(s.len() == 5);
        assert(name.len() == 5) by {
            assert(utf16::units(s[0]).len() == 1);
            assert(utf16::units(s[1]).len() == 1);
            assert(utf16::units(s[2]).len() == 1);
            assert(utf16::units(s[3]).len() == 1);
            assert(utf16::units(s[4]).len() == 1);
        }
    }
    while d.len() < 32
        invariant
            name.len() <= d.len() <= 32,
            d@ == name + Seq::new((d.len() - name.len()) as nat, |i: int| 0u16),
        decreases 32 - d.len(),
    {
        d.push(0);
        assert(d@ =~= name + Seq::new((d.len() - name.len()) as nat, |i: int| 0u16));
    }
    ItemInfo { style: 0x10002, sort: 1, description: d }
}

/// The item.
#[derive(Clone, Copy, Debug, PartialEq, Eq, Structural)]
pub struct HuFuLangBar {
    pub icon_zh: isize,
    pub icon_en: isize,
}

impl HuFuLangBar {
    /// An item with these icons, each made of [`ITEM_GLYPH`].
    pub fn new(icon_zh: isize, icon_en: isize) -> (r: HuFuLangBar)
        ensures
            r == (HuFuLangBar { icon_zh, icon_en }),
    {
        HuFuLangBar { icon_zh, icon_en }
    }

    /// The icon for the mode.
    pub fn get_icon(&self, m: &Mode) -> (r: isize)
        ensures
            r == if m.chinese {
                self.icon_zh
            } else {
                self.icon_en
            },
    {
        if is_chinese(m) {
            self.icon_zh
        } else {
            self.icon_en
        }
    }
}

/// What a click does.
#[derive(Clone, Copy, Debug, PartialEq, Eq, Structural)]
pub enum ClickAct {
    /// Shows the menu.
    Menu,
    /// Changes the mode.
    Toggle,
}

/// What a click does: that of the right button shows the menu, any other changes the mode.
pub fn on_click(click: i32) -> (r: ClickAct)
    ensures
        r == if click == 1 {
            ClickAct::Menu
        } else {
            ClickAct::Toggle
        },
{
    if click == 1 {
        ClickAct::Menu
    } else {
        ClickAct::Toggle
    }
}

/// The mode after the engine was asked to change it: what the reply says, else the one before;
/// none without a reply.
pub fn toggled(before: bool, reply: &Option<Json>) -> (r: Option<bool>)
    ensures
        r == match *reply {
            Some(j) => Some(
                match json::bool_of(json::at_path(j.tree(), seq!["state"@, "chinese"@])) {
                    Some(b) => b,
                    None => before,
                },
            ),
            None => None,
        },
{
    let j = match reply {
        Some(j) => j,
        None => return None,
    };
    proof {
        let p = seq!["state"@, "chinese"@];
        reveal_with_fuel(json::at_path, 3);
        assert(p.drop_first() =~= seq!["chinese"@]);
        assert(p.drop_first().drop_first() =~= Seq::<Seq<char>>::empty());
    }
    let b = match j.get("state") {
        Some(s) => match s.get("chinese") {
            Some(c) => c.as_bool(),
            None => None,
        },
        None => None,
    };
    match b {
        Some(v) => Some(v),
        None => Some(before),
    }
}

/// An entry of a menu.
#[derive(Debug)]
pub struct MenuItem {
    pub checked: bool,
    pub id: usize,
    /// The entry's text, or none for a line between entries.
    pub text: Option<String>,
}

/// The code tables that the engine has, and the one in use.
#[derive(Debug)]
pub struct Schemas {
    pub names: Vec<String>,
    pub current: String,
}

/// The names of the code tables in a reply: its texts, without what is not a text.
pub open spec fn schema_names(t: Tree) -> Seq<Seq<char>> {
    match t.member("schemas"@) {
        Some(Tree::Array(v)) => json::texts_of(v),
        _ => seq![],
    }
}

/// The code tables in a reply, or none without one.
pub fn schemas_of(reply: &Option<Json>) -> (r: Schemas)
    ensures
        match *reply {
            Some(j) => {
                &&& text::strings(r.names@) == schema_names(j.tree())
                &&& r.current@ == match json::str_of(j.tree().member("current"@)) {
                    Some(s) => s,
                    None => seq![],
                }
            },
            None => r.names@ == Seq::<String>::empty() && r.current@ == Seq::<char>::empty(),
        },
{
    let j = match reply {
        Some(j) => j,
        None => return Schemas { names: Vec::new(), current: String::new() },
    };
    let names = match j.get("schemas") {
        Some(a) => match a {
            Json::Array(v) => texts_in(v),
            _ => Vec::new(),
        },
        None => Vec::new(),
    };
    let current = match j.get_str("current") {
        Some(s) => s.to_owned(),
        None => String::new(),
    };
    assert(text::strings(names@) =~= schema_names(j.tree()));
    Schemas { names, current }
}

/// Whether entry `i` of the menu is that of the code table `name`.
pub open spec fn schema_item(m: MenuItem, i: int, name: Seq<char>, current: Seq<char>) -> bool {
    &&& m.id == 100 + i
    &&& crate::session::opt_text(m.text) == Some(name)
    &&& m.checked == (name == current)
}

/// Whether an entry is a plain one, with this number and text.
pub open spec fn plain_item(m: MenuItem, id: int, t: Option<Seq<char>>) -> bool {
    &&& m.id == id
    &&& !m.checked
    &&& crate::session::opt_text(m.text) == t
}

impl Schemas {
    /// The menu: the code tables, the one in use checked, and a line behind them if there are
    /// any; then the entry that loads the code table anew, and that for the settings.
    pub fn menu(&self) -> (r: Vec<MenuItem>)
        requires
            self.names.len() + 103 <= usize::MAX,
        ensures
            forall|i: int|
                0 <= i < self.names.len() ==> schema_item(
                    #[trigger] r[i],
                    i,
                    self.names[i]@,
                    self.current@,
                ),
            self.names.len() == 0 ==> {
                &&& r.len() == 2
                &&& plain_item(r[0], 2, Some(RELOAD_TEXT@))
                &&& plain_item(r[1], 1, Some(SETTINGS_TEXT@))
            },
            self.names.len() > 0 ==> {
                &&& r.len() == self.names.len() + 3
                &&& plain_item(r[self.names.len() as int], 0, None)
                &&& plain_item(r[self.names.len() + 1], 2, Some(RELOAD_TEXT@))
                &&& plain_item(r[self.names.len() + 2], 1, Some(SETTINGS_TEXT@))
            },
            forall|i: int|
                0 <= i < self.names.len() ==> ((#[trigger] r[i]).text matches Some(s) && s@
                    == self.names[i]@) && (r[i].checked <==> self.names[i]@ == self.current@),
            forall|i: int|
                0 <= i < r.len() ==> (self.choice_tree((#[trigger] r[i]).id as int) is Some <==> r[i].text
                    is Some),
    {
        let mut r: Vec<MenuItem> = Vec::new();
        let n: usize = self.names.len();
        for i in 0..n
            invariant
                n == self.names.len(),
                n + 103 <= usize::MAX,
                r.len() == i,
                forall|k: int|
                    0 <= k < i ==> schema_item(#[trigger] r[k], k, self.names[k]@, self.current@),
        {
            let name = self.names[i].as_str();
            r.push(
                MenuItem {
                    checked: same(name, self.current.as_str()),
                    id: 100 + i,
                    text: Some(name.to_owned()),
                },
            );
        }
        if n > 0 {
            r.push(MenuItem { checked: false, id: 0, text: None });
        }
        r.push(MenuItem { checked: false, id: 2, text: Some(RELOAD_TEXT.to_owned()) });
        r.push(MenuItem { checked: false, id: 1, text: Some(SETTINGS_TEXT.to_owned()) });
        r
    }

    /// What the engine is asked after a choice from the menu.
    pub open spec fn choice_tree(self, id: int) -> Option<Tree> {
        if id == 1 {
            Some(request::op_tree("settings"@))
        } else if id == 2 {
            Some(request::op_tree("reload_schema"@))
        } else if 100 <= id < 100 + self.names.len() {
            Some(set_schema_tree(self.names[id - 100]@))
        } else {
            None
        }
    }

    /// What the engine is asked after a choice from the menu, if anything.
    pub fn choice(&self, id: i32) -> (r: Option<Json>)
        ensures
            match r {
                Some(j) => self.choice_tree(id as int) == Some(j.tree()),
                None => self.choice_tree(id as int) is None,
            },
    {
        if id == 1 {
            Some(settings_request())
        } else if id == 2 {
            Some(reload_schema_request())
        } else if id >= 100 {
            let i: usize = (id - 100) as usize;
            if i < self.names.len() {
                Some(set_schema_request(self.names[i].as_str()))
            } else {
                None
            }
        } else {
            None
        }
    }
}

/// The choice of a code table's entry asks the engine for that code table.
pub proof fn entry_chooses_its_schema(s: Schemas, m: MenuItem, i: int)
    requires
        0 <= i < s.names.len(),
        schema_item(m, i, s.names[i]@, s.current@),
    ensures
        s.choice_tree(m.id as int) == Some(set_schema_tree(s.names[i]@)),
{
}

/// A request for a code table.
pub open spec fn set_schema_tree(name: Seq<char>) -> Tree {
    Tree::Object(map!["op"@ => Tree::Str("set_schema"@), "name"@ => Tree::Str(name)])
}

/// A request for a code table.
pub fn set_schema_request(name: &str) -> (r: Json)
    ensures
        r.tree() == set_schema_tree(name@),
{
    let mut m: Vec<(String, Json)> = Vec::new();
    add_member(&mut m, "op", Json::Str("set_schema".to_owned()));
    add_member(&mut m, "name", Json::Str(name.to_owned()));
    Json::Object(m)
}

/// What the engine is asked after a choice from the host's own menu, if anything.
pub fn on_menu_select(id: u32) -> (r: Option<Json>)
    ensures
        match r {
            Some(j) => id == 1 && j.tree() == request::op_tree("settings"@),
            None => id != 1,
        },
{
    if id == 1 {
        Some(settings_request())
    } else {
        None
    }
}

/// The side of an icon.
pub const ICON: usize = 32;

/// Whether a row of an icon has ink: coverage above a fiftieth.
pub open spec fn row_has_ink(cov: Seq<u8>, y: int) -> bool {
    exists|x: int| 0 <= x < 32 && #[trigger] cov[y * 32 + x] >= 6
}

fn has_ink(cov: &Vec<u8>, y: usize) -> (r: bool)
    requires
        cov.len() == 1024,
        y < 32,
    ensures
        r == row_has_ink(cov@, y as int),
{
    let base: usize = y * 32;
    for x in 0..32
        invariant
            cov.len() == 1024,
            y < 32,
            base == y * 32,
            forall|k: int| 0 <= k < x ==> #[trigger] cov@[y * 32 + k] < 6,
    {
        if cov[base + x] >= 6 {
            assert(cov@[y * 32 + x] >= 6);
            return true;
        }
    }
    false
}

/// Whether these are the first and the last row with ink.
pub open spec fn ink_between(cov: Seq<u8>, top: int, bottom: int) -> bool {
    &&& 0 <= top <= bottom < 32
    &&& row_has_ink(cov, top)
    &&& row_has_ink(cov, bottom)
    &&& forall|y: int| 0 <= y < 32 && #[trigger] row_has_ink(cov, y) ==> top <= y <= bottom
}

/// The first and the last row with ink, if there is any.
pub fn ink_rows(cov: &Vec<u8>) -> (r: Option<(i32, i32)>)
    requires
        cov.len() == 1024,
    ensures
        match r {
            Some((t, b)) => ink_between(cov@, t as int, b as int),
            None => forall|y: int| 0 <= y < 32 ==> !#[trigger] row_has_ink(cov@, y),
        },
{
    let mut r: Option<(i32, i32)> = None;
    for y in 0..32usize
        invariant
            cov.len() == 1024,
            match r {
                Some((t, b)) => {
                    &&& 0 <= t <= b < y
                    &&& row_has_ink(cov@, t as int)
                    &&& row_has_ink(cov@, b as int)
                    &&& forall|k: int|
                        0 <= k < y && #[trigger] row_has_ink(cov@, k) ==> t <= k <= b
                },
                None => forall|k: int| 0 <= k < y ==> !#[trigger] row_has_ink(cov@, k),
            },
    {
        if has_ink(cov, y) {
            r = match r {
                Some((t, b)) => Some((t, y as i32)),
                None => Some((y as i32, y as i32)),
            };
        }
    }
    r
}

/// How far the ink is moved down to stand in the middle of the icon, halves away from none.
pub open spec fn centre_shift(top: int, bottom: int) -> int {
    let n = 31 - (top + bottom);
    if n >= 0 {
        (n + 1) / 2
    } else {
        -((1 - n) / 2)
    }
}

/// How far the ink is moved down to stand in the middle of the icon.
pub fn recentre(rows: Option<(i32, i32)>) -> (r: i32)
    requires
        match rows {
            Some((t, b)) => 0 <= t <= b < 32,
            None => true,
        },
    ensures
        r == match rows {
            Some((t, b)) => centre_shift(t as int, b as int),
            None => 0,
        },
{
    match rows {
        Some((t, b)) => {
            let n: i32 = 31 - (t + b);
            if n >= 0 {
                (n + 1) / 2
            } else {
                -((1 - n) / 2)
            }
        },
        None => 0,
    }
}

/// Ink that was moved stands in the middle, and wholly on the icon: above and below it there is
/// as much room, or one row less on one side.
pub proof fn ink_is_centred(top: int, bottom: int)
    requires
        0 <= top <= bottom < 32,
    ensures
        -1 <= (top + centre_shift(top, bottom)) - (31 - (bottom + centre_shift(top, bottom))) <= 1,
        0 <= top + centre_shift(top, bottom),
        bottom + centre_shift(top, bottom) < 32,
{
}

/// The coverage at a place, after the ink was moved down; none off the icon.
pub open spec fn moved(cov: Seq<u8>, dy: int, x: int, y: int) -> u8 {
    if 0 <= x < 32 && 0 <= y - dy < 32 {
        cov[(y - dy) * 32 + x]
    } else {
        0
    }
}

fn moved_at(cov: &Vec<u8>, dy: i32, x: i32, y: i32) -> (r: u8)
    requires
        cov.len() == 1024,
        -32 <= dy <= 32,
        -1 <= x <= 32,
        -1 <= y <= 32,
    ensures
        r == moved(cov@, dy as int, x as int, y as int),
{
    let sy: i32 = y - dy;
    if x < 0 || sy < 0 || x >= 32 || sy >= 32 {
        0
    } else {
        cov[(sy * 32 + x) as usize]
    }
}

/// The larger of two coverages.
pub open spec fn more(a: u8, b: u8) -> u8 {
    if a >= b {
        a
    } else {
        b
    }
}

fn more_of(a: u8, b: u8) -> (r: u8)
    ensures
        r == more(a, b),
{
    if a >= b {
        a
    } else {
        b
    }
}

/// The most coverage beside a place: left, right, above and below it.
pub open spec fn ring(cov: Seq<u8>, dy: int, x: int, y: int) -> u8 {
    more(
        more(moved(cov, dy, x - 1, y), moved(cov, dy, x + 1, y)),
        more(moved(cov, dy, x, y - 1), moved(cov, dy, x, y + 1)),
    )
}

/// For each place of an icon, row by row, its coverage after the ink was moved down, and the most
/// beside it, which makes the halo.
pub fn halo(cov: &Vec<u8>, dy: i32) -> (r: Vec<(u8, u8)>)
    requires
        cov.len() == 1024,
        -32 <= dy <= 32,
    ensures
        r.len() == 1024,
        forall|x: int, y: int|
            0 <= x < 32 && 0 <= y < 32 ==> #[trigger] r[y * 32 + x] == (
                moved(cov@, dy as int, x, y),
                ring(cov@, dy as int, x, y),
            ),
{
    let mut r: Vec<(u8, u8)> = Vec::new();
    let mut y: i32 = 0;
    while y < 32
        invariant
            cov.len() == 1024,
            -32 <= dy <= 32,
            0 <= y <= 32,
            r.len() == y * 32,
            forall|a: int, b: int|
                0 <= a < 32 && 0 <= b < y ==> #[trigger] r[b * 32 + a] == (
                    moved(cov@, dy as int, a, b),
                    ring(cov@, dy as int, a, b),
                ),
        decreases 32 - y,
    {
        let mut x: i32 = 0;
        while x < 32
            invariant
                cov.len() == 1024,
                -32 <= dy <= 32,
                0 <= y < 32,
                0 <= x <= 32,
                r.len() == y * 32 + x,
                forall|a: int, b: int|
                    0 <= a < 32 && 0 <= b <= y && b * 32 + a < y * 32 + x ==> #[trigger] r[b * 32
                        + a] == (moved(cov@, dy as int, a, b), ring(cov@, dy as int, a, b)),
            decreases 32 - x,
        {
            let c: u8 = moved_at(cov, dy, x, y);
            let o: u8 = more_of(
                more_of(moved_at(cov, dy, x - 1, y), moved_at(cov, dy, x + 1, y)),
                more_of(moved_at(cov, dy, x, y - 1), moved_at(cov, dy, x, y + 1)),
            );
            r.push((c, o));
            x += 1;
        }
        y += 1;
    }
    r
}

/// A number that is not negative is read from a variant as it was written, the low byte first; a
/// variant of another kind holds none.
pub proof fn variant_reads_back(b: Seq<u8>, n: int)
    requires
        b.len() >= 12,
        0 <= n <= 0x7fff_ffff,
        b[8] == n % 256,
        b[9] == n / 0x100 % 256,
        b[10] == n / 0x10000 % 256,
        b[11] == n / 0x1000000,
    ensures
        b[0] == 3 && b[1] == 0 ==> (variant_number(b) matches Some(v) && v == n),
        b[0] != 3 || b[1] != 0 ==> variant_number(b) is None,
{
    let p = n / 256;
    let q = p / 256;
    assert(n / 0x10000 == q);
    assert(n / 0x1000000 == q / 256);
    assert(b[8] + 256 * b[9] + 65536 * b[10] + 16777216 * b[11] == n);
}

/// Letting go goes entry by entry: those with the number go, all others stay in their order.
pub proof fn others_stay<T>(a: Seq<(u32, T)>, b: Seq<(u32, T)>, cookie: u32)
    ensures
        without(a + b, cookie) == without(a, cookie) + without(b, cookie),
        a.len() == 1 && a[0].0 == cookie ==> without(a, cookie).len() == 0,
        a.len() == 1 && a[0].0 != cookie ==> without(a, cookie) == a,
    decreases b.len(),
{
    reveal_with_fuel(without, 2);
    if b.len() == 0 {
        assert(a + b =~= a);
        assert(without(a, cookie) + without(b, cookie) =~= without(a, cookie));
    } else {
        others_stay(a, b.drop_last(), cookie);
        assert((a + b).drop_last() =~= a + b.drop_last());
        assert(without(a + b, cookie) =~= without(a, cookie) + without(b, cookie));
    }
    if a.len() == 1 {
        assert(a.drop_last() =~= Seq::<(u32, T)>::empty());
        if a[0].0 != cookie {
            assert(without(a, cookie) =~= a);
        }
    }
}

/// The names of the code tables are the texts of the list in the reply; a reply without a list
/// has none.
pub proof fn names_come_from_list(t: Tree, v: Seq<Tree>)
    ensures
        t.member("schemas"@) == Some(Tree::Array(v)) ==> schema_names(t) == json::texts_of(v),
        t.member("schemas"@) is None ==> schema_names(t).len() == 0,
{
}

/// A request for a code table says so and names it.
pub proof fn schema_request_names_it(name: Seq<char>)
    ensures
        set_schema_tree(name).member("op"@) == Some(Tree::Str("set_schema"@)),
        set_schema_tree(name).member("name"@) == Some(Tree::Str(name)),
{
    reveal_strlit("op");
    reveal_strlit("name");
    assert("op"@.len() != "name"@.len());
}

/// Each entry of the menu asks for one thing: the settings, the code table anew, or a code table;
/// a line between entries, and anything that is no entry, asks for nothing.
pub proof fn choices_ask(s: Schemas, id: int)
    ensures
        (s.choice_tree(1) matches Some(t) && t.member("op"@) == Some(Tree::Str("settings"@))),
        (s.choice_tree(2) matches Some(t) && t.member("op"@) == Some(Tree::Str("reload_schema"@))),
        id <= 0 || 2 < id < 100 || id >= 100 + s.names.len() ==> s.choice_tree(id) is None,
        100 <= id < 100 + s.names.len() ==> (s.choice_tree(id) matches Some(t) && t.member("name"@)
            == Some(Tree::Str(s.names[id - 100]@))),
{
    if 100 <= id < 100 + s.names.len() {
        schema_request_names_it(s.names[id - 100]@);
    }
}

/// A row has ink where something in it is covered by more than a fiftieth.
pub proof fn covered_rows_have_ink(cov: Seq<u8>, x: int, y: int)
    requires
        0 <= x < 32,
    ensures
        cov[y * 32 + x] >= 6 ==> row_has_ink(cov, y),
        (forall|k: int| y * 32 <= k < y * 32 + 32 ==> cov[k] < 6) ==> !row_has_ink(cov, y),
{
}

/// The ink is moved by half of what is missing to the middle, rounded away from none.
pub proof fn shift_is_half(top: int, bottom: int)
    ensures
        ({
            let n = 31 - top - bottom;
            let s = centre_shift(top, bottom);
            &&& n >= 0 ==> n <= 2 * s <= n + 1
            &&& n <= 0 ==> n - 1 <= 2 * s <= n
        }),
{
}

/// Ink that is moved down keeps its columns, and nothing comes in from off the icon.
pub proof fn ink_is_moved_down(cov: Seq<u8>, dy: int, x: int, y: int)
    ensures
        0 <= x < 32 && 0 <= y < 32 ==> moved(cov, dy, x, y + dy) == cov[y * 32 + x],
        x < 0 || x >= 32 || y < 0 || y >= 32 ==> moved(cov, dy, x, y + dy) == 0,
{
}

/// The halo of a place is as strong as the strongest place beside it.
pub proof fn halo_is_strongest_beside(cov: Seq<u8>, dy: int, x: int, y: int)
    ensures
        ({
            let r = ring(cov, dy, x, y);
            let left = moved(cov, dy, x - 1, y);
            let right = moved(cov, dy, x + 1, y);
            let above = moved(cov, dy, x, y - 1);
            let below = moved(cov, dy, x, y + 1);
            &&& r >= left && r >= right && r >= above && r >= below
            &&& r == left || r == right || r == above || r == below
        }),
{
}

} // verus!
