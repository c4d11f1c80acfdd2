//! What a skin says: the colours, the layout and the switches of the candidate window.
//!
//! A skin comes as the engine sends it, under the name `skin`, or bare.

use vstd::prelude::*;
use vstd::string::*;

use crate::color;
use crate::color::{parse_hex4, Rgba};
use crate::json;
use crate::json::{Json, Tree};
use crate::text;

verus! {

/// The member of a member.
pub open spec fn member2(t: Tree, a: Seq<char>, b: Seq<char>) -> Option<Tree> {
    match t.member(a) {
        Some(x) => x.member(b),
        None => None,
    }
}

/// The member of a member of a member.
pub open spec fn member3(t: Tree, a: Seq<char>, b: Seq<char>, c: Seq<char>) -> Option<Tree> {
    match member2(t, a, b) {
        Some(x) => x.member(c),
        None => None,
    }
}

fn get2<'a>(j: &'a Json, a: &str, b: &str) -> (r: Option<&'a Json>)
    ensures
        json::tree_of(r) == member2(j.tree(), a@, b@),
{
    match j.get(a) {
        Some(x) => x.get(b),
        None => None,
    }
}

fn get3<'a>(j: &'a Json, a: &str, b: &str, c: &str) -> (r: Option<&'a Json>)
    ensures
        json::tree_of(r) == member3(j.tree(), a@, b@, c@),
{
    match get2(j, a, b) {
        Some(x) => x.get(c),
        None => None,
    }
}

/// A value of a group of the skin that stands under `skin`. The key is read as what is left of a
/// JSON pointer: a slash in it leads a level down.
pub open spec fn wrapped(t: Tree, group: Seq<char>, key: Seq<char>) -> Option<Tree> {
    match member2(t, "skin"@, group) {
        Some(g) => json::at_tokens(g, text::split(key, '/')),
        None => None,
    }
}

fn wrapped_value<'a>(skin: &'a Json, group: &str, key: &str) -> (r: Option<&'a Json>)
    ensures
        json::tree_of(r) == wrapped(skin.tree(), group@, key@),
{
    match get2(skin, "skin", group) {
        Some(g) => g.at_pointer(key),
        None => None,
    }
}

/// A key that is a plain name is the name of a member of the group.
pub proof fn plain_key_names_member(t: Tree, group: Seq<char>, key: Seq<char>)
    requires
        forall|i: int| 0 <= i < key.len() ==> key[i] != '/' && key[i] != '~',
        !(member2(t, "skin"@, group) matches Some(g) && g is Array),
    ensures
        wrapped(t, group, key) == member3(t, "skin"@, group, key),
{
    if let Some(g) = member2(t, "skin"@, group) {
        json::plain_name_leads_to_member(g, key);
    }
}

/// A value of the layout: that under `skin`, else the bare one.
pub open spec fn layout(t: Tree, key: Seq<char>) -> Option<Tree> {
    match wrapped(t, "layout"@, key) {
        Some(x) => Some(x),
        None => member2(t, "layout"@, key),
    }
}

/// A value of the layout; see [`layout`].
pub fn layout_value<'a>(skin: &'a Json, key: &str) -> (r: Option<&'a Json>)
    ensures
        json::tree_of(r) == layout(skin.tree(), key@),
{
    match wrapped_value(skin, "layout", key) {
        Some(x) => Some(x),
        None => get2(skin, "layout", key),
    }
}

/// A switch of the layout.
pub fn layout_bool(skin: &Json, key: &str, default: bool) -> (r: bool)
    ensures
        r == match json::bool_of(layout(skin.tree(), key@)) {
            Some(b) => b,
            None => default,
        },
{
    match layout_value(skin, key) {
        Some(v) => match v.as_bool() {
            Some(b) => b,
            None => default,
        },
        None => default,
    }
}

/// A text of the layout.
pub fn layout_str(skin: &Json, key: &str, default: &str) -> (r: String)
    ensures
        r@ == match json::str_of(layout(skin.tree(), key@)) {
            Some(s) => s,
            None => default@,
        },
{
    match layout_value(skin, key) {
        Some(v) => match v.as_str() {
            Some(s) => s.to_owned(),
            None => default.to_owned(),
        },
        None => default.to_owned(),
    }
}

/// The font of the layout, where it names one.
pub fn font_face(skin: &Json) -> (r: String)
    ensures
        r@ == match json::str_of(layout(skin.tree(), "font_face"@)) {
            Some(s) => if s.len() == 0 {
                "Microsoft YaHei UI"@
            } else {
                s
            },
            None => "Microsoft YaHei UI"@,
        },
{
    let s = layout_str(skin, "font_face", "Microsoft YaHei UI");
    if s.as_str().unicode_len() == 0 {
        "Microsoft YaHei UI".to_owned()
    } else {
        s
    }
}

/// Whether the highlight has a mark: where the layout gives it a text that is not blank.
pub fn mark_enabled(skin: &Json) -> (r: bool)
    ensures
        r == match json::str_of(layout(skin.tree(), "mark_text"@)) {
            Some(s) => text::trim(s).len() > 0,
            None => false,
        },
{
    match layout_value(skin, "mark_text") {
        Some(v) => match v.as_str() {
            Some(s) => {
                let cs = text::chars_of(s);
                text::trimmed(&cs).len() > 0
            },
            None => false,
        },
        None => false,
    }
}

/// A switch of the skin, of which that under `skin` goes before the bare one.
pub open spec fn inner_first(t: Tree, key: Seq<char>) -> Option<Tree> {
    match member2(t, "skin"@, key) {
        Some(x) => Some(x),
        None => t.member(key),
    }
}

/// A switch of the skin, of which the bare one goes before that under `skin`.
pub open spec fn outer_first(t: Tree, key: Seq<char>) -> Option<Tree> {
    match t.member(key) {
        Some(x) => Some(x),
        None => member2(t, "skin"@, key),
    }
}

/// Whether the window moves and changes its size step by step: yes, unless the skin says no.
pub fn anim_on(skin: &Json) -> (r: bool)
    ensures
        r == match json::bool_of(inner_first(skin.tree(), "anim"@)) {
            Some(b) => b,
            None => true,
        },
{
    let v = match get2(skin, "skin", "anim") {
        Some(v) => Some(v),
        None => skin.get("anim"),
    };
    match v {
        Some(v) => match v.as_bool() {
            Some(b) => b,
            None => true,
        },
        None => true,
    }
}

/// Whether the window slides in when it first comes into view: only if the skin says so.
pub fn first_show_slide(skin: &Json) -> (r: bool)
    ensures
        r == (json::bool_of(outer_first(skin.tree(), "first_show_slide"@)) == Some(true)),
{
    let v = match skin.get("first_show_slide") {
        Some(v) => Some(v),
        None => get2(skin, "skin", "first_show_slide"),
    };
    match v {
        Some(v) => match v.as_bool() {
            Some(b) => b,
            None => false,
        },
        None => false,
    }
}

/// Whether candidates have numbers: yes, unless the skin says no.
pub fn show_index(skin: &Json) -> (r: bool)
    ensures
        r == match json::bool_of(skin.tree().member("show_index"@)) {
            Some(b) => b,
            None => true,
        },
{
    match skin.get("show_index") {
        Some(v) => match v.as_bool() {
            Some(b) => b,
            None => true,
        },
        None => true,
    }
}

/// The colour that stands for one that cannot be read.
pub const UNREADABLE: Rgba = (32, 32, 34, 230);

/// A colour of a skin: that under `skin`, else the bare one, else the default.
pub open spec fn skin_color(t: Tree, key: Seq<char>, default: Seq<char>) -> Rgba {
    let v = match wrapped(t, "colors"@, key) {
        Some(x) => Some(x),
        None => member2(t, "colors"@, key),
    };
    let hex = match json::str_of(v) {
        Some(s) => s,
        None => default,
    };
    match color::hex_color(hex) {
        Some(c) => c,
        None => UNREADABLE,
    }
}

/// A colour of a skin; see [`skin_color`].
pub fn skin_color4(skin: &Json, key: &str, default: &str) -> (r: Rgba)
    ensures
        r == skin_color(skin.tree(), key@, default@),
{
    let v = match wrapped_value(skin, "colors", key) {
        Some(x) => Some(x),
        None => get2(skin, "colors", key),
    };
    let c = match v {
        Some(x) => match x.as_str() {
            Some(s) => parse_hex4(s),
            None => parse_hex4(default),
        },
        None => parse_hex4(default),
    };
    match c {
        Some(c) => c,
        None => UNREADABLE,
    }
}

/// A colour of a skin: the text under `skin`, else the bare text, else the default. Unlike
/// [`skin_color`], a value under `skin` that is no text does not stand before the bare one.
pub open spec fn skin_color_text(t: Tree, key: Seq<char>, default: Seq<char>) -> Rgba {
    let hex = match (
        json::str_of(wrapped(t, "colors"@, key)),
        json::str_of(member2(t, "colors"@, key)),
    ) {
        (Some(s), _) => s,
        (None, Some(s)) => s,
        (None, None) => default,
    };
    match color::hex_color(hex) {
        Some(c) => c,
        None => UNREADABLE,
    }
}

fn str_at<'a>(j: Option<&'a Json>) -> (r: Option<&'a str>)
    ensures
        match r {
            Some(s) => json::str_of(json::tree_of(j)) == Some(s@),
            None => json::str_of(json::tree_of(j)) is None,
        },
{
    match j {
        Some(v) => v.as_str(),
        None => None,
    }
}

/// A colour of a skin; see [`skin_color_text`].
pub fn color_f(skin: &Json, key: &str, default: &str) -> (r: Rgba)
    ensures
        r == skin_color_text(skin.tree(), key@, default@),
{
    let c = match str_at(wrapped_value(skin, "colors", key)) {
        Some(s) => parse_hex4(s),
        None => match str_at(get2(skin, "colors", key)) {
            Some(s) => parse_hex4(s),
            None => parse_hex4(default),
        },
    };
    match c {
        Some(c) => c,
        None => UNREADABLE,
    }
}

/// A colour under `skin`, or the default where it is not there or cannot be read.
pub fn color_of(skin: &Json, key: &str, default: Rgba) -> (r: Rgba)
    ensures
        r == match json::str_of(member3(skin.tree(), "skin"@, "colors"@, key@)) {
            Some(s) => match color::hex_color(s) {
                Some(c) => c,
                None => default,
            },
            None => default,
        },
{
    match str_at(get3(skin, "skin", "colors", key)) {
        Some(s) => match parse_hex4(s) {
            Some(c) => c,
            None => default,
        },
        None => default,
    }
}

/// What the window is made of.
#[derive(Clone, Copy, Debug, PartialEq, Eq, Structural)]
pub enum Material {
    /// Its own colour.
    Solid,
    /// A tint that lets much of what is behind it through.
    Glass,
    /// A tint that lets some of it through.
    Tinted,
}

/// The tint where the skin has none that can be read.
pub const USUAL_TINT: Rgba = (28, 28, 30, 204);

/// The kind of material that a skin names; solid where it names none.
pub open spec fn material_kind(t: Tree) -> Seq<char> {
    let v = match member3(t, "skin"@, "material"@, "kind"@) {
        Some(x) => Some(x),
        None => member2(t, "material"@, "kind"@),
    };
    match json::str_of(v) {
        Some(s) => s,
        None => "solid"@,
    }
}

/// The tint of the material.
pub open spec fn material_tint(t: Tree) -> Rgba {
    let m = inner_first(t, "material"@);
    let v = match m {
        Some(x) => json::str_of(x.member("tint"@)),
        None => None,
    };
    match v {
        Some(s) => match color::hex_color(s) {
            Some(c) => c,
            None => USUAL_TINT,
        },
        None => USUAL_TINT,
    }
}

/// What the window is made of and the colour of that, before it is made more or less opaque.
pub fn material_of(skin: &Json) -> (r: (Material, Rgba))
    ensures
        ({
            let t = skin.tree();
            r == if material_kind(t) == "solid"@ {
                (Material::Solid, skin_color(t, "back_color"@, "#202022E6"@))
            } else if material_kind(t) == "glass"@ {
                (Material::Glass, material_tint(t))
            } else {
                (Material::Tinted, material_tint(t))
            }
        }),
{
    let v = match get3(skin, "skin", "material", "kind") {
        Some(x) => Some(x),
        None => get2(skin, "material", "kind"),
    };
    let kind = match str_at(v) {
        Some(s) => s,
        None => "solid",
    };
    if text::same(kind, "solid") {
        return (Material::Solid, skin_color4(skin, "back_color", "#202022E6"));
    }
    let m = match get2(skin, "skin", "material") {
        Some(x) => Some(x),
        None => skin.get("material"),
    };
    let named = match m {
        Some(x) => match str_at(x.get("tint")) {
            Some(s) => parse_hex4(s),
            None => None,
        },
        None => None,
    };
    let tint = match named {
        Some(c) => c,
        None => USUAL_TINT,
    };
    if text::same(kind, "glass") {
        (Material::Glass, tint)
    } else {
        (Material::Tinted, tint)
    }
}

/// A layout under `skin` goes before a bare one; where it has nothing the bare one counts.
pub proof fn inner_layout_goes_first(t: Tree, key: Seq<char>, inner: Tree, x: Tree)
    requires
        forall|i: int| 0 <= i < key.len() ==> key[i] != '/' && key[i] != '~',
        t.member("skin"@) matches Some(s) ==> (s.member("layout"@) matches Some(g) ==> !(g is Array)),
    ensures
        (t.member("skin"@) matches Some(s) && (s.member("layout"@) matches Some(g) && g.member(key)
            == Some(x))) ==> layout(t, key) == Some(x),
        t.member("skin"@) is None && (t.member("layout"@) matches Some(g) && g.member(key) == Some(x))
            ==> layout(t, key) == Some(x),
        (t.member("skin"@) matches Some(s) && (s.member("layout"@) is None || s.member(
            "layout"@,
        )->0.member(key) is None)) && (t.member("layout"@) matches Some(g) && g.member(key) == Some(x))
            ==> layout(t, key) == Some(x),
        t.member("skin"@) is None && t.member("layout"@) is None ==> layout(t, key) is None,
{
    plain_key_names_member(t, "layout"@, key);
}

/// A switch stands in the skin or beside it: either one counts where the other is not there, and
/// where both are the one that goes first.
pub proof fn either_switch_counts(t: Tree, key: Seq<char>, x: Tree)
    ensures
        (t.member("skin"@) matches Some(s) && s.member(key) == Some(x)) ==> inner_first(t, key) == Some(x)
            && (t.member(key) is None ==> outer_first(t, key) == Some(x)),
        t.member(key) == Some(x) ==> outer_first(t, key) == Some(x) && ((t.member("skin"@) is None
            || t.member("skin"@)->0.member(key) is None) ==> inner_first(t, key) == Some(x)),
        t.member(key) is None && (t.member("skin"@) is None || t.member("skin"@)->0.member(key) is None)
            ==> inner_first(t, key) is None && outer_first(t, key) is None,
{
}

/// A colour that is written under `skin` is the colour that is drawn, and so is one that is
/// written in a bare skin.
pub proof fn written_colour_is_drawn(
    t: Tree,
    key: Seq<char>,
    default: Seq<char>,
    r: u8,
    g: u8,
    b: u8,
    a: u8,
    upper: bool,
)
    requires
        forall|i: int| 0 <= i < key.len() ==> key[i] != '/' && key[i] != '~',
    ensures
        ({
            let hex = seq!['#'] + color::hex_of(r, upper) + color::hex_of(g, upper) + color::hex_of(
                b,
                upper,
            ) + color::hex_of(a, upper);
            &&& (t.member("skin"@) matches Some(s) && (s.member("colors"@) matches Some(c) && c.member(
                key,
            ) == Some(Tree::Str(hex)))) ==> skin_color(t, key, default) == (r, g, b, a)
                && skin_color_text(t, key, default) == (r, g, b, a)
            &&& t.member("skin"@) is None && (t.member("colors"@) matches Some(c) && c.member(key)
                == Some(Tree::Str(hex))) ==> skin_color(t, key, default) == (r, g, b, a)
                && skin_color_text(t, key, default) == (r, g, b, a)
            &&& t.member("skin"@) is None && t.member("colors"@) is None && default == hex
                ==> skin_color(t, key, default) == (r, g, b, a) && skin_color_text(t, key, default) == (
                r,
                g,
                b,
                a,
            )
        }),
{
    color::colour_reads_back(r, g, b, a, upper);
    if let Some(s) = t.member("skin"@) {
        if let Some(c) = s.member("colors"@) {
            if !(c is Array) {
                plain_key_names_member(t, "colors"@, key);
            }
        }
    }
}

/// The two ways to read a colour differ only where what stands under `skin` is no text: one then
/// takes the default, the other still looks beside the skin.
pub proof fn colours_read_alike(t: Tree, key: Seq<char>, default: Seq<char>)
    ensures
        json::str_of(wrapped(t, "colors"@, key)) is Some || wrapped(t, "colors"@, key) is None
            ==> skin_color(t, key, default) == skin_color_text(t, key, default),
        wrapped(t, "colors"@, key) is Some && json::str_of(wrapped(t, "colors"@, key)) is None
            ==> skin_color(t, key, default) == skin_color(Tree::Null, key, default),
{
    assert(wrapped(Tree::Null, "colors"@, key) is None);
}

/// A skin without colours has the defaults; one that cannot be read gives a dark grey.
pub proof fn unreadable_colour_is_grey(key: Seq<char>, default: Seq<char>)
    ensures
        skin_color(Tree::Null, key, default) == match color::hex_color(default) {
            Some(c) => c,
            None => (32u8, 32u8, 34u8, 230u8),
        },
        skin_color_text(Tree::Null, key, default) == skin_color(Tree::Null, key, default),
{
    assert(wrapped(Tree::Null, "colors"@, key) is None);
}

/// The tint that a skin writes in its material is the one that is drawn, and the kind that it
/// names there is its kind. A skin without a material is solid.
pub proof fn written_material_counts(t: Tree, m: Tree, kind: Seq<char>, r: u8, g: u8, b: u8, a: u8)
    requires
        (t.member("skin"@) matches Some(s) && s.member("material"@) == Some(m)) || (t.member("skin"@)
            is None && t.member("material"@) == Some(m)),
    ensures
        m.member("kind"@) == Some(Tree::Str(kind)) ==> material_kind(t) == kind,
        m.member("tint"@) == Some(
            Tree::Str(
                seq!['#'] + color::hex_of(r, true) + color::hex_of(g, true) + color::hex_of(b, true)
                    + color::hex_of(a, true),
            ),
        ) ==> material_tint(t) == (r, g, b, a),
        m.member("tint"@) is None ==> material_tint(t) == (28u8, 28u8, 30u8, 204u8),
        material_kind(Tree::Null) == "solid"@,
        material_tint(Tree::Null) == (28u8, 28u8, 30u8, 204u8),
{
    color::colour_reads_back(r, g, b, a, true);
}

} // verus!
