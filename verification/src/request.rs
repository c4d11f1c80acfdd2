//! The requests that go to the engine.

use vstd::prelude::*;
use vstd::string::*;

use crate::json::{add_member, Json, Tree};

verus! {

/// A request that is its operation alone.
pub open spec fn op_tree(op: Seq<char>) -> Tree {
    Tree::Object(map!["op"@ => Tree::Str(op)])
}

/// A request that is its operation alone.
pub(crate) fn op_request(op: &str) -> (r: Json)
    ensures
        r.tree() == op_tree(op@),
{
    let mut m: Vec<(String, Json)> = Vec::new();
    add_member(&mut m, "op", Json::Str(op.to_owned()));
    Json::Object(m)
}

/// Asks the engine whether it is there.
pub fn ping_request() -> (r: Json)
    ensures
        r.tree() == op_tree("ping"@),
        r.tree().member("op"@) == Some(Tree::Str("ping"@)),
{
    op_request("ping")
}

/// Asks for the state of the session.
pub fn state_request() -> (r: Json)
    ensures
        r.tree() == op_tree("state"@),
        r.tree().member("op"@) == Some(Tree::Str("state"@)),
{
    op_request("state")
}

/// Begins the session anew.
pub fn reset_request() -> (r: Json)
    ensures
        r.tree() == op_tree("reset"@),
        r.tree().member("op"@) == Some(Tree::Str("reset"@)),
{
    op_request("reset")
}

/// Tells the engine that the session has the keyboard.
pub fn focus_request() -> (r: Json)
    ensures
        r.tree() == op_tree("focus"@),
        r.tree().member("op"@) == Some(Tree::Str("focus"@)),
{
    op_request("focus")
}

/// Has the engine load the code table again.
pub fn reload_schema_request() -> (r: Json)
    ensures
        r.tree() == op_tree("reload_schema"@),
        r.tree().member("op"@) == Some(Tree::Str("reload_schema"@)),
{
    op_request("reload_schema")
}

/// Has the engine open the directory of the code tables.
pub fn open_schema_dir_request() -> (r: Json)
    ensures
        r.tree() == op_tree("open_schema_dir"@),
        r.tree().member("op"@) == Some(Tree::Str("open_schema_dir"@)),
{
    op_request("open_schema_dir")
}

/// Turns the sounds on or off.
pub fn sound_toggle_request() -> (r: Json)
    ensures
        r.tree() == op_tree("sound_toggle"@),
        r.tree().member("op"@) == Some(Tree::Str("sound_toggle"@)),
{
    op_request("sound_toggle")
}

/// Asks whether sounds are on, and how loud.
pub fn sound_state_request() -> (r: Json)
    ensures
        r.tree() == op_tree("sound_state"@),
        r.tree().member("op"@) == Some(Tree::Str("sound_state"@)),
{
    op_request("sound_state")
}

/// Asks for the whole configuration.
pub fn config_get_request() -> (r: Json)
    ensures
        r.tree() == op_tree("config_get"@),
        r.tree().member("op"@) == Some(Tree::Str("config_get"@)),
{
    op_request("config_get")
}

/// Asks for the names of the code tables.
pub fn schemas_request() -> (r: Json)
    ensures
        r.tree() == op_tree("schemas"@),
        r.tree().member("op"@) == Some(Tree::Str("schemas"@)),
{
    op_request("schemas")
}

/// Turns the mode of the session round.
pub fn toggle_lang_request() -> (r: Json)
    ensures
        r.tree() == op_tree("toggle_lang"@),
        r.tree().member("op"@) == Some(Tree::Str("toggle_lang"@)),
{
    op_request("toggle_lang")
}

/// Has the engine open its settings.
pub fn settings_request() -> (r: Json)
    ensures
        r.tree() == op_tree("settings"@),
        r.tree().member("op"@) == Some(Tree::Str("settings"@)),
{
    op_request("settings")
}

/// Asks for the skin.
pub fn skin_request() -> (r: Json)
    ensures
        r.tree() == op_tree("skin"@),
        r.tree().member("op"@) == Some(Tree::Str("skin"@)),
{
    op_request("skin")
}

/// A request for a sound clip.
pub open spec fn sound_tree(tag: Seq<char>) -> Tree {
    Tree::Object(map!["op"@ => Tree::Str("sound"@), "tag"@ => Tree::Str(tag)])
}

/// A request for the sound clip of a tag.
pub fn sound_request(tag: &str) -> (r: Json)
    ensures
        r.tree() == sound_tree(tag@),
        r.tree().member("op"@) == Some(Tree::Str("sound"@)),
        r.tree().member("tag"@) == Some(Tree::Str(tag@)),
{
    proof {
        requests_name_what_they_ask(tag@, 0, Tree::Null);
    }
    let mut m: Vec<(String, Json)> = Vec::new();
    add_member(&mut m, "op", Json::Str("sound".to_owned()));
    add_member(&mut m, "tag", Json::Str(tag.to_owned()));
    Json::Object(m)
}

/// A request to choose a candidate of the page.
pub open spec fn select_tree(index: int) -> Tree {
    Tree::Object(map!["op"@ => Tree::Str("select"@), "index"@ => Tree::Int(index)])
}

/// A request to choose the candidate with this place on the page.
pub fn select_request(index: usize) -> (r: Json)
    ensures
        r.tree() == select_tree(index as int),
        r.tree().member("op"@) == Some(Tree::Str("select"@)),
        r.tree().member("index"@) == Some(Tree::Int(index as int)),
{
    proof {
        requests_name_what_they_ask(seq![], index as int, Tree::Null);
    }
    let mut m: Vec<(String, Json)> = Vec::new();
    add_member(&mut m, "op", Json::Str("select".to_owned()));
    add_member(&mut m, "index", Json::Uint(index as u64));
    Json::Object(m)
}

/// A request to write the configuration.
pub open spec fn config_set_tree(config: Tree) -> Tree {
    Tree::Object(map!["op"@ => Tree::Str("config_set"@), "config"@ => config])
}

/// A request to write the whole configuration.
pub fn config_set_request(config: Json) -> (r: Json)
    ensures
        r.tree() == config_set_tree(config.tree()),
        r.tree().member("op"@) == Some(Tree::Str("config_set"@)),
        r.tree().member("config"@) == Some(config.tree()),
{
    proof {
        requests_name_what_they_ask(seq![], 0, config.tree());
    }
    let mut m: Vec<(String, Json)> = Vec::new();
    add_member(&mut m, "op", Json::Str("config_set".to_owned()));
    add_member(&mut m, "config", config);
    Json::Object(m)
}

/// The modifier keys that are down.
#[derive(Clone, Copy, Debug)]
pub struct Modifiers {
    pub shift: bool,
    pub ctrl: bool,
    pub alt: bool,
    pub meta: bool,
    pub caps: bool,
}

/// How a request names the modifier keys.
pub open spec fn modifiers_tree(m: Modifiers) -> Tree {
    Tree::Object(
        map![
            "shift"@ => Tree::Bool(m.shift),
            "ctrl"@ => Tree::Bool(m.ctrl),
            "alt"@ => Tree::Bool(m.alt),
            "meta"@ => Tree::Bool(m.meta),
            "caps"@ => Tree::Bool(m.caps),
        ],
    )
}

fn modifiers_json(mods: Modifiers) -> (r: Json)
    ensures
        r.tree() == modifiers_tree(mods),
{
    let mut m: Vec<(String, Json)> = Vec::new();
    add_member(&mut m, "shift", Json::Bool(mods.shift));
    add_member(&mut m, "ctrl", Json::Bool(mods.ctrl));
    add_member(&mut m, "alt", Json::Bool(mods.alt));
    add_member(&mut m, "meta", Json::Bool(mods.meta));
    add_member(&mut m, "caps", Json::Bool(mods.caps));
    Json::Object(m)
}

/// A key request: whether the caret stands at the end of its line is told where it is
/// known, that is where `line_end` is not negative.
pub open spec fn key_tree(key: Seq<char>, mods: Modifiers, line_end: int) -> Tree {
    let base = map![
        "op"@ => Tree::Str("key"@),
        "key"@ => Tree::Str(key),
        "modifiers"@ => modifiers_tree(mods),
    ];
    Tree::Object(
        if line_end >= 0 {
            base.insert("line_end"@, Tree::Bool(line_end == 1))
        } else {
            base
        },
    )
}

/// A key request. `line_end`: 1 for a caret at the end of its line, 0 for one that is not
/// there, negative where that is not known.
pub fn key_request(key: &str, mods: Modifiers, line_end: i32) -> (r: Json)
    ensures
        r.tree() == key_tree(key@, mods, line_end as int),
        r.tree().member("op"@) == Some(Tree::Str("key"@)),
        r.tree().member("key"@) == Some(Tree::Str(key@)),
        r.tree().member("modifiers"@) matches Some(m) && {
            &&& m.member("shift"@) == Some(Tree::Bool(mods.shift))
            &&& m.member("ctrl"@) == Some(Tree::Bool(mods.ctrl))
            &&& m.member("alt"@) == Some(Tree::Bool(mods.alt))
            &&& m.member("meta"@) == Some(Tree::Bool(mods.meta))
            &&& m.member("caps"@) == Some(Tree::Bool(mods.caps))
        },
        line_end < 0 ==> r.tree().member("line_end"@) is None,
        line_end == 0 ==> r.tree().member("line_end"@) == Some(Tree::Bool(false)),
        line_end == 1 ==> r.tree().member("line_end"@) == Some(Tree::Bool(true)),
{
    proof {
        key_request_names_key(key@, mods, line_end as int);
    }
    let mut m: Vec<(String, Json)> = Vec::new();
    add_member(&mut m, "op", Json::Str("key".to_owned()));
    add_member(&mut m, "key", Json::Str(key.to_owned()));
    add_member(&mut m, "modifiers", modifiers_json(mods));
    if line_end >= 0 {
        add_member(&mut m, "line_end", Json::Bool(line_end == 1));
    }
    Json::Object(m)
}

/// A key request carries the key and each modifier under its own name, and whether the caret
/// stands at the end of its line where that is known.
pub proof fn key_request_names_key(key: Seq<char>, mods: Modifiers, line_end: int)
    ensures
        ({
            let t = key_tree(key, mods, line_end);
            &&& t.member("op"@) == Some(Tree::Str("key"@))
            &&& t.member("key"@) == Some(Tree::Str(key))
            &&& t.member("modifiers"@) matches Some(m) && {
                &&& m.member("shift"@) == Some(Tree::Bool(mods.shift))
                &&& m.member("ctrl"@) == Some(Tree::Bool(mods.ctrl))
                &&& m.member("alt"@) == Some(Tree::Bool(mods.alt))
                &&& m.member("meta"@) == Some(Tree::Bool(mods.meta))
                &&& m.member("caps"@) == Some(Tree::Bool(mods.caps))
            }
            &&& line_end < 0 ==> t.member("line_end"@) is None
            &&& line_end >= 0 ==> t.member("line_end"@) == Some(Tree::Bool(line_end == 1))
        }),
{
    reveal_strlit("op");
    reveal_strlit("key");
    reveal_strlit("modifiers");
    reveal_strlit("line_end");
    reveal_strlit("shift");
    reveal_strlit("ctrl");
    reveal_strlit("alt");
    reveal_strlit("meta");
    reveal_strlit("caps");
    assert("op"@.len() == 2 && "key"@.len() == 3 && "modifiers"@.len() == 9 && "line_end"@.len() == 8);
    assert("shift"@.len() == 5 && "ctrl"@.len() == 4 && "alt"@.len() == 3 && "meta"@.len() == 4
        && "caps"@.len() == 4);
    assert("ctrl"@[1] == 't' && "meta"@[1] == 'e' && "caps"@[1] == 'a');
}

/// Two keys or two sets of modifiers that differ make two requests that differ.
pub proof fn key_requests_differ(
    key: Seq<char>,
    mods: Modifiers,
    line_end: int,
    other: Seq<char>,
    others: Modifiers,
    other_end: int,
)
    requires
        key_tree(key, mods, line_end) == key_tree(other, others, other_end),
    ensures
        key == other,
        mods == others,
        (line_end < 0) == (other_end < 0),
        line_end >= 0 ==> (line_end == 1) == (other_end == 1),
{
    key_request_names_key(key, mods, line_end);
    key_request_names_key(other, others, other_end);
}

/// The other requests carry what they ask for under its name.
pub proof fn requests_name_what_they_ask(tag: Seq<char>, index: int, config: Tree)
    ensures
        sound_tree(tag).member("op"@) == Some(Tree::Str("sound"@)),
        sound_tree(tag).member("tag"@) == Some(Tree::Str(tag)),
        select_tree(index).member("op"@) == Some(Tree::Str("select"@)),
        select_tree(index).member("index"@) == Some(Tree::Int(index)),
        config_set_tree(config).member("op"@) == Some(Tree::Str("config_set"@)),
        config_set_tree(config).member("config"@) == Some(config),
{
    reveal_strlit("op");
    reveal_strlit("tag");
    reveal_strlit("index");
    reveal_strlit("config");
    assert("op"@.len() == 2 && "tag"@.len() == 3 && "index"@.len() == 5 && "config"@.len() == 6);
}

} // verus!
