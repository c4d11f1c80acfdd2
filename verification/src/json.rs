//! JSON values: reading, writing, looking up and merging.

use vstd::prelude::*;
use vstd::string::*;

use crate::number;
use crate::number::parse_int;
use crate::text;
use crate::text::{chars_of, same, split_at, string_of};

verus! {

/// A JSON value.
#[derive(Debug)]
pub enum Json {
    Null,
    Bool(bool),
    /// A whole number.
    Int(i64),
    /// A whole number.
    Uint(u64),
    /// A number, whole or not.
    Num(serde_json::Number),
    Str(String),
    Array(Vec<Json>),
    /// Members in the order of their entry. Of members with one name the last counts.
    Object(Vec<(String, Json)>),
}

/// What a JSON value says.
pub enum Tree {
    Null,
    Bool(bool),
    Int(int),
    Float(serde_json::Number),
    Str(Seq<char>),
    Array(Seq<Tree>),
    Object(Map<Seq<char>, Tree>),
}

/// The number type of `serde_json`.
#[verifier::external_type_specification]
#[verifier::external_body]
pub struct ExNumber(serde_json::Number);

/// The value type of `serde_json`.
#[verifier::external_type_specification]
#[verifier::external_body]
pub struct ExValue(serde_json::Value);

/// The error type of `serde_json`.
#[verifier::external_type_specification]
#[verifier::external_body]
pub struct ExError(serde_json::Error);

impl Json {
    /// What the value says.
    pub open spec fn tree(self) -> Tree
        decreases self,
    {
        match self {
            Json::Null => Tree::Null,
            Json::Bool(b) => Tree::Bool(b),
            Json::Int(i) => Tree::Int(i as int),
            Json::Uint(u) => Tree::Int(u as int),
            Json::Num(n) => number_tree(n),
            Json::Str(s) => Tree::Str(s@),
            Json::Array(v) => Tree::Array(items(v@)),
            Json::Object(v) => Tree::Object(members(v@)),
        }
    }
}

/// What each value of a list says.
pub open spec fn items(v: Seq<Json>) -> Seq<Tree>
    decreases v,
{
    if v.len() == 0 {
        seq![]
    } else {
        items(v.drop_last()).push(v[v.len() - 1].tree())
    }
}

/// What a list of members says.
pub open spec fn members(v: Seq<(String, Json)>) -> Map<Seq<char>, Tree>
    decreases v,
{
    if v.len() == 0 {
        Map::empty()
    } else {
        members(v.drop_last()).insert(v[v.len() - 1].0@, v[v.len() - 1].1.tree())
    }
}

/// Merges `b` into `a`: objects member by member, anything else as a whole.
pub open spec fn merge(a: Tree, b: Tree) -> Tree
    decreases b,
{
    match (a, b) {
        (Tree::Object(d), Tree::Object(p)) => Tree::Object(
            Map::new(
                |k: Seq<char>| d.contains_key(k) || p.contains_key(k),
                |k: Seq<char>|
                    if !p.contains_key(k) {
                        d[k]
                    } else if !d.contains_key(k) {
                        p[k]
                    } else {
                        merge(d[k], p[k])
                    },
            ),
        ),
        _ => b,
    }
}

/// The whole number that a number of `serde_json` is, where it is one.
pub uninterp spec fn whole(n: serde_json::Number) -> Option<int>;

/// What a value of `serde_json` says.
pub uninterp spec fn value_tree(v: serde_json::Value) -> Tree;

/// The text of an error of `serde_json`.
pub uninterp spec fn error_text(e: serde_json::Error) -> Seq<char>;

/// What `serde_json` reads in a text: what it says, or why it is no JSON.
pub uninterp spec fn json_read(bytes: Seq<u8>) -> Result<Tree, Seq<char>>;

/// The compact text that `serde_json` writes.
pub uninterp spec fn json_bytes(t: Tree) -> Seq<u8>;

/// What a number says.
pub open spec fn number_tree(n: serde_json::Number) -> Tree {
    match (fit_i64(whole(n)), fit_u64(whole(n))) {
        (Some(i), _) => Tree::Int(i as int),
        (_, Some(u)) => Tree::Int(u as int),
        _ => Tree::Float(n),
    }
}

/// `i` where it fits, as the integer type of the result.
pub open spec fn fit_i64(i: Option<int>) -> Option<i64> {
    match i {
        Some(i) => if i64::MIN <= i <= i64::MAX {
            Some(i as i64)
        } else {
            None
        },
        None => None,
    }
}

/// `i` where it fits, as the integer type of the result.
pub open spec fn fit_u64(i: Option<int>) -> Option<u64> {
    match i {
        Some(i) => if 0 <= i <= u64::MAX {
            Some(i as u64)
        } else {
            None
        },
        None => None,
    }
}

/// `serde_json::Number::as_i64` gives the whole number that a number is, if it fits.
pub assume_specification[ serde_json::Number::as_i64 ](n: &serde_json::Number) -> (r: Option<i64>)
    ensures
        r == fit_i64(whole(*n)),
;

/// `serde_json::Number::as_u64` gives the whole number that a number is, if it fits.
pub assume_specification[ serde_json::Number::as_u64 ](n: &serde_json::Number) -> (r: Option<u64>)
    ensures
        r == fit_u64(whole(*n)),
;

/// `serde_json::Number::from` of an `i64` makes that whole number.
#[verifier::external_body]
fn number_of_i64(i: i64) -> (r: serde_json::Number)
    ensures
        whole(r) == Some(i as int),
{
    serde_json::Number::from(i)
}

/// `serde_json::Number::from` of a `u64` makes that whole number.
#[verifier::external_body]
fn number_of_u64(i: u64) -> (r: serde_json::Number)
    ensures
        whole(r) == Some(i as int),
{
    serde_json::Number::from(i)
}

/// `serde_json::Number::clone` gives the same number.
#[verifier::external_body]
fn copy_number(n: &serde_json::Number) -> (r: serde_json::Number)
    ensures
        r == *n,
{
    n.clone()
}

/// One level of a value of `serde_json`.
enum Parts {
    Null,
    Bool(bool),
    Number(serde_json::Number),
    Str(String),
    Array(Vec<serde_json::Value>),
    Object(Vec<(String, serde_json::Value)>),
}

/// What each value of a list says.
spec fn value_items(v: Seq<serde_json::Value>) -> Seq<Tree>
    decreases v.len(),
{
    if v.len() == 0 {
        seq![]
    } else {
        value_items(v.drop_last()).push(value_tree(v.last()))
    }
}

/// What a list of members says: of members with one name the last counts.
spec fn value_members(v: Seq<(String, serde_json::Value)>) -> Map<Seq<char>, Tree>
    decreases v.len(),
{
    if v.len() == 0 {
        Map::empty()
    } else {
        value_members(v.drop_last()).insert(v.last().0@, value_tree(v.last().1))
    }
}

/// Whether no name occurs twice.
spec fn distinct(v: Seq<(String, serde_json::Value)>) -> bool {
    forall|i: int, j: int| 0 <= i < j < v.len() ==> #[trigger] v[i].0@ != #[trigger] v[j].0@
}

impl Parts {
    spec fn tree(self) -> Tree {
        match self {
            Parts::Null => Tree::Null,
            Parts::Bool(b) => Tree::Bool(b),
            Parts::Number(n) => number_tree(n),
            Parts::Str(s) => Tree::Str(s@),
            Parts::Array(v) => Tree::Array(value_items(v@)),
            Parts::Object(v) => Tree::Object(value_members(v@)),
        }
    }
}

/// Takes a `serde_json::Value` apart, variant by variant; the members of its map come as
/// a list in which no name occurs twice.
#[verifier::external_body]
fn take_apart(v: serde_json::Value) -> (r: Parts)
    ensures
        r.tree() == value_tree(v),
        r matches Parts::Object(m) ==> distinct(m@),
{
    match v {
        serde_json::Value::Null => Parts::Null,
        serde_json::Value::Bool(b) => Parts::Bool(b),
        serde_json::Value::Number(n) => Parts::Number(n),
        serde_json::Value::String(s) => Parts::Str(s),
        serde_json::Value::Array(a) => Parts::Array(a),
        serde_json::Value::Object(m) => Parts::Object(m.into_iter().collect()),
    }
}

/// Puts a `serde_json::Value` together, variant by variant; its map is collected from the
/// list, in which no name may occur twice.
#[verifier::external_body]
fn put_together(p: Parts) -> (r: serde_json::Value)
    requires
        p matches Parts::Object(m) ==> distinct(m@),
    ensures
        value_tree(r) == p.tree(),
{
    match p {
        Parts::Null => serde_json::Value::Null,
        Parts::Bool(b) => serde_json::Value::Bool(b),
        Parts::Number(n) => serde_json::Value::Number(n),
        Parts::Str(s) => serde_json::Value::String(s),
        Parts::Array(a) => serde_json::Value::Array(a),
        Parts::Object(m) => serde_json::Value::Object(m.into_iter().collect()),
    }
}

/// `serde_json::from_slice` reads one value and the white space around it. What it makes
/// of a text depends on that text alone.
#[verifier::external_body]
fn read_value(bytes: &[u8]) -> (r: Result<serde_json::Value, serde_json::Error>)
    ensures
        match r {
            Ok(v) => json_read(bytes@) == Ok::<Tree, Seq<char>>(value_tree(v)),
            Err(e) => json_read(bytes@) == Err::<Tree, Seq<char>>(error_text(e)),
        },
{
    serde_json::from_slice(bytes)
}

/// `serde_json::Error::to_string` gives the text of the error.
#[verifier::external_body]
fn error_message(e: &serde_json::Error) -> (r: String)
    ensures
        r@ == error_text(*e),
{
    e.to_string()
}

/// `serde_json::to_vec` writes the value compactly, the members of an object by name. The
/// text depends on what the value says alone. On a `serde_json::Value`, which has text keys
/// and finite numbers only, it does not fail.
#[verifier::external_body]
fn write_value(v: &serde_json::Value) -> (r: Result<Vec<u8>, serde_json::Error>)
    ensures
        r is Ok,
        r->Ok_0@ == json_bytes(value_tree(*v)),
{
    serde_json::to_vec(v)
}

proof fn value_items_len(v: Seq<serde_json::Value>)
    ensures
        value_items(v).len() == v.len(),
    decreases v.len(),
{
    if v.len() > 0 {
        value_items_len(v.drop_last());
    }
}

proof fn value_items_index(v: Seq<serde_json::Value>, i: int)
    requires
        0 <= i < v.len(),
    ensures
        value_items(v).len() == v.len(),
        value_items(v)[i] == value_tree(v[i]),
    decreases v.len(),
{
    value_items_len(v);
    value_items_len(v.drop_last());
    if i < v.len() - 1 {
        value_items_index(v.drop_last(), i);
    }
}

proof fn value_members_index(v: Seq<(String, serde_json::Value)>, i: int)
    requires
        distinct(v),
        0 <= i < v.len(),
    ensures
        value_members(v).dom().finite(),
        value_members(v).contains_key(v[i].0@),
        value_members(v)[v[i].0@] == value_tree(v[i].1),
    decreases v.len(),
{
    value_members_finite(v);
    if i < v.len() - 1 {
        value_members_index(v.drop_last(), i);
        assert(v.drop_last()[i] == v[i]);
        assert(v[i].0@ != v[v.len() - 1].0@);
    }
}

proof fn value_members_finite(v: Seq<(String, serde_json::Value)>)
    ensures
        value_members(v).dom().finite(),
    decreases v.len(),
{
    if v.len() > 0 {
        value_members_finite(v.drop_last());
    }
}

/// The position of the member with the name `name`.
fn value_at(v: &Vec<(String, serde_json::Value)>, name: &str) -> (r: Option<usize>)
    ensures
        match r {
            Some(i) => i < v.len() && v@[i as int].0@ == name@,
            None => forall|i: int| 0 <= i < v.len() ==> (#[trigger] v@[i]).0@ != name@,
        },
{
    let mut i: usize = 0;
    while i < v.len()
        invariant
            i <= v.len(),
            forall|k: int| 0 <= k < i ==> (#[trigger] v@[k]).0@ != name@,
        decreases v.len() - i,
    {
        if same(v[i].0.as_str(), name) {
            return Some(i);
        }
        i += 1;
    }
    None
}

proof fn value_members_update(
    v: Seq<(String, serde_json::Value)>,
    i: int,
    x: (String, serde_json::Value),
)
    requires
        distinct(v),
        0 <= i < v.len(),
        v[i].0@ == x.0@,
    ensures
        distinct(v.update(i, x)),
        value_members(v.update(i, x)) == value_members(v).insert(x.0@, value_tree(x.1)),
    decreases v.len(),
{
    let w = v.update(i, x);
    let n = v.len() - 1;
    if i < n {
        assert(w.drop_last() =~= v.drop_last().update(i, x));
        value_members_update(v.drop_last(), i, x);
        assert(v[i].0@ != v[n].0@);
    } else {
        assert(w.drop_last() =~= v.drop_last());
    }
    assert(value_members(w) =~= value_members(v).insert(x.0@, value_tree(x.1)));
}

/// Enters a member, in the place of one of its name where there is one.
fn enter(v: &mut Vec<(String, serde_json::Value)>, name: &str, value: serde_json::Value)
    requires
        distinct(old(v)@),
    ensures
        distinct(final(v)@),
        value_members(final(v)@) == value_members(old(v)@).insert(name@, value_tree(value)),
{
    let x = (name.to_owned(), value);
    let ghost before = v@;
    match value_at(v, name) {
        Some(i) => {
            proof {
                value_members_update(before, i as int, x);
            }
            v.set(i, x);
        },
        None => {
            v.push(x);
            assert(v@.drop_last() =~= before);
        },
    }
}

/// The same value as a [`Json`].
fn from_value(v: serde_json::Value) -> (r: Json)
    ensures
        r.tree() == value_tree(v),
    decreases value_tree(v),
{
    match take_apart(v) {
        Parts::Null => Json::Null,
        Parts::Bool(b) => Json::Bool(b),
        Parts::Number(n) => match n.as_i64() {
            Some(i) => Json::Int(i),
            None => match n.as_u64() {
                Some(u) => Json::Uint(u),
                None => Json::Num(n),
            },
        },
        Parts::Str(s) => Json::Str(s),
        Parts::Array(a) => {
            let ghost all = a@;
            let mut out: Vec<Json> = Vec::new();
            assert(items(out@) =~= value_items(all.take(0)));
            for x in it: a
                invariant
                    it.seq() == all,
                    value_tree(v) == Tree::Array(value_items(all)),
                    items(out@) == value_items(all.take(it.index() as int)),
            {
                proof {
                    value_items_index(all, it.index() as int);
                    assert(decreases_to!(value_tree(v) => value_tree(v)->Array_0));
                    assert(decreases_to!(value_items(all) => value_items(all)[it.index() as int]));
                }
                let ghost i = it.index() as int;
                assert(all.take(i + 1).drop_last() =~= all.take(i));
                let ghost before = out@;
                let j = from_value(x);
                out.push(j);
                assert(out@.drop_last() =~= before);
            }
            assert(all.take(all.len() as int) =~= all);
            Json::Array(out)
        },
        Parts::Object(m) => {
            let ghost all = m@;
            let mut out: Vec<(String, Json)> = Vec::new();
            assert(members(out@) =~= value_members(all.take(0)));
            for x in it: m
                invariant
                    it.seq() == all,
                    distinct(all),
                    value_tree(v) == Tree::Object(value_members(all)),
                    members(out@) == value_members(all.take(it.index() as int)),
            {
                proof {
                    value_members_index(all, it.index() as int);
                    assert(decreases_to!(value_tree(v) => value_tree(v)->Object_0[x.0@]));
                }
                let ghost i = it.index() as int;
                assert(all.take(i + 1).drop_last() =~= all.take(i));
                let ghost before = out@;
                let j = from_value(x.1);
                out.push((x.0, j));
                assert(out@.drop_last() =~= before);
            }
            assert(all.take(all.len() as int) =~= all);
            Json::Object(out)
        },
    }
}

/// The same value as a `serde_json::Value`.
fn to_value(j: &Json) -> (r: serde_json::Value)
    ensures
        value_tree(r) == j.tree(),
    decreases *j,
{
    match j {
        Json::Null => put_together(Parts::Null),
        Json::Bool(b) => put_together(Parts::Bool(*b)),
        Json::Int(i) => put_together(Parts::Number(number_of_i64(*i))),
        Json::Uint(u) => put_together(Parts::Number(number_of_u64(*u))),
        Json::Num(n) => put_together(Parts::Number(copy_number(n))),
        Json::Str(s) => put_together(Parts::Str(s.clone())),
        Json::Array(a) => {
            let mut out: Vec<serde_json::Value> = Vec::new();
            let mut i: usize = 0;
            assert(value_items(out@) =~= items(a@.take(0)));
            while i < a.len()
                invariant
                    i <= a.len(),
                    *j == Json::Array(*a),
                    value_items(out@) == items(a@.take(i as int)),
                decreases a.len() - i,
            {
                assert(a@.take(i + 1).drop_last() =~= a@.take(i as int));
                assert(decreases_to!(*j => j->Array_0));
                assert(decreases_to!(*a => a@));
                assert(decreases_to!(a@ => a@[i as int]));
                let ghost before = out@;
                let x = to_value(&a[i]);
                out.push(x);
                assert(out@.drop_last() =~= before);
                i += 1;
            }
            assert(a@.take(a@.len() as int) =~= a@);
            put_together(Parts::Array(out))
        },
        Json::Object(m) => {
            let mut out: Vec<(String, serde_json::Value)> = Vec::new();
            let mut i: usize = 0;
            assert(value_members(out@) =~= members(m@.take(0)));
            while i < m.len()
                invariant
                    i <= m.len(),
                    *j == Json::Object(*m),
                    distinct(out@),
                    value_members(out@) == members(m@.take(i as int)),
                decreases m.len() - i,
            {
                assert(m@.take(i + 1).drop_last() =~= m@.take(i as int));
                assert(decreases_to!(*j => j->Object_0));
                assert(decreases_to!(*m => m@));
                assert(decreases_to!(m@ => m@[i as int]));
                assert(decreases_to!(m@[i as int] => m@[i as int].1));
                let x = to_value(&m[i].1);
                enter(&mut out, m[i].0.as_str(), x);
                i += 1;
            }
            assert(m@.take(m@.len() as int) =~= m@);
            put_together(Parts::Object(out))
        },
    }
}

/// Why a text is no JSON.
#[derive(Debug)]
pub struct JsonError {
    pub message: String,
}

impl Tree {
    /// The member of an object with the name `k`.
    pub open spec fn member(self, k: Seq<char>) -> Option<Tree> {
        match self {
            Tree::Object(m) => if m.contains_key(k) {
                Some(m[k])
            } else {
                None
            },
            _ => None,
        }
    }

    /// The truth value that this is.
    pub open spec fn bool_value(self) -> Option<bool> {
        match self {
            Tree::Bool(b) => Some(b),
            _ => None,
        }
    }

    /// The text that this is.
    pub open spec fn str_value(self) -> Option<Seq<char>> {
        match self {
            Tree::Str(s) => Some(s),
            _ => None,
        }
    }

    /// The whole number that this is, where it fits.
    pub open spec fn i64_value(self) -> Option<i64> {
        match self {
            Tree::Int(i) => fit_i64(Some(i)),
            _ => None,
        }
    }
}

/// The truth value that a member is, where there is a member and it is one.
pub open spec fn bool_of(t: Option<Tree>) -> Option<bool> {
    match t {
        Some(t) => t.bool_value(),
        None => None,
    }
}

/// The text that a member is, where there is a member and it is one.
pub open spec fn str_of(t: Option<Tree>) -> Option<Seq<char>> {
    match t {
        Some(t) => t.str_value(),
        None => None,
    }
}

/// The whole number that a member is, where there is a member and it is one that fits.
pub open spec fn i64_of(t: Option<Tree>) -> Option<i64> {
    match t {
        Some(t) => t.i64_value(),
        None => None,
    }
}

/// What a value says, where there is one.
pub open spec fn tree_of(j: Option<&Json>) -> Option<Tree> {
    match j {
        Some(j) => Some(j.tree()),
        None => None,
    }
}

/// The position of the last member with the name `k`, or -1.
spec fn last_at(v: Seq<(String, Json)>, k: Seq<char>) -> int
    decreases v.len(),
{
    if v.len() == 0 {
        -1
    } else if v.last().0@ == k {
        v.len() - 1
    } else {
        last_at(v.drop_last(), k)
    }
}

proof fn last_at_member(v: Seq<(String, Json)>, k: Seq<char>)
    ensures
        -1 <= last_at(v, k) < v.len(),
        members(v).contains_key(k) <==> last_at(v, k) >= 0,
        last_at(v, k) >= 0 ==> v[last_at(v, k)].0@ == k && members(v)[k] == v[last_at(v, k)].1.tree(),
    decreases v.len(),
{
    if v.len() > 0 {
        last_at_member(v.drop_last(), k);
    }
}

proof fn members_update(v: Seq<(String, Json)>, k: Seq<char>, x: (String, Json))
    requires
        last_at(v, k) >= 0,
        x.0@ == k,
    ensures
        last_at(v, k) < v.len(),
        members(v.update(last_at(v, k), x)) == members(v).insert(k, x.1.tree()),
    decreases v.len(),
{
    last_at_member(v, k);
    let w = v.update(last_at(v, k), x);
    if v.last().0@ == k {
        assert(w.drop_last() =~= v.drop_last());
        assert(members(w) =~= members(v).insert(k, x.1.tree()));
    } else {
        members_update(v.drop_last(), k, x);
        assert(w.drop_last() =~= v.drop_last().update(last_at(v, k), x));
        assert(members(w) =~= members(v).insert(k, x.1.tree()));
    }
}

/// The position of the last member with the name `key`.
fn last_of(v: &Vec<(String, Json)>, key: &str) -> (r: Option<usize>)
    ensures
        match r {
            Some(i) => last_at(v@, key@) == i,
            None => last_at(v@, key@) == -1,
        },
{
    let mut n: usize = v.len();
    assert(v@.take(n as int) =~= v@);
    while n > 0
        invariant
            n <= v.len(),
            last_at(v@, key@) == last_at(v@.take(n as int), key@),
        decreases n,
    {
        assert(v@.take(n as int).last() == v@[n - 1]);
        if same(v[n - 1].0.as_str(), key) {
            return Some(n - 1);
        }
        assert(v@.take(n as int).drop_last() =~= v@.take(n - 1));
        n -= 1;
    }
    None
}

impl Json {
    /// Reads a JSON text.
    pub fn parse(bytes: &[u8]) -> (r: Result<Json, JsonError>)
        ensures
            match r {
                Ok(j) => json_read(bytes@) == Ok::<Tree, Seq<char>>(j.tree()),
                Err(e) => json_read(bytes@) == Err::<Tree, Seq<char>>(e.message@),
            },
    {
        match read_value(bytes) {
            Ok(v) => Ok(from_value(v)),
            Err(e) => Err(JsonError { message: error_message(&e) }),
        }
    }

    /// Writes the value as compact JSON text.
    pub fn to_bytes(&self) -> (r: Vec<u8>)
        ensures
            r@ == json_bytes(self.tree()),
    {
        match write_value(&to_value(self)) {
            Ok(b) => b,
            Err(_) => Vec::new(),
        }
    }

    /// The member of an object with the name `key`.
    pub fn get(&self, key: &str) -> (r: Option<&Json>)
        ensures
            tree_of(r) == self.tree().member(key@),
            r matches Some(j) ==> decreases_to!(*self => *j),
    {
        match self {
            Json::Object(v) => {
                proof {
                    last_at_member(v@, key@);
                }
                match last_of(v, key) {
                    Some(i) => {
                        proof {
                            assert(decreases_to!(*self => self->Object_0));
                            assert(decreases_to!(*v => v@));
                            assert(decreases_to!(v@ => v@[i as int]));
                            assert(decreases_to!(v@[i as int] => v@[i as int].1));
                        }
                        Some(&v[i].1)
                    },
                    None => None,
                }
            },
            _ => None,
        }
    }

    /// The truth value that this is.
    pub fn as_bool(&self) -> (r: Option<bool>)
        ensures
            r == self.tree().bool_value(),
            *self matches Json::Bool(b) ==> r == Some(b),
            !(self is Bool) ==> r is None,
    {
        match self {
            Json::Bool(b) => Some(*b),
            _ => None,
        }
    }

    /// The text that this is.
    pub fn as_str(&self) -> (r: Option<&str>)
        ensures
            match r {
                Some(s) => self.tree().str_value() == Some(s@),
                None => self.tree().str_value() is None,
            },
            *self matches Json::Str(s) ==> r is Some && r->0@ == s@,
            !(self is Str) ==> r is None,
    {
        match self {
            Json::Str(s) => Some(s.as_str()),
            _ => None,
        }
    }

    /// The whole number that this is, where it fits.
    pub fn as_i64(&self) -> (r: Option<i64>)
        ensures
            r == self.tree().i64_value(),
            *self matches Json::Int(i) ==> r == Some(i),
            *self matches Json::Uint(u) ==> (u <= i64::MAX ==> r is Some && r->0 == u) && (u
                > i64::MAX ==> r is None),
            self is Null || self is Bool || self is Str || self is Array || self is Object ==> r is None,
    {
        match self {
            Json::Int(i) => Some(*i),
            Json::Uint(u) => if *u <= i64::MAX as u64 {
                Some(*u as i64)
            } else {
                None
            },
            Json::Num(n) => n.as_i64(),
            _ => None,
        }
    }

    /// Whether this is `null`.
    pub fn is_null(&self) -> (r: bool)
        ensures
            r == (self.tree() is Null),
            r == (*self is Null),
    {
        match self {
            Json::Null => true,
            _ => false,
        }
    }

    /// Whether the member `key` is there and is `true`.
    pub fn is_true(&self, key: &str) -> (r: bool)
        ensures
            r == (bool_of(self.tree().member(key@)) == Some(true)),
    {
        match self.get(key) {
            Some(v) => match v.as_bool() {
                Some(b) => b,
                None => false,
            },
            None => false,
        }
    }

    /// The text of the member `key`, where it is a text.
    pub fn get_str(&self, key: &str) -> (r: Option<&str>)
        ensures
            match r {
                Some(s) => str_of(self.tree().member(key@)) == Some(s@),
                None => str_of(self.tree().member(key@)) is None,
            },
    {
        match self.get(key) {
            Some(v) => v.as_str(),
            None => None,
        }
    }

    /// The whole number of the member `key`, where it is one that fits.
    pub fn get_i64(&self, key: &str) -> (r: Option<i64>)
        ensures
            r == i64_of(self.tree().member(key@)),
    {
        match self.get(key) {
            Some(v) => v.as_i64(),
            None => None,
        }
    }

    /// The same value once more.
    pub fn copy(&self) -> (r: Json)
        ensures
            r.tree() == self.tree(),
        decreases *self,
    {
        match self {
            Json::Null => Json::Null,
            Json::Bool(b) => Json::Bool(*b),
            Json::Int(i) => Json::Int(*i),
            Json::Uint(u) => Json::Uint(*u),
            Json::Num(n) => Json::Num(copy_number(n)),
            Json::Str(s) => Json::Str(s.clone()),
            Json::Array(a) => {
                let mut out: Vec<Json> = Vec::new();
                let mut i: usize = 0;
                assert(items(out@) =~= items(a@.take(0)));
                while i < a.len()
                    invariant
                        i <= a.len(),
                        *self == Json::Array(*a),
                        items(out@) == items(a@.take(i as int)),
                    decreases a.len() - i,
                {
                    assert(a@.take(i + 1).drop_last() =~= a@.take(i as int));
                    assert(decreases_to!(*self => self->Array_0));
                    assert(decreases_to!(*a => a@));
                    assert(decreases_to!(a@ => a@[i as int]));
                    let ghost before = out@;
                    let x = a[i].copy();
                    out.push(x);
                    assert(out@.drop_last() =~= before);
                    i += 1;
                }
                assert(a@.take(a@.len() as int) =~= a@);
                Json::Array(out)
            },
            Json::Object(m) => {
                let mut out: Vec<(String, Json)> = Vec::new();
                let mut i: usize = 0;
                assert(members(out@) =~= members(m@.take(0)));
                while i < m.len()
                    invariant
                        i <= m.len(),
                        *self == Json::Object(*m),
                        members(out@) == members(m@.take(i as int)),
                    decreases m.len() - i,
                {
                    assert(m@.take(i + 1).drop_last() =~= m@.take(i as int));
                    assert(decreases_to!(*self => self->Object_0));
                    assert(decreases_to!(*m => m@));
                    assert(decreases_to!(m@ => m@[i as int]));
                    assert(decreases_to!(m@[i as int] => m@[i as int].1));
                    let ghost before = out@;
                    let x = m[i].1.copy();
                    out.push((m[i].0.clone(), x));
                    assert(out@.drop_last() =~= before);
                    i += 1;
                }
                assert(m@.take(m@.len() as int) =~= m@);
                Json::Object(out)
            },
        }
    }
}

/// Merges `patch` into `dst`: objects are merged member by member, anything else is
/// replaced as a whole.
pub fn merge_json(dst: &mut Json, patch: &Json)
    ensures
        final(dst).tree() == merge(old(dst).tree(), patch.tree()),
{
    let mut whole = Json::Null;
    std::mem::swap(&mut whole, dst);
    *dst = merged(whole, patch);
}

/// What is merged of a member when the first `n` members of the patch have been.
spec fn partly(d: Map<Seq<char>, Tree>, p: Seq<(String, Json)>, n: int) -> Map<Seq<char>, Tree> {
    Map::new(
        |k: Seq<char>| d.contains_key(k) || 0 <= last_at(p, k) < n,
        |k: Seq<char>|
            if !(0 <= last_at(p, k) < n) {
                d[k]
            } else if !d.contains_key(k) {
                members(p)[k]
            } else {
                merge(d[k], members(p)[k])
            },
    )
}

fn merged(dst: Json, patch: &Json) -> (r: Json)
    ensures
        r.tree() == merge(dst.tree(), patch.tree()),
    decreases *patch,
{
    match (dst, patch) {
        (Json::Object(d), Json::Object(p)) => {
            let ghost before = members(d@);
            let mut out = d;
            let mut i: usize = 0;
            assert(members(out@) =~= partly(before, p@, 0));
            while i < p.len()
                invariant
                    i <= p.len(),
                    *patch == Json::Object(*p),
                    members(out@) == partly(before, p@, i as int),
                decreases p.len() - i,
            {
                let ghost k = p@[i as int].0@;
                proof {
                    last_at_member(p@, k);
                    last_at_member(out@, k);
                    assert(decreases_to!(*patch => patch->Object_0));
                    assert(decreases_to!(*p => p@));
                    assert(decreases_to!(p@ => p@[i as int]));
                    assert(decreases_to!(p@[i as int] => p@[i as int].1));
                }
                let counts = match last_of(p, p[i].0.as_str()) {
                    Some(j) => j == i,
                    None => false,
                };
                if counts {
                    match last_of(&out, p[i].0.as_str()) {
                        Some(j) => {
                            let ghost list = out@;
                            let (name, had) = out.remove(j);
                            let now = merged(had, &p[i].1);
                            proof {
                                members_update(list, k, (name, now));
                                assert(list.remove(j as int).insert(j as int, (name, now)) =~= list.update(
                                    j as int,
                                    (name, now),
                                ));
                            }
                            out.insert(j, (name, now));
                        },
                        None => {
                            let ghost list = out@;
                            out.push((p[i].0.clone(), p[i].1.copy()));
                            assert(out@.drop_last() =~= list);
                        },
                    }
                    assert forall|q: Seq<char>| q != k implies #[trigger] last_at(p@, q) != i by {
                        last_at_member(p@, q);
                    }
                    assert(members(out@) =~= partly(before, p@, i + 1));
                } else {
                    assert forall|q: Seq<char>| #[trigger] last_at(p@, q) != i by {
                        last_at_member(p@, q);
                    }
                    assert(partly(before, p@, i + 1) =~= partly(before, p@, i as int));
                }
                i += 1;
            }
            proof {
                let full = merge(Tree::Object(before), patch.tree())->Object_0;
                assert forall|q: Seq<char>|
                    (0 <= #[trigger] last_at(p@, q) < p.len()) == members(p@).contains_key(q) by {
                    last_at_member(p@, q);
                }
                assert(partly(before, p@, p@.len() as int) =~= full);
            }
            Json::Object(out)
        },
        (_, patch) => patch.copy(),
    }
}

/// The texts of a list, without what is not a text.
pub open spec fn texts_of(v: Seq<Tree>) -> Seq<Seq<char>>
    decreases v.len(),
{
    if v.len() == 0 {
        seq![]
    } else {
        match v.last().str_value() {
            Some(s) => texts_of(v.drop_last()).push(s),
            None => texts_of(v.drop_last()),
        }
    }
}

/// The texts of a list, without what is not a text.
pub fn texts_in(a: &Vec<Json>) -> (r: Vec<String>)
    ensures
        text::strings(r@) == texts_of(items(a@)),
{
    let mut out: Vec<String> = Vec::new();
    let mut i: usize = 0;
    assert(a@.take(0) =~= seq![]);
    assert(text::strings(out@) =~= texts_of(items(a@.take(0))));
    while i < a.len()
        invariant
            i <= a.len(),
            text::strings(out@) == texts_of(items(a@.take(i as int))),
        decreases a.len() - i,
    {
        let ghost before = text::strings(out@);
        let ghost now = items(a@.take(i + 1));
        assert(a@.take(i + 1).drop_last() =~= a@.take(i as int));
        assert(now.drop_last() =~= items(a@.take(i as int)));
        if let Some(s) = a[i].as_str() {
            out.push(s.to_owned());
            assert(text::strings(out@) =~= before.push(s@));
        }
        i += 1;
    }
    assert(a@.take(a@.len() as int) =~= a@);
    out
}

/// The value at a path of member names.
pub open spec fn at_path(t: Tree, path: Seq<Seq<char>>) -> Option<Tree>
    decreases path.len(),
{
    if path.len() == 0 {
        Some(t)
    } else {
        match t.member(path[0]) {
            Some(x) => at_path(x, path.drop_first()),
            None => None,
        }
    }
}

impl Json {
    /// The value at a path of member names with dots between them.
    pub fn at(&self, path: &str) -> (r: Option<&Json>)
        ensures
            tree_of(r) == at_path(self.tree(), text::split(path@, '.')),
    {
        let cs = chars_of(path);
        let segs = split_at(&cs, '.');
        let ghost all = text::split(path@, '.');
        let mut cur: &Json = self;
        let mut i: usize = 0;
        assert(all.skip(0) =~= all);
        while i < segs.len()
            invariant
                i <= segs.len(),
                all == text::texts(segs@),
                all == text::split(path@, '.'),
                at_path(self.tree(), all) == at_path(cur.tree(), all.skip(i as int)),
            decreases segs.len() - i,
        {
            let name = string_of(&segs[i], 0, segs[i].len());
            assert(name@ =~= all.skip(i as int)[0]);
            assert(all.skip(i as int).drop_first() =~= all.skip(i + 1));
            match cur.get(name.as_str()) {
                Some(next) => {
                    cur = next;
                },
                None => {
                    return None;
                },
            }
            i += 1;
        }
        Some(cur)
    }
}

/// A text with every `~` that has `c` behind it, and that `c`, made `by`, from the left.
pub open spec fn unescape(s: Seq<char>, c: char, by: char) -> Seq<char>
    decreases s.len(),
{
    if s.len() < 2 {
        s
    } else if s[0] == '~' && s[1] == c {
        seq![by] + unescape(s.skip(2), c, by)
    } else {
        seq![s[0]] + unescape(s.skip(1), c, by)
    }
}

fn unescaped(cs: &Vec<char>, c: char, by: char) -> (r: Vec<char>)
    ensures
        r@ == unescape(cs@, c, by),
{
    let mut r: Vec<char> = Vec::new();
    let mut i: usize = 0;
    assert(r@ + unescape(cs@.skip(0), c, by) =~= unescape(cs@, c, by)) by {
        assert(cs@.skip(0) =~= cs@);
    }
    while i < cs.len()
        invariant
            i <= cs.len(),
            r@ + unescape(cs@.skip(i as int), c, by) == unescape(cs@, c, by),
        decreases cs.len() - i,
    {
        let ghost before = r@;
        let ghost rest = cs@.skip(i as int);
        if cs.len() - i >= 2 && cs[i] == '~' && cs[i + 1] == c {
            assert(rest.skip(2) =~= cs@.skip(i + 2));
            r.push(by);
            i += 2;
            assert(r@ + unescape(rest.skip(2), c, by) =~= before + unescape(rest, c, by));
        } else {
            assert(rest.skip(1) =~= cs@.skip(i + 1));
            r.push(cs[i]);
            i += 1;
            assert(r@ + unescape(rest.skip(1), c, by) =~= before + unescape(rest, c, by));
        }
    }
    assert(r@ + unescape(cs@.skip(cs@.len() as int), c, by) =~= r@);
    r
}

/// What a token of a JSON pointer names: `~1` stands for a slash and `~0` for `~`.
pub open spec fn token_name(s: Seq<char>) -> Seq<char> {
    unescape(unescape(s, '1', '/'), '0', '~')
}

/// The place in a list that a text is: a number without a sign and without a zero before it.
pub open spec fn list_index(s: Seq<char>) -> Option<int> {
    if s.len() > 0 && (s[0] == '+' || (s[0] == '0' && s.len() != 1)) {
        None
    } else {
        number::int_of(s, 0, usize::MAX as int)
    }
}

impl Tree {
    /// What a name leads to: the member of an object, or the value at a place of a list.
    pub open spec fn step(self, name: Seq<char>) -> Option<Tree> {
        match self {
            Tree::Array(v) => match list_index(name) {
                Some(i) => if i < v.len() {
                    Some(v[i])
                } else {
                    None
                },
                None => None,
            },
            _ => self.member(name),
        }
    }
}

/// The value to which the tokens of a JSON pointer lead.
pub open spec fn at_tokens(t: Tree, tokens: Seq<Seq<char>>) -> Option<Tree>
    decreases tokens.len(),
{
    if tokens.len() == 0 {
        Some(t)
    } else {
        match t.step(token_name(tokens[0])) {
            Some(x) => at_tokens(x, tokens.drop_first()),
            None => None,
        }
    }
}

proof fn items_index(v: Seq<Json>, i: int)
    requires
        0 <= i < v.len(),
    ensures
        items(v)[i] == v[i].tree(),
    decreases v.len(),
{
    items_len(v);
    items_len(v.drop_last());
    if i < v.len() - 1 {
        items_index(v.drop_last(), i);
    }
}

proof fn items_len(v: Seq<Json>)
    ensures
        items(v).len() == v.len(),
    decreases v.len(),
{
    if v.len() > 0 {
        items_len(v.drop_last());
    }
}

impl Json {
    /// What a name leads to; see [`Tree::step`].
    fn stepped(&self, name: &Vec<char>) -> (r: Option<&Json>)
        ensures
            tree_of(r) == self.tree().step(name@),
    {
        match self {
            Json::Array(v) => {
                proof {
                    items_len(v@);
                }
                if name.len() > 0 && (name[0] == '+' || (name[0] == '0' && name.len() != 1)) {
                    return None;
                }
                match parse_int(name, 0, usize::MAX as i128) {
                    Some(i) => if i < v.len() as i128 {
                        proof {
                            items_index(v@, i as int);
                        }
                        Some(&v[i as usize])
                    } else {
                        None
                    },
                    None => None,
                }
            },
            _ => {
                let s = string_of(name, 0, name.len());
                assert(s@ =~= name@);
                self.get(s.as_str())
            },
        }
    }

    /// The value at a JSON pointer, which is written without its first slash.
    pub fn at_pointer(&self, pointer: &str) -> (r: Option<&Json>)
        ensures
            tree_of(r) == at_tokens(self.tree(), text::split(pointer@, '/')),
    {
        let cs = chars_of(pointer);
        let segs = split_at(&cs, '/');
        let ghost all = text::split(pointer@, '/');
        let mut cur: &Json = self;
        let mut i: usize = 0;
        assert(all.skip(0) =~= all);
        while i < segs.len()
            invariant
                i <= segs.len(),
                all == text::texts(segs@),
                all == text::split(pointer@, '/'),
                at_tokens(self.tree(), all) == at_tokens(cur.tree(), all.skip(i as int)),
            decreases segs.len() - i,
        {
            let name = unescaped(&unescaped(&segs[i], '1', '/'), '0', '~');
            assert(name@ == token_name(all.skip(i as int)[0]));
            assert(all.skip(i as int).drop_first() =~= all.skip(i + 1));
            match cur.stepped(&name) {
                Some(next) => {
                    cur = next;
                },
                None => {
                    return None;
                },
            }
            i += 1;
        }
        Some(cur)
    }
}

/// A pointer that is a plain name leads to the member of that name.
pub proof fn plain_name_leads_to_member(t: Tree, name: Seq<char>)
    requires
        forall|i: int| 0 <= i < name.len() ==> name[i] != '/' && name[i] != '~',
        !(t is Array),
    ensures
        at_tokens(t, text::split(name, '/')) == t.member(name),
{
    text::split_whole(name, '/');
    unescape_plain(name, '1', '/');
    unescape_plain(name, '0', '~');
    let tokens = text::split(name, '/');
    reveal_with_fuel(at_tokens, 2);
    assert(tokens.drop_first() =~= seq![]);
}

proof fn unescape_plain(s: Seq<char>, c: char, by: char)
    requires
        forall|i: int| 0 <= i < s.len() ==> s[i] != '~',
    ensures
        unescape(s, c, by) == s,
    decreases s.len(),
{
    if s.len() >= 2 {
        unescape_plain(s.skip(1), c, by);
        assert(seq![s[0]] + s.skip(1) =~= s);
    }
}

/// What the patch does not name stays as it was.
pub proof fn merge_keeps(a: Tree, b: Tree, k: Seq<char>)
    requires
        a is Object,
        b is Object,
        b.member(k) is None,
    ensures
        merge(a, b).member(k) == a.member(k),
{
}

/// What the patch adds is there as the patch has it.
pub proof fn merge_adds(a: Tree, b: Tree, k: Seq<char>)
    requires
        a is Object,
        a.member(k) is None,
    ensures
        merge(a, b).member(k) == b.member(k),
{
}

/// Wherever the patch holds something that is no object, the result holds just that.
pub proof fn merge_sets(a: Tree, b: Tree, path: Seq<Seq<char>>)
    requires
        at_path(b, path) is Some,
        !(at_path(b, path)->0 is Object),
    ensures
        at_path(merge(a, b), path) == at_path(b, path),
    decreases path.len(),
{
    if path.len() > 0 && a is Object {
        let k = path[0];
        if a.member(k) is Some {
            merge_sets(a.member(k)->0, b.member(k)->0, path.drop_first());
            assert(merge(a, b).member(k) == Some(merge(a.member(k)->0, b.member(k)->0)));
        }
    }
}

/// Whether the patch, as far as it goes along the path, holds objects and stops before its end.
pub open spec fn leaves_alone(b: Tree, path: Seq<Seq<char>>) -> bool
    decreases path.len(),
{
    path.len() > 0 && b is Object && match b.member(path[0]) {
        Some(x) => leaves_alone(x, path.drop_first()),
        None => true,
    }
}

/// Whatever the patch does not reach is read as before.
pub proof fn merge_leaves_alone(a: Tree, b: Tree, path: Seq<Seq<char>>)
    requires
        leaves_alone(b, path),
    ensures
        a is Object ==> at_path(merge(a, b), path) == at_path(a, path),
        at_path(b, path) is None,
    decreases path.len(),
{
    let k = path[0];
    if b.member(k) is Some {
        let rest = path.drop_first();
        merge_leaves_alone(if a.member(k) is Some { a.member(k)->0 } else { b }, b.member(k)->0, rest);
        if a is Object && a.member(k) is Some {
            assert(merge(a, b).member(k) == Some(merge(a.member(k)->0, b.member(k)->0)));
        }
    }
}

/// A patch that is applied twice does no more than once.
pub proof fn merge_twice(a: Tree, b: Tree)
    ensures
        merge(merge(a, b), b) == merge(a, b),
    decreases b,
{
    match b {
        Tree::Object(p) => {
            merge_self(b);
            if let Tree::Object(d) = a {
                let once = merge(a, b)->Object_0;
                let twice = merge(merge(a, b), b)->Object_0;
                assert forall|k: Seq<char>| once.contains_key(k) implies #[trigger] once[k] == twice[k] by {
                    if p.contains_key(k) {
                        assert(decreases_to!(b => b->Object_0[k]));
                        if d.contains_key(k) {
                            merge_twice(d[k], p[k]);
                        } else {
                            merge_self(p[k]);
                        }
                    }
                }
                assert(once =~= twice);
            }
        },
        _ => {},
    }
}

/// A value that is merged into itself stays as it is.
pub proof fn merge_self(b: Tree)
    ensures
        merge(b, b) == b,
    decreases b,
{
    if let Tree::Object(p) = b {
        let m = merge(b, b)->Object_0;
        assert forall|k: Seq<char>| p.contains_key(k) implies #[trigger] m[k] == p[k] by {
            assert(decreases_to!(b => b->Object_0[k]));
            merge_self(p[k]);
        }
        assert(m =~= p);
    }
}

/// A member more at the end of the list counts before all others of its name.
pub proof fn members_push(v: Seq<(String, Json)>, x: (String, Json))
    ensures
        members(v.push(x)) == members(v).insert(x.0@, x.1.tree()),
{
    assert(v.push(x).drop_last() =~= v);
}

/// Adds a member to the end of the list.
pub fn add_member(v: &mut Vec<(String, Json)>, name: &str, value: Json)
    ensures
        members(final(v)@) == members(old(v)@).insert(name@, value.tree()),
{
    let x = (name.to_owned(), value);
    proof {
        members_push(v@, x);
    }
    v.push(x);
}

/// A list says what its values say, in their order.
pub proof fn list_says_what_its_values_say(v: Seq<Json>, i: int)
    requires
        0 <= i < v.len(),
    ensures
        items(v).len() == v.len(),
        items(v)[i] == v[i].tree(),
{
    items_len(v);
    items_index(v, i);
}

/// The last member of a name says what the object says under that name, and an object says
/// nothing under a name that no member has.
pub proof fn last_member_counts(v: Seq<(String, Json)>, i: int, name: Seq<char>)
    requires
        0 <= i < v.len(),
    ensures
        (forall|j: int| i < j < v.len() ==> (#[trigger] v[j]).0@ != v[i].0@) ==> members(v).contains_key(
            v[i].0@,
        ) && members(v)[v[i].0@] == v[i].1.tree(),
        (forall|j: int| 0 <= j < v.len() ==> (#[trigger] v[j]).0@ != name) ==> !members(
            v,
        ).contains_key(name),
{
    last_at_member(v, v[i].0@);
    last_at_member(v, name);
    last_at_is_last(v, v[i].0@, i);
}

proof fn last_at_is_last(v: Seq<(String, Json)>, k: Seq<char>, i: int)
    requires
        0 <= i < v.len(),
        v[i].0@ == k,
    ensures
        last_at(v, k) >= i,
    decreases v.len(),
{
    if v.last().0@ != k {
        last_at_is_last(v.drop_last(), k, i);
    }
}

/// A plain value takes the place of what was there, and so does an object of what was none. Two
/// objects give an object that has the members of both, those in both merged.
pub proof fn merge_goes_member_by_member(a: Tree, b: Tree, k: Seq<char>)
    ensures
        !(a is Object) || !(b is Object) ==> merge(a, b) == b,
        a is Object && b is Object ==> merge(a, b) is Object && (merge(a, b).member(k) is Some <==> a.member(
            k,
        ) is Some || b.member(k) is Some),
        a is Object && b is Object && a.member(k) is Some && b.member(k) is Some ==> merge(a, b).member(
            k,
        ) == Some(merge(a.member(k)->0, b.member(k)->0)),
{
}

/// The texts of a list come in their order, and what is no text is left out.
pub proof fn texts_keep_their_order(a: Seq<Tree>, b: Seq<Tree>)
    ensures
        texts_of(a + b) == texts_of(a) + texts_of(b),
        a.len() == 1 ==> texts_of(a) == match a[0] {
            Tree::Str(s) => seq![s],
            _ => seq![],
        },
        a.len() == 0 ==> texts_of(a).len() == 0,
    decreases b.len(),
{
    reveal_with_fuel(texts_of, 2);
    if b.len() == 0 {
        assert(a + b =~= a);
        assert(texts_of(a) + texts_of(b) =~= texts_of(a));
    } else {
        texts_keep_their_order(a, b.drop_last());
        assert((a + b).drop_last() =~= a + b.drop_last());
        assert((a + b).last() == b.last());
        if let Tree::Str(s) = b.last() {
            assert((texts_of(a) + texts_of(b.drop_last())).push(s) =~= texts_of(a) + texts_of(
                b.drop_last(),
            ).push(s));
        }
    }
    if a.len() == 1 {
        assert(a.drop_last() =~= Seq::<Tree>::empty());
        assert(texts_of(a.drop_last()) =~= seq![]);
    }
}

/// A name as a token of a JSON pointer: `~` is written `~0` and a slash `~1`.
pub open spec fn token_of(name: Seq<char>) -> Seq<char>
    decreases name.len(),
{
    if name.len() == 0 {
        seq![]
    } else if name[0] == '~' {
        seq!['~', '0'] + token_of(name.skip(1))
    } else if name[0] == '/' {
        seq!['~', '1'] + token_of(name.skip(1))
    } else {
        seq![name[0]] + token_of(name.skip(1))
    }
}

/// A name with `~` written `~0`.
spec fn half_token(name: Seq<char>) -> Seq<char>
    decreases name.len(),
{
    if name.len() == 0 {
        seq![]
    } else if name[0] == '~' {
        seq!['~', '0'] + half_token(name.skip(1))
    } else {
        seq![name[0]] + half_token(name.skip(1))
    }
}

/// Reading a text from its front, character by character.
proof fn unescape_front(x: char, s: Seq<char>, c: char, by: char)
    ensures
        x != '~' ==> unescape(seq![x] + s, c, by) == seq![x] + unescape(s, c, by),
        unescape(seq!['~', c] + s, c, by) == seq![by] + unescape(s, c, by),
        x != c && x != '~' ==> unescape(seq!['~', x] + s, c, by) == seq!['~', x] + unescape(s, c, by),
{
    let one = seq![x] + s;
    let two = seq!['~', c] + s;
    let other = seq!['~', x] + s;
    assert(one.skip(1) =~= s);
    assert(two.skip(2) =~= s);
    assert(other.skip(1) =~= one);
    if s.len() == 0 {
        assert(one =~= seq![x]);
        assert(seq![x] + unescape(s, c, by) =~= one);
    }
    if x != c && x != '~' {
        assert(unescape(other, c, by) == seq!['~'] + unescape(one, c, by));
        assert(seq!['~'] + (seq![x] + unescape(s, c, by)) =~= seq!['~', x] + unescape(s, c, by));
    }
}

proof fn token_reads_half_back(name: Seq<char>)
    ensures
        unescape(token_of(name), '1', '/') == half_token(name),
        unescape(half_token(name), '0', '~') == name,
    decreases name.len(),
{
    if name.len() > 0 {
        let rest = name.skip(1);
        token_reads_half_back(rest);
        unescape_front(name[0], token_of(rest), '1', '/');
        unescape_front('0', token_of(rest), '1', '/');
        unescape_front(name[0], half_token(rest), '0', '~');
        assert(seq![name[0]] + rest =~= name);
    }
}

/// Every name can be written as a token, which names it.
pub proof fn token_names_name(name: Seq<char>)
    ensures
        token_name(token_of(name)) == name,
        forall|i: int| 0 <= i < token_of(name).len() ==> token_of(name)[i] != '/',
    decreases name.len(),
{
    token_reads_half_back(name);
    if name.len() > 0 {
        token_names_name(name.skip(1));
        let rest = token_of(name.skip(1));
        assert forall|i: int| 0 <= i < token_of(name).len() implies token_of(name)[i] != '/' by {
            if name[0] == '~' || name[0] == '/' {
                if i >= 2 {
                    assert(token_of(name)[i] == rest[i - 2]);
                }
            } else if i >= 1 {
                assert(token_of(name)[i] == rest[i - 1]);
            }
        }
    }
}

/// A pointer leads from a member to what its rest leads to there, and from a list to what its
/// rest leads to at that place.
pub proof fn pointer_leads_on(t: Tree, name: Seq<char>, i: int, rest: Seq<Seq<char>>)
    ensures
        at_tokens(t, seq![]) == Some(t),
        !(t is Array) ==> at_tokens(t, seq![token_of(name)] + rest) == match t.member(name) {
            Some(x) => at_tokens(x, rest),
            None => None,
        },
        t matches Tree::Array(v) ==> (0 <= i < v.len() && i <= usize::MAX ==> at_tokens(
            t,
            seq![number::decimal(i)] + rest,
        ) == at_tokens(v[i], rest)),
{
    token_names_name(name);
    let tokens = seq![token_of(name)] + rest;
    assert(tokens.drop_first() =~= rest);
    if let Tree::Array(v) = t {
        if 0 <= i < v.len() && i <= usize::MAX {
            let d = number::decimal(i);
            let places = seq![d] + rest;
            assert(places.drop_first() =~= rest);
            number::decimal_has_no_leading_zero(i);
            number::decimal_reads_back(i, 0, usize::MAX as int);
            assert forall|k: int| 0 <= k < d.len() implies d[k] != '~' by {}
            unescape_plain(d, '1', '/');
            unescape_plain(d, '0', '~');
        }
    }
}

} // verus!
