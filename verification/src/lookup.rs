//! Reverse lookup of single characters: pronunciation, codes and decomposition.

use std::collections::HashMap;

use vstd::prelude::*;
use vstd::std_specs::hash::*;
use vstd::string::*;

use crate::text;
use crate::text::{chars_of, joined, lines_of, same, split_at, string_of, trimmed, trimmed_start};

verus! {

broadcast use group_hash_axioms;

/// Below the data root: one `character TAB pronunciation` per line.
pub const PINYIN_ANNOTATION: &'static str = "数据/注释/拼音.注释";

/// Below the data root: the code table, whose `columns:` list names its columns.
pub const CODE_DICT: &'static str = "码表/虎码单字/tiger.dict.yaml";

/// Below the data root: one `character TAB decomposition` per line.
pub const SPLIT_ANNOTATION: &'static str = "数据/拆分/虎码.拆分";

/// The key that a field stands for: its only character.
pub open spec fn key_char(field: Seq<char>) -> Option<char> {
    if field.len() == 1 {
        Some(field[0])
    } else {
        None
    }
}

/// The only character of a field; nothing for an empty field or a longer one.
pub fn single_key_char(field: &str) -> (r: Option<char>)
    ensures
        r == key_char(field@),
        r matches Some(c) ==> field@ == seq![c],
        r is None ==> field@.len() != 1,
{
    let cs = chars_of(field);
    single_key(&cs)
}

fn single_key(field: &Vec<char>) -> (r: Option<char>)
    ensures
        r == key_char(field@),
{
    if field.len() == 1 {
        Some(field[0])
    } else {
        None
    }
}

/// What a line of a two-column table says of which character. Empty lines, comments,
/// and lines without a value or with a key that is not one character say nothing.
pub open spec fn pair_of(line: Seq<char>) -> Option<(char, Seq<char>)> {
    let f = text::split(line, '\t');
    if line.len() == 0 || line[0] == '#' || f.len() < 2 || f[0].len() != 1 || f[1].len() == 0 {
        None
    } else {
        Some((f[0][0], f[1]))
    }
}

/// The table that the lines give: for each character the first line that says something of it.
pub open spec fn pair_table(ls: Seq<Seq<char>>) -> Map<u32, Seq<char>>
    decreases ls.len(),
{
    if ls.len() == 0 {
        Map::empty()
    } else {
        let m = pair_table(ls.drop_last());
        match pair_of(ls.last()) {
            Some((c, v)) => if m.contains_key(c as u32) {
                m
            } else {
                m.insert(c as u32, v)
            },
            None => m,
        }
    }
}

/// The contents of a map of strings.
pub open spec fn string_map(m: Map<u32, String>) -> Map<u32, Seq<char>> {
    m.map_values(|s: String| s@)
}

/// The contents of a map of lists of strings.
pub open spec fn list_map(m: Map<u32, Vec<String>>) -> Map<u32, Seq<Seq<char>>> {
    m.map_values(|v: Vec<String>| text::strings(v@))
}

/// Reads a two-column table, keyed by code point. Bad lines are skipped, further columns
/// are ignored, and the first line of a character counts.
pub fn parse_char_map(text: &str) -> (r: HashMap<u32, String>)
    ensures
        string_map(r@) == pair_table(text::lines(text@)),
{
    let ls = lines_of(text);
    let mut map: HashMap<u32, String> = HashMap::new();
    let mut i: usize = 0;
    let ghost all = text::lines(text@);
    assert(string_map(map@) =~= pair_table(all.take(0)));
    while i < ls.len()
        invariant
            i <= ls.len(),
            all == text::texts(ls@),
            string_map(map@) == pair_table(all.take(i as int)),
        decreases ls.len() - i,
    {
        let line = &ls[i];
        assert(all.take(i + 1).drop_last() =~= all.take(i as int));
        assert(all.take(i + 1).last() == line@);
        if line.len() > 0 && line[0] != '#' {
            let f = split_at(line, '\t');
            let ghost fs = text::split(line@, '\t');
            assert(forall|j: int| 0 <= j < f@.len() ==> fs[j] == (#[trigger] f@[j])@);
            if f.len() >= 2 && f[1].len() > 0 {
                if let Some(c) = single_key(&f[0]) {
                    if !map.contains_key(&(c as u32)) {
                        let ghost m0 = map@;
                        let value = string_of(&f[1], 0, f[1].len());
                        assert(value@ =~= fs[1]);
                        map.insert(c as u32, value);
                        assert(string_map(map@) =~= string_map(m0).insert(c as u32, value@));
                    }
                }
            }
        }
        i += 1;
    }
    assert(all.take(all.len() as int) =~= all);
    map
}

/// The column name of an item of the column list: what follows its dash.
pub open spec fn column_item(line: Seq<char>) -> Option<Seq<char>> {
    let t = text::trim(line);
    if t.len() > 0 && t[0] == '-' {
        Some(text::trim(t.drop_first()))
    } else {
        None
    }
}

/// The column names at the start of `ls`, as far as the list goes.
pub open spec fn column_names(ls: Seq<Seq<char>>) -> Seq<Seq<char>>
    decreases ls.len(),
{
    if ls.len() == 0 {
        seq![]
    } else {
        match column_item(ls[0]) {
            Some(n) => seq![n] + column_names(ls.drop_first()),
            None => seq![],
        }
    }
}

/// The position of the first occurrence of `x`.
pub open spec fn position(names: Seq<Seq<char>>, x: Seq<char>) -> Option<int>
    decreases names.len(),
{
    if names.len() == 0 {
        None
    } else if names[0] == x {
        Some(0)
    } else {
        match position(names.drop_first(), x) {
            Some(i) => Some(i + 1),
            None => None,
        }
    }
}

/// The positions of the columns `text` and `code` in the first column list of the lines.
pub open spec fn columns(ls: Seq<Seq<char>>) -> Option<(int, int)>
    decreases ls.len(),
{
    if ls.len() == 0 {
        None
    } else if text::trim(ls[0]) != "columns:"@ {
        columns(ls.drop_first())
    } else {
        let names = column_names(ls.drop_first());
        match (position(names, "text"@), position(names, "code"@)) {
            (Some(t), Some(c)) => Some((t, c)),
            _ => None,
        }
    }
}

/// The position of the first string that equals `x`.
fn position_of(names: &Vec<String>, x: &str) -> (r: Option<usize>)
    ensures
        match r {
            Some(i) => position(text::strings(names@), x@) == Some(i as int) && i < names.len(),
            None => position(text::strings(names@), x@) is None,
        },
{
    let ghost all = text::strings(names@);
    let mut i: usize = 0;
    assert(all.skip(0) =~= all);
    while i < names.len()
        invariant
            i <= names.len(),
            all == text::strings(names@),
            position(all, x@) == match position(all.skip(i as int), x@) {
                Some(k) => Some(k + i),
                None => None,
            },
        decreases names.len() - i,
    {
        assert(all.skip(i as int)[0] == names@[i as int]@);
        if same(names[i].as_str(), x) {
            return Some(i);
        }
        assert(all.skip(i as int).drop_first() =~= all.skip(i + 1));
        i += 1;
    }
    None
}

/// Reads the column list of a dictionary: the positions of `text` and `code`. Nothing if
/// there is no list or if it lacks one of the two.
pub fn rime_columns(text: &str) -> (r: Option<(usize, usize)>)
    ensures
        match r {
            Some((t, c)) => columns(text::lines(text@)) == Some((t as int, c as int)),
            None => columns(text::lines(text@)) is None,
        },
{
    let ls = lines_of(text);
    let ghost all = text::lines(text@);
    let mut i: usize = 0;
    assert(all.skip(0) =~= all);
    while i < ls.len()
        invariant
            i <= ls.len(),
            all == text::texts(ls@),
            all == text::lines(text@),
            columns(all) == columns(all.skip(i as int)),
        decreases ls.len() - i,
    {
        let t = trimmed(&ls[i]);
        let head = string_of(&t, 0, t.len());
        assert(head@ =~= t@);
        assert(all.skip(i as int)[0] == ls@[i as int]@);
        assert(all.skip(i as int).drop_first() =~= all.skip(i + 1));
        if same(head.as_str(), "columns:") {
            return columns_at(&ls, i + 1);
        }
        i += 1;
    }
    None
}

/// The positions of `text` and `code` in the column list that starts at line `at`.
fn columns_at(ls: &Vec<Vec<char>>, at: usize) -> (r: Option<(usize, usize)>)
    requires
        at <= ls.len(),
    ensures
        ({
            let names = column_names(text::texts(ls@).skip(at as int));
            match r {
                Some((t, c)) => position(names, "text"@) == Some(t as int) && position(names, "code"@)
                    == Some(c as int),
                None => position(names, "text"@) is None || position(names, "code"@) is None,
            }
        }),
{
    let ghost all = text::texts(ls@);
    let mut names: Vec<String> = Vec::new();
    let mut i: usize = at;
    let mut more = true;
    assert(text::strings(names@) =~= seq![]);
    assert(seq![] + column_names(all.skip(at as int)) =~= column_names(all.skip(at as int)));
    while more && i < ls.len()
        invariant
            at <= i <= ls.len(),
            all == text::texts(ls@),
            column_names(all.skip(at as int)) == text::strings(names@) + (if more {
                column_names(all.skip(i as int))
            } else {
                seq![]
            }),
        decreases ls.len() - i + (if more { 1int } else { 0int }),
    {
        let t = trimmed(&ls[i]);
        assert(all.skip(i as int)[0] == ls@[i as int]@);
        assert(all.skip(i as int).drop_first() =~= all.skip(i + 1));
        if t.len() > 0 && t[0] == '-' {
            let rest = text::slice_of(&t, 1, t.len());
            assert(rest@ =~= t@.drop_first());
            let n = trimmed(&rest);
            let name = string_of(&n, 0, n.len());
            assert(name@ =~= n@);
            let ghost before = text::strings(names@);
            names.push(name);
            assert(text::strings(names@) =~= before.push(name@));
            i += 1;
            assert(before.push(name@) + column_names(all.skip(i as int)) =~= before + (seq![name@]
                + column_names(all.skip(i as int))));
        } else {
            more = false;
        }
    }
    assert(text::strings(names@) =~= column_names(all.skip(at as int)));
    match (position_of(&names, "text"), position_of(&names, "code")) {
        (Some(t), Some(c)) => Some((t, c)),
        _ => None,
    }
}

/// What a line of the dictionary says: a character and one of its codes. Comments, lines
/// with too few columns, keys that are not one character and empty codes say nothing.
pub open spec fn code_of(line: Seq<char>, text_idx: int, code_idx: int) -> Option<(char, Seq<char>)> {
    let t = text::trim_start(line);
    let f = text::split(line, '\t');
    if line.len() == 0 || (t.len() > 0 && t[0] == '#') || f.len() <= text_idx || f.len() <= code_idx
        || f[text_idx].len() != 1 || f[code_idx].len() == 0 {
        None
    } else {
        Some((f[text_idx][0], f[code_idx]))
    }
}

/// The codes that the lines give each character, in the order of the lines and each once.
pub open spec fn code_table(ls: Seq<Seq<char>>, text_idx: int, code_idx: int) -> Map<
    u32,
    Seq<Seq<char>>,
>
    decreases ls.len(),
{
    if ls.len() == 0 {
        Map::empty()
    } else {
        let m = code_table(ls.drop_last(), text_idx, code_idx);
        match code_of(ls.last(), text_idx, code_idx) {
            Some((c, code)) => {
                let had = if m.contains_key(c as u32) {
                    m[c as u32]
                } else {
                    seq![]
                };
                m.insert(
                    c as u32,
                    if had.contains(code) {
                        had
                    } else {
                        had.push(code)
                    },
                )
            },
            None => m,
        }
    }
}

/// Whether one of the strings equals `x`.
fn has_text(list: &Vec<String>, x: &str) -> (r: bool)
    ensures
        r == text::strings(list@).contains(x@),
{
    let mut i: usize = 0;
    while i < list.len()
        invariant
            i <= list.len(),
            forall|j: int| 0 <= j < i ==> (#[trigger] list@[j])@ != x@,
        decreases list.len() - i,
    {
        if same(list[i].as_str(), x) {
            assert(text::strings(list@)[i as int] == x@);
            return true;
        }
        i += 1;
    }
    assert(forall|j: int|
        0 <= j < list@.len() ==> #[trigger] text::strings(list@)[j] == list@[j]@);
    false
}

/// Reads the code lines of a dictionary, keyed by code point: several codes of one
/// character are all kept, in the order of the file.
pub fn parse_rime_dict(text: &str, text_idx: usize, code_idx: usize) -> (r: HashMap<
    u32,
    Vec<String>,
>)
    ensures
        list_map(r@) == code_table(text::lines(text@), text_idx as int, code_idx as int),
{
    let ls = lines_of(text);
    let mut map: HashMap<u32, Vec<String>> = HashMap::new();
    let mut i: usize = 0;
    let ghost all = text::lines(text@);
    assert(list_map(map@) =~= code_table(all.take(0), text_idx as int, code_idx as int));
    while i < ls.len()
        invariant
            i <= ls.len(),
            all == text::texts(ls@),
            list_map(map@) == code_table(all.take(i as int), text_idx as int, code_idx as int),
        decreases ls.len() - i,
    {
        let line = &ls[i];
        let t = trimmed_start(line);
        assert(all.take(i + 1).drop_last() =~= all.take(i as int));
        assert(all.take(i + 1).last() == line@);
        i += 1;
        if line.len() > 0 && !(t.len() > 0 && t[0] == '#') {
            let f = split_at(line, '\t');
            let ghost fs = text::split(line@, '\t');
            assert(forall|j: int| 0 <= j < f@.len() ==> fs[j] == (#[trigger] f@[j])@);
            if f.len() > text_idx && f.len() > code_idx && f[code_idx].len() > 0 {
                if let Some(c) = single_key(&f[text_idx]) {
                    let code = string_of(&f[code_idx], 0, f[code_idx].len());
                    assert(code@ =~= fs[code_idx as int]);
                    let ghost m0 = map@;
                    let mut list = match map.remove(&(c as u32)) {
                        Some(had) => had,
                        None => Vec::new(),
                    };
                    let ghost had = text::strings(list@);
                    assert(had == if m0.contains_key(c as u32) {
                        list_map(m0)[c as u32]
                    } else {
                        seq![]
                    });
                    if !has_text(&list, code.as_str()) {
                        list.push(code);
                        assert(text::strings(list@) =~= had.push(code@));
                    }
                    let ghost now = text::strings(list@);
                    map.insert(c as u32, list);
                    assert(list_map(map@) =~= list_map(m0).insert(c as u32, now));
                }
            }
        }
    }
    assert(all.take(all.len() as int) =~= all);
    map
}

/// The reverse lookup index.
pub struct CharLookup {
    /// Pronunciation of each character, by code point.
    pinyin: HashMap<u32, String>,
    /// Codes of each character, by code point, in file order.
    codes: HashMap<u32, Vec<String>>,
    /// Decomposition of each character, by code point.
    splits: HashMap<u32, String>,
}

/// The pronunciation table of an annotation file, empty where the file could not be read.
pub open spec fn optional_pairs(file: Option<Seq<char>>) -> Map<u32, Seq<char>> {
    match file {
        Some(t) => pair_table(text::lines(t)),
        None => Map::empty(),
    }
}

/// The code table of a dictionary file, empty where the file could not be read or names
/// no `text` or no `code` column.
pub open spec fn optional_codes(file: Option<Seq<char>>) -> Map<u32, Seq<Seq<char>>> {
    match file {
        Some(t) => match columns(text::lines(t)) {
            Some((ti, ci)) => code_table(text::lines(t), ti, ci),
            None => Map::empty(),
        },
        None => Map::empty(),
    }
}

/// The text of a file, where there is one.
pub open spec fn optional_view(file: Option<String>) -> Option<Seq<char>> {
    match file {
        Some(t) => Some(t@),
        None => None,
    }
}

/// The value of a key, or the empty text.
pub open spec fn value_or_empty(m: Map<u32, Seq<char>>, k: u32) -> Seq<char> {
    if m.contains_key(k) {
        m[k]
    } else {
        seq![]
    }
}

/// The row of a character: pronunciation, TAB, codes joined by `/`, and where there is a
/// decomposition a TAB and that; empty where there is nothing of all three.
pub open spec fn row_text(pinyin: Seq<char>, code: Seq<char>, split: Seq<char>) -> Seq<char> {
    if pinyin.len() == 0 && code.len() == 0 && split.len() == 0 {
        seq![]
    } else if split.len() == 0 {
        pinyin.push('\t') + code
    } else {
        (pinyin.push('\t') + code).push('\t') + split
    }
}

fn pairs_of_file(file: Option<String>) -> (r: HashMap<u32, String>)
    ensures
        string_map(r@) == optional_pairs(optional_view(file)),
{
    match file {
        Some(t) => parse_char_map(t.as_str()),
        None => {
            let r: HashMap<u32, String> = HashMap::new();
            assert(string_map(r@) =~= Map::empty());
            r
        },
    }
}

fn codes_of_file(file: Option<String>) -> (r: HashMap<u32, Vec<String>>)
    ensures
        list_map(r@) == optional_codes(optional_view(file)),
{
    if let Some(t) = file {
        if let Some((ti, ci)) = rime_columns(t.as_str()) {
            return parse_rime_dict(t.as_str(), ti, ci);
        }
    }
    let r: HashMap<u32, Vec<String>> = HashMap::new();
    assert(list_map(r@) =~= Map::empty());
    r
}

fn value_of(m: &HashMap<u32, String>, k: u32) -> (r: String)
    ensures
        r@ == value_or_empty(string_map(m@), k),
{
    match m.get(&k) {
        Some(s) => s.clone(),
        None => String::new(),
    }
}

impl CharLookup {
    /// Pronunciations by code point.
    pub closed spec fn pinyin_map(&self) -> Map<u32, Seq<char>> {
        string_map(self.pinyin@)
    }

    /// Codes by code point.
    pub closed spec fn code_map(&self) -> Map<u32, Seq<Seq<char>>> {
        list_map(self.codes@)
    }

    /// Decompositions by code point.
    pub closed spec fn split_map(&self) -> Map<u32, Seq<char>> {
        string_map(self.splits@)
    }

    /// Builds the index from the texts of the three files. A file that could not be read
    /// leaves its column without data and does not touch the others.
    pub fn load(pinyin: Option<String>, codes: Option<String>, splits: Option<String>) -> (r: CharLookup)
        ensures
            r.pinyin_map() == optional_pairs(optional_view(pinyin)),
            r.code_map() == optional_codes(optional_view(codes)),
            r.split_map() == optional_pairs(optional_view(splits)),
            match pinyin {
                Some(t) => r.pinyin_map() == pair_table(text::lines(t@)),
                None => r.pinyin_map() == Map::<u32, Seq<char>>::empty(),
            },
            match splits {
                Some(t) => r.split_map() == pair_table(text::lines(t@)),
                None => r.split_map() == Map::<u32, Seq<char>>::empty(),
            },
            match codes {
                Some(t) => match columns(text::lines(t@)) {
                    Some((ti, ci)) => r.code_map() == code_table(text::lines(t@), ti, ci),
                    None => r.code_map() == Map::<u32, Seq<Seq<char>>>::empty(),
                },
                None => r.code_map() == Map::<u32, Seq<Seq<char>>>::empty(),
            },
    {
        CharLookup {
            pinyin: pairs_of_file(pinyin),
            codes: codes_of_file(codes),
            splits: pairs_of_file(splits),
        }
    }

    /// Whether the index is worth using: it holds a pronunciation or a code.
    pub open spec fn usable(&self) -> bool {
        self.pinyin_map() != Map::<u32, Seq<char>>::empty() || self.code_map() != Map::<
            u32,
            Seq<Seq<char>>,
        >::empty()
    }

    /// Whether the index is worth using: decompositions alone are not.
    pub fn is_usable(&self) -> (r: bool)
        ensures
            r == self.usable(),
            r <==> (exists|k: u32| #[trigger] self.pinyin_map().contains_key(k)) || (exists|k: u32| #[trigger] self.code_map().contains_key(k)),
    {
        proof {
            if self.pinyin@.len() == 0 {
                assert(self.pinyin@.dom() =~= Set::empty());
                assert(self.pinyin_map() =~= Map::empty());
            } else {
                let k = self.pinyin@.dom().choose();
                assert(self.pinyin_map().contains_key(k));
            }
            if self.codes@.len() == 0 {
                assert(self.codes@.dom() =~= Set::empty());
                assert(self.code_map() =~= Map::empty());
            } else {
                let k = self.codes@.dom().choose();
                assert(self.code_map().contains_key(k));
            }
            assert(forall|k: u32| #[trigger] self.pinyin_map().contains_key(k) ==> self.pinyin_map()
                != Map::<u32, Seq<char>>::empty());
            assert(forall|k: u32| #[trigger] self.code_map().contains_key(k) ==> self.code_map()
                != Map::<u32, Seq<Seq<char>>>::empty());
        }
        self.pinyin.len() != 0 || self.codes.len() != 0
    }

    /// What the index says of the character with code point `k`.
    pub open spec fn row_of(&self, k: u32) -> Seq<char> {
        row_text(
            value_or_empty(self.pinyin_map(), k),
            if self.code_map().contains_key(k) {
                text::join(self.code_map()[k], '/')
            } else {
                seq![]
            },
            value_or_empty(self.split_map(), k),
        )
    }

    /// The row of a character; see [`row_text`].
    pub fn row(&self, ch: char) -> (r: String)
        ensures
            r@ == self.row_of(ch as u32),
    {
        self.row_at(ch as u32)
    }

    /// The row of the character with code point `k`; see [`row_text`].
    pub fn row_at(&self, k: u32) -> (r: String)
        ensures
            r@ == self.row_of(k),
    {
        let pinyin = value_of(&self.pinyin, k);
        let code = match self.codes.get(&k) {
            Some(list) => joined(list, '/'),
            None => String::new(),
        };
        let split = value_of(&self.splits, k);
        if pinyin.as_str().unicode_len() == 0 && code.as_str().unicode_len() == 0
            && split.as_str().unicode_len() == 0 {
            return String::new();
        }
        let with_split = split.as_str().unicode_len() != 0;
        let mut row = pinyin;
        row.push('\t');
        row.append(code.as_str());
        if with_split {
            row.push('\t');
            row.append(split.as_str());
        }
        row
    }
}

/// The first line of a character counts: further lines never change what is known of it.
pub proof fn first_line_counts(ls: Seq<Seq<char>>, more: Seq<Seq<char>>, k: u32)
    requires
        pair_table(ls).contains_key(k),
    ensures
        pair_table(ls + more).contains_key(k),
        pair_table(ls + more)[k] == pair_table(ls)[k],
    decreases more.len(),
{
    if more.len() == 0 {
        assert(ls + more =~= ls);
    } else {
        first_line_counts(ls, more.drop_last(), k);
        assert((ls + more).drop_last() =~= ls + more.drop_last());
    }
}

/// Every entry of the table comes from a line that says so.
pub proof fn pair_has_line(ls: Seq<Seq<char>>, k: u32) -> (i: int)
    requires
        pair_table(ls).contains_key(k),
    ensures
        0 <= i < ls.len(),
        match pair_of(ls[i]) {
            Some((c, v)) => c as u32 == k && v == pair_table(ls)[k],
            None => false,
        },
    decreases ls.len(),
{
    if pair_table(ls.drop_last()).contains_key(k) {
        let i = pair_has_line(ls.drop_last(), k);
        assert(ls.drop_last()[i] == ls[i]);
        i
    } else {
        ls.len() - 1
    }
}

/// No character has a code twice, and none has an empty list.
pub proof fn codes_distinct(ls: Seq<Seq<char>>, text_idx: int, code_idx: int, k: u32)
    requires
        code_table(ls, text_idx, code_idx).contains_key(k),
    ensures
        code_table(ls, text_idx, code_idx)[k].no_duplicates(),
        code_table(ls, text_idx, code_idx)[k].len() > 0,
    decreases ls.len(),
{
    let m = code_table(ls.drop_last(), text_idx, code_idx);
    if m.contains_key(k) {
        codes_distinct(ls.drop_last(), text_idx, code_idx, k);
    }
    match code_of(ls.last(), text_idx, code_idx) {
        Some((c, code)) => {
            if c as u32 == k && m.contains_key(k) && !m[k].contains(code) {
                assert(forall|i: int| 0 <= i < m[k].len() ==> m[k][i] != code);
            }
        },
        None => {},
    }
}

/// Codes stand in file order: further lines only add codes behind those there are.
pub proof fn codes_in_file_order(
    ls: Seq<Seq<char>>,
    more: Seq<Seq<char>>,
    text_idx: int,
    code_idx: int,
    k: u32,
)
    requires
        code_table(ls, text_idx, code_idx).contains_key(k),
    ensures
        code_table(ls + more, text_idx, code_idx).contains_key(k),
        code_table(ls, text_idx, code_idx)[k].is_prefix_of(
            code_table(ls + more, text_idx, code_idx)[k],
        ),
    decreases more.len(),
{
    if more.len() == 0 {
        assert(ls + more =~= ls);
    } else {
        codes_in_file_order(ls, more.drop_last(), text_idx, code_idx, k);
        assert((ls + more).drop_last() =~= ls + more.drop_last());
    }
}

/// Whether a line of the dictionary names a character with a code: it is no comment, and has the
/// character alone in its text column and the code in its code column.
pub open spec fn names_code(
    line: Seq<char>,
    text_idx: int,
    code_idx: int,
    c: char,
    code: Seq<char>,
) -> bool {
    let f = text::split(line, '\t');
    &&& line.len() > 0
    &&& !(exists|i: int|
        0 <= i < line.len() && line[i] == '#' && text::blank(#[trigger] line.take(i)))
    &&& 0 <= text_idx < f.len()
    &&& 0 <= code_idx < f.len()
    &&& f[text_idx] == seq![c]
    &&& f[code_idx] == code
    &&& code.len() > 0
}

proof fn named_code_is_read(
    line: Seq<char>,
    text_idx: int,
    code_idx: int,
    c: char,
    code: Seq<char>,
)
    requires
        0 <= text_idx,
        0 <= code_idx,
    ensures
        names_code(line, text_idx, code_idx, c, code) <==> code_of(line, text_idx, code_idx) == Some(
            (c, code),
        ),
{
    let r = text::trim_start_takes_white_off(line);
    let t = text::trim_start(line);
    let f = text::split(line, '\t');
    if t.len() > 0 && t[0] == '#' {
        assert(line[r] == '#' && text::blank(line.take(r)));
    } else if exists|i: int|
        0 <= i < line.len() && line[i] == '#' && text::blank(#[trigger] line.take(i)) {
        let i = choose|i: int|
            0 <= i < line.len() && line[i] == '#' && text::blank(#[trigger] line.take(i));
        text::white_cannot_be_seen('#');
        if i < r {
            assert(text::white(line.take(r)[i]));
        } else if i > r {
            assert(text::white(line.take(i)[r]));
        }
        assert(t[0] == line[r]);
    }
    if code_of(line, text_idx, code_idx) == Some((c, code)) {
        assert(f[text_idx] =~= seq![c]);
    }
}

proof fn one_number_one_char(a: char, b: char)
    requires
        a as u32 == b as u32,
    ensures
        a == b,
{
}

/// No code is lost and none is made up: a character has a code in the table exactly where some
/// line of the dictionary names it with that code.
pub proof fn codes_are_complete(
    ls: Seq<Seq<char>>,
    text_idx: int,
    code_idx: int,
    c: char,
    code: Seq<char>,
)
    requires
        0 <= text_idx,
        0 <= code_idx,
    ensures
        ({
            let m = code_table(ls, text_idx, code_idx);
            (m.contains_key(c as u32) && m[c as u32].contains(code)) <==> (exists|i: int|
                0 <= i < ls.len() && names_code(#[trigger] ls[i], text_idx, code_idx, c, code))
        }),
    decreases ls.len(),
{
    let m = code_table(ls, text_idx, code_idx);
    if ls.len() > 0 {
        let before = ls.drop_last();
        let n = ls.len() - 1;
        let m0 = code_table(before, text_idx, code_idx);
        codes_are_complete(before, text_idx, code_idx, c, code);
        named_code_is_read(ls[n], text_idx, code_idx, c, code);
        let told = m0.contains_key(c as u32) && m0[c as u32].contains(code);
        if told {
            let i = choose|i: int|
                0 <= i < before.len() && names_code(
                    #[trigger] before[i],
                    text_idx,
                    code_idx,
                    c,
                    code,
                );
            assert(names_code(ls[i], text_idx, code_idx, c, code));
            codes_in_file_order(before, seq![ls[n]], text_idx, code_idx, c as u32);
            assert(before + seq![ls[n]] =~= ls);
            let had = m0[c as u32];
            let k = choose|k: int| 0 <= k < had.len() && had[k] == code;
            assert(m[c as u32][k] == code);
        }
        if names_code(ls[n], text_idx, code_idx, c, code) && !told {
            let had = if m0.contains_key(c as u32) {
                m0[c as u32]
            } else {
                seq![]
            };
            assert(m[c as u32] == had.push(code));
            assert(had.push(code)[had.len() as int] == code);
        }
        if m.contains_key(c as u32) && m[c as u32].contains(code) && !told {
            let now = m[c as u32];
            let k = choose|k: int| 0 <= k < now.len() && now[k] == code;
            assert(code_of(ls[n], text_idx, code_idx) == Some((c, code))) by {
                match code_of(ls[n], text_idx, code_idx) {
                    Some((d, x)) => {
                        one_number_one_char(d, c);
                        let had = if m0.contains_key(c as u32) {
                            m0[c as u32]
                        } else {
                            seq![]
                        };
                        if had.contains(x) {
                            assert(had[k] == code);
                            assert(had.contains(code));
                        } else if k < had.len() {
                            assert(had[k] == code);
                            assert(had.contains(code));
                        }
                    },
                    None => {},
                }
            }
        }
        if exists|i: int|
            0 <= i < ls.len() && names_code(#[trigger] ls[i], text_idx, code_idx, c, code) {
            let i = choose|i: int|
                0 <= i < ls.len() && names_code(#[trigger] ls[i], text_idx, code_idx, c, code);
            if i < n {
                assert(names_code(before[i], text_idx, code_idx, c, code));
            }
        }
    }
}

/// Codes stand in the order of the lines: of two codes of a character, the one that a line names
/// before any line names the other stands first.
pub proof fn earlier_code_stands_first(
    ls: Seq<Seq<char>>,
    text_idx: int,
    code_idx: int,
    c: char,
    first: Seq<char>,
    second: Seq<char>,
    i: int,
)
    requires
        0 <= text_idx,
        0 <= code_idx,
        first != second,
        0 <= i < ls.len(),
        names_code(ls[i], text_idx, code_idx, c, first),
        forall|j: int|
            0 <= j < i ==> !names_code(#[trigger] ls[j], text_idx, code_idx, c, second),
        exists|j: int|
            i < j < ls.len() && names_code(#[trigger] ls[j], text_idx, code_idx, c, second),
    ensures
        exists|a: int, b: int|
            0 <= a < b < code_table(ls, text_idx, code_idx)[c as u32].len() && #[trigger] code_table(
                ls,
                text_idx,
                code_idx,
            )[c as u32][a] == first && #[trigger] code_table(ls, text_idx, code_idx)[c as u32][b]
                == second,
{
    let head = ls.take(i + 1);
    let rest = ls.skip(i + 1);
    assert(head + rest =~= ls);
    codes_are_complete(head, text_idx, code_idx, c, first);
    codes_are_complete(head, text_idx, code_idx, c, second);
    codes_are_complete(ls, text_idx, code_idx, c, second);
    assert(names_code(head[i], text_idx, code_idx, c, first));
    let had = code_table(head, text_idx, code_idx)[c as u32];
    assert(!had.contains(second)) by {
        if had.contains(second) {
            let j = choose|j: int|
                0 <= j < head.len() && names_code(#[trigger] head[j], text_idx, code_idx, c, second);
            assert(names_code(ls[j], text_idx, code_idx, c, second));
            assert(j == i);
        }
    }
    codes_in_file_order(head, rest, text_idx, code_idx, c as u32);
    let all = code_table(ls, text_idx, code_idx)[c as u32];
    let j = choose|j: int|
        i < j < ls.len() && names_code(#[trigger] ls[j], text_idx, code_idx, c, second);
    assert(names_code(ls[j], text_idx, code_idx, c, second));
    let a = choose|a: int| 0 <= a < had.len() && had[a] == first;
    let b = choose|b: int| 0 <= b < all.len() && all[b] == second;
    assert(all[a] == first);
    if b < had.len() {
        assert(had[b] == second);
    }
    assert(code_table(ls, text_idx, code_idx)[c as u32][a] == first);
    assert(code_table(ls, text_idx, code_idx)[c as u32][b] == second);
}

/// Whether a line of a two-column table says this of a character: it is no comment, its first
/// column is the character alone and its second column is the value.
pub open spec fn names_value(line: Seq<char>, c: char, value: Seq<char>) -> bool {
    let f = text::split(line, '\t');
    &&& line.len() > 0
    &&& line[0] != '#'
    &&& f.len() >= 2
    &&& f[0] == seq![c]
    &&& f[1] == value
    &&& value.len() > 0
}

proof fn named_value_is_read(line: Seq<char>, c: char, value: Seq<char>)
    ensures
        names_value(line, c, value) <==> pair_of(line) == Some((c, value)),
{
    if pair_of(line) == Some((c, value)) {
        assert(text::split(line, '\t')[0] =~= seq![c]);
    }
}

/// The table tells of a character what the first line says that says anything of it; and nothing
/// of one of which no line says anything.
pub proof fn pairs_are_complete(ls: Seq<Seq<char>>, c: char, value: Seq<char>)
    ensures
        ({
            let m = pair_table(ls);
            (m.contains_key(c as u32) && m[c as u32] == value) <==> (exists|i: int|
                0 <= i < ls.len() && names_value(#[trigger] ls[i], c, value) && (forall|j: int, v: Seq<
                    char,
                >|
                    0 <= j < i ==> !#[trigger] names_value(ls[j], c, v)))
        }),
        pair_table(ls).contains_key(c as u32) ==> (exists|i: int|
            0 <= i < ls.len() && names_value(#[trigger] ls[i], c, pair_table(ls)[c as u32])),
    decreases ls.len(),
{
    let m = pair_table(ls);
    if ls.len() > 0 {
        let before = ls.drop_last();
        let n = ls.len() - 1;
        let m0 = pair_table(before);
        pairs_are_complete(before, c, value);
        named_value_is_read(ls[n], c, value);
        if m0.contains_key(c as u32) {
            let known = choose|i: int|
                0 <= i < before.len() && names_value(#[trigger] before[i], c, m0[c as u32]);
            assert(names_value(ls[known], c, m0[c as u32]));
            assert(m[c as u32] == m0[c as u32]);
            if m[c as u32] == value {
                let i = choose|i: int|
                    0 <= i < before.len() && names_value(#[trigger] before[i], c, value) && (
                    forall|j: int, v: Seq<char>|
                        0 <= j < i ==> !#[trigger] names_value(before[j], c, v));
                assert(names_value(ls[i], c, value));
                assert forall|j: int, v: Seq<char>| 0 <= j < i implies !#[trigger] names_value(
                    ls[j],
                    c,
                    v,
                ) by {
                    assert(before[j] == ls[j]);
                    assert(!names_value(before[j], c, v));
                }
            }
            if exists|i: int|
                0 <= i < ls.len() && names_value(#[trigger] ls[i], c, value) && (forall|
                    j: int,
                    v: Seq<char>,
                |
                    0 <= j < i ==> !#[trigger] names_value(ls[j], c, v)) {
                let i = choose|i: int|
                    0 <= i < ls.len() && names_value(#[trigger] ls[i], c, value) && (forall|
                        j: int,
                        v: Seq<char>,
                    |
                        0 <= j < i ==> !#[trigger] names_value(ls[j], c, v));
                if i == n {
                    assert(!names_value(ls[known], c, m0[c as u32]));
                }
                assert(before[i] == ls[i]);
                assert forall|j: int, v: Seq<char>| 0 <= j < i implies !#[trigger] names_value(
                    before[j],
                    c,
                    v,
                ) by {
                    assert(!names_value(ls[j], c, v));
                }
            }
        } else {
            assert forall|j: int, v: Seq<char>| 0 <= j < n implies !#[trigger] names_value(
                ls[j],
                c,
                v,
            ) by {
                if names_value(ls[j], c, v) {
                    named_value_is_read(ls[j], c, v);
                    said_is_known(before, j, c, v);
                }
            }
            if m.contains_key(c as u32) {
                named_value_is_read(ls[n], c, m[c as u32]);
                match pair_of(ls[n]) {
                    Some((d, v)) => {
                        one_number_one_char(d, c);
                    },
                    None => {},
                }
                assert(names_value(ls[n], c, m[c as u32]));
            }
        }
    }
}

proof fn said_is_known(ls: Seq<Seq<char>>, j: int, c: char, v: Seq<char>)
    requires
        0 <= j < ls.len(),
        pair_of(ls[j]) == Some((c, v)),
    ensures
        pair_table(ls).contains_key(c as u32),
    decreases ls.len(),
{
    if j < ls.len() - 1 {
        assert(ls.drop_last()[j] == ls[j]);
        said_is_known(ls.drop_last(), j, c, v);
    }
}

/// Whether a line is an item of a list with this name: a dash, and the name behind it.
pub open spec fn is_item(line: Seq<char>, name: Seq<char>) -> bool {
    text::trim(line).len() > 0 && text::trim(line)[0] == '-' && text::trim(text::trim(line).skip(1))
        == name
}

/// The columns are found where the list names them: of a file whose first head `columns:` is
/// followed by a list, the columns are those of the first item `text` and of the first item
/// `code`, and there are none where the list lacks one of the two.
pub proof fn columns_are_found(ls: Seq<Seq<char>>, head: int, names: Seq<Seq<char>>)
    requires
        0 <= head < ls.len(),
        text::trim(ls[head]) == "columns:"@,
        forall|i: int| 0 <= i < head ==> text::trim(#[trigger] ls[i]) != "columns:"@,
        head + names.len() < ls.len(),
        forall|i: int| 0 <= i < names.len() ==> is_item(#[trigger] ls[head + 1 + i], names[i]),
        head + 1 + names.len() == ls.len() || text::trim(ls[head + 1 + names.len()]).len() == 0
            || text::trim(ls[head + 1 + names.len()])[0] != '-',
    ensures
        match columns(ls) {
            Some((t, c)) => {
                &&& 0 <= t < names.len() && names[t] == "text"@
                &&& forall|i: int| 0 <= i < t ==> #[trigger] names[i] != "text"@
                &&& 0 <= c < names.len() && names[c] == "code"@
                &&& forall|i: int| 0 <= i < c ==> #[trigger] names[i] != "code"@
            },
            None => !names.contains("text"@) || !names.contains("code"@),
        },
    decreases head,
{
    if head > 0 {
        assert(text::trim(ls[0]) != "columns:"@);
        let rest = ls.drop_first();
        assert forall|i: int| 0 <= i < head - 1 implies text::trim(#[trigger] rest[i])
            != "columns:"@ by {
            assert(rest[i] == ls[i + 1]);
        }
        assert forall|i: int| 0 <= i < names.len() implies is_item(
            #[trigger] rest[head - 1 + 1 + i],
            names[i],
        ) by {
            assert(rest[head - 1 + 1 + i] == ls[head + 1 + i]);
        }
        columns_are_found(rest, head - 1, names);
    } else {
        let rest = ls.drop_first();
        assert forall|i: int| 0 <= i < names.len() implies is_item(#[trigger] rest[i], names[i]) by {
            assert(rest[i] == ls[head + 1 + i]);
        }
        items_are_named(rest, names);
        first_position(names, "text"@);
        first_position(names, "code"@);
    }
}

proof fn items_are_named(ls: Seq<Seq<char>>, names: Seq<Seq<char>>)
    requires
        names.len() <= ls.len(),
        forall|i: int| 0 <= i < names.len() ==> is_item(#[trigger] ls[i], names[i]),
        names.len() == ls.len() || text::trim(ls[names.len() as int]).len() == 0 || text::trim(
            ls[names.len() as int],
        )[0] != '-',
    ensures
        column_names(ls) == names,
    decreases names.len(),
{
    if names.len() > 0 {
        let rest = ls.drop_first();
        let more = names.drop_first();
        assert(is_item(ls[0], names[0]));
        assert(text::trim(ls[0]).drop_first() =~= text::trim(ls[0]).skip(1));
        assert forall|i: int| 0 <= i < more.len() implies is_item(#[trigger] rest[i], more[i]) by {
            assert(is_item(ls[i + 1], names[i + 1]));
        }
        items_are_named(rest, more);
        assert(seq![names[0]] + more =~= names);
    } else {
        assert(column_names(ls) =~= names);
    }
}

proof fn first_position(names: Seq<Seq<char>>, x: Seq<char>)
    ensures
        match position(names, x) {
            Some(i) => {
                &&& 0 <= i < names.len() && names[i] == x
                &&& forall|j: int| 0 <= j < i ==> #[trigger] names[j] != x
            },
            None => !names.contains(x),
        },
    decreases names.len(),
{
    if names.len() > 0 && names[0] != x {
        let rest = names.drop_first();
        first_position(rest, x);
        match position(rest, x) {
            Some(i) => {
                assert forall|j: int| 0 <= j < i + 1 implies #[trigger] names[j] != x by {
                    if j > 0 {
                        assert(rest[j - 1] != x);
                    }
                }
            },
            None => {
                if names.contains(x) {
                    let k = choose|k: int| 0 <= k < names.len() && names[k] == x;
                    assert(rest[k - 1] == x);
                }
            },
        }
    }
}

/// A row can be read back: between its tabs stand the pronunciation, the codes with slashes
/// between them, and the decomposition where there is one. It is empty only where there is
/// nothing of all three.
pub proof fn row_reads_back(l: CharLookup, k: u32, pinyin: Seq<char>, split: Seq<char>)
    requires
        l.pinyin_map().contains_key(k) ==> l.pinyin_map()[k] == pinyin,
        !l.pinyin_map().contains_key(k) ==> pinyin.len() == 0,
        l.split_map().contains_key(k) ==> l.split_map()[k] == split,
        !l.split_map().contains_key(k) ==> split.len() == 0,
        !pinyin.contains('\t'),
        !split.contains('\t'),
        l.code_map().contains_key(k) ==> l.code_map()[k].len() > 0 && (forall|i: int|
            0 <= i < l.code_map()[k].len() ==> (#[trigger] l.code_map()[k][i]).len() > 0
                && !l.code_map()[k][i].contains('\t') && !l.code_map()[k][i].contains('/')),
    ensures
        ({
            let f = text::split(l.row_of(k), '\t');
            let coded = l.code_map().contains_key(k);
            if pinyin.len() == 0 && !coded && split.len() == 0 {
                l.row_of(k).len() == 0
            } else {
                &&& f.len() == if split.len() > 0 {
                    3int
                } else {
                    2
                }
                &&& f[0] == pinyin
                &&& coded ==> text::split(f[1], '/') == l.code_map()[k]
                &&& !coded ==> f[1].len() == 0
                &&& split.len() > 0 ==> f[2] == split
            }
        }),
{
    let coded = l.code_map().contains_key(k);
    let none = Seq::<char>::empty();
    assert(value_or_empty(l.pinyin_map(), k) =~= pinyin);
    assert(value_or_empty(l.split_map(), k) =~= split);
    let codes = if coded {
        text::join(l.code_map()[k], '/')
    } else {
        none
    };
    if coded {
        text::join_splits_back(l.code_map()[k], '/');
        join_without(l.code_map()[k], '/', '\t');
        if codes.len() == 0 {
            assert(codes =~= none);
            text::split_whole(codes, '/');
            assert(l.code_map()[k][0].len() == 0);
        }
    }
    assert(!codes.contains('\t'));
    reveal_with_fuel(text::join, 4);
    if pinyin.len() == 0 && !coded && split.len() == 0 {
    } else if split.len() == 0 {
        let parts = seq![pinyin, codes];
        assert(parts.drop_last() =~= seq![pinyin]);
        assert(text::join(parts, '\t') =~= pinyin.push('\t') + codes);
        text::join_splits_back(parts, '\t');
    } else {
        let parts = seq![pinyin, codes, split];
        assert(parts.drop_last() =~= seq![pinyin, codes]);
        assert(parts.drop_last().drop_last() =~= seq![pinyin]);
        assert(text::join(parts.drop_last(), '\t') =~= pinyin.push('\t') + codes);
        assert(text::join(parts, '\t') =~= (pinyin.push('\t') + codes).push('\t') + split);
        text::join_splits_back(parts, '\t');
    }
}

proof fn join_without(parts: Seq<Seq<char>>, sep: char, x: char)
    requires
        sep != x,
        forall|i: int| 0 <= i < parts.len() ==> !(#[trigger] parts[i]).contains(x),
    ensures
        !text::join(parts, sep).contains(x),
    decreases parts.len(),
{
    let j = text::join(parts, sep);
    if parts.len() == 1 {
        assert(!parts[0].contains(x));
    } else if parts.len() > 1 {
        let front = parts.drop_last();
        assert forall|i: int| 0 <= i < front.len() implies !(#[trigger] front[i]).contains(x) by {
            assert(!parts[i].contains(x));
        }
        join_without(front, sep, x);
        assert(!parts[parts.len() - 1].contains(x));
        if j.contains(x) {
            let a = text::join(front, sep);
            let k = choose|k: int| 0 <= k < j.len() && j[k] == x;
            if k < a.len() {
                assert(a[k] == x);
            } else if k > a.len() {
                assert(parts.last()[k - a.len() - 1] == x);
            }
        }
    }
}

} // verus!
