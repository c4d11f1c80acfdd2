//! The engine's HTTP interface, as far as the word dialog uses it.

use vstd::prelude::*;
use vstd::string::*;

use crate::json;
use crate::json::{texts_in, Json, Tree};
use crate::number;
use crate::number::{decimal_of, decimal_of_len};
use crate::text;
use crate::text::{cat, chars_of, find_part, starts_with, string_of};

verus! {

/// The port of the interface.
pub const PORT: u16 = 4390;

/// A hexadecimal digit in upper case.
pub open spec fn hex_upper(n: int) -> char {
    if n < 10 {
        (n + '0' as int) as char
    } else {
        (n - 10 + 'A' as int) as char
    }
}

/// Whether a byte is a letter or a digit of ASCII.
pub open spec fn plain(b: u8) -> bool {
    0x30 <= b <= 0x39 || 0x41 <= b <= 0x5a || 0x61 <= b <= 0x7a
}

/// A byte in a query: itself, or a percent sign and two digits.
pub open spec fn escaped_byte(b: u8) -> Seq<char> {
    if plain(b) {
        seq![b as char]
    } else {
        seq!['%', hex_upper(b as int / 16), hex_upper(b as int % 16)]
    }
}

/// Bytes in a query.
pub open spec fn escaped_query(s: Seq<u8>) -> Seq<char>
    decreases s.len(),
{
    if s.len() == 0 {
        seq![]
    } else {
        escaped_query(s.drop_last()) + escaped_byte(s.last())
    }
}

fn hex_upper_of(n: u8) -> (r: char)
    requires
        n < 16,
    ensures
        r == hex_upper(n as int),
{
    match n {
        0 => '0',
        1 => '1',
        2 => '2',
        3 => '3',
        4 => '4',
        5 => '5',
        6 => '6',
        7 => '7',
        8 => '8',
        9 => '9',
        10 => 'A',
        11 => 'B',
        12 => 'C',
        13 => 'D',
        14 => 'E',
        _ => 'F',
    }
}

/// A text in a query, byte by byte of its UTF-8; see [`escaped_query`].
pub fn percent_encoded(s: &str) -> (r: String)
    ensures
        r@ == escaped_query(vstd::utf8::encode_utf8(s@)),
{
    let bytes = s.as_bytes();
    let mut r = String::new();
    let mut i: usize = 0;
    assert(bytes@.take(0) =~= seq![]);
    while i < bytes.len()
        invariant
            i <= bytes.len(),
            r@ == escaped_query(bytes@.take(i as int)),
        decreases bytes.len() - i,
    {
        let b: u8 = bytes[i];
        let ghost before = r@;
        assert(bytes@.take(i + 1).drop_last() =~= bytes@.take(i as int));
        if (0x30 <= b && b <= 0x39) || (0x41 <= b && b <= 0x5a) || (0x61 <= b && b <= 0x7a) {
            r.push(b as char);
        } else {
            r.push('%');
            r.push(hex_upper_of(b / 16));
            r.push(hex_upper_of(b % 16));
        }
        assert(r@ =~= before + escaped_byte(b));
        i += 1;
    }
    assert(bytes@.take(bytes@.len() as int) =~= bytes@);
    r
}

/// The request for the candidates of a code.
pub open spec fn preview_request_text(code: Seq<char>) -> Seq<char> {
    "GET /api/code_preview?code="@ + escaped_query(vstd::utf8::encode_utf8(code))
        + " HTTP/1.1\r\nHost: 127.0.0.1\r\nConnection: close\r\n\r\n"@
}

/// The request for the candidates of a code.
pub fn preview_request(code: &str) -> (r: String)
    ensures
        r@ == preview_request_text(code@),
{
    let enc = percent_encoded(code);
    let head = cat("GET /api/code_preview?code=", enc.as_str());
    cat(head.as_str(), " HTTP/1.1\r\nHost: 127.0.0.1\r\nConnection: close\r\n\r\n")
}

/// The body of a reply: what follows the first empty line.
pub open spec fn body(resp: Seq<char>) -> Option<Seq<char>> {
    match text::part_at(resp, "\r\n\r\n"@) {
        Some(i) => Some(resp.skip(i + 4)),
        None => None,
    }
}

/// The candidates that a value tells: the texts of its member `texts`, if that is a list.
pub open spec fn preview_texts(t: Tree) -> Option<Seq<Seq<char>>> {
    match t.member("texts"@) {
        Some(Tree::Array(a)) => Some(json::texts_of(a)),
        _ => None,
    }
}

/// The candidates that a reply tells: nothing where it has no body, or one that is no JSON or
/// has no list of texts.
pub open spec fn preview_of(resp: Seq<char>) -> Option<Seq<Seq<char>>> {
    match body(resp) {
        Some(b) => match json::json_read(vstd::utf8::encode_utf8(text::trim_start(b))) {
            Ok(t) => preview_texts(t),
            Err(_) => None,
        },
        None => None,
    }
}

/// The candidates that a value tells; see [`preview_texts`].
pub fn preview_list(j: &Json) -> (r: Option<Vec<String>>)
    ensures
        match r {
            Some(v) => preview_texts(j.tree()) == Some(text::strings(v@)),
            None => preview_texts(j.tree()) is None,
        },
{
    match j.get("texts") {
        Some(Json::Array(a)) => Some(texts_in(a)),
        _ => None,
    }
}

/// The candidates that a reply tells; see [`preview_of`].
pub fn code_preview(resp: &str) -> (r: Option<Vec<String>>)
    ensures
        match r {
            Some(v) => preview_of(resp@) == Some(text::strings(v@)),
            None => preview_of(resp@) is None,
        },
{
    proof {
        reveal_strlit("\r\n\r\n");
    }
    let cs = chars_of(resp);
    let at: usize = match find_part(&cs, "\r\n\r\n") {
        Some(i) => i + 4,
        None => return None,
    };
    let b = text::slice_of(&cs, at, cs.len());
    assert(b@ =~= resp@.skip(at as int));
    let t = text::trimmed_start(&b);
    let s = string_of(&t, 0, t.len());
    assert(s@ =~= t@);
    match Json::parse(s.as_str().as_bytes()) {
        Ok(j) => preview_list(&j),
        Err(_) => None,
    }
}

/// A character inside quotation marks.
pub open spec fn quoted_char(c: char) -> Seq<char> {
    if c == '\\' {
        seq!['\\', '\\']
    } else if c == '"' {
        seq!['\\', '"']
    } else {
        seq![c]
    }
}

/// A text inside quotation marks: a backslash before each backslash and each quotation mark.
pub open spec fn quoted(s: Seq<char>) -> Seq<char>
    decreases s.len(),
{
    if s.len() == 0 {
        seq![]
    } else {
        quoted(s.drop_last()) + quoted_char(s.last())
    }
}

/// A text inside quotation marks; see [`quoted`].
pub fn quote(s: &str) -> (r: String)
    ensures
        r@ == quoted(s@),
{
    let cs = chars_of(s);
    let mut r = String::new();
    let mut i: usize = 0;
    assert(cs@.take(0) =~= seq![]);
    while i < cs.len()
        invariant
            i <= cs.len(),
            r@ == quoted(cs@.take(i as int)),
        decreases cs.len() - i,
    {
        let c = cs[i];
        let ghost before = r@;
        assert(cs@.take(i + 1).drop_last() =~= cs@.take(i as int));
        if c == '\\' || c == '"' {
            r.push('\\');
        }
        r.push(c);
        assert(r@ =~= before + quoted_char(c));
        i += 1;
    }
    assert(cs@.take(cs@.len() as int) =~= cs@);
    r
}

/// The body of the request to add a word.
pub open spec fn add_body(code: Seq<char>, word: Seq<char>, pos: int) -> Seq<char> {
    "{\"code\":\""@ + quoted(code) + "\",\"text\":\""@ + quoted(word) + "\",\"pos\":"@
        + number::decimal(pos) + "}"@
}

/// The request to add a word for a code at a place.
pub open spec fn add_request_text(code: Seq<char>, word: Seq<char>, pos: int) -> Seq<char> {
    let b = add_body(code, word, pos);
    "POST /api/user_word/add HTTP/1.1\r\nHost: 127.0.0.1\r\nContent-Type: application/json\r\nContent-Length: "@
        + number::decimal(vstd::utf8::encode_utf8(b).len() as int) + "\r\nConnection: close\r\n\r\n"@ + b
}

/// The request to add a word for a code at a place; its length is that of its body in bytes.
pub fn add_request(code: &str, word: &str, pos: i64) -> (r: String)
    ensures
        r@ == add_request_text(code@, word@, pos as int),
{
    let mut b = "{\"code\":\"".to_owned();
    b.append(quote(code).as_str());
    b.append("\",\"text\":\"");
    b.append(quote(word).as_str());
    b.append("\",\"pos\":");
    b.append(decimal_of(pos).as_str());
    b.append("}");
    let len: usize = b.as_str().as_bytes().len();
    let mut r =
        "POST /api/user_word/add HTTP/1.1\r\nHost: 127.0.0.1\r\nContent-Type: application/json\r\nContent-Length: ".to_owned();
    r.append(decimal_of_len(len).as_str());
    r.append("\r\nConnection: close\r\n\r\n");
    r.append(b.as_str());
    r
}

/// Whether a reply says that all is well.
pub fn reply_ok(resp: &str) -> (r: bool)
    ensures
        r == (text::begins(resp@, "HTTP/1.1 200"@) || text::begins(resp@, "HTTP/1.0 200"@)),
{
    starts_with(resp, "HTTP/1.1 200") || starts_with(resp, "HTTP/1.0 200")
}

/// What a query holds is safe in a request line: letters, digits and percent signs.
pub proof fn query_is_plain(s: Seq<u8>, i: int)
    requires
        0 <= i < escaped_query(s).len(),
    ensures
        ({
            let c = escaped_query(s)[i];
            c == '%' || '0' <= c <= '9' || 'A' <= c <= 'Z' || 'a' <= c <= 'z'
        }),
    decreases s.len(),
{
    let head = escaped_query(s.drop_last());
    if i < head.len() {
        query_is_plain(s.drop_last(), i);
    } else {
        let b = s.last();
        assert(escaped_query(s)[i] == escaped_byte(b)[i - head.len()]);
        assert(0 <= b as int / 16 < 16 && 0 <= b as int % 16 < 16);
    }
}

/// No quotation mark inside a quoted text ends it: each has a backslash before it.
pub proof fn quoted_marks_are_escaped(s: Seq<char>, i: int)
    requires
        0 <= i < quoted(s).len(),
        quoted(s)[i] == '"',
    ensures
        i > 0,
        quoted(s)[i - 1] == '\\',
    decreases s.len(),
{
    let head = quoted(s.drop_last());
    if i < head.len() {
        quoted_marks_are_escaped(s.drop_last(), i);
        assert(quoted(s)[i - 1] == head[i - 1]);
    } else {
        assert(quoted(s)[i] == quoted_char(s.last())[i - head.len()]);
    }
}

/// A query goes byte by byte; a letter or a digit stands for itself, any other byte is a percent
/// sign and its two hexadecimal digits.
pub proof fn query_goes_byte_by_byte(a: Seq<u8>, b: Seq<u8>)
    ensures
        escaped_query(a + b) == escaped_query(a) + escaped_query(b),
        a.len() == 0 ==> escaped_query(a).len() == 0,
        a.len() == 1 ==> {
            let c = a[0];
            let q = escaped_query(a);
            if 0x30 <= c <= 0x39 || 0x41 <= c <= 0x5a || 0x61 <= c <= 0x7a {
                q.len() == 1 && q[0] as int == c
            } else {
                &&& q.len() == 3
                &&& q[0] == '%'
                &&& crate::color::hex_value(q[1]) == Some(c as int / 16)
                &&& crate::color::hex_value(q[2]) == Some(c as int % 16)
                &&& !('a' <= q[1] <= 'f') && !('a' <= q[2] <= 'f')
            }
        },
    decreases b.len(),
{
    reveal_with_fuel(escaped_query, 2);
    if b.len() == 0 {
        assert(a + b =~= a);
        assert(escaped_query(a) + escaped_query(b) =~= escaped_query(a));
    } else {
        query_goes_byte_by_byte(a, b.drop_last());
        assert((a + b).drop_last() =~= a + b.drop_last());
        assert(escaped_query(a + b) =~= escaped_query(a) + escaped_query(b));
    }
    if a.len() == 1 {
        assert(a.drop_last() =~= Seq::<u8>::empty());
        assert(escaped_query(a) =~= escaped_byte(a[0]));
        assert(0 <= a[0] as int / 16 < 16 && 0 <= a[0] as int % 16 < 16);
    }
}

/// A text inside quotation marks goes character by character; only a backslash and a quotation
/// mark change, which get a backslash before them.
pub proof fn quoting_goes_char_by_char(a: Seq<char>, b: Seq<char>)
    ensures
        quoted(a + b) == quoted(a) + quoted(b),
        a.len() == 0 ==> quoted(a).len() == 0,
        a.len() == 1 && a[0] != '\\' && a[0] != '"' ==> quoted(a) == a,
        a.len() == 1 && (a[0] == '\\' || a[0] == '"') ==> quoted(a) == seq!['\\', a[0]],
    decreases b.len(),
{
    reveal_with_fuel(quoted, 2);
    if b.len() == 0 {
        assert(a + b =~= a);
        assert(quoted(a) + quoted(b) =~= quoted(a));
    } else {
        quoting_goes_char_by_char(a, b.drop_last());
        assert((a + b).drop_last() =~= a + b.drop_last());
        assert(quoted(a + b) =~= quoted(a) + quoted(b));
    }
    if a.len() == 1 {
        assert(a.drop_last() =~= Seq::<char>::empty());
        assert(quoted(a) =~= quoted_char(a[0]));
        assert(seq![a[0]] =~= a);
    }
}

/// A request for the candidates of a code asks for that code, and has no body.
pub proof fn preview_request_asks_for_code(code: Seq<char>)
    ensures
        ({
            let r = preview_request_text(code);
            let q = escaped_query(vstd::utf8::encode_utf8(code));
            let n = "GET /api/code_preview?code="@.len() as int;
            &&& text::begins(r, "GET /api/code_preview?code="@)
            &&& r.len() >= n + q.len() + 4
            &&& r.subrange(n, n + q.len()) == q
            &&& r.skip(n + q.len()) == " HTTP/1.1\r\nHost: 127.0.0.1\r\nConnection: close\r\n\r\n"@
            &&& r.skip(r.len() - 4) == seq!['\r', '\n', '\r', '\n']
        }),
{
    reveal_strlit(" HTTP/1.1\r\nHost: 127.0.0.1\r\nConnection: close\r\n\r\n");
    let r = preview_request_text(code);
    let q = escaped_query(vstd::utf8::encode_utf8(code));
    let n = "GET /api/code_preview?code="@.len() as int;
    let end = " HTTP/1.1\r\nHost: 127.0.0.1\r\nConnection: close\r\n\r\n"@;
    assert(r.take(n) =~= "GET /api/code_preview?code="@);
    assert(r.subrange(n, n + q.len()) =~= q);
    assert(r.skip(n + q.len()) =~= end);
    assert(r.skip(r.len() - 4) =~= seq!['\r', '\n', '\r', '\n']);
}

/// A request to add a word ends in its body, behind an empty line; the body names the code, the
/// word and the place, each in its own member.
pub proof fn add_request_ends_in_body(code: Seq<char>, word: Seq<char>, pos: int)
    ensures
        ({
            let r = add_request_text(code, word, pos);
            let b = add_body(code, word, pos);
            &&& text::begins(r, "POST /api/user_word/add HTTP/1.1\r\n"@)
            &&& r.len() >= b.len() + 4
            &&& r.skip(r.len() - b.len()) == b
            &&& r.subrange(r.len() - b.len() - 4, r.len() - b.len()) == seq!['\r', '\n', '\r', '\n']
            &&& text::has_part(
                r,
                "\r\nContent-Length: "@ + number::decimal(vstd::utf8::encode_utf8(b).len() as int)
                    + "\r\n"@,
            )
            &&& b.len() > 0 && b[0] == '{' && b.last() == '}'
            &&& text::has_part(b, "\"code\":\""@ + quoted(code) + "\""@)
            &&& text::has_part(b, "\"text\":\""@ + quoted(word) + "\""@)
            &&& text::has_part(b, "\"pos\":"@ + number::decimal(pos) + "}"@)
        }),
{
    let r = add_request_text(code, word, pos);
    let b = add_body(code, word, pos);
    let head =
        "POST /api/user_word/add HTTP/1.1\r\nHost: 127.0.0.1\r\nContent-Type: application/json\r\nContent-Length: "@;
    let len = number::decimal(vstd::utf8::encode_utf8(b).len() as int);
    let tail = "\r\nConnection: close\r\n\r\n"@;
    reveal_strlit(
        "POST /api/user_word/add HTTP/1.1\r\nHost: 127.0.0.1\r\nContent-Type: application/json\r\nContent-Length: ",
    );
    reveal_strlit("POST /api/user_word/add HTTP/1.1\r\n");
    reveal_strlit("\r\nConnection: close\r\n\r\n");
    reveal_strlit("\r\nContent-Length: ");
    reveal_strlit("\r\n");
    assert(r == head + len + tail + b);
    let first = "POST /api/user_word/add HTTP/1.1\r\n"@;
    assert(r.take(first.len() as int) =~= first);
    assert(r.skip(r.len() - b.len()) =~= b);
    assert(r.subrange(r.len() - b.len() - 4, r.len() - b.len()) =~= seq!['\r', '\n', '\r', '\n']);
    let field = "\r\nContent-Length: "@;
    let part = field + len + "\r\n"@;
    let at = head.len() - field.len();
    assert(r.subrange(at, at + part.len()) =~= part);
    body_names_all(code, word, pos);
}

proof fn body_names_all(code: Seq<char>, word: Seq<char>, pos: int)
    ensures
        ({
            let b = add_body(code, word, pos);
            &&& b.len() > 0 && b[0] == '{' && b.last() == '}'
            &&& text::has_part(b, "\"code\":\""@ + quoted(code) + "\""@)
            &&& text::has_part(b, "\"text\":\""@ + quoted(word) + "\""@)
            &&& text::has_part(b, "\"pos\":"@ + number::decimal(pos) + "}"@)
        }),
{
    let b = add_body(code, word, pos);
    reveal_strlit("{\"code\":\"");
    reveal_strlit("\",\"text\":\"");
    reveal_strlit("\",\"pos\":");
    reveal_strlit("}");
    reveal_strlit("\"code\":\"");
    reveal_strlit("\"text\":\"");
    reveal_strlit("\"pos\":");
    reveal_strlit("\"");
    let c = quoted(code);
    let w = quoted(word);
    let d = number::decimal(pos);
    let p1 = "\"code\":\""@ + c + "\""@;
    let p2 = "\"text\":\""@ + w + "\""@;
    let p3 = "\"pos\":"@ + d + "}"@;
    let a1 = 1int;
    let a2: int = 9 + c.len() as int + 2;
    let a3: int = 9 + c.len() as int + 10 + w.len() as int + 2;
    assert(b.subrange(a1, a1 + p1.len()) =~= p1);
    assert(b.subrange(a2, a2 + p2.len()) =~= p2);
    assert(b.subrange(a3, a3 + p3.len()) =~= p3);
}

/// The body of a reply is all that stands behind its first empty line; without an empty line it
/// has none.
pub proof fn body_is_behind_empty_line(resp: Seq<char>)
    ensures
        match body(resp) {
            Some(b) => {
                let i = resp.len() - b.len() - 4;
                &&& 0 <= i
                &&& resp.skip(i + 4) == b
                &&& resp.subrange(i, i + 4) == seq!['\r', '\n', '\r', '\n']
                &&& forall|k: int|
                    0 <= k < i ==> #[trigger] resp.subrange(k, k + 4) != seq!['\r', '\n', '\r', '\n']
            },
            None => forall|k: int|
                0 <= k <= resp.len() - 4 ==> #[trigger] resp.subrange(k, k + 4) != seq![
                    '\r',
                    '\n',
                    '\r',
                    '\n',
                ],
        },
{
    reveal_strlit("\r\n\r\n");
    assert("\r\n\r\n"@ =~= seq!['\r', '\n', '\r', '\n']);
    text::found_part_is_first(resp, "\r\n\r\n"@);
}

/// The candidates are the texts in the list `texts`; anything but a list tells none.
pub proof fn preview_is_list_of_texts(t: Tree, v: Seq<Tree>)
    ensures
        t.member("texts"@) == Some(Tree::Array(v)) ==> preview_texts(t) == Some(json::texts_of(v)),
        !(t.member("texts"@) matches Some(Tree::Array(_))) ==> preview_texts(t) is None,
{
}

} // verus!
