//! The installer's helper: what it is asked to do, and how it reads what comes back.

use vstd::prelude::*;
use vstd::string::*;

use crate::geometry;
use crate::number;
use crate::number::decimal_of_len;
use crate::text;
use crate::text::{chars_of, contains_part, find_part, same, string_of};

verus! {

/// The library that is taken where nothing else is said and none lies beside the helper.
pub const DEV_DLL: &'static str =
    "E:\\DSH-KF\\hufu\\platform\\windows\\target\\release\\hufu_tsf.dll";

/// The language of the profile.
pub const LANGID: u16 = 0x0804;

/// The id of the service.
pub const CLSID_HUFU: u128 = 0x8f5c2a10_3e77_4b9c_a1d4_9e0b7c2f5a88;

/// The id of the profile.
pub const PROFILE_GUID: u128 = 0x8f5c2a11_3e77_4b9c_a1d4_9e0b7c2f5a88;

/// What the helper is asked to do.
#[derive(Clone, Copy, Debug, PartialEq, Eq, Structural)]
pub enum Task {
    /// Take the profile away.
    Unregister,
    /// Register the profile.
    Register,
    /// Try everything.
    Test,
}

/// What the command line asks for.
pub open spec fn task(args: Seq<Seq<char>>) -> Task {
    if args.len() >= 2 && args[1] == "unreg"@ {
        Task::Unregister
    } else if args.len() >= 2 && args[1] == "reg"@ {
        Task::Register
    } else {
        Task::Test
    }
}

/// What the command line asks for; the program's own name is its first word.
pub fn task_of(args: &Vec<String>) -> (r: Task)
    ensures
        r == task(text::strings(args@)),
        r == Task::Unregister <==> args.len() >= 2 && args[1]@ == "unreg"@,
        r == Task::Register <==> args.len() >= 2 && args[1]@ == "reg"@,
{
    proof {
        reveal_strlit("unreg");
        reveal_strlit("reg");
        assert("unreg"@.len() != "reg"@.len());
    }
    if args.len() < 2 {
        return Task::Test;
    }
    assert(text::strings(args@)[1] == args@[1]@);
    if same(args[1].as_str(), "unreg") {
        Task::Unregister
    } else if same(args[1].as_str(), "reg") {
        Task::Register
    } else {
        Task::Test
    }
}

/// The file with the profile's icon: the third word of the command line, else what the
/// environment says, else the library.
pub fn icon_file(args: &Vec<String>, env: &Option<String>) -> (r: String)
    ensures
        r@ == if args.len() >= 3 {
            args[2]@
        } else {
            match *env {
                Some(e) => e@,
                None => DEV_DLL@,
            }
        },
{
    if args.len() >= 3 {
        return args[2].as_str().to_owned();
    }
    match env {
        Some(e) => e.as_str().to_owned(),
        None => DEV_DLL.to_owned(),
    }
}

/// The library: what the environment says, else the one beside the helper, else the developer's.
pub fn dll_file(env: &Option<String>, beside: &Option<String>) -> (r: String)
    ensures
        r@ == match (*env, *beside) {
            (Some(e), _) => e@,
            (None, Some(b)) => b@,
            (None, None) => DEV_DLL@,
        },
{
    match env {
        Some(e) => e.as_str().to_owned(),
        None => match beside {
            Some(b) => b.as_str().to_owned(),
            None => DEV_DLL.to_owned(),
        },
    }
}

/// A capital letter of the Latin alphabet as a small one; any other character as it is.
pub open spec fn small(c: char) -> char {
    if 'A' <= c <= 'Z' {
        (c as u32 + 32) as char
    } else {
        c
    }
}

/// A text with small letters.
pub open spec fn small_text(s: Seq<char>) -> Seq<char> {
    s.map_values(|c: char| small(c))
}

/// Whether the written id of a service is ours, in capitals or not.
pub fn is_ours(clsid: &str) -> (r: bool)
    ensures
        r == text::has_part(small_text(clsid@), "8f5c2a10"@),
{
    let cs = chars_of(clsid);
    let mut s = String::new();
    for i in 0..cs.len()
        invariant
            s@ == small_text(cs@.take(i as int)),
    {
        let c: char = cs[i];
        if 'A' <= c && c <= 'Z' {
            s.push((c as u8 + 32) as char);
        } else {
            s.push(c);
        }
        assert(s@ =~= small_text(cs@.take(i + 1)));
    }
    assert(cs@.take(cs.len() as int) =~= clsid@);
    contains_part(s.as_str(), "8f5c2a10")
}

/// A request to the engine's pages.
pub open spec fn request_text(method: Seq<char>, path: Seq<char>, body: Seq<char>) -> Seq<char> {
    method + " "@ + path + " HTTP/1.1\r\nHost: 127.0.0.1\r\nContent-Length: "@ + number::decimal(
        vstd::utf8::encode_utf8(body).len() as int,
    ) + "\r\nConnection: close\r\n\r\n"@ + body
}

/// A request to the engine's pages; its length is that of its body in bytes.
pub fn http_request(method: &str, path: &str, body: &str) -> (r: String)
    ensures
        r@ == request_text(method@, path@, body@),
{
    let mut r = method.to_owned();
    r.append(" ");
    r.append(path);
    r.append(" HTTP/1.1\r\nHost: 127.0.0.1\r\nContent-Length: ");
    r.append(decimal_of_len(body.as_bytes().len()).as_str());
    r.append("\r\nConnection: close\r\n\r\n");
    r.append(body);
    r
}

/// What stands before the first `part`, or all of the text.
pub open spec fn before(s: Seq<char>, part: Seq<char>) -> Seq<char> {
    match text::part_at(s, part) {
        Some(i) => s.take(i),
        None => s,
    }
}

/// What stands behind the first `part`.
pub open spec fn behind(s: Seq<char>, part: Seq<char>) -> Option<Seq<char>> {
    match text::part_at(s, part) {
        Some(i) => Some(s.skip(i + part.len())),
        None => None,
    }
}

fn before_of(s: &str, part: &str) -> (r: String)
    ensures
        r@ == before(s@, part@),
{
    let cs = chars_of(s);
    match find_part(&cs, part) {
        Some(i) => {
            let r = string_of(&cs, 0, i);
            assert(r@ =~= s@.take(i as int));
            r
        },
        None => s.to_owned(),
    }
}

fn behind_of(s: &str, part: &str) -> (r: Option<String>)
    ensures
        crate::session::opt_text(r) == behind(s@, part@),
{
    let cs = chars_of(s);
    match find_part(&cs, part) {
        Some(i) => {
            let r = string_of(&cs, i + part.unicode_len(), cs.len());
            assert(r@ =~= s@.skip(i + part@.len()));
            Some(r)
        },
        None => None,
    }
}

/// The body of a reply: what stands between the first empty line and the next, or the end.
pub open spec fn body(resp: Seq<char>) -> Seq<char> {
    match behind(resp, "\r\n\r\n"@) {
        Some(b) => before(b, "\r\n\r\n"@),
        None => seq![],
    }
}

/// The body of a reply; see [`body`].
pub fn body_of(resp: &str) -> (r: String)
    ensures
        r@ == body(resp@),
{
    match behind_of(resp, "\r\n\r\n") {
        Some(b) => before_of(b.as_str(), "\r\n\r\n"),
        None => String::new(),
    }
}

/// The skin in use, as the list of skins tells it.
pub open spec fn current_skin(list: Seq<char>) -> Seq<char> {
    match behind(list, "\"current\":\""@) {
        Some(b) => before(b, "\""@),
        None => "hufu-default"@,
    }
}

/// The skin in use; see [`current_skin`].
pub fn current_skin_of(list: &str) -> (r: String)
    ensures
        r@ == current_skin(list@),
{
    match behind_of(list, "\"current\":\"") {
        Some(b) => before_of(b.as_str(), "\""),
        None => "hufu-default".to_owned(),
    }
}

/// Whether the engine took a skin in.
pub fn skin_saved(resp: &str) -> (r: bool)
    ensures
        r == text::has_part(resp@, "\"ok\":true"@),
{
    contains_part(resp, "\"ok\":true")
}

/// Four bytes as a number, the lowest first; the highest bit tells that it is below none.
pub open spec fn number_at(b: Seq<u8>, i: int) -> int {
    let n = b[i] + 256 * b[i + 1] + 65536 * b[i + 2] + 16777216 * b[i + 3];
    if n < 0x8000_0000 {
        n
    } else {
        n - 0x1_0000_0000
    }
}

fn number_from(b: &Vec<u8>, i: usize) -> (r: i32)
    requires
        i + 4 <= b.len(),
    ensures
        r == number_at(b@, i as int),
{
    let n: i64 = b[i] as i64 + 256 * (b[i + 1] as i64) + 65536 * (b[i + 2] as i64) + 16777216 * (
    b[i + 3] as i64);
    if n < 0x8000_0000 {
        n as i32
    } else {
        (n - 0x1_0000_0000) as i32
    }
}

/// The width and the height of a bitmap in a file that holds its head; a height below none is that
/// of a bitmap whose first row is its top.
pub fn bmp_dims(b: &Vec<u8>) -> (r: (i32, i32))
    requires
        b.len() >= 26,
        number_at(b@, 22) != i32::MIN,
    ensures
        r.0 == number_at(b@, 18),
        r.1 == geometry::abs(number_at(b@, 22)),
{
    let w: i32 = number_from(b, 18);
    let h: i32 = number_from(b, 22);
    if h < 0 {
        (w, -h)
    } else {
        (w, h)
    }
}

/// A capital letter becomes the small one at its place in the alphabet; nothing else changes, and
/// no capital letter is left.
pub proof fn capitals_become_small(c: char, i: int)
    requires
        0 <= i < 26,
    ensures
        small((0x41 + i) as char) == (0x61 + i) as char,
        !('A' <= c <= 'Z') ==> small(c) == c,
        small(small(c)) == small(c),
        !('A' <= small(c) <= 'Z'),
{
}

/// A text is what stands before the first occurrence of a part, the part, and what stands behind
/// it; where the part does not occur nothing stands behind it, and all of the text before it.
pub proof fn part_divides_text(s: Seq<char>, part: Seq<char>)
    ensures
        match behind(s, part) {
            Some(b) => s == before(s, part) + part + b && forall|k: int|
                0 <= k < before(s, part).len() ==> #[trigger] s.subrange(k, k + part.len()) != part,
            None => before(s, part) == s && !text::has_part(s, part),
        },
{
    text::found_part_is_first(s, part);
    if let Some(b) = behind(s, part) {
        assert(s =~= before(s, part) + part + b);
    }
}

/// The body of a reply ends where an empty line follows it, and the head of the reply holds none.
pub proof fn body_follows_empty_line(resp: Seq<char>)
    ensures
        ({
            let line = seq!['\r', '\n', '\r', '\n'];
            &&& !text::has_part(resp, line) ==> body(resp).len() == 0
            &&& text::has_part(resp, line) ==> {
                let head = before(resp, line);
                let rest = resp.skip(head.len() + 4int);
                &&& text::begins(resp.skip(head.len() as int), line)
                &&& text::begins(rest, body(resp))
                &&& body(resp) == rest || text::begins(rest.skip(body(resp).len() as int), line)
            }
        }),
{
    reveal_strlit("\r\n\r\n");
    let line = seq!['\r', '\n', '\r', '\n'];
    assert("\r\n\r\n"@ =~= line);
    text::found_part_is_first(resp, line);
    if let Some(i) = text::part_at(resp, line) {
        let head = before(resp, line);
        let rest = resp.skip(head.len() + 4int);
        assert(head.len() == i);
        assert(resp.skip(i).take(4) =~= resp.subrange(i, i + 4));
        text::found_part_is_first(rest, line);
        if let Some(j) = text::part_at(rest, line) {
            assert(rest.take(j).len() == j);
            assert(rest.skip(j).take(4) =~= rest.subrange(j, j + 4));
            assert(rest.take(j) == body(resp));
        } else {
            assert(rest.take(rest.len() as int) =~= rest);
        }
    }
}

/// The skin in use is the name between quotation marks behind the first `"current":`.
pub proof fn skin_is_named_in_list(list: Seq<char>, a: Seq<char>, name: Seq<char>, b: Seq<char>)
    requires
        forall|i: int| 0 <= i < name.len() ==> name[i] != '"',
        list == a + "\"current\":\""@ + name + "\""@ + b,
        before(list, "\"current\":\""@) == a,
    ensures
        current_skin(list) == name,
{
    let mark = "\"current\":\""@;
    reveal_strlit("\"current\":\"");
    reveal_strlit("\"");
    let quote = "\""@;
    text::found_part_is_first(list, mark);
    let rest = name + quote + b;
    assert(list.subrange(a.len() as int, (a.len() + mark.len()) as int) =~= mark);
    assert(text::part_at(list, mark) is Some);
    assert(text::part_at(list, mark)->0 == a.len());
    assert(list.skip((a.len() + mark.len()) as int) =~= rest);
    text::found_part_is_first(rest, quote);
    let n = name.len() as int;
    assert(rest.subrange(n, n + 1) =~= quote);
    assert forall|k: int| 0 <= k < n implies #[trigger] rest.subrange(k, k + 1) != quote by {
        assert(rest.subrange(k, k + 1)[0] == name[k]);
        assert(quote[0] == '"');
    }
    match text::part_at(rest, quote) {
        Some(j) => {
            if j < n {
                assert(rest.subrange(j, j + 1) != quote);
            }
            assert(j == n);
            assert(rest.take(n) =~= name);
        },
        None => {
            assert(rest.subrange(n, n + 1) != quote);
        },
    }
}

/// A list that does not say which skin is in use leaves the usual one.
pub proof fn unnamed_skin_is_usual(list: Seq<char>)
    requires
        !text::has_part(list, "\"current\":\""@),
    ensures
        current_skin(list) == "hufu-default"@,
{
    text::found_part_is_first(list, "\"current\":\""@);
    if let Some(i) = text::part_at(list, "\"current\":\""@) {
        assert(list.subrange(i, i + "\"current\":\""@.len()) == "\"current\":\""@);
    }
}

/// Four bytes give a number of 32 bits with a sign, the low byte first.
pub proof fn number_is_read_back(b: Seq<u8>, i: int, n: int)
    requires
        -0x8000_0000 <= n < 0x8000_0000,
        ({
            let m = if n < 0 {
                n + 0x1_0000_0000
            } else {
                n
            };
            &&& b[i] == m % 0x100
            &&& b[i + 1] == m / 0x100 % 0x100
            &&& b[i + 2] == m / 0x10000 % 0x100
            &&& b[i + 3] == m / 0x1000000
        }),
    ensures
        number_at(b, i) == n,
{
    let m = if n < 0 {
        n + 0x1_0000_0000
    } else {
        n
    };
    let p = m / 0x100;
    let q = p / 0x100;
    assert(m / 0x10000 == q);
    assert(m / 0x1000000 == q / 0x100);
    assert(b[i] + 0x100 * b[i + 1] + 0x10000 * b[i + 2] + 0x1000000 * b[i + 3] == m);
}

/// A request names its method and its path first and ends in its body, behind an empty line; it
/// tells how many bytes that has.
pub proof fn request_ends_in_body(method: Seq<char>, path: Seq<char>, body: Seq<char>)
    ensures
        ({
            let r = request_text(method, path, body);
            &&& text::begins(r, method + seq![' '] + path + seq![' '])
            &&& r.len() >= body.len() + 4
            &&& r.skip(r.len() - body.len()) == body
            &&& r.subrange(r.len() - body.len() - 4, r.len() - body.len()) == seq![
                '\r',
                '\n',
                '\r',
                '\n',
            ]
            &&& text::has_part(
                r,
                "\r\nContent-Length: "@ + number::decimal(vstd::utf8::encode_utf8(body).len() as int)
                    + "\r\n"@,
            )
        }),
{
    reveal_strlit(" ");
    reveal_strlit(" HTTP/1.1\r\nHost: 127.0.0.1\r\nContent-Length: ");
    reveal_strlit("\r\nConnection: close\r\n\r\n");
    reveal_strlit("\r\nContent-Length: ");
    reveal_strlit("\r\n");
    let r = request_text(method, path, body);
    let len = number::decimal(vstd::utf8::encode_utf8(body).len() as int);
    let first = method + seq![' '] + path + seq![' '];
    assert(r.take(first.len() as int) =~= first);
    assert(r.skip(r.len() - body.len()) =~= body);
    assert(r.subrange(r.len() - body.len() - 4, r.len() - body.len()) =~= seq!['\r', '\n', '\r', '\n']);
    let field = "\r\nContent-Length: "@;
    let part = field + len + "\r\n"@;
    let head = method.len() + 1 + path.len() + " HTTP/1.1\r\nHost: 127.0.0.1\r\nContent-Length: "@.len();
    let at = head - field.len();
    assert(r.subrange(at, at + part.len()) =~= part);
}

} // verus!
