//! Text as sequences of characters: splitting, trimming, joining.

use vstd::prelude::*;
use vstd::string::*;

verus! {

/// `String::push` appends the character to the end of the string.
pub assume_specification[ String::push ](s: &mut String, c: char)
    ensures
        final(s)@ == old(s)@.push(c),
;

/// The characters of `s`, in order.
pub fn chars_of(s: &str) -> (r: Vec<char>)
    ensures
        r@ == s@,
{
    let mut r: Vec<char> = Vec::new();
    for c in it: s.chars()
        invariant
            it.seq() == s@,
            r@ == s@.take(it.index() as int),
    {
        r.push(c);
        assert(s@.take(it.index() + 1) == s@.take(it.index() as int).push(c));
    }
    assert(s@.take(s@.len() as int) == s@);
    r
}

/// The string made of the characters `from..to` of `cs`.
pub fn string_of(cs: &Vec<char>, from: usize, to: usize) -> (r: String)
    requires
        from <= to <= cs.len(),
    ensures
        r@ == cs@.subrange(from as int, to as int),
{
    let mut r = String::new();
    let mut i: usize = from;
    while i < to
        invariant
            from <= i <= to <= cs.len(),
            r@ == cs@.subrange(from as int, i as int),
        decreases to - i,
    {
        r.push(cs[i]);
        i += 1;
        assert(r@ =~= cs@.subrange(from as int, i as int));
    }
    r
}

/// Whether two texts have the same characters.
pub fn same(a: &str, b: &str) -> (r: bool)
    ensures
        r == (a@ == b@),
{
    let x = chars_of(a);
    let y = chars_of(b);
    if x.len() != y.len() {
        return false;
    }
    let mut i: usize = 0;
    while i < x.len()
        invariant
            i <= x.len() == y.len(),
            x@ == a@,
            y@ == b@,
            forall|j: int| 0 <= j < i ==> x[j] == y[j],
        decreases x.len() - i,
    {
        if x[i] != y[i] {
            return false;
        }
        i += 1;
    }
    assert(a@ =~= b@);
    true
}

/// The characters that Unicode calls white space.
pub open spec fn white(c: char) -> bool {
    ||| 0x9 <= c as u32 <= 0xd
    ||| c as u32 == 0x20
    ||| c as u32 == 0x85
    ||| c as u32 == 0xa0
    ||| c as u32 == 0x1680
    ||| 0x2000 <= c as u32 <= 0x200a
    ||| c as u32 == 0x2028
    ||| c as u32 == 0x2029
    ||| c as u32 == 0x202f
    ||| c as u32 == 0x205f
    ||| c as u32 == 0x3000
}

/// Whether `c` is white space.
pub fn is_white(c: char) -> (r: bool)
    ensures
        r == white(c),
{
    let u: u32 = c as u32;
    (0x9 <= u && u <= 0xd) || u == 0x20 || u == 0x85 || u == 0xa0 || u == 0x1680 || (0x2000 <= u
        && u <= 0x200a) || u == 0x2028 || u == 0x2029 || u == 0x202f || u == 0x205f || u == 0x3000
}

/// `s` without its leading white space.
pub open spec fn trim_start(s: Seq<char>) -> Seq<char>
    decreases s.len(),
{
    if s.len() > 0 && white(s[0]) {
        trim_start(s.drop_first())
    } else {
        s
    }
}

/// `s` without its trailing white space.
pub open spec fn trim_end(s: Seq<char>) -> Seq<char>
    decreases s.len(),
{
    if s.len() > 0 && white(s.last()) {
        trim_end(s.drop_last())
    } else {
        s
    }
}

/// `s` without white space at either end.
pub open spec fn trim(s: Seq<char>) -> Seq<char> {
    trim_end(trim_start(s))
}

/// `s` without the run of `c` at its end.
pub open spec fn trim_end_of(s: Seq<char>, c: char) -> Seq<char>
    decreases s.len(),
{
    if s.len() > 0 && s.last() == c {
        trim_end_of(s.drop_last(), c)
    } else {
        s
    }
}

/// `s` without the run of `c` at its start.
pub open spec fn trim_start_of(s: Seq<char>, c: char) -> Seq<char>
    decreases s.len(),
{
    if s.len() > 0 && s[0] == c {
        trim_start_of(s.drop_first(), c)
    } else {
        s
    }
}

/// The characters `from..to` of `cs`.
pub fn slice_of(cs: &Vec<char>, from: usize, to: usize) -> (r: Vec<char>)
    requires
        from <= to <= cs.len(),
    ensures
        r@ == cs@.subrange(from as int, to as int),
{
    let mut r: Vec<char> = Vec::new();
    let mut i: usize = from;
    while i < to
        invariant
            from <= i <= to <= cs.len(),
            r@ == cs@.subrange(from as int, i as int),
        decreases to - i,
    {
        r.push(cs[i]);
        i += 1;
        assert(r@ =~= cs@.subrange(from as int, i as int));
    }
    r
}

/// [`trim_start`] on characters.
pub fn trimmed_start(cs: &Vec<char>) -> (r: Vec<char>)
    ensures
        r@ == trim_start(cs@),
{
    let n: usize = cs.len();
    let mut i: usize = 0;
    assert(cs@.subrange(0, n as int) =~= cs@);
    while i < n && is_white(cs[i])
        invariant
            i <= n == cs.len(),
            trim_start(cs@.subrange(i as int, n as int)) == trim_start(cs@),
        decreases n - i,
    {
        assert(cs@.subrange(i as int, n as int).drop_first() =~= cs@.subrange(i + 1, n as int));
        i += 1;
    }
    slice_of(cs, i, n)
}

/// [`trim_end`] on characters.
pub fn trimmed_end(cs: &Vec<char>) -> (r: Vec<char>)
    ensures
        r@ == trim_end(cs@),
{
    let mut n: usize = cs.len();
    assert(cs@.subrange(0, n as int) =~= cs@);
    while n > 0 && is_white(cs[n - 1])
        invariant
            n <= cs.len(),
            trim_end(cs@.subrange(0, n as int)) == trim_end(cs@),
        decreases n,
    {
        assert(cs@.subrange(0, n as int).drop_last() =~= cs@.subrange(0, n - 1));
        n -= 1;
    }
    slice_of(cs, 0, n)
}

/// [`trim`] on characters.
pub fn trimmed(cs: &Vec<char>) -> (r: Vec<char>)
    ensures
        r@ == trim(cs@),
{
    let t = trimmed_start(cs);
    trimmed_end(&t)
}

/// [`trim_end_of`] on characters.
pub fn trimmed_end_of(cs: &Vec<char>, c: char) -> (r: Vec<char>)
    ensures
        r@ == trim_end_of(cs@, c),
{
    let mut n: usize = cs.len();
    assert(cs@.subrange(0, n as int) =~= cs@);
    while n > 0 && cs[n - 1] == c
        invariant
            n <= cs.len(),
            trim_end_of(cs@.subrange(0, n as int), c) == trim_end_of(cs@, c),
        decreases n,
    {
        assert(cs@.subrange(0, n as int).drop_last() =~= cs@.subrange(0, n - 1));
        n -= 1;
    }
    slice_of(cs, 0, n)
}

/// [`trim_start_of`] on characters.
pub fn trimmed_start_of(cs: &Vec<char>, c: char) -> (r: Vec<char>)
    ensures
        r@ == trim_start_of(cs@, c),
{
    let n: usize = cs.len();
    let mut i: usize = 0;
    assert(cs@.subrange(0, n as int) =~= cs@);
    while i < n && cs[i] == c
        invariant
            i <= n == cs.len(),
            trim_start_of(cs@.subrange(i as int, n as int), c) == trim_start_of(cs@, c),
        decreases n - i,
    {
        assert(cs@.subrange(i as int, n as int).drop_first() =~= cs@.subrange(i + 1, n as int));
        i += 1;
    }
    slice_of(cs, i, n)
}

/// The contents of each text of a list.
pub open spec fn texts(v: Seq<Vec<char>>) -> Seq<Seq<char>> {
    Seq::new(v.len(), |i: int| v[i]@)
}

/// The contents of each string of a list.
pub open spec fn strings(v: Seq<String>) -> Seq<Seq<char>> {
    Seq::new(v.len(), |i: int| v[i]@)
}

/// The pieces of `s` between the separators `c`: one more than there are separators.
pub open spec fn split(s: Seq<char>, c: char) -> Seq<Seq<char>>
    decreases s.len(),
{
    if s.len() == 0 {
        seq![seq![]]
    } else {
        let p = split(s.drop_last(), c);
        if s.last() == c {
            p.push(seq![])
        } else {
            p.update(p.len() - 1, p.last().push(s.last()))
        }
    }
}

/// A text without a separator is one piece.
pub proof fn split_whole(s: Seq<char>, c: char)
    requires
        forall|i: int| 0 <= i < s.len() ==> s[i] != c,
    ensures
        split(s, c) == seq![s],
    decreases s.len(),
{
    if s.len() == 0 {
        assert(s =~= seq![]);
        assert(split(s, c) =~= seq![s]);
    } else {
        split_whole(s.drop_last(), c);
        assert(s.drop_last().push(s.last()) =~= s);
        assert(split(s, c) =~= seq![s]);
    }
}

/// [`split`] on characters.
pub fn split_at(cs: &Vec<char>, c: char) -> (r: Vec<Vec<char>>)
    ensures
        texts(r@) == split(cs@, c),
        r.len() > 0,
{
    let mut r: Vec<Vec<char>> = Vec::new();
    let mut cur: Vec<char> = Vec::new();
    let mut i: usize = 0;
    assert(texts(r@).push(cur@) =~= split(cs@.take(0), c));
    while i < cs.len()
        invariant
            i <= cs.len(),
            texts(r@).push(cur@) == split(cs@.take(i as int), c),
        decreases cs.len() - i,
    {
        let ghost before = texts(r@).push(cur@);
        let ch = cs[i];
        assert(cs@.take(i + 1).drop_last() =~= cs@.take(i as int));
        if ch == c {
            r.push(cur);
            cur = Vec::new();
            assert(texts(r@) =~= before);
        } else {
            cur.push(ch);
            assert(texts(r@).push(cur@) =~= before.update(before.len() - 1, before.last().push(ch)));
        }
        i += 1;
        assert(texts(r@).push(cur@) =~= split(cs@.take(i as int), c));
    }
    assert(cs@.take(cs@.len() as int) =~= cs@);
    let ghost all = texts(r@).push(cur@);
    r.push(cur);
    assert(texts(r@) =~= all);
    r
}

/// The lines of a text: its pieces between line feeds, without the carriage returns that
/// end a piece, and without an empty piece behind a last line feed.
pub open spec fn lines(s: Seq<char>) -> Seq<Seq<char>> {
    let p = split(s, '\n');
    let q = if p.last().len() == 0 {
        p.drop_last()
    } else {
        p
    };
    Seq::new(q.len(), |i: int| trim_end_of(q[i], '\r'))
}

/// [`lines`] of a text.
pub fn lines_of(s: &str) -> (r: Vec<Vec<char>>)
    ensures
        texts(r@) == lines(s@),
{
    let cs = chars_of(s);
    let p = split_at(&cs, '\n');
    assert(texts(p@).last() == p@.last()@);
    let n: usize = if p[p.len() - 1].len() == 0 {
        p.len() - 1
    } else {
        p.len()
    };
    let mut r: Vec<Vec<char>> = Vec::new();
    let mut i: usize = 0;
    while i < n
        invariant
            i <= n <= p.len(),
            r@.len() == i,
            forall|j: int| 0 <= j < i ==> (#[trigger] r@[j])@ == trim_end_of(p@[j]@, '\r'),
        decreases n - i,
    {
        r.push(trimmed_end_of(&p[i], '\r'));
        i += 1;
    }
    assert(texts(r@) =~= lines(s@));
    r
}

/// The texts in order, with `sep` between each two.
pub open spec fn join(parts: Seq<Seq<char>>, sep: char) -> Seq<char>
    decreases parts.len(),
{
    if parts.len() == 0 {
        seq![]
    } else if parts.len() == 1 {
        parts[0]
    } else {
        join(parts.drop_last(), sep).push(sep) + parts.last()
    }
}

/// [`join`] of strings.
pub fn joined(parts: &Vec<String>, sep: char) -> (r: String)
    ensures
        r@ == join(strings(parts@), sep),
{
    let mut r = String::new();
    let mut i: usize = 0;
    assert(strings(parts@).take(0) =~= seq![]);
    while i < parts.len()
        invariant
            i <= parts.len(),
            r@ == join(strings(parts@).take(i as int), sep),
        decreases parts.len() - i,
    {
        if i > 0 {
            r.push(sep);
        }
        r.append(parts[i].as_str());
        proof {
            let now = strings(parts@).take(i + 1);
            assert(now.drop_last() =~= strings(parts@).take(i as int));
            if i == 0 {
                assert(r@ =~= now[0]);
            }
        }
        i += 1;
    }
    assert(strings(parts@).take(parts@.len() as int) =~= strings(parts@));
    r
}

/// The two texts one after the other.
pub fn cat(a: &str, b: &str) -> (r: String)
    ensures
        r@ == a@ + b@,
{
    let mut r = a.to_owned();
    r.append(b);
    r
}

/// What a NUL-terminated string can carry of `s`: all of it, or nothing where it holds a
/// NUL itself.
pub open spec fn c_text(s: Seq<char>) -> Seq<char> {
    if s.contains('\0') {
        seq![]
    } else {
        s
    }
}

/// Whether the text holds a NUL.
pub fn has_nul(s: &str) -> (r: bool)
    ensures
        r == s@.contains('\0'),
{
    let cs = chars_of(s);
    let mut i: usize = 0;
    while i < cs.len()
        invariant
            i <= cs.len(),
            cs@ == s@,
            forall|j: int| 0 <= j < i ==> cs@[j] != '\0',
        decreases cs.len() - i,
    {
        if cs[i] == '\0' {
            return true;
        }
        i += 1;
    }
    false
}

/// [`c_text`] of a string.
pub fn c_text_of(s: &str) -> (r: String)
    ensures
        r@ == c_text(s@),
{
    if has_nul(s) {
        String::new()
    } else {
        s.to_owned()
    }
}

/// Whether `part` stands in `s` somewhere.
pub open spec fn has_part(s: Seq<char>, part: Seq<char>) -> bool {
    exists|i: int|
        0 <= i && i + part.len() <= s.len() && #[trigger] s.subrange(i, i + part.len()) == part
}

/// Whether `part` stands in `s` somewhere.
pub fn contains_part(s: &str, part: &str) -> (r: bool)
    ensures
        r == has_part(s@, part@),
{
    let a = chars_of(s);
    let b = chars_of(part);
    let n: usize = b.len();
    if n > a.len() {
        return false;
    }
    let last: usize = a.len() - n;
    let mut i: usize = 0;
    while i <= last
        invariant
            n == b.len(),
            last + n == a.len(),
            i <= last + 1,
            a@ == s@,
            b@ == part@,
            forall|j: int| 0 <= j < i ==> #[trigger] s@.subrange(j, j + n) != part@,
        decreases last + 1 - i,
    {
        let mut k: usize = 0;
        while k < n && a[i + k] == b[k]
            invariant
                k <= n == b.len(),
                i <= last,
                last + n == a.len(),
                forall|j: int| 0 <= j < k ==> a@[i + j] == b@[j],
            decreases n - k,
        {
            k += 1;
        }
        if k == n {
            assert(s@.subrange(i as int, i + part@.len()) =~= part@);
            return true;
        }
        assert(s@.subrange(i as int, i + n)[k as int] != part@[k as int]);
        if i == last {
            return false;
        }
        i += 1;
    }
    false
}

/// The first piece of a text with a separator in it ends where the first separator stands.
pub proof fn split_first(s: Seq<char>, c: char)
    ensures
        split(s, c).len() > 0,
        split(s, c)[0].len() <= s.len(),
        split(s, c).len() >= 2 ==> split(s, c)[0].len() < s.len() && s[split(s, c)[0].len() as int]
            == c,
        split(s, c)[0] == s.take(split(s, c)[0].len() as int),
        split(s, c).len() == 1 ==> split(s, c)[0] == s,
    decreases s.len(),
{
    if s.len() > 0 {
        let p = split(s.drop_last(), c);
        split_first(s.drop_last(), c);
        if s.last() != c && p.len() == 1 {
            assert(split(s, c)[0] =~= s);
        }
        assert(split(s, c)[0] =~= s.take(split(s, c)[0].len() as int));
    } else {
        assert(split(s, c)[0] =~= s);
    }
}

/// The first place at which `part` stands in `s`.
pub open spec fn part_at(s: Seq<char>, part: Seq<char>) -> Option<int>
    decreases s.len(),
{
    if s.len() < part.len() {
        None
    } else if s.take(part.len() as int) == part {
        Some(0)
    } else if s.len() == 0 {
        None
    } else {
        match part_at(s.drop_first(), part) {
            Some(i) => Some(i + 1),
            None => None,
        }
    }
}

fn stands_at(cs: &Vec<char>, at: usize, part: &Vec<char>) -> (r: bool)
    requires
        at + part.len() <= cs.len(),
    ensures
        r == (cs@.subrange(at as int, at + part.len()) == part@),
{
    let mut k: usize = 0;
    while k < part.len()
        invariant
            at + part.len() <= cs.len(),
            k <= part.len(),
            forall|j: int| 0 <= j < k ==> cs@[at + j] == part@[j],
        decreases part.len() - k,
    {
        if cs[at + k] != part[k] {
            assert(cs@.subrange(at as int, at + part.len())[k as int] != part@[k as int]);
            return false;
        }
        k += 1;
    }
    assert(cs@.subrange(at as int, at + part.len()) =~= part@);
    true
}

/// The first place at which `part` stands in the characters; see [`part_at`].
pub fn find_part(cs: &Vec<char>, part: &str) -> (r: Option<usize>)
    ensures
        match r {
            Some(i) => part_at(cs@, part@) == Some(i as int) && i + part@.len() <= cs.len(),
            None => part_at(cs@, part@) is None,
        },
{
    let p = chars_of(part);
    let n: usize = cs.len();
    let mut i: usize = 0;
    assert(cs@.skip(0) =~= cs@);
    while n - i >= p.len()
        invariant
            i <= n == cs.len(),
            p@ == part@,
            part_at(cs@, part@) == match part_at(cs@.skip(i as int), part@) {
                Some(k) => Some(k + i),
                None => None,
            },
        decreases n - i,
    {
        assert(cs@.skip(i as int).take(p.len() as int) =~= cs@.subrange(i as int, i + p.len()));
        if stands_at(cs, i, &p) {
            return Some(i);
        }
        if i == n {
            return None;
        }
        assert(cs@.skip(i as int).drop_first() =~= cs@.skip(i + 1));
        i += 1;
    }
    None
}

/// Whether a text begins with another.
pub open spec fn begins(s: Seq<char>, part: Seq<char>) -> bool {
    part.len() <= s.len() && s.take(part.len() as int) == part
}

/// Whether a text begins with another.
pub fn starts_with(s: &str, part: &str) -> (r: bool)
    ensures
        r == begins(s@, part@),
{
    let cs = chars_of(s);
    let p = chars_of(part);
    if p.len() > cs.len() {
        return false;
    }
    assert(cs@.subrange(0, p.len() as int) =~= s@.take(part@.len() as int));
    stands_at(&cs, 0, &p)
}

/// Splitting loses nothing: no piece holds the separator, and the pieces with the separator
/// between them are the text again.
pub proof fn split_joins_back(s: Seq<char>, c: char)
    ensures
        join(split(s, c), c) == s,
        split(s, c).len() > 0,
        forall|i: int| 0 <= i < split(s, c).len() ==> !(#[trigger] split(s, c)[i]).contains(c),
    decreases s.len(),
{
    if s.len() == 0 {
        assert(join(split(s, c), c) =~= s);
    } else {
        split_joins_back(s.drop_last(), c);
        let p = split(s.drop_last(), c);
        let q = split(s, c);
        if s.last() == c {
            assert(q.drop_last() =~= p);
            assert(join(q, c) =~= s);
        } else {
            assert(q.drop_last() =~= p.drop_last());
            assert forall|i: int| 0 <= i < q.len() implies !(#[trigger] q[i]).contains(c) by {
                if i == q.len() - 1 {
                    assert(forall|k: int| 0 <= k < p.last().len() ==> p.last()[k] != c) by {
                        assert(!p[p.len() - 1].contains(c));
                    }
                    assert(forall|k: int| 0 <= k < q[i].len() ==> q[i][k] != c);
                } else {
                    assert(q[i] == p[i]);
                }
            }
            assert(join(q, c) =~= join(p, c).push(s.last()));
            assert(join(q, c) =~= s);
        }
    }
}

/// Joining loses nothing: parts that do not hold the separator are what splitting finds.
pub proof fn join_splits_back(parts: Seq<Seq<char>>, c: char)
    requires
        parts.len() > 0,
        forall|i: int| 0 <= i < parts.len() ==> !(#[trigger] parts[i]).contains(c),
    ensures
        split(join(parts, c), c) == parts,
    decreases parts.len(),
{
    if parts.len() == 1 {
        let s = parts[0];
        assert forall|k: int| 0 <= k < s.len() implies s[k] != c by {
            assert(!parts[0].contains(c));
        }
        split_whole(s, c);
        assert(parts =~= seq![s]);
    } else {
        let front = parts.drop_last();
        assert forall|i: int| 0 <= i < front.len() implies !(#[trigger] front[i]).contains(c) by {
            assert(!parts[i].contains(c));
        }
        join_splits_back(front, c);
        assert(!parts[parts.len() - 1].contains(c));
        split_after_separator(join(front, c), parts.last(), c);
        assert(front.push(parts.last()) =~= parts);
        assert(join(parts, c) =~= join(front, c).push(c) + parts.last());
    }
}

proof fn split_after_separator(s: Seq<char>, t: Seq<char>, c: char)
    requires
        !t.contains(c),
    ensures
        split(s.push(c) + t, c) == split(s, c).push(t),
    decreases t.len(),
{
    let whole = s.push(c) + t;
    if t.len() == 0 {
        assert(whole =~= s.push(c));
        assert(s.push(c).drop_last() =~= s);
        assert(t =~= seq![]);
    } else {
        assert forall|k: int| 0 <= k < t.drop_last().len() implies t.drop_last()[k] != c by {
            assert(t[k] != c);
        }
        assert(!t.drop_last().contains(c));
        split_after_separator(s, t.drop_last(), c);
        assert(whole.drop_last() =~= s.push(c) + t.drop_last());
        assert(t.last() != c);
        assert(t.drop_last().push(t.last()) =~= t);
        assert(split(whole, c) =~= split(s, c).push(t));
    }
}

/// Whether all characters of a text are white space.
pub open spec fn blank(s: Seq<char>) -> bool {
    forall|i: int| 0 <= i < s.len() ==> white(#[trigger] s[i])
}

/// Whether a text has no white space at either end.
pub open spec fn tidy(s: Seq<char>) -> bool {
    s.len() > 0 ==> !white(s[0]) && !white(s.last())
}

/// Trimming takes off white space at the ends, all of it, and nothing else: how many characters
/// it takes off before and behind.
pub proof fn trim_takes_white_off(s: Seq<char>) -> (r: (int, int))
    ensures
        0 <= r.0 <= r.1 <= s.len(),
        trim(s) == s.subrange(r.0, r.1),
        blank(s.take(r.0)),
        blank(s.skip(r.1)),
        tidy(trim(s)),
{
    let a = trim_start_takes_white_off(s);
    let t = trim_start(s);
    let b = trim_end_takes_white_off(t);
    assert(trim(s) =~= s.subrange(a, a + b));
    assert(s.skip(a + b) =~= t.skip(b));
    (a, a + b)
}

/// Trimming the start takes off white space there, all of it, and nothing else: how many
/// characters it takes off.
pub proof fn trim_start_takes_white_off(s: Seq<char>) -> (r: int)
    ensures
        0 <= r <= s.len(),
        trim_start(s) == s.skip(r),
        blank(s.take(r)),
        r < s.len() ==> !white(s[r]),
    decreases s.len(),
{
    if s.len() > 0 && white(s[0]) {
        let r = trim_start_takes_white_off(s.drop_first());
        assert(s.drop_first().skip(r) =~= s.skip(r + 1));
        assert forall|i: int| 0 <= i < s.take(r + 1).len() implies white(
            #[trigger] s.take(r + 1)[i],
        ) by {
            if i > 0 {
                assert(white(s.drop_first().take(r)[i - 1]));
            }
        }
        r + 1
    } else {
        assert(s.skip(0) =~= s);
        0
    }
}

proof fn trim_end_takes_white_off(s: Seq<char>) -> (r: int)
    ensures
        0 <= r <= s.len(),
        trim_end(s) == s.take(r),
        blank(s.skip(r)),
        r > 0 ==> !white(s[r - 1]),
    decreases s.len(),
{
    if s.len() > 0 && white(s.last()) {
        let r = trim_end_takes_white_off(s.drop_last());
        assert(s.drop_last().take(r) =~= s.take(r));
        assert forall|i: int| 0 <= i < s.skip(r).len() implies white(#[trigger] s.skip(r)[i]) by {
            if i < s.len() - 1 - r {
                assert(white(s.drop_last().skip(r)[i]));
            }
        }
        r
    } else {
        assert(s.take(s.len() as int) =~= s);
        s.len() as int
    }
}

/// A text that is tidy is left as it is by trimming, and white space about it is taken off.
pub proof fn trim_finds_tidy_text(before: Seq<char>, s: Seq<char>, behind: Seq<char>)
    requires
        blank(before),
        blank(behind),
        tidy(s),
        s.len() > 0,
    ensures
        trim(before + s + behind) == s,
{
    let whole = before + s + behind;
    let (a, b) = trim_takes_white_off(whole);
    let n = before.len() as int;
    let m = n + s.len();
    assert(whole[n] == s[0]);
    assert(whole[m - 1] == s.last());
    if a > n {
        assert(white(whole.take(a)[n]));
    }
    if b < m {
        assert(white(whole.skip(b)[m - 1 - b]));
    }
    if a < n {
        assert(trim(whole)[0] == whole[a]);
        assert(white(before[a]));
    }
    if b > m {
        assert(trim(whole).last() == whole[b - 1]);
        assert(white(behind[b - 1 - m]));
    }
    assert(whole.subrange(n, m) =~= s);
}

/// Blanks, tabs and the ends of lines are white space; what can be seen of ASCII and the
/// characters of Chinese are not.
pub proof fn white_cannot_be_seen(c: char)
    ensures
        c == ' ' || c == '\t' || c == '\n' || c == '\r' || c as u32 == 0x3000 ==> white(c),
        0x21 <= c as u32 <= 0x7e || c as u32 == 0 || 0x3001 <= c as u32 ==> !white(c),
{
}

/// Taking off a run of a character takes all of it off and nothing else.
pub proof fn trim_of_takes_run_off(s: Seq<char>, c: char) -> (r: (int, int))
    ensures
        0 <= r.0 <= s.len(),
        trim_start_of(s, c) == s.skip(r.0),
        forall|i: int| 0 <= i < r.0 ==> s[i] == c,
        r.0 < s.len() ==> s[r.0] != c,
        0 <= r.1 <= s.len(),
        trim_end_of(s, c) == s.take(r.1),
        forall|i: int| r.1 <= i < s.len() ==> s[i] == c,
        r.1 > 0 ==> s[r.1 - 1] != c,
    decreases s.len(),
{
    let a = if s.len() > 0 && s[0] == c {
        let t = trim_of_takes_run_off(s.drop_first(), c);
        assert(s.drop_first().skip(t.0) =~= s.skip(t.0 + 1));
        assert forall|i: int| 0 <= i < t.0 + 1 implies s[i] == c by {
            if i > 0 {
                assert(s.drop_first()[i - 1] == c);
            }
        }
        t.0 + 1
    } else {
        assert(s.skip(0) =~= s);
        0
    };
    let b = if s.len() > 0 && s.last() == c {
        let t = trim_of_takes_run_off(s.drop_last(), c);
        assert(s.drop_last().take(t.1) =~= s.take(t.1));
        assert forall|i: int| t.1 <= i < s.len() implies s[i] == c by {
            if i < s.len() - 1 {
                assert(s.drop_last()[i] == c);
            }
        }
        t.1
    } else {
        assert(s.take(s.len() as int) =~= s);
        s.len() as int
    };
    (a, b)
}

/// The lines of a text are what stands between its line feeds: put together again with line
/// feeds between them they are the text, but for a last line feed. Carriage returns at the end
/// of a line are not part of it.
pub proof fn lines_join_back(s: Seq<char>)
    requires
        !s.contains('\r'),
    ensures
        s.len() > 0 && s.last() != '\n' ==> join(lines(s), '\n') == s,
        s.len() > 0 && s.last() == '\n' ==> join(lines(s), '\n') == s.drop_last(),
        s.len() == 0 ==> lines(s).len() == 0,
        forall|i: int| 0 <= i < lines(s).len() ==> !(#[trigger] lines(s)[i]).contains('\n'),
{
    let p = split(s, '\n');
    split_joins_back(s, '\n');
    let q = if p.last().len() == 0 {
        p.drop_last()
    } else {
        p
    };
    assert forall|i: int| 0 <= i < q.len() implies trim_end_of(#[trigger] q[i], '\r') == q[i] by {
        assert(q[i] == p[i]);
        piece_of_text(s, '\n', i);
        let (_, b) = trim_of_takes_run_off(q[i], '\r');
        if b < q[i].len() {
            assert(q[i][b] == '\r');
            assert(q[i].contains('\r'));
        }
        assert(q[i].take(b) =~= q[i]);
    }
    assert(lines(s) =~= q);
    assert forall|i: int| 0 <= i < lines(s).len() implies !(#[trigger] lines(s)[i]).contains('\n') by {
        assert(lines(s)[i] == p[i]);
    }
    if s.len() > 0 {
        if s.last() == '\n' {
            assert(p.last() =~= seq![]);
            assert(q =~= split(s.drop_last(), '\n'));
            split_joins_back(s.drop_last(), '\n');
        } else {
            assert(p.last().len() > 0);
        }
    } else {
        assert(q =~= seq![]);
    }
}

proof fn piece_of_text(s: Seq<char>, c: char, i: int)
    requires
        0 <= i < split(s, c).len(),
    ensures
        forall|x: char| (#[trigger] split(s, c)[i].contains(x)) ==> s.contains(x),
    decreases s.len(),
{
    assert forall|x: char| (#[trigger] split(s, c)[i].contains(x)) implies s.contains(x) by {
        if s.len() > 0 {
            let f = s.drop_last();
            let p = split(f, c);
            if i < p.len() {
                piece_of_text(f, c, i);
                if split(s, c)[i] == p[i] {
                    assert(p[i].contains(x));
                } else {
                    assert(split(s, c)[i] == p[i].push(s.last()));
                    let k = choose|k: int| 0 <= k < p[i].len() + 1 && p[i].push(s.last())[k] == x;
                    if k < p[i].len() {
                        assert(p[i][k] == x);
                        assert(p[i].contains(x));
                    } else {
                        assert(s[s.len() - 1] == x);
                    }
                }
                if f.contains(x) {
                    let k = choose|k: int| 0 <= k < f.len() && f[k] == x;
                    assert(s[k] == x);
                }
            } else {
                split_first(f, c);
                assert(s.last() == c);
                assert(split(s, c) == p.push(seq![]));
                assert(split(s, c)[i].len() == 0);
            }
        } else {
            assert(split(s, c)[i] =~= Seq::<char>::empty());
        }
    }
}

/// What is found stands there and nowhere before; what is not found stands nowhere.
pub proof fn found_part_is_first(s: Seq<char>, part: Seq<char>)
    ensures
        match part_at(s, part) {
            Some(i) => {
                &&& 0 <= i <= s.len() - part.len()
                &&& s.subrange(i, i + part.len()) == part
                &&& forall|k: int| 0 <= k < i ==> #[trigger] s.subrange(k, k + part.len()) != part
            },
            None => forall|k: int|
                0 <= k <= s.len() - part.len() ==> #[trigger] s.subrange(k, k + part.len()) != part,
        },
    decreases s.len(),
{
    if s.len() >= part.len() {
        assert(s.take(part.len() as int) =~= s.subrange(0, part.len() as int));
        if s.take(part.len() as int) != part && s.len() > 0 {
            let t = s.drop_first();
            found_part_is_first(t, part);
            assert forall|k: int| 0 < k <= s.len() - part.len() implies #[trigger] s.subrange(
                k,
                k + part.len(),
            ) == t.subrange(k - 1, k - 1 + part.len()) by {
                assert(s.subrange(k, k + part.len()) =~= t.subrange(k - 1, k - 1 + part.len()));
            }
            if let Some(i) = part_at(t, part) {
                assert(s.subrange(i + 1, i + 1 + part.len()) =~= t.subrange(i, i + part.len()));
            }
        }
    }
}

/// Joining can begin with the first part.
pub proof fn join_front(first: Seq<char>, rest: Seq<Seq<char>>, sep: char)
    requires
        rest.len() > 0,
    ensures
        join(seq![first] + rest, sep) == first.push(sep) + join(rest, sep),
    decreases rest.len(),
{
    let all = seq![first] + rest;
    if rest.len() == 1 {
        assert(all.drop_last() =~= seq![first]);
        reveal_with_fuel(join, 2);
        assert(join(all, sep) =~= first.push(sep) + join(rest, sep));
    } else {
        join_front(first, rest.drop_last(), sep);
        assert(all.drop_last() =~= seq![first] + rest.drop_last());
        assert(join(all, sep) =~= first.push(sep) + join(rest, sep));
    }
}

/// White space: the tab and the controls behind it, the space, and the spaces and line ends of
/// Unicode.
pub proof fn white_is_white_space(c: char)
    ensures
        white(c) <==> {
            let n = c as u32;
            ||| n == 0x9 || n == 0xa || n == 0xb || n == 0xc || n == 0xd
            ||| n == 0x20 || n == 0x85 || n == 0xa0 || n == 0x1680
            ||| n == 0x2000 || n == 0x2001 || n == 0x2002 || n == 0x2003 || n == 0x2004 || n == 0x2005
            ||| n == 0x2006 || n == 0x2007 || n == 0x2008 || n == 0x2009 || n == 0x200a
            ||| n == 0x2028 || n == 0x2029 || n == 0x202f || n == 0x205f || n == 0x3000
        },
{
}

/// A text begins with another where it is that text with something behind it, and holds another
/// where it is that text with something before it and behind it.
pub proof fn parts_are_found(a: Seq<char>, part: Seq<char>, b: Seq<char>)
    ensures
        begins(part + b, part),
        has_part(a + part + b, part),
        begins(a, part) ==> a == part + a.skip(part.len() as int),
        has_part(a, part) ==> part.len() <= a.len(),
        a.len() < part.len() ==> !begins(a, part) && !has_part(a, part),
{
    assert((part + b).take(part.len() as int) =~= part);
    let s = a + part + b;
    assert(s.subrange(a.len() as int, a.len() + part.len() as int) =~= part);
    if begins(a, part) {
        assert(a =~= part + a.skip(part.len() as int));
    }
}

} // verus!
