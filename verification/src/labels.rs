//! The texts of the candidate window: labels, and what is left of texts that are too long.

use vstd::prelude::*;
use vstd::string::*;

use crate::number;
use crate::number::decimal_of_len;
use crate::text;
use crate::text::{chars_of, same, string_of};

verus! {

/// The number of a candidate in Chinese characters.
pub open spec fn zh_ordinal(n: int) -> Seq<char> {
    seq!["一"@, "二"@, "三"@, "四"@, "五"@, "六"@, "七"@, "八"@, "九"@, "十"@][n - 1]
}

/// The number of a candidate in Roman numerals.
pub open spec fn roman_ordinal(n: int) -> Seq<char> {
    seq!["Ⅰ"@, "Ⅱ"@, "Ⅲ"@, "Ⅳ"@, "Ⅴ"@, "Ⅵ"@, "Ⅶ"@, "Ⅷ"@, "Ⅸ"@, "Ⅹ"@][n - 1]
}

/// The number of a candidate in digits: the key that chooses it, so 0 for the tenth.
pub open spec fn digit_ordinal(n: int) -> Seq<char> {
    if n == 10 {
        "0"@
    } else {
        number::decimal(n)
    }
}

/// The number of a candidate in a style: `zh`, `roman`, and digits for any other.
pub open spec fn ordinal(style: Seq<char>, n: int) -> Seq<char> {
    if style == "zh"@ {
        zh_ordinal(n)
    } else if style == "roman"@ {
        roman_ordinal(n)
    } else {
        digit_ordinal(n)
    }
}

/// The first place at which `%s` stands in a format, or -1.
pub open spec fn slot(format: Seq<char>) -> int
    decreases format.len(),
{
    if format.len() < 2 {
        -1
    } else if slot(format.drop_last()) >= 0 {
        slot(format.drop_last())
    } else if format[format.len() - 2] == '%' && format[format.len() - 1] == 's' {
        format.len() - 2
    } else {
        -1
    }
}

/// The label of a candidate: its number in the place of the first `%s` of the format; the
/// number and a full stop where the format has none.
pub open spec fn label(format: Seq<char>, style: Seq<char>, n: int) -> Seq<char> {
    let p = slot(format);
    if p >= 0 {
        format.take(p) + ordinal(style, n) + format.skip(p + 2)
    } else {
        ordinal(style, n) + "."@
    }
}

fn zh_text(n: usize) -> (r: &'static str)
    requires
        1 <= n <= 10,
    ensures
        r@ == zh_ordinal(n as int),
{
    match n {
        1 => "一",
        2 => "二",
        3 => "三",
        4 => "四",
        5 => "五",
        6 => "六",
        7 => "七",
        8 => "八",
        9 => "九",
        _ => "十",
    }
}

fn roman_text(n: usize) -> (r: &'static str)
    requires
        1 <= n <= 10,
    ensures
        r@ == roman_ordinal(n as int),
{
    match n {
        1 => "Ⅰ",
        2 => "Ⅱ",
        3 => "Ⅲ",
        4 => "Ⅳ",
        5 => "Ⅴ",
        6 => "Ⅵ",
        7 => "Ⅶ",
        8 => "Ⅷ",
        9 => "Ⅸ",
        _ => "Ⅹ",
    }
}

fn digit_text(n: usize) -> (r: String)
    ensures
        r@ == digit_ordinal(n as int),
{
    if n == 10 {
        "0".to_owned()
    } else {
        decimal_of_len(n)
    }
}

fn slot_of(cs: &Vec<char>) -> (r: Option<usize>)
    ensures
        match r {
            Some(p) => slot(cs@) == p && p + 2 <= cs.len(),
            None => slot(cs@) < 0,
        },
{
    let mut n: usize = 0;
    while n < cs.len()
        invariant
            n <= cs.len(),
            slot(cs@.take(n as int)) < 0,
        decreases cs.len() - n,
    {
        assert(cs@.take(n + 1).drop_last() =~= cs@.take(n as int));
        if n >= 1 && cs[n - 1] == '%' && cs[n] == 's' {
            proof {
                slot_stays(cs@, n + 1);
            }
            return Some(n - 1);
        }
        n += 1;
    }
    assert(cs@.take(cs@.len() as int) =~= cs@);
    None
}

/// A place that was found stays the first one, whatever follows.
proof fn slot_stays(s: Seq<char>, n: int)
    requires
        0 <= n <= s.len(),
        slot(s.take(n)) >= 0,
    ensures
        slot(s) == slot(s.take(n)),
    decreases s.len() - n,
{
    if n < s.len() {
        assert(s.take(n + 1).drop_last() =~= s.take(n));
        slot_stays(s, n + 1);
    } else {
        assert(s.take(n) =~= s);
    }
}

/// The label of the candidate with the number `n`; see [`label`]. The styles that are not digits
/// go up to ten.
pub fn fmt_label(format: &str, style: &str, n: usize) -> (r: String)
    requires
        n >= 1,
        style@ == "zh"@ || style@ == "roman"@ ==> n <= 10,
    ensures
        r@ == label(format@, style@, n as int),
{
    let d = if same(style, "zh") {
        zh_text(n).to_owned()
    } else if same(style, "roman") {
        roman_text(n).to_owned()
    } else {
        digit_text(n)
    };
    let cs = chars_of(format);
    match slot_of(&cs) {
        Some(p) => {
            let mut r = string_of(&cs, 0, p);
            r.append(d.as_str());
            let tail = string_of(&cs, p + 2, cs.len());
            r.append(tail.as_str());
            assert(cs@.subrange(0, p as int) =~= format@.take(p as int));
            assert(cs@.subrange(p + 2, cs@.len() as int) =~= format@.skip(p + 2));
            r
        },
        None => text::cat(d.as_str(), "."),
    }
}

/// How many of the last characters of a text are shown, given for each number whether so many
/// fit: the first that fits of `k`, `k - 2`, .. above six, else six.
pub open spec fn tail_len(fits: Seq<bool>, k: int) -> int
    decreases k,
{
    if k <= 6 {
        6
    } else if fits[k] {
        k
    } else {
        tail_len(fits, k - 2)
    }
}

/// The text where all of it fits, else a mark and the end of it.
pub open spec fn tail_text(s: Seq<char>, fits: Seq<bool>) -> Seq<char> {
    if fits[s.len() as int] {
        s
    } else {
        let k = tail_len(fits, s.len() as int);
        seq!['…'] + s.skip(if k < s.len() { s.len() - k } else { 0 })
    }
}

/// Shortens a text to its end, which is where typing goes on. `fits[k]` says whether the mark
/// and the last `k` characters fit.
pub fn trunc_tail(s: &str, fits: &Vec<bool>) -> (r: String)
    requires
        fits.len() == s@.len() + 1,
    ensures
        r@ == tail_text(s@, fits@),
{
    let cs = chars_of(s);
    let n: usize = cs.len();
    if fits[n] {
        return s.to_owned();
    }
    let mut k: usize = n;
    while k > 6 && !fits[k]
        invariant
            k <= n,
            n + 1 == fits.len(),
            tail_len(fits@, n as int) == tail_len(fits@, k as int),
        decreases k,
    {
        k -= 2;
    }
    if k <= 6 {
        k = 6;
    }
    let from: usize = if k < n {
        n - k
    } else {
        0
    };
    let mut r = String::new();
    r.push('…');
    let tail = string_of(&cs, from, n);
    assert(tail@ =~= s@.skip(from as int));
    r.append(tail.as_str());
    assert(r@ =~= seq!['…'] + tail@);
    r
}

/// What is shown of a remark: the longest beginning that fits with a mark behind it, given for
/// each length whether it does; nothing where not even the mark fits.
pub open spec fn head_text(s: Seq<char>, fits: Seq<bool>, k: int) -> Seq<char>
    decreases k + 1,
{
    if k < 0 {
        seq![]
    } else if fits[k] {
        s.take(k).push('…')
    } else {
        head_text(s, fits, k - 1)
    }
}

/// Shortens a remark to its beginning. `fits[k]` says whether its first `k` characters and
/// the mark fit into the room there is. Without room, and of an empty remark, nothing is left.
pub fn trunc_cmt(s: &str, room: bool, fits: &Vec<bool>) -> (r: String)
    requires
        fits.len() == s@.len() + 1,
    ensures
        r@ == if !room || s@.len() == 0 {
            seq![]
        } else {
            head_text(s@, fits@, s@.len() as int)
        },
{
    let cs = chars_of(s);
    let n: usize = cs.len();
    if !room || n == 0 {
        return String::new();
    }
    let mut k: usize = n;
    while k > 0 && !fits[k]
        invariant
            k <= n,
            n + 1 == fits.len(),
            head_text(s@, fits@, n as int) == head_text(s@, fits@, k as int),
        decreases k,
    {
        k -= 1;
    }
    if !fits[k] {
        assert(head_text(s@, fits@, -1) =~= seq![]);
        return String::new();
    }
    let mut r = string_of(&cs, 0, k);
    assert(r@ =~= s@.take(k as int));
    r.push('…');
    r
}

/// The remarks of a list of candidates, all empty while they are not to be seen yet.
pub fn shown_comments(comments: &Vec<String>, expanded: bool) -> (r: Vec<String>)
    ensures
        r.len() == comments.len(),
        forall|i: int|
            0 <= i < r.len() ==> (#[trigger] r@[i])@ == if expanded {
                comments@[i]@
            } else {
                seq![]
            },
{
    let mut r: Vec<String> = Vec::new();
    let mut i: usize = 0;
    while i < comments.len()
        invariant
            i <= comments.len(),
            r.len() == i,
            forall|j: int|
                0 <= j < i ==> (#[trigger] r@[j])@ == if expanded {
                    comments@[j]@
                } else {
                    seq![]
                },
        decreases comments.len() - i,
    {
        if expanded {
            r.push(comments[i].clone());
        } else {
            let e = String::new();
            assert(e@ =~= seq![]);
            r.push(e);
        }
        i += 1;
    }
    r
}

/// A label never hides what the format says around the number.
pub proof fn label_keeps_format(format: Seq<char>, style: Seq<char>, n: int)
    requires
        slot(format) >= 0,
    ensures
        slot(format) + 2 <= format.len(),
        format[slot(format)] == '%',
        format[slot(format) + 1] == 's',
        label(format, style, n).take(slot(format)) == format.take(slot(format)),
    decreases format.len(),
{
    let p = slot(format);
    if slot(format.drop_last()) >= 0 {
        label_keeps_format(format.drop_last(), style, n);
    }
    assert(label(format, style, n).take(p) =~= format.take(p));
}

/// However short the room, at least the last six characters of a longer text are shown.
pub proof fn tail_shows_end(s: Seq<char>, fits: Seq<bool>)
    requires
        s.len() >= 6,
        fits.len() == s.len() + 1,
    ensures
        tail_text(s, fits).skip(tail_text(s, fits).len() - 6) == s.skip(s.len() - 6),
{
    tail_bounds(fits, s.len() as int);
    assert(tail_text(s, fits).skip(tail_text(s, fits).len() - 6) =~= s.skip(s.len() - 6));
}

proof fn tail_bounds(fits: Seq<bool>, k: int)
    ensures
        6 <= tail_len(fits, k),
        k >= 6 ==> tail_len(fits, k) <= k,
    decreases k,
{
    if k > 6 {
        tail_bounds(fits, k - 2);
    }
}

/// The number stands in the place of the first `%s`, and all else of the format stays as it is.
pub proof fn number_fills_slot(a: Seq<char>, b: Seq<char>, style: Seq<char>, n: int)
    requires
        forall|i: int|
            0 <= i < a.len() ==> !(#[trigger] a[i] == '%' && (a + seq!['%', 's'])[i + 1] == 's'),
    ensures
        label(a + seq!['%', 's'] + b, style, n) == a + ordinal(style, n) + b,
{
    let f = a + seq!['%', 's'] + b;
    let k = a.len() + 2;
    assert(f.take(k as int) =~= a + seq!['%', 's']);
    first_slot(a + seq!['%', 's'], a.len() as int);
    slot_stays(f, k as int);
    assert(f.take(a.len() as int) =~= a);
    assert(f.skip(k as int) =~= b);
}

proof fn first_slot(s: Seq<char>, p: int)
    requires
        0 <= p <= s.len() - 2,
        s[p] == '%',
        s[p + 1] == 's',
        forall|i: int| 0 <= i < p ==> !(#[trigger] s[i] == '%' && s[i + 1] == 's'),
    ensures
        slot(s) == p,
    decreases s.len(),
{
    if p == s.len() - 2 {
        no_slot(s.drop_last());
    } else {
        first_slot(s.drop_last(), p);
    }
}

proof fn no_slot(s: Seq<char>)
    requires
        forall|i: int| 0 <= i < s.len() - 1 ==> !(#[trigger] s[i] == '%' && s[i + 1] == 's'),
    ensures
        slot(s) == -1,
    decreases s.len(),
{
    if s.len() >= 2 {
        let t = s.drop_last();
        assert forall|i: int| 0 <= i < t.len() - 1 implies !(#[trigger] t[i] == '%' && t[i + 1]
            == 's') by {
            assert(s[i] == t[i]);
        }
        no_slot(t);
        assert(s[s.len() - 2] != '%' || s[s.len() - 1] != 's');
    }
}

/// A format without `%s` gives the number and a full stop.
pub proof fn format_without_slot(f: Seq<char>, style: Seq<char>, n: int)
    requires
        forall|i: int| 0 <= i < f.len() - 1 ==> !(#[trigger] f[i] == '%' && f[i + 1] == 's'),
    ensures
        label(f, style, n) == ordinal(style, n) + seq!['.'],
{
    no_slot(f);
    reveal_strlit(".");
    assert("."@ =~= seq!['.']);
}

/// The numbers by style: Chinese from one to ten; Roman numerals, which follow each other in
/// Unicode; else digits, with nought for the tenth, as on the keyboard.
pub proof fn ordinals_count(style: Seq<char>, n: int)
    requires
        1 <= n,
    ensures
        style == "zh"@ && n <= 10 ==> ordinal(style, n) == seq![
            seq!['一', '二', '三', '四', '五', '六', '七', '八', '九', '十'][n - 1],
        ],
        style == "roman"@ && n <= 10 ==> ordinal(style, n) == seq![(0x215f + n) as char],
        style != "zh"@ && style != "roman"@ && n != 10 ==> ordinal(style, n) == number::decimal(n),
        style != "zh"@ && style != "roman"@ && n == 10 ==> ordinal(style, n) == seq!['0'],
{
    reveal_strlit("一");
    reveal_strlit("二");
    reveal_strlit("三");
    reveal_strlit("四");
    reveal_strlit("五");
    reveal_strlit("六");
    reveal_strlit("七");
    reveal_strlit("八");
    reveal_strlit("九");
    reveal_strlit("十");
    reveal_strlit("Ⅰ");
    reveal_strlit("Ⅱ");
    reveal_strlit("Ⅲ");
    reveal_strlit("Ⅳ");
    reveal_strlit("Ⅴ");
    reveal_strlit("Ⅵ");
    reveal_strlit("Ⅶ");
    reveal_strlit("Ⅷ");
    reveal_strlit("Ⅸ");
    reveal_strlit("Ⅹ");
    reveal_strlit("0");
    reveal_strlit("zh");
    reveal_strlit("roman");
    assert("zh"@.len() != "roman"@.len());
    if style == "zh"@ && n <= 10 {
        assert(zh_ordinal(n).len() == 1);
        assert(zh_ordinal(n)[0] == seq!['一', '二', '三', '四', '五', '六', '七', '八', '九', '十'][n - 1]);
        assert(ordinal(style, n) =~= seq![
            seq!['一', '二', '三', '四', '五', '六', '七', '八', '九', '十'][n - 1],
        ]);
    }
    if style == "roman"@ && n <= 10 {
        assert(roman_ordinal(n).len() == 1);
        assert(roman_ordinal(n)[0] == (0x215f + n) as char);
        assert(ordinal(style, n) =~= seq![(0x215f + n) as char]);
    }
    assert("0"@ =~= seq!['0']);
}

/// A text is shown whole where it fits. Else a mark and its end are shown: as much of it as fits,
/// of the lengths that are tried, which are two apart, and six characters where none fits.
pub proof fn tail_is_longest_that_fits(s: Seq<char>, fits: Seq<bool>)
    requires
        fits.len() == s.len() + 1,
    ensures
        ({
            let n = s.len() as int;
            let r = tail_text(s, fits);
            &&& fits[n] ==> r == s
            &&& !fits[n] && n > 6 ==> {
                let k = r.len() - 1;
                &&& 6 <= k < n
                &&& r[0] == '…'
                &&& r.skip(1) == s.skip(n - k)
                &&& k == 6 || fits[k]
                &&& forall|j: int| k < j <= n && (n - j) % 2 == 0 ==> !#[trigger] fits[j]
            }
            &&& !fits[n] && n <= 6 ==> r == seq!['…'] + s
        }),
{
    let n = s.len() as int;
    if !fits[n] {
        tail_bounds(fits, n);
        tail_is_first(fits, n);
        let k = tail_len(fits, n);
        let r = tail_text(s, fits);
        if n > 6 {
            assert(r.skip(1) =~= s.skip(n - k));
        } else {
            assert(s.skip(0) =~= s);
        }
    }
}

proof fn tail_is_first(fits: Seq<bool>, n: int)
    ensures
        n > 6 ==> {
            let k = tail_len(fits, n);
            &&& k == 6 || fits[k] && (n - k) % 2 == 0
            &&& forall|j: int| k < j <= n && (n - j) % 2 == 0 ==> !#[trigger] fits[j]
        },
    decreases n,
{
    if n > 6 && !fits[n] {
        tail_is_first(fits, n - 2);
        let k = tail_len(fits, n);
        assert forall|j: int| k < j <= n && (n - j) % 2 == 0 implies !#[trigger] fits[j] by {
            if j < n {
                assert(j <= n - 2);
                assert((n - 2 - j) % 2 == 0);
                if n - 2 <= 6 {
                    assert(j <= 6);
                    assert(k == 6);
                } else {
                    assert(!fits[j]);
                }
            }
        }
        if n - 2 > 6 && k != 6 {
            assert((n - 2 - k) % 2 == 0);
            assert((n - k) % 2 == 0);
        }
    }
}

/// Of a remark the longest beginning that fits is shown, with a mark behind it; nothing where not
/// even the mark fits.
pub proof fn remark_is_longest_that_fits(s: Seq<char>, fits: Seq<bool>)
    requires
        fits.len() == s.len() + 1,
    ensures
        ({
            let r = head_text(s, fits, s.len() as int);
            if exists|k: int| 0 <= k <= s.len() && #[trigger] fits[k] {
                let k = r.len() - 1;
                &&& 0 <= k <= s.len()
                &&& fits[k]
                &&& r == s.take(k).push('…')
                &&& forall|j: int| k < j <= s.len() ==> !#[trigger] fits[j]
            } else {
                r.len() == 0
            }
        }),
{
    head_is_first(s, fits, s.len() as int);
}

proof fn head_is_first(s: Seq<char>, fits: Seq<bool>, n: int)
    requires
        fits.len() == s.len() + 1,
        -1 <= n <= s.len(),
    ensures
        ({
            let r = head_text(s, fits, n);
            if exists|k: int| 0 <= k <= n && #[trigger] fits[k] {
                let k = r.len() - 1;
                &&& 0 <= k <= n
                &&& fits[k]
                &&& r == s.take(k).push('…')
                &&& forall|j: int| k < j <= n ==> !#[trigger] fits[j]
            } else {
                r.len() == 0
            }
        }),
    decreases n + 1,
{
    if n >= 0 && !fits[n] {
        head_is_first(s, fits, n - 1);
        if exists|k: int| 0 <= k <= n && #[trigger] fits[k] {
            let k = choose|k: int| 0 <= k <= n && #[trigger] fits[k];
            assert(0 <= k <= n - 1 && fits[k]);
        }
    }
}

} // verus!
