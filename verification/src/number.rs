//! Decimal numbers in text.

use vstd::prelude::*;
use vstd::string::*;

verus! {

/// The farthest from zero that a number is read.
pub const LIMIT: i128 = 0x10_0000_0000_0000_0000;

/// Whether every character is a decimal digit.
pub open spec fn all_digits(s: Seq<char>) -> bool {
    forall|i: int| 0 <= i < s.len() ==> '0' <= #[trigger] s[i] <= '9'
}

/// The number that decimal digits give.
pub open spec fn digits_value(s: Seq<char>) -> int
    decreases s.len(),
{
    if s.len() == 0 {
        0
    } else {
        digits_value(s.drop_last()) * 10 + (s.last() as int - '0' as int)
    }
}

/// The digits behind a sign, if there is one. A minus sign counts only where `signed`.
pub open spec fn unsigned_part(s: Seq<char>, signed: bool) -> Seq<char> {
    if s.len() > 0 && (s[0] == '+' || (signed && s[0] == '-')) {
        s.drop_first()
    } else {
        s
    }
}

/// The whole number that a text is, from `lo` to `hi`: digits, with a sign before them or
/// not. A minus sign counts only where `lo` is negative.
pub open spec fn int_of(s: Seq<char>, lo: int, hi: int) -> Option<int> {
    let d = unsigned_part(s, lo < 0);
    let v = if s.len() > 0 && lo < 0 && s[0] == '-' {
        -digits_value(d)
    } else {
        digits_value(d)
    };
    if d.len() > 0 && all_digits(d) && lo <= v <= hi {
        Some(v)
    } else {
        None
    }
}

/// The whole number that a text is; see [`int_of`].
pub fn parse_int(cs: &Vec<char>, lo: i128, hi: i128) -> (r: Option<i128>)
    requires
        -LIMIT <= lo <= hi <= LIMIT,
    ensures
        match r {
            Some(v) => int_of(cs@, lo as int, hi as int) == Some(v as int),
            None => int_of(cs@, lo as int, hi as int) is None,
        },
{
    let n: usize = cs.len();
    let negative = n > 0 && lo < 0 && cs[0] == '-';
    let start: usize = if negative || (n > 0 && cs[0] == '+') {
        1
    } else {
        0
    };
    let ghost d = unsigned_part(cs@, lo < 0);
    assert(d =~= cs@.skip(start as int));
    if start == n {
        return None;
    }
    let mut v: i128 = 0;
    let mut i: usize = start;
    let mut big = false;
    assert(d.take(0) =~= seq![]);
    while i < n
        invariant
            start <= i <= n == cs.len(),
            start <= 1,
            d == cs@.skip(start as int),
            d == unsigned_part(cs@, lo < 0),
            all_digits(d.take(i - start)),
            0 <= v,
            !big ==> v == digits_value(d.take(i - start)) && v <= LIMIT,
            big ==> digits_value(d.take(i - start)) > LIMIT,
        decreases n - i,
    {
        let c = cs[i];
        let ghost k = i - start;
        assert(d.take(k + 1).drop_last() =~= d.take(k));
        assert(d.take(k + 1).last() == c);
        if !('0' <= c && c <= '9') {
            assert(d[k] == c);
            assert(!all_digits(d));
            return None;
        }
        assert(all_digits(d.take(k + 1))) by {
            assert forall|j: int| 0 <= j < k + 1 implies '0' <= #[trigger] d.take(k + 1)[j] <= '9' by {
                if j < k {
                    assert(d.take(k + 1)[j] == d.take(k)[j]);
                }
            }
        }
        if !big {
            let digit: i128 = (c as u32 - '0' as u32) as i128;
            if v > (LIMIT - digit) / 10 {
                big = true;
            } else {
                v = v * 10 + digit;
            }
        }
        i += 1;
    }
    assert(d.take(d.len() as int) =~= d);
    if big {
        return None;
    }
    if negative {
        v = -v;
    }
    if lo <= v && v <= hi {
        Some(v)
    } else {
        None
    }
}

/// The digit of a number from 0 to 9.
pub open spec fn digit_char(n: int) -> char {
    (n + '0' as int) as char
}

/// The decimal digits of a number that is not negative.
pub open spec fn digits(n: int) -> Seq<char>
    decreases n,
{
    if n < 10 {
        seq![digit_char(n)]
    } else {
        digits(n / 10).push(digit_char(n % 10))
    }
}

/// A whole number in decimal.
pub open spec fn decimal(n: int) -> Seq<char> {
    if n < 0 {
        seq!['-'] + digits(-n)
    } else {
        digits(n)
    }
}

fn digit_of(n: u128) -> (r: char)
    requires
        n < 10,
    ensures
        r == digit_char(n as int),
{
    match n {
        0 => '0',
        1 => '1',
        2 => '2',
        3 => '3',
        4 => '4',
        5 => '5',
        6 => '6',
        7 => '7',
        8 => '8',
        _ => '9',
    }
}

fn digits_of(n: u128) -> (r: String)
    ensures
        r@ == digits(n as int),
    decreases n,
{
    if n < 10 {
        let mut r = String::new();
        r.push(digit_of(n));
        assert(r@ =~= digits(n as int));
        r
    } else {
        let mut r = digits_of(n / 10);
        r.push(digit_of(n % 10));
        r
    }
}

/// A whole number in decimal; see [`decimal`].
pub fn decimal_of(n: i64) -> (r: String)
    ensures
        r@ == decimal(n as int),
{
    if n < 0 {
        let mut r = String::new();
        r.push('-');
        let d = digits_of((-(n as i128)) as u128);
        r.append(d.as_str());
        assert(r@ =~= seq!['-'] + d@);
        r
    } else {
        digits_of(n as u128)
    }
}

/// A length in decimal.
pub fn decimal_of_len(n: usize) -> (r: String)
    ensures
        r@ == decimal(n as int),
{
    digits_of(n as u128)
}

proof fn digits_read_back(n: int)
    requires
        0 <= n,
    ensures
        digits(n).len() > 0,
        all_digits(digits(n)),
        digits_value(digits(n)) == n,
    decreases n,
{
    if n < 10 {
        let d = digits(n);
        assert(d.len() == 1);
        assert(d.drop_last() =~= seq![]);
        assert(digits_value(d.drop_last()) == 0);
        assert(d.last() == digit_char(n));
    } else {
        digits_read_back(n / 10);
        let d = digits(n);
        assert(d.drop_last() =~= digits(n / 10));
        assert(d.last() == digit_char(n % 10));
        assert forall|i: int| 0 <= i < d.len() implies '0' <= #[trigger] d[i] <= '9' by {
            if i < d.len() - 1 {
                assert(d[i] == digits(n / 10)[i]);
            }
        }
    }
}

/// A number that was written is read back.
pub proof fn decimal_reads_back(n: int, lo: int, hi: int)
    requires
        lo <= n <= hi,
    ensures
        int_of(decimal(n), lo, hi) == Some(n),
{
    if n < 0 {
        digits_read_back(-n);
        assert(decimal(n).drop_first() =~= digits(-n));
    } else {
        digits_read_back(n);
        assert('0' <= digits(n)[0] <= '9');
    }
}

/// A number in decimal holds no white space.
pub proof fn decimal_is_tidy(n: int)
    ensures
        decimal(n).len() > 0,
        forall|i: int| 0 <= i < decimal(n).len() ==> !crate::text::white(#[trigger] decimal(n)[i]),
{
    let d = if n < 0 {
        digits(-n)
    } else {
        digits(n)
    };
    digits_read_back(if n < 0 { -n } else { n });
    assert forall|i: int| 0 <= i < decimal(n).len() implies !crate::text::white(
        #[trigger] decimal(n)[i],
    ) by {
        crate::text::white_cannot_be_seen(decimal(n)[i]);
        if n < 0 {
            if i > 0 {
                assert(decimal(n)[i] == d[i - 1]);
                assert('0' <= d[i - 1] <= '9');
            }
        } else {
            assert('0' <= d[i] <= '9');
        }
    }
}

/// Each digit more makes a number ten times as large and adds itself; a number is read only where
/// it lies within its bounds.
pub proof fn digit_makes_tenfold(s: Seq<char>, c: char, lo: int, hi: int)
    requires
        all_digits(s),
        s.len() > 0,
        '0' <= c <= '9',
        lo <= 0,
    ensures
        int_of(s, lo, hi) matches Some(n) ==> int_of(s.push(c), lo, hi) == if 10 * n + (c as int
            - 0x30) <= hi {
            Some(10 * n + (c as int - 0x30))
        } else {
            None
        },
        int_of(s, lo, hi) matches Some(n) ==> lo <= n <= hi,
        int_of(seq![c], lo, hi) == if c as int - 0x30 <= hi {
            Some(c as int - 0x30)
        } else {
            None
        },
{
    digits_nonneg(s);
    assert('0' <= s[0] <= '9');
    let t = s.push(c);
    assert(t.drop_last() =~= s);
    assert(all_digits(t));
    assert(t[0] == s[0]);
    let one = seq![c];
    assert(one.drop_last() =~= seq![]);
    assert(digits_value(one.drop_last()) == 0);
    assert(all_digits(one));
}

proof fn digits_nonneg(s: Seq<char>)
    requires
        all_digits(s),
    ensures
        digits_value(s) >= 0,
    decreases s.len(),
{
    if s.len() > 0 {
        assert(all_digits(s.drop_last())) by {
            assert forall|i: int| 0 <= i < s.drop_last().len() implies '0' <= #[trigger] s.drop_last()[i]
                <= '9' by {
                assert('0' <= s[i] <= '9');
            }
        }
        digits_nonneg(s.drop_last());
        assert('0' <= s[s.len() - 1] <= '9');
    }
}

/// A text that holds anything but digits behind its sign is no number, and neither is an empty
/// one. A minus sign turns the number round where numbers may be negative.
pub proof fn other_texts_are_no_numbers(s: Seq<char>, lo: int, hi: int)
    ensures
        s.len() == 0 ==> int_of(s, lo, hi) is None,
        (exists|i: int| 1 <= i < s.len() && !('0' <= #[trigger] s[i] <= '9')) ==> int_of(s, lo, hi) is None,
        s.len() > 0 && !('0' <= s[0] <= '9') && s[0] != '+' && s[0] != '-' ==> int_of(s, lo, hi) is None,
        s.len() > 0 && s[0] == '-' && lo >= 0 ==> int_of(s, lo, hi) is None,
        s.len() > 1 && all_digits(s.skip(1)) && s[0] == '-' && lo < 0 ==> int_of(s, lo, hi) == (if lo
            <= -digits_value(s.skip(1)) <= hi {
            Some(-digits_value(s.skip(1)))
        } else {
            None
        }),
        s.len() > 1 && all_digits(s.skip(1)) && s[0] == '+' ==> int_of(s, lo, hi) == int_of(
            s.skip(1),
            lo,
            hi,
        ),
{
    let d = unsigned_part(s, lo < 0);
    if exists|i: int| 1 <= i < s.len() && !('0' <= #[trigger] s[i] <= '9') {
        let i = choose|i: int| 1 <= i < s.len() && !('0' <= #[trigger] s[i] <= '9');
        if d == s {
            assert(!('0' <= d[i] <= '9'));
        } else {
            assert(d[i - 1] == s[i]);
        }
    }
    if s.len() > 1 {
        assert(s.drop_first() =~= s.skip(1));
        if all_digits(s.skip(1)) {
            assert('0' <= s.skip(1)[0] <= '9');
        }
    }
    if s.len() > 0 && !('0' <= s[0] <= '9') && d == s {
        assert(!('0' <= d[0] <= '9'));
    }
}

/// A number that is not negative is written in digits, without a zero before them.
pub proof fn decimal_has_no_leading_zero(n: int)
    requires
        0 <= n,
    ensures
        decimal(n).len() > 0,
        all_digits(decimal(n)),
        decimal(n)[0] == '0' ==> decimal(n).len() == 1,
    decreases n,
{
    digits_read_back(n);
    if n >= 10 {
        decimal_has_no_leading_zero(n / 10);
        assert(digits(n)[0] == digits(n / 10)[0]);
        if digits(n / 10)[0] == '0' {
            assert(digits(n / 10).len() == 1);
            assert(digits_value(digits(n / 10)) == 0) by {
                reveal_with_fuel(digits_value, 2);
            }
            digits_read_back(n / 10);
        }
    }
}

} // verus!
