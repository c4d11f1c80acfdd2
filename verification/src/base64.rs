//! Decoding of the standard base64 alphabet.

use vstd::prelude::*;
use vstd::string::*;

verus! {

/// The value of a character of the alphabet.
pub open spec fn val(b: u8) -> Option<int> {
    if 0x41 <= b <= 0x5a {
        Some(b - 0x41)
    } else if 0x61 <= b <= 0x7a {
        Some(b - 0x61 + 26)
    } else if 0x30 <= b <= 0x39 {
        Some(b - 0x30 + 52)
    } else if b == 0x2b {
        Some(62)
    } else if b == 0x2f {
        Some(63)
    } else {
        None
    }
}

/// The value of a character of the alphabet; nothing for any other byte.
pub fn b64_val(b: u8) -> (r: Option<u32>)
    ensures
        match r {
            Some(v) => val(b) == Some(v as int) && v < 64,
            None => val(b) is None,
        },
        0x41 <= b <= 0x5a ==> r == Some((b - 0x41) as u32),
        0x61 <= b <= 0x7a ==> r == Some((b - 0x61 + 26) as u32),
        0x30 <= b <= 0x39 ==> r == Some((b - 0x30 + 52) as u32),
        b == 0x2b ==> r == Some(62u32),
        b == 0x2f ==> r == Some(63u32),
        r is Some ==> 0x41 <= b <= 0x5a || 0x61 <= b <= 0x7a || 0x30 <= b <= 0x39 || b == 0x2b || b
            == 0x2f,
{
    if 0x41 <= b && b <= 0x5a {
        Some((b - 0x41) as u32)
    } else if 0x61 <= b && b <= 0x7a {
        Some((b - 0x61) as u32 + 26)
    } else if 0x30 <= b && b <= 0x39 {
        Some((b - 0x30) as u32 + 52)
    } else if b == 0x2b {
        Some(62)
    } else if b == 0x2f {
        Some(63)
    } else {
        None
    }
}

/// The three bytes of a number below two to the twenty-four, most significant first.
pub open spec fn bytes3(n: int) -> Seq<u8> {
    seq![(n / 65536) as u8, (n / 256 % 256) as u8, (n % 256) as u8]
}

/// The bytes of a group of four characters. In the last group one or two `=` may stand
/// for the last characters: so many bytes fewer come out.
pub open spec fn group(a: u8, b: u8, c: u8, d: u8, last: bool) -> Option<Seq<u8>> {
    match (val(a), val(b), val(c), val(d)) {
        (Some(w), Some(x), Some(y), Some(z)) => Some(bytes3(((w * 64 + x) * 64 + y) * 64 + z)),
        (Some(w), Some(x), Some(y), None) => if last && d == 0x3d {
            Some(bytes3(((w * 64 + x) * 64 + y) * 64).take(2))
        } else {
            None
        },
        (Some(w), Some(x), None, None) => if last && c == 0x3d && d == 0x3d {
            Some(bytes3((w * 64 + x) * 64 * 64).take(1))
        } else {
            None
        },
        _ => None,
    }
}

/// The bytes of the first `k` groups of `s`.
pub open spec fn groups(s: Seq<u8>, k: nat) -> Option<Seq<u8>>
    decreases k,
{
    if k == 0 {
        Some(seq![])
    } else {
        let i = 4 * (k - 1);
        match (groups(s, (k - 1) as nat), group(s[i], s[i + 1], s[i + 2], s[i + 3], 4 * k == s.len())) {
            (Some(a), Some(b)) => Some(a + b),
            _ => None,
        }
    }
}

/// What `s` stands for. Nothing where `s` is empty, does not consist of whole groups, or
/// holds a character that is not in the alphabet or an `=` out of place.
pub open spec fn decoded(s: Seq<u8>) -> Option<Seq<u8>> {
    if s.len() == 0 || s.len() % 4 != 0 {
        None
    } else {
        groups(s, s.len() / 4)
    }
}

proof fn groups_fail(s: Seq<u8>, k: nat, n: nat)
    requires
        groups(s, k) is None,
        k <= n,
    ensures
        groups(s, n) is None,
    decreases n,
{
    if k < n {
        groups_fail(s, k, (n - 1) as nat);
    }
}

/// The bytes of one group.
fn decode_group(a: u8, b: u8, c: u8, d: u8, last: bool) -> (r: Option<Vec<u8>>)
    ensures
        match r {
            Some(v) => group(a, b, c, d, last) == Some(v@),
            None => group(a, b, c, d, last) is None,
        },
{
    let (w, x) = match (b64_val(a), b64_val(b)) {
        (Some(w), Some(x)) => (w, x),
        _ => return None,
    };
    let mut pad: u32 = 0;
    let y: u32 = match b64_val(c) {
        Some(y) => y,
        None => {
            if !last || c != 0x3d {
                return None;
            }
            pad = 1;
            0
        },
    };
    let z: u32 = match b64_val(d) {
        Some(z) => {
            if pad > 0 {
                return None;
            }
            z
        },
        None => {
            if !last || d != 0x3d {
                return None;
            }
            pad = pad + 1;
            0
        },
    };
    let n: u32 = ((w * 64 + x) * 64 + y) * 64 + z;
    let mut v: Vec<u8> = Vec::new();
    v.push((n / 65536) as u8);
    if pad < 2 {
        v.push((n / 256 % 256) as u8);
    }
    if pad < 1 {
        v.push((n % 256) as u8);
    }
    assert(v@ =~= bytes3(n as int).take(3 - pad));
    assert(bytes3(n as int).take(3) =~= bytes3(n as int));
    Some(v)
}

/// Decodes standard base64 strictly; see [`decoded`].
pub fn base64_decode(s: &str) -> (r: Option<Vec<u8>>)
    ensures
        match r {
            Some(v) => decoded(s.spec_bytes()) == Some(v@),
            None => decoded(s.spec_bytes()) is None,
        },
{
    let bytes = s.as_bytes();
    let n: usize = bytes.len();
    if n == 0 || n % 4 != 0 {
        return None;
    }
    let chunks: usize = n / 4;
    let mut out: Vec<u8> = Vec::new();
    let mut i: usize = 0;
    while i < chunks
        invariant
            i <= chunks,
            n == bytes.len() == 4 * chunks,
            bytes@ == s.spec_bytes(),
            chunks == bytes@.len() / 4,
            n > 0,
            groups(bytes@, i as nat) == Some(out@),
        decreases chunks - i,
    {
        let j: usize = 4 * i;
        match decode_group(bytes[j], bytes[j + 1], bytes[j + 2], bytes[j + 3], i + 1 == chunks) {
            Some(mut g) => {
                let ghost before = out@;
                let ghost add = g@;
                out.append(&mut g);
                assert(out@ =~= before + add);
            },
            None => {
                proof {
                    groups_fail(bytes@, (i + 1) as nat, chunks as nat);
                }
                return None;
            },
        }
        i += 1;
    }
    Some(out)
}

/// The character of the alphabet with the value `v`.
#[verifier::opaque]
pub open spec fn letter(v: int) -> u8 {
    if v < 26 {
        (v + 0x41) as u8
    } else if v < 52 {
        (v - 26 + 0x61) as u8
    } else if v < 62 {
        (v - 52 + 0x30) as u8
    } else if v == 62 {
        0x2b
    } else {
        0x2f
    }
}

/// The four characters of a last byte.
#[verifier::opaque]
pub open spec fn quad1(a: u8) -> Seq<u8> {
    let n = a * 16;
    seq![letter(n / 64), letter(n % 64), 0x3d, 0x3d]
}

/// The four characters of two last bytes.
#[verifier::opaque]
pub open spec fn quad2(a: u8, b: u8) -> Seq<u8> {
    let n = (a * 256 + b) * 4;
    seq![letter(n / 4096), letter(n / 64 % 64), letter(n % 64), 0x3d]
}

/// The four characters of three bytes.
#[verifier::opaque]
pub open spec fn quad(a: u8, b: u8, c: u8) -> Seq<u8> {
    let n = (a * 256 + b) * 256 + c;
    seq![letter(n / 262144), letter(n / 4096 % 64), letter(n / 64 % 64), letter(n % 64)]
}

/// The base64 text of `x`, padded with `=` to whole groups.
pub open spec fn encoded(x: Seq<u8>) -> Seq<u8>
    decreases x.len(),
{
    if x.len() == 0 {
        seq![]
    } else if x.len() == 1 {
        quad1(x[0])
    } else if x.len() == 2 {
        quad2(x[0], x[1])
    } else {
        quad(x[0], x[1], x[2]) + encoded(x.skip(3))
    }
}

proof fn letter_val(v: int)
    requires
        0 <= v < 64,
    ensures
        val(letter(v)) == Some(v),
{
    reveal(letter);
}

/// The first group of a longer text goes first.
proof fn groups_front(q: Seq<u8>, t: Seq<u8>, k: nat)
    requires
        q.len() == 4,
        t.len() > 0,
        4 * k <= t.len(),
    ensures
        groups(q + t, k + 1) == match (group(q[0], q[1], q[2], q[3], false), groups(t, k)) {
            (Some(a), Some(b)) => Some(a + b),
            _ => None,
        },
    decreases k,
{
    let s = q + t;
    if k == 0 {
        assert(groups(s, 0) == Some(Seq::<u8>::empty()));
        assert(4 * 1 != s.len());
        assert(s[0] == q[0] && s[1] == q[1] && s[2] == q[2] && s[3] == q[3]);
        assert(groups(s, 1) == match group(q[0], q[1], q[2], q[3], false) {
            Some(b) => Some(Seq::<u8>::empty() + b),
            None => None,
        });
        match group(q[0], q[1], q[2], q[3], false) {
            Some(b) => {
                assert(Seq::<u8>::empty() + b =~= b + Seq::<u8>::empty());
            },
            None => {},
        }
    } else {
        groups_front(q, t, (k - 1) as nat);
        let i = 4 * (k - 1);
        assert(s[i + 4] == t[i] && s[i + 5] == t[i + 1] && s[i + 6] == t[i + 2] && s[i + 7] == t[i
            + 3]);
        let head = group(q[0], q[1], q[2], q[3], false);
        let mid = groups(t, (k - 1) as nat);
        let end = group(t[i], t[i + 1], t[i + 2], t[i + 3], 4 * k == t.len());
        if head is Some && mid is Some && end is Some {
            assert((head->0 + mid->0) + end->0 =~= head->0 + (mid->0 + end->0));
        }
    }
}

proof fn encoded_len(x: Seq<u8>)
    ensures
        encoded(x).len() % 4 == 0,
        x.len() > 0 ==> encoded(x).len() > 0,
    decreases x.len(),
{
    reveal(quad1);
    reveal(quad2);
    if x.len() >= 3 {
        reveal(quad);
        encoded_len(x.skip(3));
    }
}

proof fn group_one(a: u8)
    ensures
        ({
            let q = quad1(a);
            q.len() == 4 && group(q[0], q[1], q[2], q[3], true) == Some(seq![a])
        }),
{
    reveal(quad1);
    let n = a * 16;
    letter_val(n / 64);
    letter_val(n % 64);
    assert(n / 64 * 64 + n % 64 == n);
    assert(n * 4096 / 65536 == a);
    assert(bytes3(n * 4096).take(1) =~= seq![a]);
}

proof fn group_two(a: u8, b: u8)
    ensures
        ({
            let q = quad2(a, b);
            q.len() == 4 && group(q[0], q[1], q[2], q[3], true) == Some(seq![a, b])
        }),
{
    reveal(quad2);
    let n = (a * 256 + b) * 4;
    let p = n / 64;
    assert(n / 4096 == p / 64);
    letter_val(n / 4096);
    letter_val(n / 64 % 64);
    letter_val(n % 64);
    assert(p / 64 * 64 + p % 64 == p);
    assert(p * 64 + n % 64 == n);
    octets(a as int, b as int, 0);
    assert(n * 64 == (a * 256 + b) * 256 + 0);
    assert(bytes3(n * 64).take(2) =~= seq![a, b]);
}

proof fn sextets(n: int)
    requires
        0 <= n,
    ensures
        ((n / 262144 * 64 + n / 4096 % 64) * 64 + n / 64 % 64) * 64 + n % 64 == n,
{
    let p = n / 64;
    let q = p / 64;
    assert(n / 4096 == q);
    assert(n / 262144 == q / 64);
}

proof fn octets(a: int, b: int, c: int)
    requires
        0 <= a < 256,
        0 <= b < 256,
        0 <= c < 256,
    ensures
        ((a * 256 + b) * 256 + c) / 65536 == a,
        ((a * 256 + b) * 256 + c) / 256 % 256 == b,
        ((a * 256 + b) * 256 + c) % 256 == c,
        ((a * 256 + b) * 256 + c) / 262144 < 64,
{
    let m = a * 256 + b;
    assert((m * 256 + c) / 256 == m);
    assert(m % 256 == b);
}

proof fn group_three(a: u8, b: u8, c: u8, last: bool)
    ensures
        ({
            let q = quad(a, b, c);
            q.len() == 4 && group(q[0], q[1], q[2], q[3], last) == Some(seq![a, b, c])
        }),
{
    reveal(quad);
    let n = (a * 256 + b) * 256 + c;
    octets(a as int, b as int, c as int);
    sextets(n);
    letter_val(n / 262144);
    letter_val(n / 4096 % 64);
    letter_val(n / 64 % 64);
    letter_val(n % 64);
    assert(bytes3(n) =~= seq![a, b, c]);
}

proof fn groups_single(q: Seq<u8>)
    requires
        q.len() == 4,
        group(q[0], q[1], q[2], q[3], true) is Some,
    ensures
        decoded(q) == group(q[0], q[1], q[2], q[3], true),
{
    reveal_with_fuel(groups, 2);
    let g = group(q[0], q[1], q[2], q[3], true)->0;
    assert(Seq::<u8>::empty() + g =~= g);
}

/// Decoding gives back what was encoded.
pub proof fn decode_encode(x: Seq<u8>)
    requires
        x.len() > 0,
    ensures
        decoded(encoded(x)) == Some(x),
    decreases x.len(),
{
    let s = encoded(x);
    if x.len() == 1 {
        group_one(x[0]);
        groups_single(s);
        assert(seq![x[0]] =~= x);
    } else if x.len() == 2 {
        group_two(x[0], x[1]);
        groups_single(s);
        assert(seq![x[0], x[1]] =~= x);
    } else {
        group_three(x[0], x[1], x[2], true);
        group_three(x[0], x[1], x[2], false);
        let q = quad(x[0], x[1], x[2]);
        let t = encoded(x.skip(3));
        assert(s == q + t);
        if x.len() == 3 {
            assert(x.skip(3).len() == 0);
            assert(s =~= q);
            groups_single(q);
            assert(seq![x[0], x[1], x[2]] =~= x);
        } else {
            encoded_len(x.skip(3));
            decode_encode(x.skip(3));
            groups_front(q, t, t.len() / 4);
            assert(seq![x[0], x[1], x[2]] + x.skip(3) =~= x);
        }
    }
}

/// What decodes holds nothing but the alphabet, but for one or two `=` at its end.
pub proof fn decoded_is_strict(s: Seq<u8>, i: int)
    requires
        decoded(s) is Some,
        0 <= i < s.len(),
    ensures
        val(s[i]) is Some || (s[i] == 0x3d && i >= s.len() - 2),
        s[i] == 0x3d && i == s.len() - 2 ==> s[i + 1] == 0x3d,
{
    let k = i / 4;
    if groups(s, (k + 1) as nat) is None {
        groups_fail(s, (k + 1) as nat, s.len() / 4);
    }
}

} // verus!
