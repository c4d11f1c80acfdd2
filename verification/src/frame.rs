//! Frames of the engine protocol: four bytes of length, least significant first, and as
//! many bytes of JSON.

use vstd::prelude::*;

verus! {

/// The longest body of a frame.
pub const FRAME_MAX: usize = 1048576;

/// The four bytes of a length, least significant first.
pub open spec fn le4(n: int) -> Seq<u8> {
    seq![
        (n % 256) as u8,
        (n / 256 % 256) as u8,
        (n / 65536 % 256) as u8,
        (n / 16777216 % 256) as u8,
    ]
}

/// The length that four bytes give.
pub open spec fn le4_value(a: u8, b: u8, c: u8, d: u8) -> int {
    a + 256 * b + 65536 * c + 16777216 * d
}

/// The frame of a request body; nothing where the body is too long for a frame.
pub fn frame(body: &Vec<u8>) -> (r: Option<Vec<u8>>)
    ensures
        match r {
            Some(f) => body.len() <= FRAME_MAX && f@ == le4(body.len() as int) + body@,
            None => body.len() > FRAME_MAX,
        },
        r matches Some(f) ==> f.len() == 4 + body.len() && f@.skip(4) == body@ && f[0] + 0x100 * f[1]
            + 0x10000 * f[2] + 0x1000000 * f[3] == body.len(),
        r is None <==> body.len() > 0x100000,
{
    if body.len() > FRAME_MAX {
        return None;
    }
    let n: u32 = body.len() as u32;
    let mut f: Vec<u8> = Vec::new();
    f.push((n % 256) as u8);
    f.push((n / 256 % 256) as u8);
    f.push((n / 65536 % 256) as u8);
    f.push((n / 16777216 % 256) as u8);
    assert(f@ =~= le4(n as int));
    f.extend_from_slice(body.as_slice());
    assert(f@ =~= le4(n as int) + body@);
    assert(f@.skip(4) =~= body@);
    proof {
        head_gives_length(n as int);
    }
    Some(f)
}

/// The length of a reply body from the head of its frame; nothing where a reply may not
/// have that length.
pub fn reply_len(head: [u8; 4]) -> (r: Option<usize>)
    ensures
        ({
            let n = le4_value(head[0], head[1], head[2], head[3]);
            match r {
                Some(k) => k == n && 0 < n <= FRAME_MAX,
                None => n == 0 || n > FRAME_MAX,
            }
        }),
        ({
            let n = head[0] + 0x100 * head[1] + 0x10000 * head[2] + 0x1000000 * head[3];
            r == if 0 < n <= 0x100000 {
                Some(n as usize)
            } else {
                None
            }
        }),
{
    let n: u64 = head[0] as u64 + 256 * (head[1] as u64) + 65536 * (head[2] as u64) + 16777216 * (
    head[3] as u64);
    if n == 0 || n > FRAME_MAX as u64 {
        None
    } else {
        Some(n as usize)
    }
}

/// The head of a frame gives back the length of its body.
pub proof fn head_gives_length(n: int)
    requires
        0 <= n <= FRAME_MAX,
    ensures
        le4_value(le4(n)[0], le4(n)[1], le4(n)[2], le4(n)[3]) == n,
{
    let p = n / 256;
    assert(n / 65536 == p / 256);
    assert(n / 16777216 == 0);
}

} // verus!
