//! The MD5 message digest (RFC 1321).
use crate::number::{hex_bytes, hex_of_bytes};
use vstd::prelude::*;
use vstd::utf8::encode_utf8;

verus! {

/// The constant added in step `i`: the integer part of `2^32 * |sin(i + 1)|`.
pub open spec fn sine(i: int) -> u32 {
    if i == 0 {
        0xd76aa478
    } else if i == 1 {
        0xe8c7b756
    } else if i == 2 {
        0x242070db
    } else if i == 3 {
        0xc1bdceee
    } else if i == 4 {
        0xf57c0faf
    } else if i == 5 {
        0x4787c62a
    } else if i == 6 {
        0xa8304613
    } else if i == 7 {
        0xfd469501
    } else if i == 8 {
        0x698098d8
    } else if i == 9 {
        0x8b44f7af
    } else if i == 10 {
        0xffff5bb1
    } else if i == 11 {
        0x895cd7be
    } else if i == 12 {
        0x6b901122
    } else if i == 13 {
        0xfd987193
    } else if i == 14 {
        0xa679438e
    } else if i == 15 {
        0x49b40821
    } else if i == 16 {
        0xf61e2562
    } else if i == 17 {
        0xc040b340
    } else if i == 18 {
        0x265e5a51
    } else if i == 19 {
        0xe9b6c7aa
    } else if i == 20 {
        0xd62f105d
    } else if i == 21 {
        0x02441453
    } else if i == 22 {
        0xd8a1e681
    } else if i == 23 {
        0xe7d3fbc8
    } else if i == 24 {
        0x21e1cde6
    } else if i == 25 {
        0xc33707d6
    } else if i == 26 {
        0xf4d50d87
    } else if i == 27 {
        0x455a14ed
    } else if i == 28 {
        0xa9e3e905
    } else if i == 29 {
        0xfcefa3f8
    } else if i == 30 {
        0x676f02d9
    } else if i == 31 {
        0x8d2a4c8a
    } else if i == 32 {
        0xfffa3942
    } else if i == 33 {
        0x8771f681
    } else if i == 34 {
        0x6d9d6122
    } else if i == 35 {
        0xfde5380c
    } else if i == 36 {
        0xa4beea44
    } else if i == 37 {
        0x4bdecfa9
    } else if i == 38 {
        0xf6bb4b60
    } else if i == 39 {
        0xbebfbc70
    } else if i == 40 {
        0x289b7ec6
    } else if i == 41 {
        0xeaa127fa
    } else if i == 42 {
        0xd4ef3085
    } else if i == 43 {
        0x04881d05
    } else if i == 44 {
        0xd9d4d039
    } else if i == 45 {
        0xe6db99e5
    } else if i == 46 {
        0x1fa27cf8
    } else if i == 47 {
        0xc4ac5665
    } else if i == 48 {
        0xf4292244
    } else if i == 49 {
        0x432aff97
    } else if i == 50 {
        0xab9423a7
    } else if i == 51 {
        0xfc93a039
    } else if i == 52 {
        0x655b59c3
    } else if i == 53 {
        0x8f0ccc92
    } else if i == 54 {
        0xffeff47d
    } else if i == 55 {
        0x85845dd1
    } else if i == 56 {
        0x6fa87e4f
    } else if i == 57 {
        0xfe2ce6e0
    } else if i == 58 {
        0xa3014314
    } else if i == 59 {
        0x4e0811a1
    } else if i == 60 {
        0xf7537e82
    } else if i == 61 {
        0xbd3af235
    } else if i == 62 {
        0x2ad7d2bb
    } else if i == 63 {
        0xeb86d391
    } else {
        0
    }
}

fn sine_at(i: usize) -> (r: u32)
    ensures
        r == sine(i as int),
{
    match i {
        0 => 0xd76aa478,
        1 => 0xe8c7b756,
        2 => 0x242070db,
        3 => 0xc1bdceee,
        4 => 0xf57c0faf,
        5 => 0x4787c62a,
        6 => 0xa8304613,
        7 => 0xfd469501,
        8 => 0x698098d8,
        9 => 0x8b44f7af,
        10 => 0xffff5bb1,
        11 => 0x895cd7be,
        12 => 0x6b901122,
        13 => 0xfd987193,
        14 => 0xa679438e,
        15 => 0x49b40821,
        16 => 0xf61e2562,
        17 => 0xc040b340,
        18 => 0x265e5a51,
        19 => 0xe9b6c7aa,
        20 => 0xd62f105d,
        21 => 0x02441453,
        22 => 0xd8a1e681,
        23 => 0xe7d3fbc8,
        24 => 0x21e1cde6,
        25 => 0xc33707d6,
        26 => 0xf4d50d87,
        27 => 0x455a14ed,
        28 => 0xa9e3e905,
        29 => 0xfcefa3f8,
        30 => 0x676f02d9,
        31 => 0x8d2a4c8a,
        32 => 0xfffa3942,
        33 => 0x8771f681,
        34 => 0x6d9d6122,
        35 => 0xfde5380c,
        36 => 0xa4beea44,
        37 => 0x4bdecfa9,
        38 => 0xf6bb4b60,
        39 => 0xbebfbc70,
        40 => 0x289b7ec6,
        41 => 0xeaa127fa,
        42 => 0xd4ef3085,
        43 => 0x04881d05,
        44 => 0xd9d4d039,
        45 => 0xe6db99e5,
        46 => 0x1fa27cf8,
        47 => 0xc4ac5665,
        48 => 0xf4292244,
        49 => 0x432aff97,
        50 => 0xab9423a7,
        51 => 0xfc93a039,
        52 => 0x655b59c3,
        53 => 0x8f0ccc92,
        54 => 0xffeff47d,
        55 => 0x85845dd1,
        56 => 0x6fa87e4f,
        57 => 0xfe2ce6e0,
        58 => 0xa3014314,
        59 => 0x4e0811a1,
        60 => 0xf7537e82,
        61 => 0xbd3af235,
        62 => 0x2ad7d2bb,
        63 => 0xeb86d391,
        _ => 0,
    }
}

/// The number of bits by which step `i` rotates.
pub open spec fn turn(i: int) -> u32 {
    let j = i % 4;
    if i < 16 {
        if j == 0 { 7 } else if j == 1 { 12 } else if j == 2 { 17 } else { 22 }
    } else if i < 32 {
        if j == 0 { 5 } else if j == 1 { 9 } else if j == 2 { 14 } else { 20 }
    } else if i < 48 {
        if j == 0 { 4 } else if j == 1 { 11 } else if j == 2 { 16 } else { 23 }
    } else {
        if j == 0 { 6 } else if j == 1 { 10 } else if j == 2 { 15 } else { 21 }
    }
}

fn turn_at(i: usize) -> (r: u32)
    ensures
        r == turn(i as int),
        0 < r < 32,
{
    let j: usize = i % 4;
    if i < 16 {
        if j == 0 { 7 } else if j == 1 { 12 } else if j == 2 { 17 } else { 22 }
    } else if i < 32 {
        if j == 0 { 5 } else if j == 1 { 9 } else if j == 2 { 14 } else { 20 }
    } else if i < 48 {
        if j == 0 { 4 } else if j == 1 { 11 } else if j == 2 { 16 } else { 23 }
    } else {
        if j == 0 { 6 } else if j == 1 { 10 } else if j == 2 { 15 } else { 21 }
    }
}

/// `x` with its bits rotated to the left by `n`.
pub open spec fn rotl(x: u32, n: u32) -> u32 {
    (x << n) | (x >> ((32 - n) as u32))
}

/// The four bytes of `x`, the least significant first.
pub open spec fn le32(x: u32) -> Seq<u8> {
    seq![x as u8, (x >> 8) as u8, (x >> 16) as u8, (x >> 24) as u8]
}

/// The eight bytes of `x`, the least significant first.
pub open spec fn le64(x: u64) -> Seq<u8> {
    seq![
        x as u8,
        (x >> 8) as u8,
        (x >> 16) as u8,
        (x >> 24) as u8,
        (x >> 32) as u8,
        (x >> 40) as u8,
        (x >> 48) as u8,
        (x >> 56) as u8,
    ]
}

/// The number of zero bytes that fill a message of `n` bytes up, so that the
/// length field ends a block.
pub open spec fn fill(n: int) -> int {
    (119 - n % 64) % 64
}

/// The message in whole blocks: a byte with its highest bit set, zeros, and
/// the length in bits, modulo `2^64`.
pub open spec fn padded(data: Seq<u8>) -> Seq<u8> {
    data.push(0x80) + Seq::new(fill(data.len() as int) as nat, |i: int| 0u8) + le64(
        ((data.len() * 8) % 0x1_0000_0000_0000_0000) as u64,
    )
}

/// Word `i` of the block of `msg` that starts at byte `base`.
pub open spec fn word(msg: Seq<u8>, base: int, i: int) -> u32 {
    let p = base + 4 * i;
    (msg[p] as u32) | ((msg[p + 1] as u32) << 8) | ((msg[p + 2] as u32) << 16) | ((msg[p
        + 3] as u32) << 24)
}

/// The four words of the digest state.
#[derive(Clone, Copy)]
pub struct Md5State {
    pub a: u32,
    pub b: u32,
    pub c: u32,
    pub d: u32,
}

/// The state before the first block.
pub open spec fn initial() -> Md5State {
    Md5State { a: 0x67452301, b: 0xefcdab89, c: 0x98badcfe, d: 0x10325476 }
}

/// The mixing function of step `i`.
pub open spec fn mix(s: Md5State, i: int) -> u32 {
    if i < 16 {
        (s.b & s.c) | ((!s.b) & s.d)
    } else if i < 32 {
        (s.d & s.b) | ((!s.d) & s.c)
    } else if i < 48 {
        s.b ^ s.c ^ s.d
    } else {
        s.c ^ (s.b | (!s.d))
    }
}

/// The word of the block that step `i` takes in.
pub open spec fn pick(i: int) -> int {
    if i < 16 {
        i
    } else if i < 32 {
        (5 * i + 1) % 16
    } else if i < 48 {
        (3 * i + 5) % 16
    } else {
        (7 * i) % 16
    }
}

/// Step `i` on the block of `msg` that starts at byte `base`.
pub open spec fn step(s: Md5State, msg: Seq<u8>, base: int, i: int) -> Md5State {
    let f = mix(s, i).wrapping_add(s.a).wrapping_add(sine(i)).wrapping_add(
        word(msg, base, pick(i)),
    );
    Md5State { a: s.d, b: s.b.wrapping_add(rotl(f, turn(i))), c: s.b, d: s.c }
}

/// The first `n` steps on a block.
pub open spec fn steps(s: Md5State, msg: Seq<u8>, base: int, n: int) -> Md5State
    decreases n,
{
    if n <= 0 {
        s
    } else {
        step(steps(s, msg, base, n - 1), msg, base, n - 1)
    }
}

/// The state after a block.
pub open spec fn absorb(s: Md5State, msg: Seq<u8>, base: int) -> Md5State {
    let t = steps(s, msg, base, 64);
    Md5State {
        a: s.a.wrapping_add(t.a),
        b: s.b.wrapping_add(t.b),
        c: s.c.wrapping_add(t.c),
        d: s.d.wrapping_add(t.d),
    }
}

/// The state after the first `n` blocks of `msg`.
pub open spec fn absorbed(msg: Seq<u8>, n: int) -> Md5State
    decreases n,
{
    if n <= 0 {
        initial()
    } else {
        absorb(absorbed(msg, n - 1), msg, 64 * (n - 1))
    }
}

/// The MD5 digest of `data`.
pub open spec fn md5(data: Seq<u8>) -> Seq<u8> {
    let msg = padded(data);
    let s = absorbed(msg, msg.len() as int / 64);
    le32(s.a) + le32(s.b) + le32(s.c) + le32(s.d)
}

fn word_at(msg: &Vec<u8>, base: usize, i: usize) -> (r: u32)
    requires
        i < 16,
        base + 64 <= msg.len(),
    ensures
        r == word(msg@, base as int, i as int),
{
    let p: usize = base + 4 * i;
    (msg[p] as u32) | ((msg[p + 1] as u32) << 8) | ((msg[p + 2] as u32) << 16) | ((msg[p
        + 3] as u32) << 24)
}

fn step_exec(s: Md5State, msg: &Vec<u8>, base: usize, i: usize) -> (r: Md5State)
    requires
        i < 64,
        base + 64 <= msg.len(),
    ensures
        r == step(s, msg@, base as int, i as int),
{
    let f: u32;
    let g: usize;
    if i < 16 {
        f = (s.b & s.c) | ((!s.b) & s.d);
        g = i;
    } else if i < 32 {
        f = (s.d & s.b) | ((!s.d) & s.c);
        g = (5 * i + 1) % 16;
    } else if i < 48 {
        f = s.b ^ s.c ^ s.d;
        g = (3 * i + 5) % 16;
    } else {
        f = s.c ^ (s.b | (!s.d));
        g = (7 * i) % 16;
    }
    let f: u32 = f.wrapping_add(s.a).wrapping_add(sine_at(i)).wrapping_add(word_at(msg, base, g));
    let n: u32 = turn_at(i);
    let r: u32 = (f << n) | (f >> (32 - n));
    Md5State { a: s.d, b: s.b.wrapping_add(r), c: s.b, d: s.c }
}

fn absorb_exec(s: Md5State, msg: &Vec<u8>, base: usize) -> (r: Md5State)
    requires
        base + 64 <= msg.len(),
    ensures
        r == absorb(s, msg@, base as int),
{
    let mut t = s;
    let mut i: usize = 0;
    while i < 64
        invariant
            i <= 64,
            base + 64 <= msg.len(),
            t == steps(s, msg@, base as int, i as int),
        decreases 64 - i,
    {
        t = step_exec(t, msg, base, i);
        i = i + 1;
    }
    Md5State {
        a: s.a.wrapping_add(t.a),
        b: s.b.wrapping_add(t.b),
        c: s.c.wrapping_add(t.c),
        d: s.d.wrapping_add(t.d),
    }
}

fn push_le64(msg: &mut Vec<u8>, bits: u64)
    ensures
        final(msg)@ == old(msg)@ + le64(bits),
        le64(bits).len() == 8,
{
    msg.push(bits as u8);
    msg.push((bits >> 8) as u8);
    msg.push((bits >> 16) as u8);
    msg.push((bits >> 24) as u8);
    msg.push((bits >> 32) as u8);
    msg.push((bits >> 40) as u8);
    msg.push((bits >> 48) as u8);
    msg.push((bits >> 56) as u8);
    assert(msg@ =~= old(msg)@ + le64(bits));
}

#[verifier::spinoff_prover]
fn pad(data: &[u8]) -> (msg: Vec<u8>)
    ensures
        msg@ == padded(data@),
        msg@.len() % 64 == 0,
{
    let n: usize = data.len();
    let bits: u64 = (n as u64).wrapping_mul(8);
    let mut msg: Vec<u8> = vstd::slice::slice_to_vec(data);
    msg.push(0x80);
    let k: usize = (119 - n % 64) % 64;
    let mut j: usize = 0;
    while j < k
        invariant
            j <= k,
            msg@ =~= data@.push(0x80) + Seq::new(j as nat, |i: int| 0u8),
        decreases k - j,
    {
        msg.push(0);
        j = j + 1;
    }
    push_le64(&mut msg, bits);
    msg
}

/// The MD5 digest of `data`.
pub fn md5_compute(data: &[u8]) -> (r: [u8; 16])
    ensures
        r@ == md5(data@),
{
    let msg = pad(data);
    let blocks: usize = msg.len() / 64;
    let mut s = Md5State { a: 0x67452301, b: 0xefcdab89, c: 0x98badcfe, d: 0x10325476 };
    let mut n: usize = 0;
    while n < blocks
        invariant
            n <= blocks,
            64 * blocks <= msg.len(),
            s == absorbed(msg@, n as int),
        decreases blocks - n,
    {
        s = absorb_exec(s, &msg, 64 * n);
        n = n + 1;
    }
    let r: [u8; 16] = [
        s.a as u8,
        (s.a >> 8) as u8,
        (s.a >> 16) as u8,
        (s.a >> 24) as u8,
        s.b as u8,
        (s.b >> 8) as u8,
        (s.b >> 16) as u8,
        (s.b >> 24) as u8,
        s.c as u8,
        (s.c >> 8) as u8,
        (s.c >> 16) as u8,
        (s.c >> 24) as u8,
        s.d as u8,
        (s.d >> 8) as u8,
        (s.d >> 16) as u8,
        (s.d >> 24) as u8,
    ];
    assert(r@ =~= md5(data@));
    r
}

/// The MD5 digest of a text in UTF-8, in hexadecimal.
pub open spec fn md5_text(s: Seq<char>) -> Seq<char> {
    hex_bytes(md5(encode_utf8(s)))
}

/// The MD5 digest of a text, in hexadecimal.
pub fn md5_hex(input: &str) -> (r: String)
    ensures
        r@ == md5_text(input@),
{
    let digest = md5_compute(input.as_bytes());
    hex_of_bytes(digest.as_slice())
}

/// A digest has sixteen bytes, and thirty-two hexadecimal digits.
pub proof fn law_md5_len(s: Seq<char>)
    ensures
        md5(encode_utf8(s)).len() == 16,
        md5_text(s).len() == 32,
{
    crate::number::lemma_hex_bytes_len(md5(encode_utf8(s)));
}

} // verus!
