//! Numbers as text: decimal and hexadecimal digits, and reading decimal numbers.
use vstd::prelude::*;
use vstd::slice::slice_subrange;

verus! {

// ---------------------------------------------------------------------------
// Writing
// ---------------------------------------------------------------------------

/// The decimal digit for `d`.
pub open spec fn digit(d: nat) -> char {
    (('0' as nat) + d) as char
}

/// `n` in decimal, without leading zeros.
pub open spec fn dec(n: nat) -> Seq<char>
    decreases n,
{
    if n < 10 {
        seq![digit(n)]
    } else {
        dec(n / 10).push(digit(n % 10))
    }
}

fn digit_char(d: u8) -> (c: char)
    requires
        d < 10,
    ensures
        c == digit(d as nat),
{
    (48u8 + d) as char
}

/// Appends `n` in decimal.
pub fn push_dec(out: &mut String, n: u64)
    ensures
        final(out)@ == old(out)@ + dec(n as nat),
    decreases n,
{
    if n >= 10 {
        push_dec(out, n / 10);
    }
    let c = digit_char((n % 10) as u8);
    out.push(c);
    proof {
        if n >= 10 {
            assert(out@ =~= old(out)@ + dec(n as nat / 10).push(c));
        } else {
            assert(out@ =~= old(out)@ + seq![c]);
        }
    }
}

/// `n` in decimal.
pub fn dec_string(n: u64) -> (s: String)
    ensures
        s@ == dec(n as nat),
{
    let mut s = String::new();
    push_dec(&mut s, n);
    assert(s@ =~= dec(n as nat));
    s
}

/// `n` in decimal.
pub fn dec_usize(n: usize) -> (s: String)
    ensures
        s@ == dec(n as nat),
{
    dec_string(n as u64)
}

/// The lower-case hexadecimal digit for `d`.
pub open spec fn hex_digit(d: nat) -> char {
    if d < 10 {
        (('0' as nat) + d) as char
    } else {
        (('a' as nat) + (d - 10)) as char
    }
}

/// `n` in lower-case hexadecimal, without leading zeros.
pub open spec fn hex(n: nat) -> Seq<char>
    decreases n,
{
    if n < 16 {
        seq![hex_digit(n)]
    } else {
        hex(n / 16).push(hex_digit(n % 16))
    }
}

fn hex_char(d: u8) -> (c: char)
    requires
        d < 16,
    ensures
        c == hex_digit(d as nat),
{
    if d < 10 {
        (48u8 + d) as char
    } else {
        (87u8 + d) as char
    }
}

/// Appends `n` in lower-case hexadecimal.
pub fn push_hex(out: &mut String, n: u64)
    ensures
        final(out)@ == old(out)@ + hex(n as nat),
    decreases n,
{
    if n >= 16 {
        push_hex(out, n / 16);
    }
    let c = hex_char((n % 16) as u8);
    out.push(c);
    proof {
        if n >= 16 {
            assert(out@ =~= old(out)@ + hex(n as nat / 16).push(c));
        } else {
            assert(out@ =~= old(out)@ + seq![c]);
        }
    }
}

/// `b` as two lower-case hexadecimal digits.
pub open spec fn hex_byte(b: u8) -> Seq<char> {
    seq![hex_digit(b as nat / 16), hex_digit(b as nat % 16)]
}

/// Each byte as two lower-case hexadecimal digits.
pub open spec fn hex_bytes(bytes: Seq<u8>) -> Seq<char>
    decreases bytes.len(),
{
    if bytes.len() == 0 {
        seq![]
    } else {
        hex_bytes(bytes.drop_last()) + hex_byte(bytes.last())
    }
}

/// Two digits for each byte.
pub proof fn lemma_hex_bytes_len(bytes: Seq<u8>)
    ensures
        hex_bytes(bytes).len() == 2 * bytes.len(),
    decreases bytes.len(),
{
    if bytes.len() > 0 {
        lemma_hex_bytes_len(bytes.drop_last());
    }
}

/// Each byte as two lower-case hexadecimal digits.
pub fn hex_of_bytes(bytes: &[u8]) -> (s: String)
    ensures
        s@ == hex_bytes(bytes@),
{
    let mut s = String::new();
    let n: usize = bytes.len();
    let mut i: usize = 0;
    assert(s@ =~= hex_bytes(bytes@.take(0)));
    while i < n
        invariant
            n == bytes@.len(),
            i <= n,
            s@ == hex_bytes(bytes@.take(i as int)),
        decreases n - i,
    {
        let b: u8 = bytes[i];
        let ghost before = s@;
        s.push(hex_char(b / 16));
        s.push(hex_char(b % 16));
        proof {
            assert(s@ =~= before + hex_byte(b));
            assert(bytes@.take(i + 1).drop_last() =~= bytes@.take(i as int));
            assert(bytes@.take(i + 1).last() == b);
        }
        i = i + 1;
    }
    assert(bytes@.take(n as int) =~= bytes@);
    s
}

// ---------------------------------------------------------------------------
// Reading
// ---------------------------------------------------------------------------

/// Whether `c` is a decimal digit.
pub open spec fn is_digit(c: char) -> bool {
    '0' <= c <= '9'
}

/// Whether `s` consists of decimal digits.
pub open spec fn all_digits(s: Seq<char>) -> bool {
    forall|i: int| 0 <= i < s.len() ==> is_digit(#[trigger] s[i])
}

/// The number that the digits of `s` denote.
pub open spec fn dec_value(s: Seq<char>) -> nat
    decreases s.len(),
{
    if s.len() == 0 {
        0
    } else {
        (dec_value(s.drop_last()) * 10 + (s.last() as nat - '0' as nat)) as nat
    }
}

/// `s` without a leading plus sign.
pub open spec fn unsigned_part(s: Seq<char>) -> Seq<char> {
    if s.len() > 0 && s[0] == '+' {
        s.skip(1)
    } else {
        s
    }
}

/// The number up to `max` that `s` denotes: one or more decimal digits, behind
/// an optional plus sign.
pub open spec fn uint_of(s: Seq<char>, max: nat) -> Option<nat> {
    let d = unsigned_part(s);
    if d.len() > 0 && all_digits(d) && dec_value(d) <= max {
        Some(dec_value(d))
    } else {
        None
    }
}

proof fn lemma_dec_value_grows(s: Seq<char>, k: int)
    requires
        0 <= k <= s.len(),
        all_digits(s),
    ensures
        dec_value(s.take(k)) <= dec_value(s),
    decreases s.len(),
{
    if k < s.len() {
        assert(s.drop_last().take(k) =~= s.take(k));
        assert forall|i: int| 0 <= i < s.len() - 1 implies is_digit(#[trigger] s.drop_last()[i]) by {
            assert(is_digit(s[i]));
        }
        lemma_dec_value_grows(s.drop_last(), k);
        assert(is_digit(s[s.len() - 1]));
    } else {
        assert(s.take(k) =~= s);
    }
}

/// Reads the number up to `max` that `cs` denotes.
pub fn parse_uint(cs: &[char], max: u64) -> (r: Option<u64>)
    ensures
        match r {
            Some(v) => uint_of(cs@, max as nat) == Some(v as nat) && v <= max,
            None => uint_of(cs@, max as nat) is None,
        },
{
    let d = if cs.len() > 0 && cs[0] == '+' {
        slice_subrange(cs, 1, cs.len())
    } else {
        cs
    };
    assert(d@ =~= unsigned_part(cs@));
    let n: usize = d.len();
    if n == 0 {
        return None;
    }
    let mut v: u64 = 0;
    let mut i: usize = 0;
    assert(d@.take(0).len() == 0);
    while i < n
        invariant
            n == d@.len(),
            n > 0,
            d@ == unsigned_part(cs@),
            i <= n,
            v == dec_value(d@.take(i as int)),
            v <= max,
            forall|j: int| 0 <= j < i ==> is_digit(#[trigger] d@[j]),
        decreases n - i,
    {
        let c = d[i];
        if c < '0' || c > '9' {
            assert(!is_digit(d@[i as int]));
            return None;
        }
        let x: u64 = (c as u32 - 48) as u64;
        proof {
            assert(d@.take(i + 1).drop_last() =~= d@.take(i as int));
            assert(d@.take(i + 1).last() == c);
            assert(dec_value(d@.take(i + 1)) == v * 10 + x);
        }
        if v > (u64::MAX - x) / 10 || v * 10 + x > max {
            proof {
                if all_digits(d@) {
                    lemma_dec_value_grows(d@, i + 1);
                }
            }
            return None;
        }
        v = v * 10 + x;
        i = i + 1;
    }
    assert(d@.take(n as int) =~= d@);
    Some(v)
}

/// A number written in decimal reads back as itself.
pub proof fn lemma_dec_reads_back(n: nat, max: nat)
    requires
        n <= max,
    ensures
        uint_of(dec(n), max) == Some(n),
        dec(n).len() > 0,
        all_digits(dec(n)),
        dec_value(dec(n)) == n,
    decreases n,
{
    lemma_dec_digits(n);
    assert(is_digit(dec(n)[0]));
    assert(dec(n)[0] != '+');
}

/// `dec` gives digits that denote the number.
pub proof fn lemma_dec_digits(n: nat)
    ensures
        dec(n).len() > 0,
        all_digits(dec(n)),
        dec_value(dec(n)) == n,
    decreases n,
{
    reveal_with_fuel(dec_value, 2);
    if n >= 10 {
        lemma_dec_digits(n / 10);
        assert(dec(n).drop_last() =~= dec(n / 10));
        assert(dec(n).last() == digit(n % 10));
        assert forall|i: int| 0 <= i < dec(n).len() implies is_digit(#[trigger] dec(n)[i]) by {
            if i < dec(n).len() - 1 {
                assert(dec(n)[i] == dec(n / 10)[i]);
            }
        }
    } else {
        assert(dec(n).drop_last() =~= seq![]);
    }
}

/// Numbers are written with the digits of their places: the last digit is what is
/// left of the number modulo the base, and the digits before it are those of the
/// rest. No zero stands in front.
pub proof fn law_places(n: nat, d: nat)
    ensures
        d < 10 ==> dec(d) == seq![('0' as u32 + d) as char],
        d < 10 && n > 0 ==> dec(10 * n + d) == dec(n).push(('0' as u32 + d) as char),
        d < 10 ==> hex(d) == seq![('0' as u32 + d) as char],
        10 <= d < 16 ==> hex(d) == seq![('a' as u32 + d - 10) as char],
        d < 16 && n > 0 ==> hex(16 * n + d) == hex(n) + hex(d),
{
    assert(d < 10 ==> (10 * n + d) / 10 == n && (10 * n + d) % 10 == d);
    assert(d < 16 ==> (16 * n + d) / 16 == n && (16 * n + d) % 16 == d);
    if d < 16 && n > 0 {
        assert(hex(16 * n + d) =~= hex(n) + hex(d));
    }
}

/// Each byte is written with two digits, the more significant first.
pub proof fn law_hex_bytes(bytes: Seq<u8>, i: int)
    requires
        0 <= i < bytes.len(),
    ensures
        hex_bytes(bytes).len() == 2 * bytes.len(),
        hex(bytes[i] as nat / 16) == seq![hex_bytes(bytes)[2 * i]],
        hex(bytes[i] as nat % 16) == seq![hex_bytes(bytes)[2 * i + 1]],
    decreases bytes.len(),
{
    lemma_hex_bytes_len(bytes);
    lemma_hex_bytes_len(bytes.drop_last());
    if i < bytes.len() - 1 {
        law_hex_bytes(bytes.drop_last(), i);
    }
}

/// A number is read by the places of its digits; a sign in front changes nothing,
/// and what is no number, or greater than the limit, is not read.
pub proof fn law_number_read(s: Seq<char>, d: char, max: nat, bound: nat)
    ensures
        '0' <= d <= '9' ==> uint_of(seq![d], max) == (if d as u32 - '0' as u32 <= max {
            Some((d as u32 - '0' as u32) as nat)
        } else {
            None
        }),
        uint_of(s, bound) is Some && '0' <= d <= '9' && 10 * uint_of(s, bound)->0 + (d as u32
            - '0' as u32) <= max ==> uint_of(s.push(d), max) == Some(
            (10 * uint_of(s, bound)->0 + (d as u32 - '0' as u32)) as nat,
        ),
        uint_of(s, bound) is Some && uint_of(s, bound)->0 > max ==> uint_of(s, max) is None,
        s.len() > 0 && s[0] != '+' ==> uint_of(seq!['+'] + s, max) == uint_of(s, max),
        uint_of(Seq::<char>::empty(), max) is None,
        !('0' <= d <= '9') ==> uint_of(s.push(d), max) is None,
{
    reveal_with_fuel(dec_value, 2);
    if '0' <= d <= '9' {
        let one = seq![d];
        assert(unsigned_part(one) =~= one);
        assert(one.drop_last().len() == 0);
        assert(one.last() == d);
        assert(all_digits(one));
    }
    let u = unsigned_part(s);
    let p = s.push(d);
    if s.len() > 0 {
        assert(unsigned_part(p) =~= u.push(d));
        assert(u.push(d).drop_last() =~= u);
        assert(u.push(d).last() == d);
        if all_digits(u) && '0' <= d <= '9' {
            assert(all_digits(u.push(d)));
        }
    }
    if !('0' <= d <= '9') {
        let w = unsigned_part(p);
        if w.len() > 0 {
            assert(w[w.len() - 1] == d);
            assert(!is_digit(w[w.len() - 1]));
        }
    }
    if s.len() > 0 && s[0] != '+' {
        assert((seq!['+'] + s).skip(1) =~= s);
    }
}

} // verus!
