//! Colours and columns on a terminal.
use crate::case::{ascii_upper_text, ascii_uppered};
use crate::number::{dec, dec_string, hex, push_hex};
use crate::text::chars_of;
use vstd::prelude::*;
use vstd::utf8::{
    decode_utf8, encode_utf8, encode_utf8_decode_utf8, is_ascii_chars,
    is_ascii_chars_encode_utf8, is_char_boundary,
};

verus! {

// ---------------------------------------------------------------------------
// Colours
// ---------------------------------------------------------------------------

#[derive(Debug, Clone, Copy, PartialEq, Eq, Structural)]
pub enum Color {
    Cyan,
    Green,
    Yellow,
    Red,
    Magenta,
    Blue,
    DarkGrey,
    White,
    DarkRed,
}

/// The sequence that sets the colour of text; nothing where colours are off.
pub open spec fn fg(on: bool, color: Color) -> Seq<char> {
    if !on {
        ""@
    } else {
        match color {
            Color::Cyan => "\x1b[36m"@,
            Color::Green => "\x1b[32m"@,
            Color::Yellow => "\x1b[33m"@,
            Color::Red => "\x1b[31m"@,
            Color::Magenta => "\x1b[35m"@,
            Color::Blue => "\x1b[34m"@,
            Color::DarkGrey => "\x1b[90m"@,
            Color::White => "\x1b[37m"@,
            Color::DarkRed => "\x1b[91m"@,
        }
    }
}

/// The sequence that sets the colour of text; nothing where colours are off.
pub fn ansi_fg(on: bool, color: Color) -> (r: &'static str)
    ensures
        r@ == fg(on, color),
{
    if !on {
        ""
    } else {
        match color {
            Color::Cyan => "\x1b[36m",
            Color::Green => "\x1b[32m",
            Color::Yellow => "\x1b[33m",
            Color::Red => "\x1b[31m",
            Color::Magenta => "\x1b[35m",
            Color::Blue => "\x1b[34m",
            Color::DarkGrey => "\x1b[90m",
            Color::White => "\x1b[37m",
            Color::DarkRed => "\x1b[91m",
        }
    }
}

/// The sequence that sets bold text; nothing where colours are off.
pub open spec fn bold(on: bool) -> Seq<char> {
    if on {
        "\x1b[1m"@
    } else {
        ""@
    }
}

pub fn ansi_bold(on: bool) -> (r: &'static str)
    ensures
        r@ == bold(on),
{
    if on {
        "\x1b[1m"
    } else {
        ""
    }
}

/// The sequence that goes back to plain text; nothing where colours are off.
pub open spec fn reset(on: bool) -> Seq<char> {
    if on {
        "\x1b[0m"@
    } else {
        ""@
    }
}

pub fn ansi_reset(on: bool) -> (r: &'static str)
    ensures
        r@ == reset(on),
{
    if on {
        "\x1b[0m"
    } else {
        ""
    }
}

/// The sequence that empties the line of the cursor.
pub fn clear_current_line() -> (r: &'static str)
    ensures
        r@ == "\r\x1b[2K"@,
{
    "\r\x1b[2K"
}

// ---------------------------------------------------------------------------
// Columns
// ---------------------------------------------------------------------------

/// `n` times the character `c`.
pub open spec fn repeated(c: char, n: nat) -> Seq<char> {
    Seq::new(n, |i: int| c)
}

/// Appends `n` times the character `c`.
pub fn push_repeated(out: &mut String, c: char, n: usize)
    ensures
        final(out)@ == old(out)@ + repeated(c, n as nat),
{
    let mut i: usize = 0;
    assert(out@ =~= old(out)@ + repeated(c, 0));
    while i < n
        invariant
            i <= n,
            out@ == old(out)@ + repeated(c, i as nat),
        decreases n - i,
    {
        out.push(c);
        i = i + 1;
        assert(out@ =~= old(out)@ + repeated(c, i as nat));
    }
}

/// What is missing from a text to a width.
pub open spec fn missing(s: Seq<char>, width: nat) -> nat {
    if s.len() < width {
        (width - s.len()) as nat
    } else {
        0
    }
}

/// `s` at the left of a column.
pub open spec fn at_left(s: Seq<char>, width: nat) -> Seq<char> {
    s + repeated(' ', missing(s, width))
}

/// `s` at the right of a column that is filled up with `fill`.
pub open spec fn at_right(s: Seq<char>, width: nat, fill: char) -> Seq<char> {
    repeated(fill, missing(s, width)) + s
}

/// `s` in the middle of a column; what cannot be halved stands behind it.
pub open spec fn centred(s: Seq<char>, width: nat) -> Seq<char> {
    let m = missing(s, width);
    repeated(' ', m / 2) + s + repeated(' ', (m - m / 2) as nat)
}

fn gap(s: &str, width: usize) -> (r: usize)
    ensures
        r == missing(s@, width as nat),
{
    let cs = chars_of(s);
    if cs.len() < width {
        width - cs.len()
    } else {
        0
    }
}

/// `s` at the left of a column.
pub fn pad_right(s: &str, width: usize) -> (r: String)
    ensures
        r@ == at_left(s@, width as nat),
{
    let mut out = s.to_owned();
    push_repeated(&mut out, ' ', gap(s, width));
    out
}

/// `s` at the right of a column that is filled up with `fill`.
pub fn pad_left(s: &str, width: usize, fill: char) -> (r: String)
    ensures
        r@ == at_right(s@, width as nat, fill),
{
    let mut out = String::new();
    push_repeated(&mut out, fill, gap(s, width));
    assert(out@ =~= repeated(fill, missing(s@, width as nat)));
    out.append(s);
    out
}

/// `s` in the middle of a column.
pub fn center(s: &str, width: usize) -> (r: String)
    ensures
        r@ == centred(s@, width as nat),
{
    let m: usize = gap(s, width);
    let mut out = String::new();
    push_repeated(&mut out, ' ', m / 2);
    assert(out@ =~= repeated(' ', (m / 2) as nat));
    out.append(s);
    push_repeated(&mut out, ' ', m - m / 2);
    out
}

/// A number with at least two digits.
pub open spec fn two_digits(n: nat) -> Seq<char> {
    at_right(dec(n), 2, '0')
}

pub fn two_digit_string(n: u64) -> (r: String)
    ensures
        r@ == two_digits(n as nat),
{
    pad_left(dec_string(n).as_str(), 2, '0')
}

/// A number with at least eight hexadecimal digits, in upper case.
pub open spec fn eight_hex_digits(n: u32) -> Seq<char> {
    at_right(ascii_uppered(hex(n as nat)), 8, '0')
}

pub fn eight_hex_string(n: u32) -> (r: String)
    ensures
        r@ == eight_hex_digits(n),
{
    let mut s = String::new();
    push_hex(&mut s, n as u64);
    assert(s@ =~= hex(n as nat));
    pad_left(ascii_upper_text(s.as_str()).as_str(), 8, '0')
}

// ---------------------------------------------------------------------------
// Times of day
// ---------------------------------------------------------------------------

/// The length of a text in UTF-8.
pub open spec fn byte_len(s: Seq<char>) -> nat {
    encode_utf8(s).len()
}

pub fn text_bytes(s: &str) -> (r: usize)
    ensures
        r == byte_len(s@),
{
    s.as_bytes().len()
}

/// Whether a time stamp can be cut behind its date: behind the eleventh byte
/// a character begins.
pub open spec fn has_date(stamp: Seq<char>) -> bool {
    byte_len(stamp) >= 11 && is_char_boundary(encode_utf8(stamp), 11)
}

/// What stands behind the date in a time stamp.
pub open spec fn behind_date(stamp: Seq<char>) -> Seq<char> {
    decode_utf8(encode_utf8(stamp).skip(11))
}

/// What stands behind the date in a time stamp.
pub fn cut_date(stamp: &str) -> (r: &str)
    requires
        has_date(stamp@),
    ensures
        r@ == behind_date(stamp@),
        byte_len(r@) == byte_len(stamp@) - 11,
{
    let (_date, time) = stamp.split_at(11);
    proof {
        assert(encode_utf8(time@) =~= encode_utf8(stamp@).skip(11));
        encode_utf8_decode_utf8(time@);
    }
    time
}

/// A time stamp, without its date where it is long enough to have one.
pub open spec fn short_time(stamp: Seq<char>) -> Seq<char> {
    if byte_len(stamp) > 11 {
        behind_date(stamp)
    } else {
        stamp
    }
}

/// Whether a time stamp can be shortened.
pub open spec fn can_shorten(stamp: Seq<char>) -> bool {
    byte_len(stamp) > 11 ==> is_char_boundary(encode_utf8(stamp), 11)
}

/// A time stamp, without its date where it is long enough to have one.
pub fn shorten_time(stamp: &str) -> (r: &str)
    requires
        can_shorten(stamp@),
    ensures
        r@ == short_time(stamp@),
{
    if text_bytes(stamp) > 11 {
        cut_date(stamp)
    } else {
        stamp
    }
}

/// Whether a time stamp can be shortened.
pub fn is_shortenable(stamp: &str) -> (r: bool)
    ensures
        r == can_shorten(stamp@),
{
    text_bytes(stamp) <= 11 || stamp.is_char_boundary(11)
}

/// A time stamp in ASCII can be cut behind its date, and what is left are the
/// characters behind the eleventh.
pub proof fn lemma_ascii_stamp(stamp: Seq<char>)
    requires
        is_ascii_chars(stamp),
    ensures
        byte_len(stamp) == stamp.len(),
        can_shorten(stamp),
        stamp.len() >= 11 ==> has_date(stamp) && behind_date(stamp) == stamp.skip(11),
{
    is_ascii_chars_encode_utf8(stamp);
    let bytes = encode_utf8(stamp);
    assert(bytes.len() == stamp.len());
    if stamp.len() >= 11 {
        let rest = stamp.skip(11);
        assert(is_ascii_chars(rest)) by {
            assert forall|i: int| 0 <= i < rest.len() implies 0 <= #[trigger] rest[i] as nat
                && (rest[i] as nat) < 128 by {
                assert(rest[i] == stamp[i + 11]);
            }
        }
        is_ascii_chars_encode_utf8(rest);
        assert(encode_utf8(rest) =~= bytes.skip(11)) by {
            assert forall|i: int| 0 <= i < rest.len() implies encode_utf8(rest)[i] == bytes.skip(
                11,
            )[i] by {
                assert(rest[i] == stamp[i + 11]);
            }
        }
        encode_utf8_decode_utf8(rest);
        vstd::utf8::encode_utf8_valid_utf8(stamp);
        vstd::utf8::is_char_boundary_start_end_of_seq(bytes);
        if stamp.len() > 11 {
            vstd::utf8::is_char_boundary_iff_not_is_continuation_byte(bytes, 11);
            vstd::utf8::utf8_byte_ranges_bitwise(bytes[11]);
        }
    }
}

} // verus!
