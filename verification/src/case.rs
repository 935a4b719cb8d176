//! Letter case.
use crate::text::{chars_of, string_of};
use vstd::prelude::*;
use vstd::utf8::is_ascii_chars;

verus! {

/// The lower-case form of an ASCII letter; any other character stays as it is.
pub open spec fn ascii_lower(c: char) -> char {
    if 'A' <= c <= 'Z' {
        (c as u32 + 32) as char
    } else {
        c
    }
}

/// The upper-case form of an ASCII letter; any other character stays as it is.
pub open spec fn ascii_upper(c: char) -> char {
    if 'a' <= c <= 'z' {
        (c as u32 - 32) as char
    } else {
        c
    }
}

pub fn ascii_lower_char(c: char) -> (r: char)
    ensures
        r == ascii_lower(c),
{
    if 'A' <= c && c <= 'Z' {
        (c as u8 + 32) as char
    } else {
        c
    }
}

pub fn ascii_upper_char(c: char) -> (r: char)
    ensures
        r == ascii_upper(c),
{
    if 'a' <= c && c <= 'z' {
        (c as u8 - 32) as char
    } else {
        c
    }
}

/// Each character in its ASCII lower-case form.
pub open spec fn ascii_lowered(s: Seq<char>) -> Seq<char> {
    Seq::new(s.len(), |i: int| ascii_lower(s[i]))
}

/// Each character in its ASCII upper-case form.
pub open spec fn ascii_uppered(s: Seq<char>) -> Seq<char> {
    Seq::new(s.len(), |i: int| ascii_upper(s[i]))
}

/// What the Unicode lower-case mapping makes of a text.
pub uninterp spec fn unicode_lowercase(s: Seq<char>) -> Seq<char>;

/// What the Unicode upper-case mapping makes of a text.
pub uninterp spec fn unicode_uppercase(s: Seq<char>) -> Seq<char>;

/// `s` in lower case.
pub open spec fn lower(s: Seq<char>) -> Seq<char> {
    if is_ascii_chars(s) {
        ascii_lowered(s)
    } else {
        unicode_lowercase(s)
    }
}

/// `s` in upper case.
pub open spec fn upper(s: Seq<char>) -> Seq<char> {
    if is_ascii_chars(s) {
        ascii_uppered(s)
    } else {
        unicode_uppercase(s)
    }
}

/// `str::to_lowercase` maps the text by the Unicode lower-case tables; which
/// characters it gives is not stated, only that they depend on the text alone.
#[verifier::external_body]
fn std_lowercase(s: &str) -> (r: String)
    ensures
        r@ == unicode_lowercase(s@),
{
    s.to_lowercase()
}

/// `str::to_uppercase` maps the text by the Unicode upper-case tables; which
/// characters it gives is not stated, only that they depend on the text alone.
#[verifier::external_body]
fn std_uppercase(s: &str) -> (r: String)
    ensures
        r@ == unicode_uppercase(s@),
{
    s.to_uppercase()
}

/// Each character in its ASCII lower-case form.
pub fn ascii_lower_text(s: &str) -> (r: String)
    ensures
        r@ == ascii_lowered(s@),
{
    let cs = chars_of(s);
    let mut out = String::new();
    let n: usize = cs.len();
    let mut i: usize = 0;
    while i < n
        invariant
            n == cs@.len(),
            cs@ == s@,
            i <= n,
            out@ == ascii_lowered(s@).take(i as int),
        decreases n - i,
    {
        out.push(ascii_lower_char(cs[i]));
        i = i + 1;
        assert(out@ =~= ascii_lowered(s@).take(i as int));
    }
    assert(out@ =~= ascii_lowered(s@));
    out
}

/// Each character in its ASCII upper-case form.
pub fn ascii_upper_text(s: &str) -> (r: String)
    ensures
        r@ == ascii_uppered(s@),
{
    let cs = chars_of(s);
    let mut out = String::new();
    let n: usize = cs.len();
    let mut i: usize = 0;
    while i < n
        invariant
            n == cs@.len(),
            cs@ == s@,
            i <= n,
            out@ == ascii_uppered(s@).take(i as int),
        decreases n - i,
    {
        out.push(ascii_upper_char(cs[i]));
        i = i + 1;
        assert(out@ =~= ascii_uppered(s@).take(i as int));
    }
    assert(out@ =~= ascii_uppered(s@));
    out
}

/// `s` in lower case.
pub fn lower_text(s: &str) -> (r: String)
    ensures
        r@ == lower(s@),
{
    if s.is_ascii() {
        ascii_lower_text(s)
    } else {
        std_lowercase(s)
    }
}

/// `s` in upper case.
pub fn upper_text(s: &str) -> (r: String)
    ensures
        r@ == upper(s@),
{
    if s.is_ascii() {
        ascii_upper_text(s)
    } else {
        std_uppercase(s)
    }
}

/// `cs` in lower case.
pub fn lower_chars(cs: &[char]) -> (r: String)
    ensures
        r@ == lower(cs@),
{
    let s = string_of(cs);
    lower_text(s.as_str())
}

/// `cs` in upper case.
pub fn upper_chars(cs: &[char]) -> (r: String)
    ensures
        r@ == upper(cs@),
{
    let s = string_of(cs);
    upper_text(s.as_str())
}

/// Letter case changes the 26 letters and no other character; in lower case a letter
/// stands 32 behind its upper case. Texts of ASCII characters are mapped letter by
/// letter.
pub proof fn law_letter_case(s: Seq<char>, i: int)
    requires
        0 <= i < s.len(),
    ensures
        ascii_lowered(s).len() == s.len(),
        ascii_uppered(s).len() == s.len(),
        'A' <= s[i] <= 'Z' ==> ascii_lowered(s)[i] as u32 == s[i] as u32 + 32,
        !('A' <= s[i] <= 'Z') ==> ascii_lowered(s)[i] == s[i],
        'a' <= s[i] <= 'z' ==> ascii_uppered(s)[i] as u32 == s[i] as u32 - 32,
        !('a' <= s[i] <= 'z') ==> ascii_uppered(s)[i] == s[i],
        is_ascii_chars(s) ==> lower(s) == ascii_lowered(s) && upper(s) == ascii_uppered(s),
{
}

} // verus!
