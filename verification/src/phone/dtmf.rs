//! Telephone keys in messages and in the queue of the phone.
use crate::case::{ascii_lower_text, ascii_lowered, ascii_upper, ascii_upper_char};
use crate::number::{parse_uint, uint_of};
use crate::text::{
    chars_of, cut, is_space, is_space_char, lines, lines_of, same_text, split_once, string_of,
    texts, trim, trimmed,
};
use vstd::prelude::*;

verus! {

/// Whether `c` stands on a telephone key, in either case.
pub open spec fn is_key(c: char) -> bool {
    let u = ascii_upper(c);
    '0' <= u <= '9' || u == '*' || u == '#' || 'A' <= u <= 'D'
}

/// Whether `ch` stands on a telephone key, in either case.
pub fn is_valid_dtmf_digit(ch: char) -> (r: bool)
    ensures
        r == is_key(ch),
{
    let u = ascii_upper_char(ch);
    ('0' <= u && u <= '9') || u == '*' || u == '#' || ('A' <= u && u <= 'D')
}

/// What has been read of the body of an INFO request.
pub struct InfoRead {
    pub signal: Option<char>,
    pub duration: Option<nat>,
}

/// What a line of the body adds: the key of a `Signal`, the duration of a
/// `Duration`. A `Signal` without a value spoils the body.
pub open spec fn read_info_line(f: InfoRead, line: Seq<char>) -> Option<InfoRead> {
    match cut(trimmed(line), '=') {
        None => Some(f),
        Some((k, v)) => {
            let key = ascii_lowered(trimmed(k));
            let val = trimmed(v);
            if key == "signal"@ {
                if val.len() == 0 {
                    None
                } else if is_key(val[0]) {
                    Some(InfoRead { signal: Some(ascii_upper(val[0])), ..f })
                } else {
                    Some(f)
                }
            } else if key == "duration"@ {
                Some(InfoRead { duration: uint_of(val, u16::MAX as nat), ..f })
            } else {
                Some(f)
            }
        },
    }
}

/// What the lines of the body say together.
pub open spec fn read_info_lines(ls: Seq<Seq<char>>) -> Option<InfoRead>
    decreases ls.len(),
{
    if ls.len() == 0 {
        Some(InfoRead { signal: None, duration: None })
    } else {
        match read_info_lines(ls.drop_last()) {
            None => None,
            Some(f) => read_info_line(f, ls.last()),
        }
    }
}

/// The key and the duration that the body of an INFO request gives; the
/// duration is 160 where it gives none.
pub open spec fn info_key(body: Option<Seq<char>>) -> Option<(char, nat)> {
    match body {
        None => None,
        Some(b) => match read_info_lines(lines(b)) {
            None => None,
            Some(f) => match f.signal {
                None => None,
                Some(d) => Some(
                    (
                        d,
                        match f.duration {
                            Some(n) => n,
                            None => 160,
                        },
                    ),
                ),
            },
        },
    }
}

/// From where a line spoils it, the body stays spoilt.
proof fn lemma_spoilt(ls: Seq<Seq<char>>, k: int)
    requires
        0 <= k <= ls.len(),
        read_info_lines(ls.take(k)) is None,
    ensures
        read_info_lines(ls) is None,
    decreases ls.len(),
{
    if k < ls.len() {
        assert(ls.drop_last().take(k) =~= ls.take(k));
        lemma_spoilt(ls.drop_last(), k);
    } else {
        assert(ls.take(k) =~= ls);
    }
}

/// The key and the duration that the body of an INFO request gives.
pub fn parse_info_dtmf(body: Option<&str>) -> (r: Option<(char, u16)>)
    ensures
        ({
            let b = match body {
                Some(s) => Some(s@),
                None => None,
            };
            match r {
                Some((d, n)) => info_key(b) == Some((d, n as nat)),
                None => info_key(b) is None,
            }
        }),
{
    let text = match body {
        Some(b) => b,
        None => {
            return None;
        },
    };
    let cs = chars_of(text);
    let ls = lines_of(cs.as_slice());
    let ghost all = lines(text@);
    let n: usize = ls.len();
    let mut signal: Option<char> = None;
    let mut duration: Option<u16> = None;
    let mut i: usize = 0;
    assert(all.take(0).len() == 0);
    while i < n
        invariant
            n == ls@.len(),
            texts(ls@) == all,
            body is Some,
            all == lines(body->0@),
            i <= n,
            read_info_lines(all.take(i as int)) == Some(
                InfoRead {
                    signal,
                    duration: match duration {
                        Some(d) => Some(d as nat),
                        None => None,
                    },
                },
            ),
        decreases n - i,
    {
        assert(all.take(i + 1).drop_last() =~= all.take(i as int));
        assert(all.take(i + 1).last() == all[i as int]);
        assert(all[i as int] == ls@[i as int]@);
        let line = trim(ls[i]);
        if let Some((k, v)) = split_once(line, '=') {
            let name = string_of(trim(k));
            let key = ascii_lower_text(name.as_str());
            let val = trim(v);
            if same_text(key.as_str(), "signal") {
                if val.len() == 0 {
                    proof {
                        lemma_spoilt(all, i + 1);
                    }
                    return None;
                }
                if is_valid_dtmf_digit(val[0]) {
                    signal = Some(ascii_upper_char(val[0]));
                }
            } else if same_text(key.as_str(), "duration") {
                duration = match parse_uint(val, 65535) {
                    Some(d) => Some(d as u16),
                    None => None,
                };
            }
        }
        i = i + 1;
    }
    assert(all.take(n as int) =~= all);
    match signal {
        Some(d) => match duration {
            Some(t) => Some((d, t)),
            None => Some((d, 160)),
        },
        None => None,
    }
}

/// How a key is sent.
#[derive(Debug, Clone, Copy, PartialEq, Eq, Structural)]
pub enum DtmfMethod {
    Rfc2833,
    SipInfo,
}

/// A key that waits to be sent.
#[derive(Debug, Clone, Copy, PartialEq, Eq, Structural)]
pub struct WaitingKey {
    pub digit: char,
    pub method: DtmfMethod,
}

/// The keys that a text asks for: each character that stands on a key, in
/// upper case. White space and other characters are left out.
pub open spec fn waiting_keys(s: Seq<char>, method: DtmfMethod) -> Seq<WaitingKey>
    decreases s.len(),
{
    if s.len() == 0 {
        seq![]
    } else {
        let before = waiting_keys(s.drop_last(), method);
        if !is_space(s.last()) && is_key(s.last()) {
            before.push(WaitingKey { digit: ascii_upper(s.last()), method })
        } else {
            before
        }
    }
}

/// The characters of a text that are neither white space nor on a key.
pub open spec fn refused_keys(s: Seq<char>) -> Seq<char>
    decreases s.len(),
{
    if s.len() == 0 {
        seq![]
    } else {
        let before = refused_keys(s.drop_last());
        if !is_space(s.last()) && !is_key(s.last()) {
            before.push(s.last())
        } else {
            before
        }
    }
}

/// The keys that a text asks for, and the characters that stand on none.
pub fn read_keys(digits: &str, method: DtmfMethod) -> (r: (Vec<WaitingKey>, Vec<char>))
    ensures
        r.0@ == waiting_keys(digits@, method),
        r.1@ == refused_keys(digits@),
        r.0@.len() <= digits@.len(),
{
    let cs = chars_of(digits);
    let n: usize = cs.len();
    let mut keys: Vec<WaitingKey> = Vec::new();
    let mut refused: Vec<char> = Vec::new();
    let mut i: usize = 0;
    assert(cs@.take(0).len() == 0);
    while i < n
        invariant
            n == cs@.len(),
            i <= n,
            keys@ == waiting_keys(cs@.take(i as int), method),
            refused@ == refused_keys(cs@.take(i as int)),
            keys@.len() <= i,
        decreases n - i,
    {
        assert(cs@.take(i + 1).drop_last() =~= cs@.take(i as int));
        assert(cs@.take(i + 1).last() == cs@[i as int]);
        let c = cs[i];
        if !is_space_char(c) {
            if is_valid_dtmf_digit(c) {
                keys.push(WaitingKey { digit: ascii_upper_char(c), method });
            } else {
                refused.push(c);
            }
        }
        i = i + 1;
    }
    assert(cs@.take(n as int) =~= cs@);
    (keys, refused)
}

/// Every key that waits is one of the sixteen keys of a telephone, and is sent
/// as it was asked for.
pub proof fn law_waiting_keys_are_keys(s: Seq<char>, method: DtmfMethod, i: int)
    requires
        0 <= i < waiting_keys(s, method).len(),
    ensures
        is_key(waiting_keys(s, method)[i].digit),
        waiting_keys(s, method)[i].method == method,
        crate::rtp::session::dtmf_event(waiting_keys(s, method)[i].digit) is Some,
    decreases s.len(),
{
    if i < waiting_keys(s.drop_last(), method).len() {
        law_waiting_keys_are_keys(s.drop_last(), method, i);
    }
}

} // verus!
