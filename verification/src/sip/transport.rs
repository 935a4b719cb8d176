//! Addresses in SIP URIs, and messages in datagrams.
use super::message::{
    body_of, body_text, message_text, parse_message, reads_as, MessageView, ParseError,
    ParseErrorView, SipMessage,
};
use super::roundtrip::{law_message_reads_back, sendable};
use crate::number::{parse_uint, uint_of};
use crate::text::{
    after_last, chars_of, cut, find_after_last, find_char, first_index, lines, split, split_on,
    split_once, string_of, strip_prefix, texts, without_prefix,
};
use vstd::prelude::*;
use vstd::slice::slice_subrange;
use vstd::utf8::{decode_utf8, encode_utf8, encode_utf8_decode_utf8, encode_utf8_valid_utf8, valid_utf8};

verus! {

/// What stands behind the scheme of a SIP URI.
pub open spec fn behind_scheme(uri: Seq<char>) -> Option<Seq<char>> {
    match without_prefix(uri, "sip:"@) {
        Some(t) => Some(t),
        None => without_prefix(uri, "sips:"@),
    }
}

/// What stands behind the user part of an address, and before its parameters.
pub open spec fn host_part(s: Seq<char>) -> Seq<char> {
    let host = match cut(s, '@') {
        Some((_, h)) => h,
        None => s,
    };
    split(host, ';')[0]
}

/// The host and the port of an address, where 5060 is the port if none is
/// given. A host in square brackets may have colons in it; one without them
/// that has more than one colon is taken whole.
pub open spec fn host_port(s: Seq<char>) -> Option<(Seq<char>, nat)> {
    if s.len() > 0 && s[0] == '[' {
        match cut(s, ']') {
            None => None,
            Some((h, after)) => match without_prefix(after, ":"@) {
                None => Some((h.skip(1), 5060)),
                Some(p) => match uint_of(p, u16::MAX as nat) {
                    Some(n) => Some((h.skip(1), n)),
                    None => None,
                },
            },
        }
    } else {
        let k = after_last(s, ':');
        if k > 0 {
            if s.take(k - 1).contains(':') {
                Some((s, 5060))
            } else {
                match uint_of(s.skip(k), u16::MAX as nat) {
                    Some(n) => Some((s.take(k - 1), n)),
                    None => None,
                }
            }
        } else {
            Some((s, 5060))
        }
    }
}

/// The host and the port of a SIP URI.
pub open spec fn sip_host_port(uri: Seq<char>) -> Option<(Seq<char>, nat)> {
    match behind_scheme(uri) {
        Some(s) => host_port(host_part(s)),
        None => None,
    }
}

fn read_host_port(s: &[char]) -> (r: Option<(String, u16)>)
    ensures
        match r {
            Some((h, p)) => host_port(s@) == Some((h@, p as nat)),
            None => host_port(s@) is None,
        },
{
    if s.len() > 0 && s[0] == '[' {
        match split_once(s, ']') {
            None => None,
            Some((h, after)) => {
                proof {
                    crate::text::lemma_first_index(s@, ']');
                    assert(first_index(s@, ']') > 0);
                }
                let host = slice_subrange(h, 1, h.len());
                assert(host@ =~= h@.skip(1));
                match strip_prefix(after, ":") {
                    None => Some((string_of(host), 5060)),
                    Some(p) => match parse_uint(p, 65535) {
                        Some(n) => Some((string_of(host), n as u16)),
                        None => None,
                    },
                }
            },
        }
    } else {
        let k: usize = find_after_last(s, ':');
        if k > 0 {
            let host = slice_subrange(s, 0, k - 1);
            assert(host@ =~= s@.take(k - 1));
            proof {
                crate::text::lemma_first_index(host@, ':');
            }
            if find_char(host, ':') < host.len() {
                Some((string_of(s), 5060))
            } else {
                let port = slice_subrange(s, k, s.len());
                assert(port@ =~= s@.skip(k as int));
                match parse_uint(port, 65535) {
                    Some(n) => Some((string_of(host), n as u16)),
                    None => None,
                }
            }
        } else {
            Some((string_of(s), 5060))
        }
    }
}

/// The host and the port of a SIP URI.
pub fn parse_sip_uri(uri: &str) -> (r: Option<(String, u16)>)
    ensures
        match r {
            Some((h, p)) => sip_host_port(uri@) == Some((h@, p as nat)),
            None => sip_host_port(uri@) is None,
        },
{
    let cs = chars_of(uri);
    let s = match strip_prefix(cs.as_slice(), "sip:") {
        Some(t) => t,
        None => match strip_prefix(cs.as_slice(), "sips:") {
            Some(t) => t,
            None => {
                return None;
            },
        },
    };
    let host = match split_once(s, '@') {
        Some((_, h)) => h,
        None => s,
    };
    let parts = split_on(host, ';');
    assert(texts(parts@)[0] == parts@[0]@);
    read_host_port(parts[0])
}

// ---------------------------------------------------------------------------
// Datagrams
// ---------------------------------------------------------------------------

/// What a text that stands in for bytes that are not valid UTF-8 reads as.
pub uninterp spec fn replaced_utf8(bytes: Seq<u8>) -> Seq<char>;

/// The text of a datagram: its bytes as UTF-8, with replacement characters
/// where they are not valid.
pub open spec fn datagram_text(bytes: Seq<u8>) -> Seq<char> {
    if valid_utf8(bytes) {
        decode_utf8(bytes)
    } else {
        replaced_utf8(bytes)
    }
}

/// `String::from_utf8_lossy` reads bytes as UTF-8. Where they are valid, it
/// gives the characters that they encode; where they are not, which
/// replacement characters it puts in is not stated, only that they depend on
/// the bytes alone.
#[verifier::external_body]
fn text_of_bytes(bytes: &[u8]) -> (r: String)
    ensures
        r@ == (if valid_utf8(bytes@) {
            decode_utf8(bytes@)
        } else {
            replaced_utf8(bytes@)
        }),
{
    String::from_utf8_lossy(bytes).into_owned()
}

/// Reads the message in a datagram.
pub fn parse_datagram(bytes: &[u8]) -> (r: Result<SipMessage, ParseError>)
    ensures
        reads_as(r, parse_message(datagram_text(bytes@))),
{
    let text = text_of_bytes(bytes);
    SipMessage::parse(text.as_str())
}

/// A message that is sent in a datagram and received is the message that was
/// sent; its body comes back as its lines, joined by carriage return and line
/// feed.
pub proof fn law_datagram_reads_back(m: MessageView)
    requires
        sendable(m),
    ensures
        parse_message(datagram_text(encode_utf8(message_text(m)))) == Ok::<
            MessageView,
            ParseErrorView,
        >(m.with_body(body_of(lines(body_text(m.body()))))),
{
    let t = message_text(m);
    encode_utf8_valid_utf8(t);
    encode_utf8_decode_utf8(t);
    law_message_reads_back(m);
}

} // verus!
