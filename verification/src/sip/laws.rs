//! What holds of the protocol's values as a whole, stated in the texts and numbers
//! that go over the network.
use crate::case::{ascii_lowered, lower};
use crate::number::{dec, uint_of};
use crate::sip::auth::{
    answer, answer_text, challenge_of, next_comma, params, read_param, read_params, AnswerFields,
    ChallengeFields, DigestAlgorithm,
};
use crate::sip::md5::{
    absorbed, fill, le32, le64, md5, md5_text, padded, rotl, sine, steps, turn, word, Md5State,
};
use crate::sip::sdp::{
    attr_lines, audio_index, audio_of, direction_of, dtmf_type_of, formats_of, formats_text,
    fresh_session, map_lines, media_of, medias_text, offered_audio, other_attrs, parse_sdp,
    read_line, rtpmap_of, sdp_text, AttrView, MediaTypeView, MediaView, ProtocolView, RtpMapView,
    SdpErrorView, SdpView,
};
use crate::text::{
    law_contains_text, law_prefix, law_separated, lemma_trimmed_id, lines, split, splitn,
    strip_back, strip_front, stripped, trimmed,
};
use vstd::prelude::*;

verus! {

// ---------------------------------------------------------------------------
// Digest authentication
// ---------------------------------------------------------------------------

/// Wherever the text `auth` stands in the qualities that a challenge offers, alone
/// or in a list, the answer is of that quality: it carries the first nonce count and
/// the client's nonce, and its response is taken over them.
pub proof fn law_quality_answered(
    c: ChallengeFields,
    username: Seq<char>,
    password: Seq<char>,
    method: Seq<char>,
    uri: Seq<char>,
    cnonce: Seq<char>,
    i: int,
)
    requires
        c.realm is Some,
        c.nonce is Some,
        c.qop is Some,
        0 <= i,
        i + 4 <= c.qop->0.len(),
        c.qop->0.subrange(i, i + 4) == "auth"@,
    ensures
        ({
            let a = answer(c, username, password, method, uri, cnonce);
            let h1 = md5_text(username + ":"@ + c.realm->0 + ":"@ + password);
            let h2 = md5_text(method + ":"@ + uri);
            &&& a.qop == Some("auth"@)
            &&& a.nc == Some("00000001"@)
            &&& a.cnonce == Some(cnonce)
            &&& a.response == md5_text(
                h1 + ":"@ + c.nonce->0 + ":00000001:"@ + cnonce + ":auth:"@ + h2,
            )
        }),
{
    let q = c.qop->0;
    reveal_strlit("auth");
    reveal_strlit(":");
    reveal_strlit("00000001");
    reveal_strlit(":00000001:");
    law_contains_text(q, "auth"@, q, q);
    assert(q.subrange(i, i + "auth"@.len()) == "auth"@);
    let h1 = md5_text(username + ":"@ + c.realm->0 + ":"@ + password);
    let h2 = md5_text(method + ":"@ + uri);
    assert(h1 + ":"@ + c.nonce->0 + ":"@ + "00000001"@ + ":"@ + cnonce + ":auth:"@ + h2 =~= h1
        + ":"@ + c.nonce->0 + ":00000001:"@ + cnonce + ":auth:"@ + h2);
}

/// Where a challenge offers no quality, or none with `auth` in it, the answer names
/// none, carries no count and no client nonce, and its response is taken over the
/// server's nonce alone.
pub proof fn law_plain_answer(
    c: ChallengeFields,
    username: Seq<char>,
    password: Seq<char>,
    method: Seq<char>,
    uri: Seq<char>,
    cnonce: Seq<char>,
)
    requires
        c.realm is Some,
        c.nonce is Some,
        c.qop matches Some(q) ==> forall|i: int|
            0 <= i <= q.len() - 4 ==> #[trigger] q.subrange(i, i + 4) != "auth"@,
    ensures
        ({
            let a = answer(c, username, password, method, uri, cnonce);
            let h1 = md5_text(username + ":"@ + c.realm->0 + ":"@ + password);
            let h2 = md5_text(method + ":"@ + uri);
            &&& a.qop is None
            &&& a.nc is None
            &&& a.cnonce is None
            &&& a.response == md5_text(h1 + ":"@ + c.nonce->0 + ":"@ + h2)
        }),
{
    reveal_strlit("auth");
    if let Some(q) = c.qop {
        law_contains_text(q, "auth"@, q, q);
    }
}

/// An answer names the user, and gives back the realm, the nonce, the algorithm and
/// the opaque text of the challenge and the URI of the request.
pub proof fn law_answer_echoes(
    c: ChallengeFields,
    username: Seq<char>,
    password: Seq<char>,
    method: Seq<char>,
    uri: Seq<char>,
    cnonce: Seq<char>,
)
    requires
        c.realm is Some,
        c.nonce is Some,
    ensures
        ({
            let a = answer(c, username, password, method, uri, cnonce);
            &&& a.username == username
            &&& Some(a.realm) == c.realm
            &&& Some(a.nonce) == c.nonce
            &&& a.uri == uri
            &&& a.opaque == c.opaque
            &&& a.algorithm == c.algorithm
        }),
{
}

/// The header value of an answer: the fields in their order, quoted where they are
/// quoted strings; what the answer does not have leaves no trace.
pub proof fn law_answer_written(a: AnswerFields)
    ensures
        ({
            let base = "Digest username=\""@ + a.username + "\", realm=\""@ + a.realm
                + "\", nonce=\""@ + a.nonce + "\", uri=\""@ + a.uri + "\", response=\""@
                + a.response + (if a.algorithm is Md5 {
                "\", algorithm=MD5"@
            } else {
                "\", algorithm=MD5-sess"@
            });
            let opaque = ", opaque=\""@ + a.opaque->0 + "\""@;
            let quality = ", qop="@ + a.qop->0 + ", nc="@ + a.nc->0 + ", cnonce=\""@
                + a.cnonce->0 + "\""@;
            &&& a.qop is None && a.opaque is None ==> answer_text(a) == base
            &&& a.qop is None && a.opaque is Some ==> answer_text(a) == base + opaque
            &&& a.qop is Some && a.nc is Some && a.cnonce is Some && a.opaque is None
                ==> answer_text(a) == base + quality
            &&& a.qop is Some && a.nc is Some && a.cnonce is Some && a.opaque is Some
                ==> answer_text(a) == base + opaque + quality
        }),
{
    reveal_strlit("\", algorithm=MD5");
    reveal_strlit("\", algorithm=MD5-sess");
    reveal_strlit("\", algorithm=");
    reveal_strlit("MD5");
    reveal_strlit("MD5-sess");
    reveal_strlit("");
    let front = "Digest username=\""@ + a.username + "\", realm=\""@ + a.realm + "\", nonce=\""@
        + a.nonce + "\", uri=\""@ + a.uri + "\", response=\""@ + a.response;
    assert("\", algorithm="@ + "MD5"@ =~= "\", algorithm=MD5"@);
    assert("\", algorithm="@ + "MD5-sess"@ =~= "\", algorithm=MD5-sess"@);
    let tail = if a.algorithm is Md5 {
        "\", algorithm=MD5"@
    } else {
        "\", algorithm=MD5-sess"@
    };
    let base = front + tail;
    assert(front + "\", algorithm="@ + a.algorithm.text() =~= base);
    let opaque = ", opaque=\""@ + a.opaque->0 + "\""@;
    let q = ", qop="@ + a.qop->0;
    let n = ", nc="@ + a.nc->0;
    let k = ", cnonce=\""@ + a.cnonce->0 + "\""@;
    assert(q + ""@ =~= q);
    assert(n + ""@ =~= n);
    let quality = ", qop="@ + a.qop->0 + ", nc="@ + a.nc->0 + ", cnonce=\""@ + a.cnonce->0
        + "\""@;
    assert(q + n + k =~= quality);
    let none = Seq::<char>::empty();
    assert(base + none =~= base);
    assert(base + none + q + n + k =~= base + quality);
    assert(base + opaque + q + n + k =~= base + opaque + quality);
}

/// A text is digested in whole blocks of 64 bytes: the text, a byte with the highest
/// bit set, no more zero bytes than it takes to fill the last block, and the number
/// of the text's bits in eight bytes, the least significant first.
pub proof fn law_digest_blocks(data: Seq<u8>)
    requires
        8 * data.len() < 0x1_0000_0000_0000_0000,
    ensures
        ({
            let p = padded(data);
            let n = p.len() as int;
            &&& n % 64 == 0
            &&& data.len() + 9 <= n < data.len() + 73
            &&& p.subrange(0, data.len() as int) == data
            &&& p[data.len() as int] == 0x80
            &&& forall|i: int| data.len() < i < n - 8 ==> p[i] == 0
            &&& p[n - 8] as int + 0x100 * p[n - 7] + 0x1_0000 * p[n - 6] + 0x100_0000 * p[n - 5]
                + 0x1_0000_0000 * p[n - 4] + 0x100_0000_0000 * p[n - 3] + 0x1_0000_0000_0000
                * p[n - 2] + 0x100_0000_0000_0000 * p[n - 1] == 8 * data.len()
        }),
{
    let p = padded(data);
    let x = (8 * data.len()) as u64;
    let n = p.len() as int;
    lemma_padded_parts(data, x);
    lemma_eight_bytes(x);
    assert(p[n - 8] == p[n - 8 + 0]);
}

/// What a text is filled up with, and how long it is then.
proof fn lemma_padded_parts(data: Seq<u8>, x: u64)
    requires
        x == 8 * data.len(),
    ensures
        ({
            let p = padded(data);
            let n = p.len() as int;
            &&& n % 64 == 0
            &&& data.len() + 9 <= n < data.len() + 73
            &&& p.subrange(0, data.len() as int) == data
            &&& p[data.len() as int] == 0x80
            &&& forall|i: int| data.len() < i < n - 8 ==> p[i] == 0
            &&& forall|i: int| 0 <= i < 8 ==> p[n - 8 + i] == #[trigger] le64(x)[i]
        }),
{
    let p = padded(data);
    let zeros = Seq::new(fill(data.len() as int) as nat, |i: int| 0u8);
    let front = data.push(0x80) + zeros;
    assert(p == front + le64(x));
    let n = p.len() as int;
    assert(n == data.len() + 1 + fill(data.len() as int) + 8);
    assert(p.subrange(0, data.len() as int) =~= data);
    assert(p[data.len() as int] == front[data.len() as int]);
    assert forall|i: int| data.len() < i < n - 8 implies p[i] == 0 by {
        assert(p[i] == front[i]);
        assert(front[i] == zeros[i - data.len() - 1]);
    }
    assert forall|i: int| 0 <= i < 8 implies p[n - 8 + i] == #[trigger] le64(x)[i] by {
        assert(p[front.len() + i] == le64(x)[i]);
    }
}

/// A number is the sum of its eight bytes at their places.
proof fn lemma_eight_bytes(x: u64)
    ensures
        le64(x).len() == 8,
        le64(x)[0] as int + 0x100 * le64(x)[1] + 0x1_0000 * le64(x)[2] + 0x100_0000 * le64(x)[3]
            + 0x1_0000_0000 * le64(x)[4] + 0x100_0000_0000 * le64(x)[5] + 0x1_0000_0000_0000
            * le64(x)[6] + 0x100_0000_0000_0000 * le64(x)[7] == x,
{
    assert(x as u8 as u64 + 0x100 * ((x >> 8) as u8 as u64) + 0x1_0000 * ((x >> 16) as u8 as u64)
        + 0x100_0000 * ((x >> 24) as u8 as u64) + 0x1_0000_0000 * ((x >> 32) as u8 as u64)
        + 0x100_0000_0000 * ((x >> 40) as u8 as u64) + 0x1_0000_0000_0000 * ((
    x >> 48) as u8 as u64) + 0x100_0000_0000_0000 * ((x >> 56) as u8 as u64) == x)
        by (bit_vector);
}

/// A word is turned to the left: what leaves it at the top comes in at the bottom.
pub proof fn law_turned(x: u32, n: u32)
    requires
        0 < n < 32,
    ensures
        rotl(x, n) == (x << n) + (x >> ((32 - n) as u32)),
        (x << n) & (x >> ((32 - n) as u32)) == 0,
{
    let k = (32 - n) as u32;
    assert((x << n) & (x >> k) == 0 && ((x << n) | (x >> k)) as u64 == (x << n) as u64 + (
    x >> k) as u64) by (bit_vector)
        requires
            0 < n < 32,
            k == 32 - n,
    ;
}

/// Every block goes into the digest, one behind the other from the first: each begins
/// with what those before it gave, and adds to it.
pub proof fn law_blocks_chained(data: Seq<u8>, msg: Seq<u8>, n: int)
    requires
        n >= 0,
    ensures
        ({
            let m = padded(data);
            let s = absorbed(m, m.len() as int / 64);
            md5(data) == le32(s.a) + le32(s.b) + le32(s.c) + le32(s.d)
        }),
        absorbed(msg, 0) == (Md5State {
            a: 0x67452301,
            b: 0xefcdab89,
            c: 0x98badcfe,
            d: 0x10325476,
        }),
        ({
            let s = absorbed(msg, n);
            let t = steps(s, msg, 64 * n, 64);
            absorbed(msg, n + 1) == Md5State {
                a: s.a.wrapping_add(t.a),
                b: s.b.wrapping_add(t.b),
                c: s.c.wrapping_add(t.c),
                d: s.d.wrapping_add(t.d),
            }
        }),
{
}

/// A step of the digest moves the four words round and makes a new one of them, with
/// a word of the block: each round takes every word of the block once, by its own
/// rule, and mixes in its own way.
pub proof fn law_digest_step(s: Md5State, msg: Seq<u8>, base: int, i: int)
    requires
        0 <= i < 64,
    ensures
        ({
            let t = steps(s, msg, base, i);
            let u = steps(s, msg, base, i + 1);
            let f = if i < 16 {
                (t.b & t.c) | (!t.b & t.d)
            } else if i < 32 {
                (t.d & t.b) | (!t.d & t.c)
            } else if i < 48 {
                t.b ^ t.c ^ t.d
            } else {
                t.c ^ (t.b | !t.d)
            };
            let g = if i < 16 {
                i
            } else if i < 32 {
                (5 * i + 1) % 16
            } else if i < 48 {
                (3 * i + 5) % 16
            } else {
                (7 * i) % 16
            };
            let sum = f.wrapping_add(t.a).wrapping_add(sine(i)).wrapping_add(word(msg, base, g));
            &&& u.a == t.d && u.c == t.b && u.d == t.c
            &&& u.b == t.b.wrapping_add(rotl(sum, turn(i)))
        }),
        steps(s, msg, base, 0) == s,
{
}

// ---------------------------------------------------------------------------
// Session descriptions
// ---------------------------------------------------------------------------

/// The audio of a description is the first medium of that kind, and none where
/// there is none.
pub proof fn law_first_audio(ms: Seq<MediaView>, j: int)
    requires
        0 <= j <= ms.len(),
        forall|i: int| 0 <= i < j ==> !((#[trigger] ms[i]).media_type is Audio),
        j < ms.len() ==> ms[j].media_type is Audio,
    ensures
        j < ms.len() ==> audio_of(ms) == Some(ms[j]),
        j == ms.len() ==> audio_of(ms) is None,
    decreases ms.len(),
{
    if j > 0 {
        let rest = ms.skip(1);
        assert forall|i: int| 0 <= i < j - 1 implies !((#[trigger] rest[i]).media_type is Audio) by {
            assert(rest[i] == ms[i + 1]);
        }
        if j < ms.len() {
            assert(rest[j - 1] == ms[j]);
        }
        law_first_audio(rest, j - 1);
        assert(!(ms[0].media_type is Audio));
        lemma_audio_index(rest);
    }
}

proof fn lemma_audio_index(ms: Seq<MediaView>)
    ensures
        0 <= audio_index(ms) <= ms.len(),
    decreases ms.len(),
{
    if ms.len() > 0 {
        lemma_audio_index(ms.skip(1));
    }
}

/// Keys go over RTP with the number of the first format that is named
/// `telephone-event`, in upper or lower case, whatever that number is; no other
/// format gives one.
pub proof fn law_key_format(maps: Seq<RtpMapView>, j: int)
    requires
        0 <= j <= maps.len(),
        forall|i: int|
            0 <= i < j ==> ascii_lowered((#[trigger] maps[i]).encoding_name)
                != "telephone-event"@,
        j < maps.len() ==> ascii_lowered(maps[j].encoding_name) == "telephone-event"@,
    ensures
        j < maps.len() ==> dtmf_type_of(maps) == Some(maps[j].payload_type),
        j == maps.len() ==> dtmf_type_of(maps) is None,
    decreases maps.len(),
{
    if j > 0 {
        let rest = maps.skip(1);
        assert forall|i: int| 0 <= i < j - 1 implies ascii_lowered(
            (#[trigger] rest[i]).encoding_name,
        ) != "telephone-event"@ by {
            assert(rest[i] == maps[i + 1]);
        }
        if j < maps.len() {
            assert(rest[j - 1] == maps[j]);
        }
        law_key_format(rest, j - 1);
        assert(ascii_lowered(maps[0].encoding_name) != "telephone-event"@);
    }
}

/// The direction of a medium is its first attribute with the name of one.
pub proof fn law_first_direction(attrs: Seq<AttrView>, j: int)
    requires
        0 <= j <= attrs.len(),
        forall|i: int|
            0 <= i < j ==> (#[trigger] attrs[i]).0 != "sendrecv"@ && attrs[i].0 != "sendonly"@
                && attrs[i].0 != "recvonly"@ && attrs[i].0 != "inactive"@,
        j < attrs.len() ==> attrs[j].0 == "sendrecv"@ || attrs[j].0 == "sendonly"@ || attrs[j].0
            == "recvonly"@ || attrs[j].0 == "inactive"@,
    ensures
        j < attrs.len() ==> direction_of(attrs) == Some(attrs[j].0),
        j == attrs.len() ==> direction_of(attrs) is None,
    decreases attrs.len(),
{
    if j > 0 {
        let rest = attrs.skip(1);
        assert forall|i: int| 0 <= i < j - 1 implies (#[trigger] rest[i]).0 != "sendrecv"@
            && rest[i].0 != "sendonly"@ && rest[i].0 != "recvonly"@ && rest[i].0
            != "inactive"@ by {
            assert(rest[i] == attrs[i + 1]);
        }
        if j < attrs.len() {
            assert(rest[j - 1] == attrs[j]);
        }
        law_first_direction(rest, j - 1);
        assert(attrs[0].0 != "sendrecv"@);
    }
}

/// A description is read line by line from one that says nothing: the first line that
/// cannot be read is the error, and what stands behind it changes nothing.
pub proof fn law_read_by_line(a: Seq<char>, b: Seq<char>, l: Seq<char>)
    requires
        lines(b) == lines(a).push(l),
    ensures
        parse_sdp(a) is Ok ==> parse_sdp(b) == read_line(parse_sdp(a)->Ok_0, l),
        parse_sdp(a) is Err ==> parse_sdp(b) == parse_sdp(a),
        lines(a).len() == 0 ==> parse_sdp(a) is Ok && parse_sdp(a)->Ok_0.connection_address is None
            && parse_sdp(a)->Ok_0.media.len() == 0 && parse_sdp(a)->Ok_0.attributes.len() == 0,
{
    assert(lines(b).drop_last() =~= lines(a));
}

/// The connection of a description is the third part of its line.
pub proof fn law_connection_line(s: SdpView, p0: Seq<char>, p1: Seq<char>, p2: Seq<char>)
    requires
        !p0.contains(' '),
        !p1.contains(' '),
        !p2.contains(' '),
        p2.len() > 0,
        '!' <= p2.last() <= '~',
    ensures
        read_line(s, "c="@ + (p0 + seq![' '] + (p1 + seq![' '] + p2))) == Ok::<
            SdpView,
            SdpErrorView,
        >(SdpView { connection_address: Some(p2), ..s }),
{
    reveal_strlit("c=");
    let c = p0 + seq![' '] + (p1 + seq![' '] + p2);
    law_separated(p0, ' ', p1 + seq![' '] + p2, 2);
    law_separated(p1, ' ', p2, 2);
    law_separated(p2, ' ', p2, 2);
    let parts = split(c, ' ');
    assert(parts =~= seq![p0, p1, p2]);
    assert(c.last() == p2.last());
    lemma_line("c="@, c);
    assert(parts[2] == p2);
}

/// The user, the number and the version of a session are the first three parts of
/// its line, and the address from which it comes is the sixth.
pub proof fn law_origin_line(
    s: SdpView,
    p0: Seq<char>,
    p1: Seq<char>,
    p2: Seq<char>,
    p3: Seq<char>,
    p4: Seq<char>,
    p5: Seq<char>,
)
    requires
        !p0.contains(' '),
        !p1.contains(' '),
        !p2.contains(' '),
        !p3.contains(' '),
        !p4.contains(' '),
        p5.len() > 0,
        '!' <= p5.last() <= '~',
    ensures
        read_line(
            s,
            "o="@ + (p0 + seq![' '] + (p1 + seq![' '] + (p2 + seq![' '] + (p3 + seq![' '] + (p4
                + seq![' '] + p5))))),
        ) == Ok::<SdpView, SdpErrorView>(
            SdpView {
                origin_username: p0,
                session_id: p1,
                session_version: p2,
                origin_address: p5,
                ..s
            },
        ),
{
    reveal_strlit("o=");
    let r4 = p4 + seq![' '] + p5;
    let r3 = p3 + seq![' '] + r4;
    let r2 = p2 + seq![' '] + r3;
    let r1 = p1 + seq![' '] + r2;
    let r0 = p0 + seq![' '] + r1;
    assert(r0.last() == p5.last()) by {
        assert(r4.last() == p5.last());
        assert(r3.last() == r4.last());
        assert(r2.last() == r3.last());
        assert(r1.last() == r2.last());
    }
    lemma_six_parts(p0, p1, p2, p3, p4, p5);
    lemma_line("o="@, r0);
    lemma_origin(s, "o="@ + r0, r0);
}

proof fn lemma_six_parts(
    p0: Seq<char>,
    p1: Seq<char>,
    p2: Seq<char>,
    p3: Seq<char>,
    p4: Seq<char>,
    p5: Seq<char>,
)
    requires
        !p0.contains(' '),
        !p1.contains(' '),
        !p2.contains(' '),
        !p3.contains(' '),
        !p4.contains(' '),
    ensures
        ({
            let parts = splitn(
                p0 + seq![' '] + (p1 + seq![' '] + (p2 + seq![' '] + (p3 + seq![' '] + (p4
                    + seq![' '] + p5)))),
                6,
                ' ',
            );
            &&& parts.len() == 6
            &&& parts[0] == p0
            &&& parts[1] == p1
            &&& parts[2] == p2
            &&& parts[5] == p5
        }),
{
    let r4 = p4 + seq![' '] + p5;
    let r3 = p3 + seq![' '] + r4;
    let r2 = p2 + seq![' '] + r3;
    let r1 = p1 + seq![' '] + r2;
    let r0 = p0 + seq![' '] + r1;
    law_separated(p4, ' ', p5, 2);
    let s4 = splitn(r4, 2, ' ');
    assert(s4 == seq![p4] + seq![p5]);
    law_separated(p3, ' ', r4, 3);
    let s3 = splitn(r3, 3, ' ');
    assert(s3 == seq![p3] + s4);
    law_separated(p2, ' ', r3, 4);
    let s2 = splitn(r2, 4, ' ');
    assert(s2 == seq![p2] + s3);
    law_separated(p1, ' ', r2, 5);
    let s1 = splitn(r1, 5, ' ');
    assert(s1 == seq![p1] + s2);
    law_separated(p0, ' ', r1, 6);
    let s0 = splitn(r0, 6, ' ');
    assert(s0 == seq![p0] + s1);
    assert(s0[1] == s1[0]);
    assert(s0[2] == s1[1] && s1[1] == s2[0]);
    assert(s0[5] == s1[4] && s1[4] == s2[3] && s2[3] == s3[2] && s3[2] == s4[1]);
}

proof fn lemma_origin(s: SdpView, line: Seq<char>, value: Seq<char>)
    requires
        trimmed(line) == line,
        line.len() >= 2,
        line[0] == 'o',
        line[1] == '=',
        line.skip(2) == value,
        splitn(value, 6, ' ').len() == 6,
    ensures
        read_line(s, line) == Ok::<SdpView, SdpErrorView>(
            SdpView {
                origin_username: splitn(value, 6, ' ')[0],
                session_id: splitn(value, 6, ' ')[1],
                session_version: splitn(value, 6, ' ')[2],
                origin_address: splitn(value, 6, ' ')[5],
                ..s
            },
        ),
{
}

/// The name of a session is all of its line, and its version the number there. A line
/// that is of none of these kinds changes nothing.
pub proof fn law_name_line(s: SdpView, value: Seq<char>, c: char)
    requires
        value.len() > 0,
        '!' <= value.last() <= '~',
        'a' <= c <= 'z',
    ensures
        read_line(s, "s="@ + value) == Ok::<SdpView, SdpErrorView>(
            SdpView { session_name: value, ..s },
        ),
        uint_of(value, 0xffff_ffff) is Some ==> read_line(s, "v="@ + value) == Ok::<
            SdpView,
            SdpErrorView,
        >(SdpView { version: uint_of(value, 0xffff_ffff)->0 as u32, ..s }),
        c != 'v' && c != 'o' && c != 's' && c != 'c' && c != 'm' && c != 'a' ==> read_line(
            s,
            seq![c, '='] + value,
        ) == Ok::<SdpView, SdpErrorView>(s),
{
    reveal_strlit("s=");
    reveal_strlit("v=");
    lemma_line("s="@, value);
    lemma_line("v="@, value);
    lemma_line(seq![c, '='], value);
}

/// A line with its two characters in front, and no white space behind.
proof fn lemma_line(head: Seq<char>, value: Seq<char>)
    requires
        head.len() == 2,
        'a' <= head[0] <= 'z',
        head[1] == '=',
        value.len() > 0,
        '!' <= value.last() <= '~',
    ensures
        trimmed(head + value) == head + value,
        (head + value).skip(2) == value,
        (head + value)[0] == head[0],
        (head + value)[1] == '=',
{
    let l = head + value;
    assert(l.last() == value.last());
    lemma_trimmed_id(l);
    assert(l.skip(2) =~= value);
}

/// A medium begins with its line: its kind, its port, its protocol and the numbers of
/// its formats.
#[verifier::spinoff_prover]
pub proof fn law_media_line(
    s: SdpView,
    kind: Seq<char>,
    port: Seq<char>,
    protocol: Seq<char>,
    formats: Seq<char>,
)
    requires
        !kind.contains(' '),
        !port.contains(' '),
        !protocol.contains(' '),
        formats.len() > 0,
        '!' <= formats.last() <= '~',
    ensures
        ({
            let line = kind + seq![' '] + (port + seq![' '] + (protocol + seq![' '] + formats));
            let r = read_line(s, "m="@ + line);
            &&& r is Ok
            &&& r->Ok_0.media.len() == s.media.len() + 1
            &&& r->Ok_0.media.drop_last() == s.media
            &&& r->Ok_0 == SdpView { media: r->Ok_0.media, ..s }
            &&& ({
                let m = r->Ok_0.media.last();
                &&& kind == "audio"@ ==> m.media_type is Audio
                &&& kind == "video"@ ==> m.media_type is Video
                &&& kind != "audio"@ && kind != "video"@ ==> m.media_type
                    == MediaTypeView::Other(kind)
                &&& uint_of(port, 0xffff) is Some ==> m.port == uint_of(port, 0xffff)->0
                &&& uint_of(port, 0xffff) is None ==> m.port == 0
                &&& protocol == "RTP/AVP"@ ==> m.protocol is RtpAvp
                &&& protocol == "RTP/SAVP"@ ==> m.protocol is RtpSavp
                &&& m.formats == formats_of(split(formats, ' '))
                &&& m.rtpmaps.len() == 0 && m.attributes.len() == 0
            })
        }),
{
    reveal_strlit("m=");
    let line = kind + seq![' '] + (port + seq![' '] + (protocol + seq![' '] + formats));
    lemma_media_parts(kind, port, protocol, formats);
    lemma_line("m="@, line);
    lemma_kinds(kind, protocol);
    lemma_media(s, "m="@ + line, line);
    let r = s.media.push(media_of(split(line, ' ')));
    assert(r.drop_last() =~= s.media);
}

proof fn lemma_media_parts(
    kind: Seq<char>,
    port: Seq<char>,
    protocol: Seq<char>,
    formats: Seq<char>,
)
    requires
        !kind.contains(' '),
        !port.contains(' '),
        !protocol.contains(' '),
        formats.len() > 0,
    ensures
        ({
            let line = kind + seq![' '] + (port + seq![' '] + (protocol + seq![' '] + formats));
            let parts = split(line, ' ');
            &&& line.len() > 0
            &&& line.last() == formats.last()
            &&& parts.len() >= 3
            &&& parts[0] == kind
            &&& parts[1] == port
            &&& parts[2] == protocol
            &&& parts.skip(3) == split(formats, ' ')
        }),
{
    let r2 = protocol + seq![' '] + formats;
    let r1 = port + seq![' '] + r2;
    let line = kind + seq![' '] + r1;
    assert(r2.last() == formats.last());
    assert(r1.last() == r2.last());
    assert(line.last() == r1.last());
    law_separated(kind, ' ', r1, 2);
    law_separated(port, ' ', r2, 2);
    law_separated(protocol, ' ', formats, 2);
    let s3 = split(formats, ' ');
    let s2 = split(r2, ' ');
    let s1 = split(r1, ' ');
    let s0 = split(line, ' ');
    assert(s2 == seq![protocol] + s3);
    assert(s1 == seq![port] + s2);
    assert(s0 == seq![kind] + s1);
    assert(s0[1] == s1[0] && s0[2] == s1[1] && s1[1] == s2[0]);
    assert(s0.skip(3) =~= s3);
}

proof fn lemma_kinds(kind: Seq<char>, protocol: Seq<char>)
    ensures
        kind == "audio"@ ==> MediaTypeView::parse(kind) is Audio,
        kind == "video"@ ==> MediaTypeView::parse(kind) is Video,
        kind != "audio"@ && kind != "video"@ ==> MediaTypeView::parse(kind)
            == MediaTypeView::Other(kind),
        protocol == "RTP/AVP"@ ==> ProtocolView::parse(protocol) is RtpAvp,
        protocol == "RTP/SAVP"@ ==> ProtocolView::parse(protocol) is RtpSavp,
{
    reveal_strlit("audio");
    reveal_strlit("video");
    reveal_strlit("RTP/AVP");
    reveal_strlit("RTP/SAVP");
    assert("audio"@[0] == 'a' && "video"@[0] == 'v');
    assert("RTP/AVP"@.len() == 7 && "RTP/SAVP"@.len() == 8);
}

proof fn lemma_media(s: SdpView, line: Seq<char>, value: Seq<char>)
    requires
        trimmed(line) == line,
        line.len() >= 2,
        line[0] == 'm',
        line[1] == '=',
        line.skip(2) == value,
    ensures
        split(value, ' ').len() >= 3 ==> read_line(s, line) == Ok::<SdpView, SdpErrorView>(
            SdpView { media: s.media.push(media_of(split(value, ' '))), ..s },
        ),
        split(value, ' ').len() < 3 ==> read_line(s, line) == Err::<SdpView, SdpErrorView>(
            SdpErrorView::InvalidMedia(value),
        ),
{
}

/// The line of a medium with fewer than three parts is an error.
pub proof fn law_short_media_line(s: SdpView, kind: Seq<char>, port: Seq<char>)
    requires
        !kind.contains(' '),
        !port.contains(' '),
        port.len() > 0,
        '!' <= port.last() <= '~',
    ensures
        read_line(s, "m="@ + (kind + seq![' '] + port)) == Err::<SdpView, SdpErrorView>(
            SdpErrorView::InvalidMedia(kind + seq![' '] + port),
        ),
{
    reveal_strlit("m=");
    let short = kind + seq![' '] + port;
    law_separated(kind, ' ', port, 2);
    law_separated(port, ' ', port, 2);
    assert(split(short, ' ') =~= seq![kind, port]);
    assert(short.last() == port.last());
    lemma_line("m="@, short);
    lemma_media(s, "m="@ + short, short);
}

/// The formats of a medium are the numbers up to 255 among its parts, in their order.
pub proof fn law_formats(parts: Seq<Seq<char>>, part: Seq<char>)
    ensures
        formats_of(Seq::empty()).len() == 0,
        uint_of(part, 0xff) is Some ==> formats_of(parts.push(part)) == formats_of(parts).push(
            uint_of(part, 0xff)->0 as u8,
        ),
        uint_of(part, 0xff) is None ==> formats_of(parts.push(part)) == formats_of(parts),
{
    assert(parts.push(part).drop_last() =~= parts);
}

/// An attribute has its name before the first colon and its value behind it. It is
/// one of the medium that was described last, or of the whole session before any.
pub proof fn law_attribute_line(s: SdpView, name: Seq<char>, value: Seq<char>)
    requires
        !name.contains(':'),
        name.len() > 0,
        '!' <= name.last() <= '~',
        value.len() > 0,
        '!' <= value.last() <= '~',
    ensures
        ({
            let r = read_line(s, "a="@ + (name + seq![':'] + value));
            let last = s.media.last();
            &&& r is Ok
            &&& s.media.len() == 0 ==> r->Ok_0 == SdpView {
                attributes: s.attributes.push((name, Some(value))),
                ..s
            }
            &&& s.media.len() > 0 ==> {
                &&& r->Ok_0.media.len() == s.media.len()
                &&& r->Ok_0.media.drop_last() == s.media.drop_last()
                &&& r->Ok_0 == SdpView { media: r->Ok_0.media, ..s }
                &&& r->Ok_0.media.last().attributes == last.attributes.push((name, Some(value)))
                &&& name == "rtpmap"@ && rtpmap_of(value) is Some
                    ==> r->Ok_0.media.last().rtpmaps == last.rtpmaps.push(rtpmap_of(value)->0)
                &&& name != "rtpmap"@ || rtpmap_of(value) is None
                    ==> r->Ok_0.media.last().rtpmaps == last.rtpmaps
                &&& r->Ok_0.media.last().port == last.port
                &&& r->Ok_0.media.last().media_type == last.media_type
                &&& r->Ok_0.media.last().formats == last.formats
            }
        }),
        ({
            let r = read_line(s, "a="@ + name);
            &&& r is Ok
            &&& s.media.len() == 0 ==> r->Ok_0 == SdpView {
                attributes: s.attributes.push((name, None)),
                ..s
            }
            &&& s.media.len() > 0 ==> r->Ok_0 == SdpView {
                media: s.media.drop_last().push(
                    MediaView {
                        attributes: s.media.last().attributes.push((name, None)),
                        ..s.media.last()
                    },
                ),
                ..s
            }
        }),
{
    reveal_strlit("a=");
    let line = name + seq![':'] + value;
    law_separated(name, ':', value, 2);
    assert(line.last() == value.last());
    lemma_line("a="@, line);
    lemma_line("a="@, name);
    if let Ok(r) = read_line(s, "a="@ + line) {
        if s.media.len() > 0 {
            assert(r.media.drop_last() =~= s.media.drop_last());
        }
    }
}

/// A format is read as its number, its name, its rate and, where a third part is
/// there, its channels.
pub proof fn law_format_read(
    number: Seq<char>,
    name: Seq<char>,
    rate: Seq<char>,
    channels: Seq<char>,
)
    requires
        !number.contains(' '),
        !name.contains('/'),
        !rate.contains('/'),
        !channels.contains('/'),
    ensures
        ({
            let n = uint_of(number, 0xff);
            let r = uint_of(rate, 0xffff_ffff);
            let c = uint_of(channels, 0xffff_ffff);
            let two = rtpmap_of(number + seq![' '] + (name + seq!['/'] + rate));
            let three = rtpmap_of(
                number + seq![' '] + (name + seq!['/'] + (rate + seq!['/'] + channels)),
            );
            &&& n is None || r is None ==> two is None && three is None
            &&& n is Some && r is Some ==> {
                &&& two == Some(
                    RtpMapView {
                        payload_type: n->0 as u8,
                        encoding_name: name,
                        clock_rate: r->0 as u32,
                        channels: None,
                    },
                )
                &&& three is Some
                &&& three->0 == (RtpMapView { channels: three->0.channels, ..two->0 })
                &&& c is Some ==> three->0.channels == Some(c->0 as u32)
                &&& c is None ==> three->0.channels is None
            }
            &&& rtpmap_of(number) is None
            &&& rtpmap_of(number + seq![' '] + name) is None
        }),
{
    let r2 = name + seq!['/'] + rate;
    let r3 = name + seq!['/'] + (rate + seq!['/'] + channels);
    law_separated(number, ' ', r2, 2);
    law_separated(number, ' ', r3, 2);
    law_separated(number, ' ', name, 2);
    law_separated(name, '/', rate, 2);
    law_separated(name, '/', rate + seq!['/'] + channels, 2);
    law_separated(rate, '/', channels, 2);
    law_separated(channels, '/', rate, 2);
    assert(split(r2, '/') =~= seq![name, rate]);
    assert(split(r3, '/') =~= seq![name, rate, channels]);
}

/// A description is written in its fixed order: version, origin, name, connection,
/// time, attributes, media.
pub proof fn law_session_written(s: SdpView)
    ensures
        ({
            let front = "v="@ + dec(s.version as nat) + "\n"@ + ("o="@ + s.origin_username + " "@
                + s.session_id + " "@ + s.session_version + " IN IP4 "@ + s.origin_address)
                + "\n"@ + "s="@ + s.session_name + "\n"@;
            let back = "t=0 0\n"@ + attr_lines(s.attributes) + medias_text(s.media);
            &&& s.connection_address matches Some(ip) ==> sdp_text(s) == front + "c=IN IP4 "@ + ip
                + "\n"@ + back
            &&& s.connection_address is None ==> sdp_text(s) == front + back
        }),
{
    let front = "v="@ + dec(s.version as nat) + "\n"@ + ("o="@ + s.origin_username + " "@
        + s.session_id + " "@ + s.session_version + " IN IP4 "@ + s.origin_address) + "\n"@ + "s="@
        + s.session_name + "\n"@;
    let t = "t=0 0\n"@;
    let a = attr_lines(s.attributes);
    let m = medias_text(s.media);
    let none = Seq::<char>::empty();
    assert(front + none + t + a + m =~= front + (t + a + m));
    if let Some(ip) = s.connection_address {
        let c = "c=IN IP4 "@ + ip + "\n"@;
        assert(front + c + t + a + m =~= front + "c=IN IP4 "@ + ip + "\n"@ + (t + a + m));
    }
}

/// A medium is written with its line, its formats by name and then its other
/// attributes.
pub proof fn law_media_written(ms: Seq<MediaView>, m: MediaView)
    ensures
        medias_text(Seq::empty()).len() == 0,
        m.formats.len() > 0 ==> medias_text(ms.push(m)) == medias_text(ms) + ("m="@
            + m.media_type.text() + " "@ + dec(m.port as nat) + " "@ + m.protocol.text()
            + formats_text(m.formats) + "\n"@ + map_lines(m.rtpmaps) + attr_lines(
            other_attrs(m.attributes),
        )),
        MediaTypeView::Audio.text() == "audio"@,
        MediaTypeView::Video.text() == "video"@,
        ProtocolView::RtpAvp.text() == "RTP/AVP"@,
        ProtocolView::RtpSavp.text() == "RTP/SAVP"@,
{
    assert(ms.push(m).drop_last() =~= ms);
}

/// The lists of a description are written item by item: formats with a blank before
/// each, attributes and named formats each on a line of its own.
pub proof fn law_lists_written(
    fs: Seq<u8>,
    f: u8,
    maps: Seq<RtpMapView>,
    map: RtpMapView,
    attrs: Seq<AttrView>,
    name: Seq<char>,
    value: Seq<char>,
)
    ensures
        formats_text(Seq::empty()).len() == 0,
        map_lines(Seq::empty()).len() == 0,
        attr_lines(Seq::empty()).len() == 0,
        formats_text(fs.push(f)) == formats_text(fs) + " "@ + dec(f as nat),
        map.channels is None ==> map_lines(maps.push(map)) == map_lines(maps) + "a=rtpmap:"@ + (
        dec(map.payload_type as nat) + " "@ + map.encoding_name + "/"@ + dec(map.clock_rate as nat))
            + "\n"@,
        map.channels matches Some(n) ==> map_lines(maps.push(map)) == map_lines(maps)
            + "a=rtpmap:"@ + (dec(map.payload_type as nat) + " "@ + map.encoding_name + "/"@ + dec(
            map.clock_rate as nat,
        ) + "/"@ + dec(n as nat)) + "\n"@,
        attr_lines(attrs.push((name, Some(value)))) == attr_lines(attrs) + ("a="@ + name + ":"@
            + value) + "\n"@,
        attr_lines(attrs.push((name, None))) == attr_lines(attrs) + ("a="@ + name) + "\n"@,
        other_attrs(Seq::empty()).len() == 0,
        name == "rtpmap"@ ==> other_attrs(attrs.push((name, Some(value)))) == other_attrs(attrs),
        name != "rtpmap"@ ==> other_attrs(attrs.push((name, Some(value)))) == other_attrs(
            attrs,
        ).push((name, Some(value))),
        name != "rtpmap"@ ==> other_attrs(attrs.push((name, None))) == other_attrs(attrs).push(
            (name, None),
        ),
{
    assert(fs.push(f).drop_last() =~= fs);
    assert(maps.push(map).drop_last() =~= maps);
    assert(attrs.push((name, Some(value))).drop_last() =~= attrs);
    assert(attrs.push((name, None::<Seq<char>>)).drop_last() =~= attrs);
}

/// What the phone offers: one audio at a port, with both companded formats, keys by
/// number 101 for all sixteen of them, Opus, and a direction.
pub proof fn law_offer(port: u16, direction: Seq<char>, ip: Seq<char>, id: u32)
    ensures
        ({
            let m = offered_audio(port, direction);
            &&& m.media_type is Audio
            &&& m.port == port
            &&& m.protocol is RtpAvp
            &&& m.formats == seq![0u8, 8, 101, 111]
            &&& m.rtpmaps.len() == 4
            &&& m.rtpmaps[0] == RtpMapView {
                payload_type: 0,
                encoding_name: "PCMU"@,
                clock_rate: 8000,
                channels: None,
            }
            &&& m.rtpmaps[1] == RtpMapView {
                payload_type: 8,
                encoding_name: "PCMA"@,
                clock_rate: 8000,
                channels: None,
            }
            &&& m.rtpmaps[2] == RtpMapView {
                payload_type: 101,
                encoding_name: "telephone-event"@,
                clock_rate: 8000,
                channels: None,
            }
            &&& m.rtpmaps[3] == RtpMapView {
                payload_type: 111,
                encoding_name: "opus"@,
                clock_rate: 48000,
                channels: Some(2),
            }
            &&& m.attributes == seq![("fmtp"@, Some("101 0-15"@)), (direction, None)]
        }),
        ({
            let s = fresh_session(ip, id);
            &&& s.version == 0
            &&& s.origin_username == "-"@
            &&& s.session_id == dec(id as nat)
            &&& s.session_version == dec(id as nat)
            &&& s.origin_address == ip
            &&& s.session_name == "sip-rs"@
            &&& s.connection_address == Some(ip)
            &&& s.media.len() == 0
            &&& s.attributes.len() == 0
        }),
{
    let m = offered_audio(port, direction);
    assert(m.formats =~= seq![0u8, 8, 101, 111]);
    assert(m.attributes =~= seq![("fmtp"@, Some("101 0-15"@)), (direction, None)]);
}

// ---------------------------------------------------------------------------
// Challenges
// ---------------------------------------------------------------------------

/// The parameters of a challenge stand between commas; a comma in a quoted value is
/// part of the value.
pub proof fn law_challenge_params(name: Seq<char>, v: Seq<char>, rest: Seq<char>)
    requires
        !name.contains(','),
        !name.contains('"'),
        !v.contains('"'),
        name.len() > 0,
    ensures
        ({
            let p = name + seq!['"'] + v + seq!['"'];
            &&& params(p + seq![','] + rest) == seq![p] + params(rest)
            &&& params(p) == seq![p]
        }),
        params(name + seq![','] + rest) == seq![name] + params(rest),
        params(name) == seq![name],
{
    let q = seq!['"'];
    let p = name + q + v + q;
    let none = Seq::<char>::empty();
    let tail = seq![','] + rest;
    lemma_comma_behind(name, false, tail);
    lemma_comma_behind(name, false, none);
    assert(name + none =~= name);
    assert(name + seq![','] + rest =~= name + tail);
    lemma_comma_here(tail);
    let s = name + seq![','] + rest;
    assert(s.take(name.len() as int) =~= name);
    assert(s.skip(name.len() as int + 1) =~= rest);
    let whole = p + seq![','] + rest;
    lemma_comma_behind(name, false, q + v + q + tail);
    lemma_comma_behind(name, false, q + v + q);
    assert(whole =~= name + (q + v + q + tail));
    assert(p =~= name + (q + v + q));
    lemma_comma_quote(v + q + tail, false);
    assert(q + v + q + tail =~= q + (v + q + tail));
    lemma_comma_quote(v + q, false);
    assert(q + v + q =~= q + (v + q));
    lemma_comma_behind(v, true, q + tail);
    assert(v + q + tail =~= v + (q + tail));
    lemma_comma_behind(v, true, q);
    lemma_comma_quote(tail, true);
    lemma_comma_quote(none, true);
    assert(q + none =~= q);
    assert(whole.take(p.len() as int) =~= p);
    assert(whole.skip(p.len() as int + 1) =~= rest);
}

proof fn lemma_comma_here(tail: Seq<char>)
    requires
        tail.len() > 0,
        tail[0] == ',',
    ensures
        next_comma(tail, false) == 0,
{
}

proof fn lemma_comma_quote(rest: Seq<char>, quoted: bool)
    ensures
        next_comma(seq!['"'] + rest, quoted) == 1 + next_comma(rest, !quoted),
{
    assert((seq!['"'] + rest).skip(1) =~= rest);
}

proof fn lemma_comma_behind(a: Seq<char>, quoted: bool, rest: Seq<char>)
    requires
        !a.contains('"'),
        quoted || !a.contains(','),
    ensures
        next_comma(a + rest, quoted) == a.len() + next_comma(rest, quoted),
    decreases a.len(),
{
    let s = a + rest;
    if a.len() > 0 {
        let fewer = a.skip(1);
        assert(a.contains(a[0]));
        assert(s[0] == a[0]);
        assert(s.skip(1) =~= fewer + rest);
        assert forall|x: char| !a.contains(x) implies !fewer.contains(x) by {
            assert forall|j: int| 0 <= j < fewer.len() implies fewer[j] != x by {
                assert(a.contains(a[j + 1]));
            }
        }
        lemma_comma_behind(fewer, quoted, rest);
    } else {
        assert(s =~= rest);
    }
}

/// A challenge is read parameter by parameter, each by its name in any case and
/// without its quotes; unknown ones change nothing. It needs a realm and a nonce.
pub proof fn law_challenge_read(f: ChallengeFields, name: Seq<char>, v: Seq<char>)
    requires
        !name.contains('='),
        name.len() > 0,
        '!' <= name[0] <= '~',
        '!' <= name.last() <= '~',
        !v.contains('"'),
    ensures
        ({
            let r = read_param(f, name + seq!['='] + (seq!['"'] + v + seq!['"']));
            &&& lower(name) == "realm"@ ==> r == (ChallengeFields { realm: Some(v), ..f })
            &&& lower(name) == "nonce"@ ==> r == (ChallengeFields { nonce: Some(v), ..f })
            &&& lower(name) == "opaque"@ ==> r == (ChallengeFields { opaque: Some(v), ..f })
            &&& lower(name) == "qop"@ ==> r == (ChallengeFields { qop: Some(v), ..f })
            &&& lower(name) == "algorithm"@ && lower(v) == "md5-sess"@ ==> r == (ChallengeFields {
                algorithm: DigestAlgorithm::Md5Sess,
                ..f
            })
            &&& lower(name) == "algorithm"@ && lower(v) != "md5-sess"@ ==> r == (ChallengeFields {
                algorithm: DigestAlgorithm::Md5,
                ..f
            })
            &&& lower(name) == "stale"@ ==> r == (ChallengeFields {
                stale: ascii_lowered(v) == "true"@,
                ..f
            })
            &&& lower(name) != "realm"@ && lower(name) != "nonce"@ && lower(name) != "opaque"@
                && lower(name) != "qop"@ && lower(name) != "algorithm"@ && lower(name) != "stale"@
                ==> r == f
        }),
{
    let q = seq!['"'];
    let value = q + v + q;
    let p = name + seq!['='] + value;
    assert(p[0] == name[0]);
    assert(p.last() == '"');
    lemma_trimmed_id(p);
    lemma_trimmed_id(name);
    lemma_trimmed_id(value);
    law_separated(name, '=', value, 2);
    lemma_unquoted(v);
    reveal_strlit("realm");
    reveal_strlit("nonce");
    reveal_strlit("opaque");
    reveal_strlit("qop");
    reveal_strlit("algorithm");
    reveal_strlit("stale");
    assert("realm"@[0] == 'r' && "nonce"@[0] == 'n' && "opaque"@[0] == 'o' && "qop"@[0] == 'q'
        && "algorithm"@[0] == 'a' && "stale"@[0] == 's');
}

proof fn lemma_unquoted(v: Seq<char>)
    requires
        !v.contains('"'),
    ensures
        stripped(seq!['"'] + v + seq!['"'], '"') == v,
{
    let q = seq!['"'];
    let s = q + v + q;
    assert(s.skip(1) =~= v + q);
    if v.len() > 0 {
        assert(v.contains(v[0]));
        assert(v.contains(v[v.len() - 1]));
        assert((v + q)[0] == v[0]);
        assert(strip_front(s.skip(1), '"') == v + q);
        assert((v + q).drop_last() =~= v);
        assert(strip_back(v, '"') == v);
        assert(strip_back(v + q, '"') == v);
    } else {
        assert(v + q =~= q);
        assert(q.skip(1) =~= v);
        assert(strip_front(v, '"') == v);
        assert(strip_front(q, '"') == v);
        assert(strip_front(s, '"') == v);
    }
}

/// The parameters of a challenge are read in their order, and the challenge is one
/// only behind its scheme and with a realm and a nonce.
pub proof fn law_challenge_whole(ps: Seq<Seq<char>>, p: Seq<char>, t: Seq<char>)
    ensures
        read_params(ps.push(p)) == read_param(read_params(ps), p),
        ({
            let f = read_params(params(t));
            let r = challenge_of("Digest "@ + t);
            &&& f.realm is Some && f.nonce is Some ==> r == Some(f)
            &&& f.realm is None || f.nonce is None ==> r is None
        }),
        ({
            let none = read_params(Seq::empty());
            &&& none.realm is None && none.nonce is None && none.opaque is None && none.qop is None
            &&& none.algorithm == DigestAlgorithm::Md5 && !none.stale
        }),
{
    assert(ps.push(p).drop_last() =~= ps);
    law_prefix("Digest "@, t, t);
}

/// White space around a parameter changes nothing, nor do missing quotes; what has no
/// equals sign is passed over.
pub proof fn law_challenge_param_forms(
    f: ChallengeFields,
    name: Seq<char>,
    v: Seq<char>,
    p: Seq<char>,
    q: Seq<char>,
)
    requires
        !name.contains('='),
        name.len() > 0,
        '!' <= name[0] <= '~',
        '!' <= name.last() <= '~',
        v.len() > 0,
        '!' <= v[0] <= '~',
        '!' <= v.last() <= '~',
        v[0] != '"',
        v.last() != '"',
        !v.contains('"'),
    ensures
        trimmed(p) == trimmed(q) ==> read_param(f, p) == read_param(f, q),
        read_param(f, name + seq!['='] + v) == read_param(
            f,
            name + seq!['='] + (seq!['"'] + v + seq!['"']),
        ),
        read_param(f, name) == f,
{
    let quoted = seq!['"'] + v + seq!['"'];
    let a = name + seq!['='] + v;
    let b = name + seq!['='] + quoted;
    assert(a[0] == name[0] && b[0] == name[0]);
    assert(a.last() == v.last() && b.last() == '"');
    lemma_trimmed_id(a);
    lemma_trimmed_id(b);
    lemma_trimmed_id(name);
    lemma_trimmed_id(v);
    lemma_trimmed_id(quoted);
    law_separated(name, '=', v, 2);
    law_separated(name, '=', quoted, 2);
    lemma_unquoted(v);
    assert(stripped(v, '"') == v);
}

/// The scheme of a challenge is written with a capital or without; any other scheme is
/// none that the phone can answer.
pub proof fn law_challenge_scheme(t: Seq<char>, other: Seq<char>)
    requires
        other.len() > 0,
        other[0] != 'D',
        other[0] != 'd',
    ensures
        challenge_of("digest "@ + t) == challenge_of("Digest "@ + t),
        challenge_of(other) is None,
{
    reveal_strlit("Digest ");
    reveal_strlit("digest ");
    law_prefix("Digest "@, t, t);
    law_prefix("digest "@, t, t);
    let d = "digest "@ + t;
    assert(d.take(7)[0] == 'd');
    assert("Digest "@[0] == 'D');
    if other.len() >= 7 {
        assert(other.take(7)[0] == other[0]);
        assert("digest "@[0] == 'd');
    }
}

/// Lines of a description that say too little are passed over.
pub proof fn law_lines_passed_over(s: SdpView, l: Seq<char>, a: Seq<char>, b: Seq<char>)
    requires
        !a.contains(' '),
        !b.contains(' '),
        b.len() > 0,
        '!' <= b.last() <= '~',
    ensures
        trimmed(l).len() < 2 ==> read_line(s, l) == Ok::<SdpView, SdpErrorView>(s),
        trimmed(l).len() >= 2 && trimmed(l)[1] != '=' ==> read_line(s, l) == Ok::<
            SdpView,
            SdpErrorView,
        >(s),
        read_line(s, "c="@ + (a + seq![' '] + b)) == Ok::<SdpView, SdpErrorView>(s),
        read_line(s, "o="@ + (a + seq![' '] + b)) == Ok::<SdpView, SdpErrorView>(s),
{
    reveal_strlit("c=");
    reveal_strlit("o=");
    let v = a + seq![' '] + b;
    assert(v.last() == b.last());
    lemma_line("c="@, v);
    lemma_line("o="@, v);
    law_separated(a, ' ', b, 2);
    law_separated(b, ' ', b, 2);
    law_separated(a, ' ', b, 6);
    law_separated(b, ' ', b, 5);
    assert(split(v, ' ') =~= seq![a, b]);
    assert(splitn(v, 6, ' ') =~= seq![a, b]);
}

} // verus!
