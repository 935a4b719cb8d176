//! What a session description says is what is read from its text.
use super::roundtrip::lemma_cut;
use super::sdp::{
    attr_line, attr_lines, attr_of, blank_session, connection_text, formats_of, formats_text,
    map_lines, media_line, media_of, media_text, medias_text, origin_line,
    other_attrs, parse_sdp, read_line, read_lines, rtpmap_of, rtpmap_text, sdp_text,
    with_attribute, AttrView, MediaTypeView, MediaView, ProtocolView, RtpMapView, SdpErrorView,
    SdpView,
};
use crate::number::{all_digits, dec, is_digit, lemma_dec_digits, lemma_dec_reads_back};
use crate::text::{
    first_index, is_space, lemma_first_index_is, lemma_newline_cons, lemma_trimmed_ends,
    lemma_trimmed_id, lines, split, splitn,
    trim_back, trimmed, without_cr,
};
use vstd::prelude::*;

verus! {

/// Whether a line is read as it is written.
pub open spec fn sendable_line(l: Seq<char>) -> bool {
    !l.contains('\n') && trimmed(l) == l
}

/// Whether an attribute is read as it is written.
pub open spec fn sendable_attr(a: AttrView) -> bool {
    sendable_line(attr_line(a)) && !a.0.contains(':')
}

/// Whether each attribute is read as it is written.
pub open spec fn sendable_attrs(attrs: Seq<AttrView>) -> bool {
    forall|i: int| 0 <= i < attrs.len() ==> sendable_attr(#[trigger] attrs[i])
}

/// Whether the description of a payload type is read as it is written.
pub open spec fn sendable_map(m: RtpMapView) -> bool {
    !m.encoding_name.contains('/') && !m.encoding_name.contains('\n')
}

/// The part of a media line before the formats.
pub open spec fn media_head(m: MediaView) -> Seq<char> {
    "m="@ + m.media_type.text() + " "@ + dec(m.port as nat) + " "@ + m.protocol.text()
}

/// Whether a stream is read as it is written.
pub open spec fn sendable_media(m: MediaView) -> bool {
    &&& sendable_line(media_head(m))
    &&& !m.media_type.text().contains(' ')
    &&& !m.protocol.text().contains(' ')
    &&& MediaTypeView::parse(m.media_type.text()) == m.media_type
    &&& ProtocolView::parse(m.protocol.text()) == m.protocol
    &&& forall|i: int| 0 <= i < m.rtpmaps.len() ==> sendable_map(#[trigger] m.rtpmaps[i])
    &&& sendable_attrs(m.attributes)
}

/// Whether a session description is read as it is written: no part of it
/// holds a line feed, a character that would end the part early, or white
/// space at the end of a line.
pub open spec fn sendable_sdp(s: SdpView) -> bool {
    &&& sendable_line(origin_line(s))
    &&& !s.origin_username.contains(' ')
    &&& !s.session_id.contains(' ')
    &&& !s.session_version.contains(' ')
    &&& sendable_line("s="@ + s.session_name)
    &&& s.connection_address is Some ==> sendable_line("c=IN IP4 "@ + s.connection_address->0)
        && !(s.connection_address->0).contains(' ')
    &&& sendable_attrs(s.attributes)
    &&& forall|i: int| 0 <= i < s.media.len() ==> sendable_media(#[trigger] s.media[i])
}

/// The `rtpmap` attributes that describe the payload types.
pub open spec fn map_attrs(maps: Seq<RtpMapView>) -> Seq<AttrView> {
    Seq::new(maps.len(), |i: int| ("rtpmap"@, Some(rtpmap_text(maps[i]))))
}

/// A stream as it is read: the descriptions of its payload types are
/// attributes too, and come first.
pub open spec fn media_as_read(m: MediaView) -> MediaView {
    MediaView { attributes: map_attrs(m.rtpmaps) + other_attrs(m.attributes), ..m }
}

/// A session description as it is read.
pub open spec fn as_read(s: SdpView) -> SdpView {
    SdpView { media: Seq::new(s.media.len(), |i: int| media_as_read(s.media[i])), ..s }
}

// ---------------------------------------------------------------------------
// Lines
// ---------------------------------------------------------------------------

/// A line that is read as it is written, in front of a text, is its first line.
proof fn lemma_line_cons(l: Seq<char>, rest: Seq<char>)
    requires
        sendable_line(l),
    ensures
        lines(l + "\n"@ + rest) == seq![l] + lines(rest),
{
    if l.len() > 0 {
        lemma_trimmed_ends(l);
    }
    lemma_newline_cons(l, rest);
}

/// Reading some lines, and then more.
proof fn lemma_read_more(start: SdpView, a: Seq<Seq<char>>, mid: SdpView, b: Seq<Seq<char>>)
    requires
        read_lines(start, a) == Ok::<SdpView, SdpErrorView>(mid),
    ensures
        read_lines(start, a + b) == read_lines(mid, b),
    decreases b.len(),
{
    if b.len() == 0 {
        assert(a + b =~= a);
    } else {
        lemma_read_more(start, a, mid, b.drop_last());
        assert((a + b).drop_last() =~= a + b.drop_last());
        assert((a + b).last() == b.last());
    }
}

/// Reading one line, and then more.
proof fn lemma_read_one(start: SdpView, l: Seq<char>, mid: SdpView, b: Seq<Seq<char>>)
    requires
        read_line(start, l) == Ok::<SdpView, SdpErrorView>(mid),
    ensures
        read_lines(start, seq![l] + b) == read_lines(mid, b),
{
    let a = seq![l];
    assert(a.drop_last() =~= seq![]);
    assert(read_lines(start, a.drop_last()) == Ok::<SdpView, SdpErrorView>(start));
    assert(a.last() == l);
    lemma_read_more(start, a, mid, b);
}

// ---------------------------------------------------------------------------
// Attributes
// ---------------------------------------------------------------------------

proof fn lemma_attr_of(a: AttrView)
    requires
        !a.0.contains(':'),
    ensures
        ({
            let l = attr_line(a);
            l.len() >= 2 && l[0] == 'a' && l[1] == '=' && attr_of(l.skip(2)) == a
        }),
{
    reveal_strlit("a=");
    reveal_strlit(":");
    let l = attr_line(a);
    match a.1 {
        Some(v) => {
            assert(l.skip(2) =~= a.0 + seq![':'] + v);
            lemma_cut(a.0, ':', v);
        },
        None => {
            assert(l.skip(2) =~= a.0);
            crate::text::lemma_first_index(a.0, ':');
        },
    }
}

/// An attribute line adds its attribute.
proof fn lemma_read_attr(s: SdpView, a: AttrView)
    requires
        sendable_attr(a),
    ensures
        read_line(s, attr_line(a)) == Ok::<SdpView, SdpErrorView>(with_attribute(s, a)),
{
    lemma_attr_of(a);
}

/// Attributes added one after the other.
pub open spec fn with_attributes(s: SdpView, attrs: Seq<AttrView>) -> SdpView
    decreases attrs.len(),
{
    if attrs.len() == 0 {
        s
    } else {
        with_attribute(with_attributes(s, attrs.drop_last()), attrs.last())
    }
}

proof fn lemma_read_attrs(s: SdpView, attrs: Seq<AttrView>, rest: Seq<char>)
    requires
        sendable_attrs(attrs),
    ensures
        read_lines(s, lines(attr_lines(attrs) + rest)) == read_lines(
            with_attributes(s, attrs),
            lines(rest),
        ),
    decreases attrs.len(),
{
    if attrs.len() == 0 {
        assert(attr_lines(attrs) + rest =~= rest);
    } else {
        let init = attrs.drop_last();
        let a = attrs.last();
        assert(sendable_attr(attrs[attrs.len() - 1]));
        assert(sendable_attrs(init)) by {
            assert forall|i: int| 0 <= i < init.len() implies sendable_attr(#[trigger] init[i]) by {
                assert(init[i] == attrs[i]);
            }
        }
        let tail = attr_line(a) + "\n"@ + rest;
        assert(attr_lines(attrs) + rest =~= attr_lines(init) + tail);
        lemma_read_attrs(s, init, tail);
        lemma_line_cons(attr_line(a), rest);
        let mid = with_attributes(s, init);
        lemma_read_attr(mid, a);
        lemma_read_one(mid, attr_line(a), with_attribute(mid, a), lines(rest));
    }
}

/// Attributes of a session without streams are attributes of the session.
proof fn lemma_session_attrs(s: SdpView, attrs: Seq<AttrView>)
    requires
        s.media.len() == 0,
    ensures
        with_attributes(s, attrs) == (SdpView { attributes: s.attributes + attrs, ..s }),
    decreases attrs.len(),
{
    if attrs.len() > 0 {
        lemma_session_attrs(s, attrs.drop_last());
        assert(s.attributes + attrs =~= (s.attributes + attrs.drop_last()).push(attrs.last()));
    } else {
        assert(s.attributes + attrs =~= s.attributes);
    }
}

/// Attributes other than `rtpmap` behind a media line are attributes of the
/// stream.
proof fn lemma_media_attrs(s: SdpView, attrs: Seq<AttrView>)
    requires
        s.media.len() > 0,
        forall|i: int| 0 <= i < attrs.len() ==> (#[trigger] attrs[i]).0 != "rtpmap"@,
    ensures
        with_attributes(s, attrs) == (SdpView {
            media: s.media.drop_last().push(
                MediaView {
                    attributes: s.media.last().attributes + attrs,
                    ..s.media.last()
                },
            ),
            ..s
        }),
    decreases attrs.len(),
{
    if attrs.len() > 0 {
        let init = attrs.drop_last();
        assert forall|i: int| 0 <= i < init.len() implies (#[trigger] init[i]).0 != "rtpmap"@ by {
            assert(init[i] == attrs[i]);
        }
        assert(attrs[attrs.len() - 1].0 != "rtpmap"@);
        lemma_media_attrs(s, init);
        let m = s.media.last();
        let mid = MediaView { attributes: m.attributes + init, ..m };
        assert(s.media.drop_last().push(mid).drop_last() =~= s.media.drop_last());
        assert(m.attributes + attrs =~= (m.attributes + init).push(attrs.last()));
    } else {
        assert(s.media.last().attributes + attrs =~= s.media.last().attributes);
        assert(s.media.drop_last().push(s.media.last()) =~= s.media);
    }
}

proof fn lemma_other_attrs(attrs: Seq<AttrView>)
    requires
        sendable_attrs(attrs),
    ensures
        sendable_attrs(other_attrs(attrs)),
        forall|i: int|
            0 <= i < other_attrs(attrs).len() ==> (#[trigger] other_attrs(attrs)[i]).0
                != "rtpmap"@,
    decreases attrs.len(),
{
    if attrs.len() > 0 {
        let init = attrs.drop_last();
        assert(sendable_attr(attrs[attrs.len() - 1]));
        assert forall|i: int| 0 <= i < init.len() implies sendable_attr(#[trigger] init[i]) by {
            assert(init[i] == attrs[i]);
        }
        lemma_other_attrs(init);
    }
}

// ---------------------------------------------------------------------------
// Payload types
// ---------------------------------------------------------------------------

/// A text of digits holds no other character.
proof fn lemma_digits_lack(s: Seq<char>, c: char)
    requires
        all_digits(s),
        !is_digit(c),
    ensures
        !s.contains(c),
{
    if s.contains(c) {
        let i = choose|i: int| 0 <= i < s.len() && s[i] == c;
        assert(is_digit(s[i]));
    }
}

proof fn lemma_split_one(a: Seq<char>, c: char)
    requires
        !a.contains(c),
    ensures
        split(a, c) == seq![a],
{
    crate::text::lemma_first_index(a, c);
}

proof fn lemma_split_cons(a: Seq<char>, c: char, b: Seq<char>)
    requires
        !a.contains(c),
    ensures
        split(a + seq![c] + b, c) == seq![a] + split(b, c),
{
    lemma_cut(a, c, b);
    let s = a + seq![c] + b;
    assert(s.take(a.len() as int) =~= a);
    assert(s.skip(a.len() as int + 1) =~= b);
}

/// The description of a payload type reads back.
pub proof fn law_rtpmap_reads_back(m: RtpMapView)
    requires
        !m.encoding_name.contains('/'),
    ensures
        rtpmap_of(rtpmap_text(m)) == Some(m),
{
    reveal_strlit(" ");
    reveal_strlit("/");
    let pt = dec(m.payload_type as nat);
    let rate = dec(m.clock_rate as nat);
    lemma_dec_reads_back(m.payload_type as nat, u8::MAX as nat);
    lemma_dec_reads_back(m.clock_rate as nat, u32::MAX as nat);
    lemma_digits_lack(pt, ' ');
    lemma_digits_lack(rate, '/');
    let name = m.encoding_name;
    match m.channels {
        None => {
            let rest = name + seq!['/'] + rate;
            assert(rtpmap_text(m) =~= pt + seq![' '] + rest);
            lemma_cut(pt, ' ', rest);
            lemma_split_cons(name, '/', rate);
            lemma_split_one(rate, '/');
            assert(split(rest, '/') =~= seq![name, rate]);
        },
        Some(c) => {
            let ch = dec(c as nat);
            lemma_dec_reads_back(c as nat, u32::MAX as nat);
            lemma_digits_lack(ch, '/');
            let tail = rate + seq!['/'] + ch;
            let rest = name + seq!['/'] + tail;
            assert(rtpmap_text(m) =~= pt + seq![' '] + rest);
            lemma_cut(pt, ' ', rest);
            lemma_split_cons(name, '/', tail);
            lemma_split_cons(rate, '/', ch);
            lemma_split_one(ch, '/');
            assert(split(rest, '/') =~= seq![name, rate, ch]);
        },
    }
}

/// The text of a number ends in a digit, and so does what ends in it.
proof fn lemma_ends_in_digit(a: Seq<char>, n: nat)
    ensures
        (a + dec(n)).len() > 0,
        !is_space((a + dec(n)).last()),
{
    lemma_dec_digits(n);
    assert((a + dec(n)).last() == dec(n)[dec(n).len() - 1]);
    assert(is_digit(dec(n)[dec(n).len() - 1]));
}

proof fn lemma_map_line(m: RtpMapView)
    requires
        sendable_map(m),
    ensures
        sendable_attr(("rtpmap"@, Some(rtpmap_text(m)))),
        attr_line(("rtpmap"@, Some(rtpmap_text(m)))) == "a=rtpmap:"@ + rtpmap_text(m),
{
    reveal_strlit("rtpmap");
    reveal_strlit("a=");
    reveal_strlit(":");
    reveal_strlit("a=rtpmap:");
    reveal_strlit(" ");
    reveal_strlit("/");
    let t = rtpmap_text(m);
    let l = attr_line(("rtpmap"@, Some(t)));
    assert(l =~= "a=rtpmap:"@ + t);
    lemma_dec_digits(m.payload_type as nat);
    lemma_dec_digits(m.clock_rate as nat);
    lemma_digits_lack(dec(m.payload_type as nat), '\n');
    lemma_digits_lack(dec(m.clock_rate as nat), '\n');
    let base = "a=rtpmap:"@ + dec(m.payload_type as nat) + " "@ + m.encoding_name + "/"@;
    let mid = base + dec(m.clock_rate as nat);
    lemma_no_newline_concat("a=rtpmap:"@, dec(m.payload_type as nat));
    lemma_no_newline_concat("a=rtpmap:"@ + dec(m.payload_type as nat), " "@);
    lemma_no_newline_concat("a=rtpmap:"@ + dec(m.payload_type as nat) + " "@, m.encoding_name);
    lemma_no_newline_concat(
        "a=rtpmap:"@ + dec(m.payload_type as nat) + " "@ + m.encoding_name,
        "/"@,
    );
    lemma_no_newline_concat(base, dec(m.clock_rate as nat));
    match m.channels {
        None => {
            assert(l =~= base + dec(m.clock_rate as nat));
            lemma_ends_in_digit(base, m.clock_rate as nat);
        },
        Some(c) => {
            lemma_dec_digits(c as nat);
            lemma_digits_lack(dec(c as nat), '\n');
            lemma_no_newline_concat(mid, "/"@);
            lemma_no_newline_concat(mid + "/"@, dec(c as nat));
            assert(l =~= mid + "/"@ + dec(c as nat));
            lemma_ends_in_digit(mid + "/"@, c as nat);
        },
    }
    assert(l[0] == 'a');
    lemma_trimmed_id(l);
    assert(!("rtpmap"@).contains(':'));
}

proof fn lemma_no_newline_concat(a: Seq<char>, b: Seq<char>)
    requires
        !a.contains('\n'),
        !b.contains('\n'),
    ensures
        !(a + b).contains('\n'),
{
    if (a + b).contains('\n') {
        let i = choose|i: int| 0 <= i < (a + b).len() && (a + b)[i] == '\n';
        if i < a.len() {
            assert(a[i] == '\n');
        } else {
            assert(b[i - a.len()] == '\n');
        }
    }
}

proof fn lemma_read_maps(s: SdpView, maps: Seq<RtpMapView>, rest: Seq<char>)
    requires
        s.media.len() > 0,
        forall|i: int| 0 <= i < maps.len() ==> sendable_map(#[trigger] maps[i]),
    ensures
        read_lines(s, lines(map_lines(maps) + rest)) == read_lines(
            SdpView {
                media: s.media.drop_last().push(
                    MediaView {
                        rtpmaps: s.media.last().rtpmaps + maps,
                        attributes: s.media.last().attributes + map_attrs(maps),
                        ..s.media.last()
                    },
                ),
                ..s
            },
            lines(rest),
        ),
    decreases maps.len(),
{
    let last = s.media.last();
    if maps.len() == 0 {
        assert(map_lines(maps) + rest =~= rest);
        assert(last.rtpmaps + maps =~= last.rtpmaps);
        assert(last.attributes + map_attrs(maps) =~= last.attributes);
        assert(s.media.drop_last().push(last) =~= s.media);
    } else {
        let init = maps.drop_last();
        let m = maps.last();
        assert(sendable_map(maps[maps.len() - 1]));
        assert forall|i: int| 0 <= i < init.len() implies sendable_map(#[trigger] init[i]) by {
            assert(init[i] == maps[i]);
        }
        let a = ("rtpmap"@, Some(rtpmap_text(m)));
        lemma_map_line(m);
        let tail = attr_line(a) + "\n"@ + rest;
        assert(map_lines(maps) + rest =~= map_lines(init) + tail);
        lemma_read_maps(s, init, tail);
        lemma_line_cons(attr_line(a), rest);
        let mid_media = MediaView {
            rtpmaps: last.rtpmaps + init,
            attributes: last.attributes + map_attrs(init),
            ..last
        };
        let mid = SdpView { media: s.media.drop_last().push(mid_media), ..s };
        lemma_read_attr(mid, a);
        lemma_read_one(mid, attr_line(a), with_attribute(mid, a), lines(rest));
        law_rtpmap_reads_back(m);
        assert(mid.media.drop_last() =~= s.media.drop_last());
        assert(mid.media.last() == mid_media);
        assert(last.rtpmaps + maps =~= (last.rtpmaps + init).push(m));
        assert(last.attributes + map_attrs(maps) =~= (last.attributes + map_attrs(init)).push(a));
    }
}

// ---------------------------------------------------------------------------
// Streams
// ---------------------------------------------------------------------------

/// The payload types in decimal.
pub open spec fn format_texts(fs: Seq<u8>) -> Seq<Seq<char>> {
    Seq::new(fs.len(), |i: int| dec(fs[i] as nat))
}

proof fn lemma_formats_read_back(fs: Seq<u8>)
    ensures
        formats_of(format_texts(fs)) == fs,
    decreases fs.len(),
{
    if fs.len() > 0 {
        lemma_formats_read_back(fs.drop_last());
        assert(format_texts(fs).drop_last() =~= format_texts(fs.drop_last()));
        assert(format_texts(fs).last() == dec(fs.last() as nat));
        lemma_dec_reads_back(fs.last() as nat, u8::MAX as nat);
        assert(fs.drop_last().push(fs.last()) =~= fs);
    } else {
        assert(formats_of(format_texts(fs)) =~= fs);
    }
}

/// A part without spaces, and the formats behind it, are split at the spaces.
proof fn lemma_split_formats(p: Seq<char>, fs: Seq<u8>)
    requires
        !p.contains(' '),
    ensures
        split(p + formats_text(fs), ' ') == seq![p] + format_texts(fs),
    decreases fs.len(),
{
    reveal_strlit(" ");
    if fs.len() == 0 {
        assert(p + formats_text(fs) =~= p);
        lemma_split_one(p, ' ');
        assert(seq![p] + format_texts(fs) =~= seq![p]);
    } else {
        let f = dec(fs.last() as nat);
        lemma_dec_digits(fs.last() as nat);
        lemma_digits_lack(f, ' ');
        let front = p + formats_text(fs.drop_last());
        assert(p + formats_text(fs) =~= front + seq![' '] + f);
        lemma_split_formats(p, fs.drop_last());
        lemma_split_snoc(front, ' ', f);
        assert(format_texts(fs) =~= format_texts(fs.drop_last()).push(f));
        assert(seq![p] + format_texts(fs) =~= (seq![p] + format_texts(fs.drop_last())).push(f));
    }
}

/// Splitting a text that ends in a separator and one more part.
proof fn lemma_split_snoc(a: Seq<char>, c: char, b: Seq<char>)
    requires
        !b.contains(c),
    ensures
        split(a + seq![c] + b, c) == split(a, c).push(b),
    decreases a.len(),
{
    crate::text::lemma_first_index(a, c);
    let k = first_index(a, c);
    if k < a.len() {
        let s = a + seq![c] + b;
        let t = a.skip(k + 1);
        assert forall|j: int| 0 <= j < k implies s[j] != c by {
            assert(s[j] == a[j]);
        }
        lemma_first_index_is(s, c, k);
        assert(s.take(k) =~= a.take(k));
        assert(s.skip(k + 1) =~= t + seq![c] + b);
        lemma_split_snoc(t, c, b);
        assert(seq![a.take(k)] + split(t, c).push(b) =~= (seq![a.take(k)] + split(t, c)).push(b));
    } else {
        lemma_split_cons(a, c, b);
        lemma_split_one(b, c);
        assert(seq![a] + seq![b] =~= seq![a].push(b));
    }
}

proof fn lemma_formats_text_plain(fs: Seq<u8>)
    ensures
        !formats_text(fs).contains('\n'),
        fs.len() > 0 ==> formats_text(fs).len() > 0 && !is_space(formats_text(fs).last()),
    decreases fs.len(),
{
    reveal_strlit(" ");
    if fs.len() > 0 {
        lemma_formats_text_plain(fs.drop_last());
        lemma_dec_digits(fs.last() as nat);
        lemma_digits_lack(dec(fs.last() as nat), '\n');
        lemma_no_newline_concat(formats_text(fs.drop_last()), " "@);
        lemma_no_newline_concat(formats_text(fs.drop_last()) + " "@, dec(fs.last() as nat));
        lemma_ends_in_digit(formats_text(fs.drop_last()) + " "@, fs.last() as nat);
    }
}

/// A media line begins its stream.
#[verifier::rlimit(30)]
#[verifier::spinoff_prover]
proof fn lemma_read_media(s: SdpView, m: MediaView)
    requires
        sendable_media(m),
    ensures
        read_line(s, media_line(m)) == Ok::<SdpView, SdpErrorView>(
            SdpView {
                media: s.media.push(MediaView { rtpmaps: seq![], attributes: seq![], ..m }),
                ..s
            },
        ),
        !media_line(m).contains('\n'),
        media_line(m).len() > 0,
        media_line(m).last() != '\r',
{
    reveal_strlit("m=");
    reveal_strlit(" ");
    let head = media_head(m);
    let l = media_line(m);
    let t = m.media_type.text();
    let p = dec(m.port as nat);
    let q = m.protocol.text();
    let fs = formats_text(m.formats);
    assert(head[0] == 'm');
    lemma_trimmed_ends(head);
    lemma_formats_text_plain(m.formats);
    let body = t + seq![' '] + (p + seq![' '] + (q + fs));
    if m.formats.len() == 0 {
        assert(l =~= head + seq![' ']);
        lemma_no_newline_concat(head, seq![' ']);
        assert(l.drop_last() =~= head);
        assert(trim_back(l) == trim_back(head));
        assert(trimmed(l) == head);
        assert(head.skip(2) =~= body);
    } else {
        assert(l =~= head + fs);
        lemma_no_newline_concat(head, fs);
        assert(l.last() == fs.last());
        assert(l[0] == 'm');
        lemma_trimmed_id(l);
        assert(l.skip(2) =~= body);
    }
    assert(trimmed(l).skip(2) == body);
    lemma_dec_reads_back(m.port as nat, u16::MAX as nat);
    lemma_digits_lack(p, ' ');
    lemma_split_cons(t, ' ', p + seq![' '] + (q + fs));
    lemma_split_cons(p, ' ', q + fs);
    lemma_split_formats(q, m.formats);
    let parts = split(body, ' ');
    assert(parts =~= seq![t, p, q] + format_texts(m.formats));
    assert(parts.skip(3) =~= format_texts(m.formats));
    lemma_formats_read_back(m.formats);
    assert(media_of(parts) == (MediaView { rtpmaps: seq![], attributes: seq![], ..m }));
}

proof fn lemma_read_stream(s: SdpView, m: MediaView, rest: Seq<char>)
    requires
        sendable_media(m),
    ensures
        read_lines(s, lines(media_text(m) + rest)) == read_lines(
            SdpView { media: s.media.push(media_as_read(m)), ..s },
            lines(rest),
        ),
{
    let others = other_attrs(m.attributes);
    let t2 = attr_lines(others) + rest;
    let t1 = map_lines(m.rtpmaps) + t2;
    assert(media_text(m) + rest =~= media_line(m) + "\n"@ + t1);
    lemma_read_media(s, m);
    lemma_newline_cons(media_line(m), t1);
    let bare = MediaView { rtpmaps: seq![], attributes: seq![], ..m };
    let s1 = SdpView { media: s.media.push(bare), ..s };
    lemma_read_one(s, media_line(m), s1, lines(t1));
    lemma_read_maps(s1, m.rtpmaps, t2);
    assert(s1.media.drop_last() =~= s.media);
    let mapped = MediaView {
        rtpmaps: bare.rtpmaps + m.rtpmaps,
        attributes: bare.attributes + map_attrs(m.rtpmaps),
        ..bare
    };
    assert(mapped.rtpmaps =~= m.rtpmaps);
    assert(mapped.attributes =~= map_attrs(m.rtpmaps));
    let s2 = SdpView { media: s.media.push(mapped), ..s };
    lemma_other_attrs(m.attributes);
    lemma_read_attrs(s2, others, rest);
    lemma_media_attrs(s2, others);
    assert(s2.media.drop_last() =~= s.media);
    assert(s2.media.last() == mapped);
}

proof fn lemma_read_streams(s: SdpView, ms: Seq<MediaView>, rest: Seq<char>)
    requires
        forall|i: int| 0 <= i < ms.len() ==> sendable_media(#[trigger] ms[i]),
    ensures
        read_lines(s, lines(medias_text(ms) + rest)) == read_lines(
            SdpView {
                media: s.media + Seq::new(ms.len(), |i: int| media_as_read(ms[i])),
                ..s
            },
            lines(rest),
        ),
    decreases ms.len(),
{
    let done = Seq::new(ms.len(), |i: int| media_as_read(ms[i]));
    if ms.len() == 0 {
        assert(medias_text(ms) + rest =~= rest);
        assert(s.media + done =~= s.media);
    } else {
        let init = ms.drop_last();
        let m = ms.last();
        assert(sendable_media(ms[ms.len() - 1]));
        assert forall|i: int| 0 <= i < init.len() implies sendable_media(#[trigger] init[i]) by {
            assert(init[i] == ms[i]);
        }
        let front = Seq::new(init.len(), |i: int| media_as_read(init[i]));
        assert(medias_text(ms) + rest =~= medias_text(init) + (media_text(m) + rest));
        lemma_read_streams(s, init, media_text(m) + rest);
        let mid = SdpView { media: s.media + front, ..s };
        lemma_read_stream(mid, m, rest);
        assert(s.media + done =~= (s.media + front).push(media_as_read(m)));
    }
}

// ---------------------------------------------------------------------------
// The session
// ---------------------------------------------------------------------------

proof fn lemma_splitn_cons(a: Seq<char>, c: char, b: Seq<char>, n: nat)
    requires
        !a.contains(c),
        n >= 2,
    ensures
        splitn(a + seq![c] + b, n, c) == seq![a] + splitn(b, (n - 1) as nat, c),
{
    lemma_cut(a, c, b);
    let s = a + seq![c] + b;
    assert(s.take(a.len() as int) =~= a);
    assert(s.skip(a.len() as int + 1) =~= b);
}

proof fn lemma_read_origin(st: SdpView, s: SdpView)
    requires
        sendable_sdp(s),
    ensures
        read_line(st, origin_line(s)) == Ok::<SdpView, SdpErrorView>(
            SdpView {
                origin_username: s.origin_username,
                session_id: s.session_id,
                session_version: s.session_version,
                origin_address: s.origin_address,
                ..st
            },
        ),
{
    reveal_strlit("o=");
    reveal_strlit(" ");
    reveal_strlit(" IN IP4 ");
    let l = origin_line(s);
    let a: Seq<char> = seq!['I', 'N'];
    let b: Seq<char> = seq!['I', 'P', '4'];
    let t5 = b + seq![' '] + s.origin_address;
    let t4 = a + seq![' '] + t5;
    let t3 = s.session_version + seq![' '] + t4;
    let t2 = s.session_id + seq![' '] + t3;
    let t1 = s.origin_username + seq![' '] + t2;
    assert(l.skip(2) =~= t1);
    assert(l[0] == 'o' && l[1] == '=');
    lemma_splitn_cons(s.origin_username, ' ', t2, 6);
    lemma_splitn_cons(s.session_id, ' ', t3, 5);
    lemma_splitn_cons(s.session_version, ' ', t4, 4);
    lemma_splitn_cons(a, ' ', t5, 3);
    lemma_splitn_cons(b, ' ', s.origin_address, 2);
    assert(splitn(s.origin_address, 1, ' ') == seq![s.origin_address]);
    let parts = splitn(t1, 6, ' ');
    assert(parts =~= seq![
        s.origin_username,
        s.session_id,
        s.session_version,
        a,
        b,
        s.origin_address,
    ]);
}

proof fn lemma_read_connection(st: SdpView, addr: Seq<char>)
    requires
        sendable_line("c=IN IP4 "@ + addr),
        !addr.contains(' '),
    ensures
        read_line(st, "c=IN IP4 "@ + addr) == Ok::<SdpView, SdpErrorView>(
            SdpView { connection_address: Some(addr), ..st },
        ),
{
    reveal_strlit("c=IN IP4 ");
    let l = "c=IN IP4 "@ + addr;
    let a: Seq<char> = seq!['I', 'N'];
    let b: Seq<char> = seq!['I', 'P', '4'];
    let t = b + seq![' '] + addr;
    assert(l.skip(2) =~= a + seq![' '] + t);
    lemma_split_cons(a, ' ', t);
    lemma_split_cons(b, ' ', addr);
    lemma_split_one(addr, ' ');
    assert(split(a + seq![' '] + t, ' ') =~= seq![a, b, addr]);
}

proof fn lemma_read_version(st: SdpView, v: u32)
    ensures
        sendable_line("v="@ + dec(v as nat)),
        read_line(st, "v="@ + dec(v as nat)) == Ok::<SdpView, SdpErrorView>(
            SdpView { version: v, ..st },
        ),
{
    reveal_strlit("v=");
    let l = "v="@ + dec(v as nat);
    lemma_dec_reads_back(v as nat, u32::MAX as nat);
    lemma_digits_lack(dec(v as nat), '\n');
    lemma_no_newline_concat("v="@, dec(v as nat));
    lemma_ends_in_digit("v="@, v as nat);
    assert(l[0] == 'v');
    lemma_trimmed_id(l);
    assert(l.skip(2) =~= dec(v as nat));
}

proof fn lemma_read_time(st: SdpView)
    ensures
        sendable_line("t=0 0"@),
        read_line(st, "t=0 0"@) == Ok::<SdpView, SdpErrorView>(st),
{
    reveal_strlit("t=0 0");
    lemma_trimmed_id("t=0 0"@);
}

proof fn lemma_read_name(st: SdpView, name: Seq<char>)
    requires
        sendable_line("s="@ + name),
    ensures
        read_line(st, "s="@ + name) == Ok::<SdpView, SdpErrorView>(
            SdpView { session_name: name, ..st },
        ),
{
    reveal_strlit("s=");
    assert(("s="@ + name).skip(2) =~= name);
}

/// A line and its line feed in front of a text.
pub open spec fn line_then(l: Seq<char>, rest: Seq<char>) -> Seq<char> {
    l + "\n"@ + rest
}

/// Reading a text that begins with a line.
proof fn lemma_read_step(st: SdpView, l: Seq<char>, mid: SdpView, rest: Seq<char>)
    requires
        sendable_line(l),
        read_line(st, l) == Ok::<SdpView, SdpErrorView>(mid),
    ensures
        read_lines(st, lines(line_then(l, rest))) == read_lines(mid, lines(rest)),
{
    lemma_line_cons(l, rest);
    lemma_read_one(st, l, mid, lines(rest));
}

/// The text of a session description from the connection line on.
pub open spec fn text_from_connection(s: SdpView) -> Seq<char> {
    connection_text(s) + line_then(
        "t=0 0"@,
        attr_lines(s.attributes) + (medias_text(s.media) + Seq::<char>::empty()),
    )
}

proof fn lemma_text_parts(s: SdpView)
    ensures
        sdp_text(s) == line_then(
            "v="@ + dec(s.version as nat),
            line_then(
                origin_line(s),
                line_then("s="@ + s.session_name, text_from_connection(s)),
            ),
        ),
{
    reveal_strlit("t=0 0\n");
    reveal_strlit("t=0 0");
    reveal_strlit("\n");
    assert("t=0 0\n"@ =~= "t=0 0"@ + "\n"@);
    assert(sdp_text(s) =~= line_then(
        "v="@ + dec(s.version as nat),
        line_then(origin_line(s), line_then("s="@ + s.session_name, text_from_connection(s))),
    ));
}

/// The lines from the connection line on.
proof fn lemma_read_from_connection(st: SdpView, s: SdpView)
    requires
        sendable_sdp(s),
        st.media.len() == 0,
        st.attributes.len() == 0,
        st.connection_address is None,
    ensures
        read_lines(st, lines(text_from_connection(s))) == Ok::<SdpView, SdpErrorView>(
            SdpView {
                connection_address: s.connection_address,
                attributes: s.attributes,
                media: as_read(s).media,
                ..st
            },
        ),
{
    let none = Seq::<char>::empty();
    let t7 = medias_text(s.media) + none;
    let t6 = attr_lines(s.attributes) + t7;
    let t5 = line_then("t=0 0"@, t6);
    let s4 = SdpView { connection_address: s.connection_address, ..st };
    assert(read_lines(st, lines(text_from_connection(s))) == read_lines(s4, lines(t5))) by {
        match s.connection_address {
            Some(a) => {
                let l = "c=IN IP4 "@ + a;
                assert(text_from_connection(s) =~= line_then(l, t5));
                lemma_read_connection(st, a);
                lemma_read_step(st, l, s4, t5);
            },
            None => {
                assert(text_from_connection(s) =~= t5);
            },
        }
    }
    lemma_read_time(s4);
    lemma_read_step(s4, "t=0 0"@, s4, t6);
    lemma_read_attrs(s4, s.attributes, t7);
    lemma_session_attrs(s4, s.attributes);
    assert(s4.attributes + s.attributes =~= s.attributes);
    let s5 = SdpView { attributes: s.attributes, ..s4 };
    lemma_read_streams(s5, s.media, none);
    assert(s5.media + Seq::new(s.media.len(), |i: int| media_as_read(s.media[i]))
        =~= as_read(s).media);
    assert(lines(none) =~= seq![]);
}

/// A session description that is written and read is the one that was
/// written; the descriptions of its payload types come back as attributes
/// too.
pub proof fn law_sdp_reads_back(s: SdpView)
    requires
        sendable_sdp(s),
    ensures
        parse_sdp(sdp_text(s)) == Ok::<SdpView, SdpErrorView>(as_read(s)),
{
    let b = blank_session();
    let t4 = text_from_connection(s);
    let t3 = line_then("s="@ + s.session_name, t4);
    let t2 = line_then(origin_line(s), t3);
    lemma_text_parts(s);

    lemma_read_version(b, s.version);
    let s1 = SdpView { version: s.version, ..b };
    lemma_read_step(b, "v="@ + dec(s.version as nat), s1, t2);

    lemma_read_origin(s1, s);
    let s2 = SdpView {
        origin_username: s.origin_username,
        session_id: s.session_id,
        session_version: s.session_version,
        origin_address: s.origin_address,
        ..s1
    };
    lemma_read_step(s1, origin_line(s), s2, t3);

    lemma_read_name(s2, s.session_name);
    let s3 = SdpView { session_name: s.session_name, ..s2 };
    lemma_read_step(s2, "s="@ + s.session_name, s3, t4);

    lemma_read_from_connection(s3, s);
}

/// The attributes that are not descriptions of payload types stay as they are
/// where more such descriptions stand before them.
proof fn lemma_others_only(maps: Seq<AttrView>, attrs: Seq<AttrView>)
    requires
        forall|i: int| 0 <= i < maps.len() ==> (#[trigger] maps[i]).0 == "rtpmap"@,
    ensures
        other_attrs(maps + other_attrs(attrs)) == other_attrs(attrs),
    decreases maps.len(), attrs.len(),
{
    if attrs.len() > 0 {
        let init = attrs.drop_last();
        lemma_others_only(maps, init);
        if attrs.last().0 != "rtpmap"@ {
            let all = maps + other_attrs(attrs);
            assert(all.drop_last() =~= maps + other_attrs(init));
            assert(all.last() == attrs.last());
        }
    } else if maps.len() > 0 {
        let init = maps.drop_last();
        assert forall|i: int| 0 <= i < init.len() implies (#[trigger] init[i]).0
            == "rtpmap"@ by {
            assert(init[i] == maps[i]);
        }
        lemma_others_only(init, attrs);
        let none = other_attrs(attrs);
        assert((maps + none).drop_last() =~= init + none);
        assert((maps + none).last() == maps[maps.len() - 1]);
    }
}

/// Streams are written as they are read.
proof fn lemma_medias_again(ms: Seq<MediaView>)
    ensures
        medias_text(Seq::new(ms.len(), |i: int| media_as_read(ms[i]))) == medias_text(ms),
    decreases ms.len(),
{
    let read = Seq::new(ms.len(), |i: int| media_as_read(ms[i]));
    if ms.len() > 0 {
        let init = ms.drop_last();
        lemma_medias_again(init);
        assert(read.drop_last() =~= Seq::new(init.len(), |i: int| media_as_read(init[i])));
        let m = ms.last();
        assert(read.last() == media_as_read(m));
        lemma_others_only(map_attrs(m.rtpmaps), m.attributes);
    }
}

/// A session description that is written, read and written again is the same
/// text both times.
pub proof fn law_sdp_written_again(s: SdpView)
    requires
        sendable_sdp(s),
    ensures
        parse_sdp(sdp_text(s)) is Ok,
        sdp_text(parse_sdp(sdp_text(s))->Ok_0) == sdp_text(s),
{
    law_sdp_reads_back(s);
    lemma_medias_again(s.media);
}

} // verus!
