//! What holds between the messages that the phone sends and what the other end
//! reads in them.
use super::call::{on_direction, on_message, say, sends, CallView, FlowView, Tone};
use super::dtmf::{info_key, is_key, read_info_lines};
use super::requests::{
    agent, angled, audio_session, contact_value, cseq_value, in_dialog, key_body, notify_request,
    plain_reply, refer_request, register_draft, reinvite_request, tagged, to_value, via_value,
    RegistrationView,
};
use super::softphone::{
    challenge_answer, challenge_fields, final_register_outcome, lemma_offered_dtmf, media_target,
    register_outcome, PhoneView,
};
use crate::case::{ascii_lowered, ascii_upper};
use crate::net::EndpointView;
use crate::number::{dec, is_digit, lemma_dec_digits, lemma_dec_reads_back, uint_of};
use crate::sip::dialog::{belongs, DialogState, DialogView};
use crate::sip::header::{
    law_set_get_other, lemma_position_is, lookup, param_in, tag_of, HeaderList, NameView,
};
use crate::sip::message::{
    built_request, content_length, cseq_of, MessageView, MethodView, RequestDraft,
};
use crate::sip::roundtrip::{law_known_method_reads_back, lemma_cut, lemma_lines_cons};
use crate::sip::sdp::{
    attr_line, audio_of, direction_of, is_direction, offered_audio, origin_line, other_attrs,
    parse_sdp, sdp_text, SdpView,
};
use crate::sip::sdp_roundtrip::{
    as_read, law_sdp_reads_back, map_attrs, media_as_read, media_head, sendable_attr,
    sendable_line, sendable_map, sendable_media, sendable_sdp,
};
use crate::text::{
    first_index, is_space, lemma_first_index, lemma_first_index_is, lemma_trimmed_id, lines, split,
    splitn,
};
use vstd::prelude::*;

verus! {

// ---------------------------------------------------------------------------
// Keys
// ---------------------------------------------------------------------------

/// A key that is told in a message is read in it, in upper case, with the
/// duration that goes with it.
pub proof fn law_info_key_reads_back(digit: char)
    requires
        is_key(digit),
    ensures
        info_key(Some(key_body(digit))) == Some((ascii_upper(digit), 160nat)),
{
    reveal_strlit("Signal=");
    reveal_strlit("signal");
    reveal_strlit("\r\nDuration=160");
    reveal_strlit("\r\n");
    reveal_strlit("duration");
    let first = "Signal="@.push(digit);
    let second = "\r\nDuration=160"@.skip(2);
    assert(key_body(digit) =~= first + "\r\n"@ + second);
    assert(!first.contains('\n')) by {
        assert forall|i: int| 0 <= i < first.len() implies first[i] != '\n' by {}
    }
    lemma_lines_cons(first, second);
    assert(!second.contains('\n')) by {
        assert forall|i: int| 0 <= i < second.len() implies second[i] != '\n' by {}
    }
    lemma_first_index(second, '\n');
    assert(lines(second) =~= seq![second]);
    let ls = lines(key_body(digit));
    assert(ls =~= seq![first, second]);
    // The line with the key.
    lemma_trimmed_id(first);
    let name1 = "Signal="@.take(6);
    assert(first =~= name1 + seq!['='] + seq![digit]);
    lemma_cut(name1, '=', seq![digit]);
    lemma_trimmed_id(name1);
    lemma_trimmed_id(seq![digit]);
    assert(ascii_lowered(name1) =~= "signal"@);
    // The line with the duration.
    lemma_trimmed_id(second);
    let name2 = second.take(8);
    let value = second.skip(9);
    assert(second =~= name2 + seq!['='] + value);
    lemma_cut(name2, '=', value);
    lemma_trimmed_id(name2);
    lemma_trimmed_id(value);
    assert(ascii_lowered(name2) =~= "duration"@);
    assert("signal"@.len() != "duration"@.len());
    assert(value =~= seq!['1', '6', '0']);
    assert(uint_of(value, u16::MAX as nat) == Some(160nat)) by {
        reveal_with_fuel(crate::number::dec_value, 4);
        assert(value.drop_last() =~= seq!['1', '6']);
        assert(value.drop_last().drop_last() =~= seq!['1']);
        assert(crate::number::all_digits(value));
    }
    reveal_with_fuel(read_info_lines, 3);
    assert(ls.drop_last() =~= seq![first]);
    assert(ls.drop_last().drop_last().len() == 0);
}

// ---------------------------------------------------------------------------
// Tags
// ---------------------------------------------------------------------------

/// A text is split behind a separator as if the rest stood alone.
pub proof fn lemma_split_append(a: Seq<char>, b: Seq<char>, c: char)
    ensures
        split(a + seq![c] + b, c) == split(a, c) + split(b, c),
    decreases a.len(),
{
    let s = a + seq![c] + b;
    let k = first_index(a, c);
    lemma_first_index(a, c);
    if k < a.len() {
        assert forall|j: int| 0 <= j < k implies s[j] != c by {
            assert(s[j] == a[j]);
        }
        assert(s[k] == a[k]);
        lemma_first_index_is(s, c, k);
        assert(s.take(k) =~= a.take(k));
        assert(s.skip(k + 1) =~= a.skip(k + 1) + seq![c] + b);
        lemma_split_append(a.skip(k + 1), b, c);
        assert(split(s, c) =~= split(a, c) + split(b, c));
    } else {
        lemma_cut(a, c, b);
        assert(split(a, c) =~= seq![a]);
        assert(s.take(a.len() as int) =~= a);
        assert(s.skip(a.len() as int + 1) =~= b);
    }
}

/// A parameter is searched in one list and then in the other.
pub proof fn lemma_param_append(p: Seq<Seq<char>>, q: Seq<Seq<char>>, name: Seq<char>)
    ensures
        param_in(p + q, name) == (match param_in(p, name) {
            Some(t) => Some(t),
            None => param_in(q, name),
        }),
    decreases p.len(),
{
    if p.len() == 0 {
        assert(p + q =~= q);
    } else {
        assert((p + q).skip(1) =~= p.skip(1) + q);
        assert((p + q)[0] == p[0]);
        lemma_param_append(p.skip(1), q, name);
    }
}

/// Whether a text can be a tag: it has no semicolon, and does not end in white
/// space.
pub open spec fn is_tag(tag: Seq<char>) -> bool {
    !tag.contains(';') && (tag.len() > 0 ==> !is_space(tag.last()))
}

/// The tag of an address is read in it, unless the address has a parameter of
/// its own of that name.
pub proof fn law_tag_reads_back(uri: Seq<char>, tag: Seq<char>)
    requires
        is_tag(tag),
        tag_of(angled(uri)) is None,
    ensures
        tag_of(tagged(uri, tag)) == Some(tag),
{
    reveal_strlit(";tag=");
    reveal_strlit("tag=");
    let a = angled(uri);
    let b = "tag="@ + tag;
    assert(tagged(uri, tag) =~= a + seq![';'] + b);
    lemma_split_append(a, b, ';');
    lemma_param_append(split(a, ';'), split(b, ';'), "tag="@);
    assert(!b.contains(';')) by {
        assert forall|i: int| 0 <= i < b.len() implies b[i] != ';' by {
            if i >= 4 {
                assert(b[i] == tag[i - 4]);
                assert(tag.contains(tag[i - 4]));
            }
        }
    }
    lemma_first_index(b, ';');
    assert(split(b, ';') =~= seq![b]);
    assert(b.last() == (if tag.len() > 0 {
        tag.last()
    } else {
        '='
    }));
    lemma_trimmed_id(b);
    assert(b.take(4) =~= "tag="@);
    assert(b.skip(4) =~= tag);
}

// ---------------------------------------------------------------------------
// Dialogs
// ---------------------------------------------------------------------------

/// The dialog as the other end has it.
pub open spec fn far_end(d: DialogView) -> DialogView {
    DialogView {
        call_id: d.call_id,
        local_tag: d.remote_tag->0,
        remote_tag: Some(d.local_tag),
        local_uri: d.remote_uri,
        remote_uri: d.local_uri,
        remote_target: None,
        local_cseq: 1,
        remote_cseq: None,
        state: d.state,
    }
}

/// Where the fields of a request of a dialog are found, whatever follows them.
proof fn lemma_dialog_fields(
    method: MethodView,
    d: DialogView,
    local: EndpointView,
    branch: Seq<char>,
    cseq: u32,
    extra: HeaderList,
)
    ensures
        ({
            let hs = in_dialog(method, d, local, branch, cseq).headers + extra;
            &&& lookup(hs, NameView::From) == Some(tagged(d.local_uri, d.local_tag))
            &&& lookup(hs, NameView::To) == Some(to_value(d))
            &&& lookup(hs, NameView::CallId) == Some(d.call_id)
            &&& lookup(hs, NameView::CSeq) == Some(cseq_value(cseq, method))
        }),
{
    let base = in_dialog(method, d, local, branch, cseq).headers;
    let hs = base + extra;
    assert(base.len() == 6);
    assert(hs[0] == (NameView::Via, via_value(local, branch)));
    assert(hs[1] == (NameView::MaxForwards, "70"@));
    assert(hs[2] == (NameView::From, tagged(d.local_uri, d.local_tag)));
    assert(hs[3] == (NameView::To, to_value(d)));
    assert(hs[4] == (NameView::CallId, d.call_id));
    assert(hs[5] == (NameView::CSeq, cseq_value(cseq, method)));
    lemma_position_is(hs, NameView::From, 2);
    lemma_position_is(hs, NameView::To, 3);
    lemma_position_is(hs, NameView::CallId, 4);
    lemma_position_is(hs, NameView::CSeq, 5);
}

/// A request of a dialog, with whatever further fields and body, belongs to the
/// dialog as the other end has it, and bears the number that it was given. The
/// tags are tags, and no address has a tag among its parameters.
pub proof fn law_request_belongs(
    method: MethodView,
    d: DialogView,
    local: EndpointView,
    branch: Seq<char>,
    cseq: u32,
    extra: HeaderList,
    body: Option<Seq<char>>,
)
    requires
        !(method is Other),
        d.remote_tag is Some,
        is_tag(d.local_tag),
        is_tag(d.remote_tag->0),
        tag_of(angled(d.local_uri)) is None,
        tag_of(angled(d.remote_uri)) is None,
    ensures
        ({
            let base = in_dialog(method, d, local, branch, cseq);
            let m = built_request(
                RequestDraft { headers: base.headers + extra, body, ..base },
            );
            &&& belongs(far_end(d), m)
            &&& m.call_id() == Some(d.call_id)
            &&& m.cseq() == Some((cseq, method))
        }),
{
    let base = in_dialog(method, d, local, branch, cseq);
    let hs = base.headers + extra;
    lemma_dialog_fields(method, d, local, branch, cseq, extra);
    let length = content_length(body);
    law_set_get_other(hs, NameView::ContentLength, length, NameView::From);
    law_set_get_other(hs, NameView::ContentLength, length, NameView::To);
    law_set_get_other(hs, NameView::ContentLength, length, NameView::CallId);
    law_set_get_other(hs, NameView::ContentLength, length, NameView::CSeq);
    law_tag_reads_back(d.local_uri, d.local_tag);
    law_tag_reads_back(d.remote_uri, d.remote_tag->0);
    law_cseq_reads_back(cseq, method);
}

/// The number and the method of a request are read in its CSeq field.
pub proof fn law_cseq_reads_back(cseq: u32, method: MethodView)
    requires
        !(method is Other),
    ensures
        cseq_of(cseq_value(cseq, method)) == Some((cseq, method)),
{
    reveal_strlit(" ");
    let n = dec(cseq as nat);
    let t = method.text();
    law_known_method_reads_back(method);
    lemma_dec_digits(cseq as nat);
    lemma_dec_reads_back(cseq as nat, u32::MAX as nat);
    let v = cseq_value(cseq, method);
    assert(v =~= n + seq![' '] + t);
    assert(!n.contains(' ')) by {
        assert forall|i: int| 0 <= i < n.len() implies n[i] != ' ' by {
            assert(is_digit(n[i]));
        }
    }
    lemma_cut(n, ' ', t);
    reveal_with_fuel(splitn, 3);
    assert(v.take(n.len() as int) =~= n);
    assert(v.skip(n.len() as int + 1) =~= t);
    assert(splitn(v, 2, ' ') =~= seq![n, t]);
}

// ---------------------------------------------------------------------------
// Sessions
// ---------------------------------------------------------------------------

/// Whether a text can be the address of a session: there is something in it,
/// and no white space.
pub open spec fn is_address(ip: Seq<char>) -> bool {
    ip.len() > 0 && forall|i: int| 0 <= i < ip.len() ==> !is_space(#[trigger] ip[i])
}

proof fn lemma_line(head: Seq<char>, tail: Seq<char>)
    requires
        head.len() > 0,
        !is_space(head[0]),
        !head.contains('\n'),
        is_address(tail),
    ensures
        sendable_line(head + tail),
{
    let l = head + tail;
    assert forall|i: int| 0 <= i < l.len() implies l[i] != '\n' by {
        if i < head.len() {
            assert(l[i] == head[i]);
            assert(head.contains(head[i]));
        } else {
            assert(l[i] == tail[i - head.len()]);
        }
    }
    assert(l.last() == tail[tail.len() - 1]);
    lemma_trimmed_id(l);
}

proof fn lemma_number_line(n: nat)
    ensures
        is_address(dec(n)),
        !dec(n).contains(' '),
        !dec(n).contains('\n'),
{
    lemma_dec_digits(n);
    let d = dec(n);
    assert forall|i: int| 0 <= i < d.len() implies !is_space(#[trigger] d[i]) && d[i] != ' ' && d[i]
        != '\n' by {
        assert(is_digit(d[i]));
    }
}

proof fn lemma_origin_sendable(s: SdpView, id: u32)
    requires
        s.origin_username == "-"@,
        s.session_id == dec(id as nat),
        s.session_version == dec(id as nat),
        is_address(s.origin_address),
    ensures
        sendable_line(origin_line(s)),
{
    reveal_strlit("o=");
    reveal_strlit("-");
    reveal_strlit(" ");
    reveal_strlit(" IN IP4 ");
    lemma_number_line(id as nat);
    let n = dec(id as nat);
    let head = "o="@ + "-"@ + " "@ + n + " "@ + n + " IN IP4 "@;
    assert(origin_line(s) =~= head + s.origin_address);
    assert(!head.contains('\n')) by {
        assert forall|i: int| 0 <= i < head.len() implies head[i] != '\n' by {
            let a = 4int;
            let b = a + n.len();
            if a <= i < b {
                assert(head[i] == n[i - a]);
                assert(n.contains(n[i - a]));
            } else if b + 1 <= i < b + 1 + n.len() {
                assert(head[i] == n[i - b - 1]);
                assert(n.contains(n[i - b - 1]));
            }
        }
    }
    assert(head[0] == 'o');
    lemma_line(head, s.origin_address);
}

proof fn lemma_media_sendable(port: u16, direction: Seq<char>)
    requires
        is_direction(direction),
    ensures
        sendable_media(offered_audio(port, direction)),
{
    reveal_strlit("m=");
    reveal_strlit("audio");
    reveal_strlit(" ");
    reveal_strlit("RTP/AVP");
    reveal_strlit("a=");
    reveal_strlit(":");
    reveal_strlit("fmtp");
    reveal_strlit("101 0-15");
    reveal_strlit("sendrecv");
    reveal_strlit("sendonly");
    reveal_strlit("recvonly");
    reveal_strlit("inactive");
    reveal_strlit("PCMU");
    reveal_strlit("PCMA");
    reveal_strlit("telephone-event");
    reveal_strlit("opus");
    let m = offered_audio(port, direction);
    let n = dec(port as nat);
    lemma_number_line(port as nat);
    let head = "m="@ + "audio"@ + " "@ + n + " "@;
    assert(media_head(m) =~= head + "RTP/AVP"@);
    assert(!head.contains('\n')) by {
        assert forall|i: int| 0 <= i < head.len() implies head[i] != '\n' by {
            if 8 <= i < 8 + n.len() {
                assert(head[i] == n[i - 8]);
                assert(n.contains(n[i - 8]));
            }
        }
    }
    assert(head[0] == 'm');
    lemma_line(head, "RTP/AVP"@);
    assert(m.attributes =~= seq![("fmtp"@, Some("101 0-15"@)), (direction, None::<Seq<char>>)]);
    let l0 = attr_line(m.attributes[0]);
    assert(l0 =~= ("a="@ + "fmtp"@ + ":"@ + "101 "@) + "0-15"@) by {
        reveal_strlit("101 ");
        reveal_strlit("0-15");
    }
    assert(sendable_line(l0)) by {
        assert forall|i: int| 0 <= i < l0.len() implies l0[i] != '\n' by {}
        lemma_trimmed_id(l0);
    }
    let l1 = attr_line(m.attributes[1]);
    assert(is_address(direction));
    assert(!direction.contains('\n')) by {
        assert forall|i: int| 0 <= i < direction.len() implies direction[i] != '\n' by {
            assert(!is_space(direction[i]));
        }
    }
    lemma_line("a="@, direction);
    assert(sendable_line(l1));
    assert(!"fmtp"@.contains(':'));
    assert(!direction.contains(':')) by {
        assert forall|i: int| 0 <= i < direction.len() implies direction[i] != ':' by {}
    }
    assert forall|i: int| 0 <= i < m.attributes.len() implies sendable_attr(
        #[trigger] m.attributes[i],
    ) by {
        assert(i == 0 || i == 1);
    }
    assert(m.rtpmaps.len() == 4);
    assert forall|i: int| 0 <= i < m.rtpmaps.len() implies sendable_map(
        #[trigger] m.rtpmaps[i],
    ) by {
        assert(i == 0 || i == 1 || i == 2 || i == 3);
        let name = m.rtpmaps[i].encoding_name;
        assert forall|j: int| 0 <= j < name.len() implies name[j] != '/' && name[j] != '\n' by {}
    }
}

/// What the other end reads in the description of a session that the phone
/// sends: where media go, the payload type for telephone events, and the
/// direction.
pub proof fn law_session_reads_back(ip: Seq<char>, id: u32, port: u16, direction: Seq<char>)
    requires
        is_address(ip),
        is_direction(direction),
    ensures
        ({
            let text = sdp_text(audio_session(ip, id, port, direction));
            let read = parse_sdp(text);
            &&& read is Ok
            &&& audio_of(read->Ok_0.media) is Some
            &&& direction_of(audio_of(read->Ok_0.media)->0.attributes) == Some(direction)
            &&& media_target(text) == Some((ip + ":"@ + dec(port as nat), Some(101u8)))
        }),
{
    let s = audio_session(ip, id, port, direction);
    reveal_strlit("-");
    reveal_strlit("s=");
    reveal_strlit("sip-rs");
    reveal_strlit("c=IN IP4 ");
    lemma_number_line(id as nat);
    lemma_origin_sendable(s, id);
    lemma_line("s="@, "sip-rs"@);
    assert(!ip.contains(' ') && !ip.contains('\n')) by {
        assert forall|i: int| 0 <= i < ip.len() implies ip[i] != ' ' && ip[i] != '\n' by {
            assert(!is_space(ip[i]));
        }
    }
    lemma_line("c=IN IP4 "@, ip);
    lemma_media_sendable(port, direction);
    assert(s.media =~= seq![offered_audio(port, direction)]);
    assert(sendable_sdp(s));
    law_sdp_reads_back(s);
    let read = as_read(s);
    let m = media_as_read(offered_audio(port, direction));
    assert(read.media =~= seq![m]);
    reveal_with_fuel(crate::sip::sdp::audio_index, 2);
    assert(audio_of(read.media) == Some(m));
    lemma_directed(port, direction);
    lemma_offered_dtmf(port, direction);
}

proof fn lemma_directed(port: u16, direction: Seq<char>)
    requires
        is_direction(direction),
    ensures
        direction_of(media_as_read(offered_audio(port, direction)).attributes) == Some(direction),
{
    reveal_strlit("rtpmap");
    reveal_strlit("fmtp");
    reveal_strlit("sendrecv");
    reveal_strlit("sendonly");
    reveal_strlit("recvonly");
    reveal_strlit("inactive");
    let o = offered_audio(port, direction);
    assert(o.attributes =~= seq![("fmtp"@, Some("101 0-15"@)), (direction, None::<Seq<char>>)]);
    reveal_with_fuel(other_attrs, 3);
    assert(o.attributes.drop_last() =~= seq![("fmtp"@, Some("101 0-15"@))]);
    assert(o.attributes.drop_last().drop_last() =~= seq![]);
    assert("rtpmap"@.len() == 6 && "fmtp"@.len() == 4);
    assert(forall|name: Seq<char>| #[trigger] is_direction(name) ==> name.len() == 8);
    assert(is_direction(direction) && direction.len() == 8);
    assert(other_attrs(o.attributes) =~= o.attributes);
    let maps = map_attrs(o.rtpmaps);
    assert(maps.len() == 4);
    let all = maps + o.attributes;
    assert(media_as_read(o).attributes =~= all);
    assert(all.len() == 6);
    assert(!is_direction("rtpmap"@) && !is_direction("fmtp"@));
    assert forall|k: int| 0 <= k < 5 implies !is_direction((#[trigger] all[k]).0) by {
        if k < 4 {
            assert(all[k] == maps[k]);
        }
    }
    assert(all[5].0 == direction);
    reveal_with_fuel(direction_of, 7);
    assert(all.skip(1)[0] == all[1]);
    assert(all.skip(1).skip(1)[0] == all[2]);
    assert(all.skip(1).skip(1).skip(1)[0] == all[3]);
    assert(all.skip(1).skip(1).skip(1).skip(1)[0] == all[4]);
    assert(all.skip(1).skip(1).skip(1).skip(1).skip(1)[0] == all[5]);
}

/// A hold is heard: when the phone at the other end takes in the request by
/// which the call is put on hold, or resumed, it knows the call to be so.
pub proof fn law_hold_is_heard(
    c: CallView,
    d: DialogView,
    local: EndpointView,
    branch: Seq<char>,
    cseq: u32,
    id: u32,
    port: u16,
)
    requires
        is_address(local.ip),
    ensures
        ({
            let held = reinvite_request(
                d,
                local,
                branch,
                cseq,
                sdp_text(audio_session(local.ip, id, port, "sendonly"@)),
            );
            let resumed = reinvite_request(
                d,
                local,
                branch,
                cseq,
                sdp_text(audio_session(local.ip, id, port, "sendrecv"@)),
            );
            &&& on_direction(c, held).0.phone.on_hold
            &&& !on_direction(c, resumed).0.phone.on_hold
        }),
{
    reveal_strlit("sendrecv");
    reveal_strlit("sendonly");
    reveal_strlit("inactive");
    assert("sendrecv"@[4] != "sendonly"@[4]);
    assert("sendrecv"@[0] != "inactive"@[0]);
    law_session_reads_back(local.ip, id, port, "sendonly"@);
    law_session_reads_back(local.ip, id, port, "sendrecv"@);
}

/// A transfer is heard: the phone at the other end takes in where it is asked to
/// call, says that it has, and reports on it.
pub proof fn law_transfer_is_heard(
    c: CallView,
    source: EndpointView,
    d: DialogView,
    local: EndpointView,
    branch: Seq<char>,
    cseq: u32,
    uri: Seq<char>,
    own_branch: Seq<char>,
    session_id: u32,
)
    requires
        c.phone.dialog is Some,
    ensures
        ({
            let m = refer_request(d, local, branch, cseq, uri);
            let actions = on_message(c, m, source, None, own_branch, session_id).1.actions;
            &&& actions.len() == 3
            &&& actions[0] == say(Tone::Event, "Transfer requested to: "@ + uri)
            &&& sends(actions[1], plain_reply(m->Request_0, 202), source)
            &&& sends(
                actions[2],
                notify_request(
                    c.phone.dialog->0,
                    c.phone.local,
                    own_branch,
                    c.phone.next_number(),
                ),
                source,
            )
        }),
{
    let m = refer_request(d, local, branch, cseq, uri);
    let hs = in_dialog(MethodView::Refer, d, local, branch, cseq).with(
        NameView::Contact,
        contact_value("siphone"@, local),
    ).with(NameView::ReferTo, uri).with(NameView::ReferredBy, angled(d.local_uri)).with(
        NameView::UserAgent,
        agent(),
    ).headers;
    assert(hs[0].0 == NameView::Via && hs[1].0 == NameView::MaxForwards);
    assert(hs[2].0 == NameView::From && hs[3].0 == NameView::To);
    assert(hs[4].0 == NameView::CallId && hs[5].0 == NameView::CSeq);
    assert(hs[6].0 == NameView::Contact && hs[7] == (NameView::ReferTo, uri));
    lemma_position_is(hs, NameView::ReferTo, 7);
    law_set_get_other(hs, NameView::ContentLength, content_length(None), NameView::ReferTo);
}

/// The end of a call is heard: when the phone at the other end takes in the
/// request that ends the call, it says that it has, and the call is over there
/// too.
pub proof fn law_hangup_is_heard(
    c: CallView,
    source: EndpointView,
    d: DialogView,
    local: EndpointView,
    branch: Seq<char>,
    cseq: u32,
    own_branch: Seq<char>,
    session_id: u32,
)
    requires
        c.phone.dialog is Some,
        c.phone.dialog->0.call_id == d.call_id,
    ensures
        ({
            let m = built_request(in_dialog(MethodView::Bye, d, local, branch, cseq));
            let (after, step) = on_message(c, m, source, None, own_branch, session_id);
            &&& after.phone.dialog->0.state == DialogState::Terminated
            &&& step.flow == FlowView::End
            &&& sends(step.actions.last(), plain_reply(m->Request_0, 200), source)
        }),
{
    let hs = in_dialog(MethodView::Bye, d, local, branch, cseq).headers;
    let none: HeaderList = seq![];
    lemma_dialog_fields(MethodView::Bye, d, local, branch, cseq, none);
    assert(hs + none =~= hs);
    law_set_get_other(hs, NameView::ContentLength, content_length(None), NameView::CallId);
}

// ---------------------------------------------------------------------------
// Registration
// ---------------------------------------------------------------------------

/// A challenge to a registration is answered in the field that goes with it, by
/// a request of the same call with the next number; and a registration with
/// credentials is not tried again.
pub proof fn law_challenge_answered(
    p: PhoneView,
    a: RegistrationView,
    reply: MessageView,
    branch: Seq<char>,
    cnonce: Seq<char>,
    second: MessageView,
)
    requires
        register_outcome(p, a, reply, branch, cnonce) is Retry,
    ensures
        ({
            let m = register_outcome(p, a, reply, branch, cnonce)->Retry_0;
            let (asks, answers) = challenge_fields(reply->Response_0.status)->0;
            &&& lookup(m.headers(), answers) == challenge_answer(
                reply,
                asks,
                p.credentials->0,
                a.server_uri,
                cnonce,
            )
            &&& m.call_id() == Some(a.call_id)
            &&& m.cseq() == Some((2u32, MethodView::Register))
        }),
        !(final_register_outcome(second) is Retry),
{
    let (asks, answers) = challenge_fields(reply->Response_0.status)->0;
    let text = challenge_answer(reply, asks, p.credentials->0, a.server_uri, cnonce)->0;
    let base = register_draft(a, p.tag, p.local, branch, 2).headers;
    let hs = base.push((answers, text));
    assert(base.len() == 9);
    assert(hs[0].0 == NameView::Via);
    assert(hs[1].0 == NameView::MaxForwards);
    assert(hs[2].0 == NameView::From);
    assert(hs[3].0 == NameView::To);
    assert(hs[4] == (NameView::CallId, a.call_id));
    assert(hs[5] == (NameView::CSeq, cseq_value(2, MethodView::Register)));
    assert(hs[6].0 == NameView::Contact);
    assert(hs[7].0 == NameView::Expires);
    assert(hs[8].0 == NameView::UserAgent);
    assert(hs[9] == (answers, text));
    lemma_position_is(hs, NameView::CallId, 4);
    lemma_position_is(hs, NameView::CSeq, 5);
    lemma_position_is(hs, answers, 9);
    let length = content_length(None);
    law_set_get_other(hs, NameView::ContentLength, length, NameView::CallId);
    law_set_get_other(hs, NameView::ContentLength, length, NameView::CSeq);
    law_set_get_other(hs, NameView::ContentLength, length, answers);
    law_cseq_reads_back(2, MethodView::Register);
}

} // verus!
