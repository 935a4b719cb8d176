//! What holds of a call: what each message and each command changes, what the
//! user is told and what is sent.
use super::call::{
    acknowledge, after_reply, answers_bye, call_media, early_media, frame_to_send, on_backlog,
    on_bye_done, on_command, on_direction, on_frame_sent, on_media, on_message, on_request,
    on_request_done, on_response, reliable, say, sends, ActionView, ByeOutcome, CallView, FlowView,
    SendingView, Tone, UserRequestView,
};
use super::commands::CommandView;
use super::config::SiprConfig;
use super::dtmf::{info_key, refused_keys, waiting_keys, DtmfMethod};
use super::request_laws::{law_dialog_request, law_info};
use super::requests::{
    in_dialog, notify_request, refer_request, reinvite_reply, reinvite_request,
};
use super::softphone::{
    after_key_step, key_step, media_target, KeyStepView, PhoneErrorView, PhoneView,
};
use crate::case::ascii_lowered;
use crate::net::EndpointView;
use crate::number::{dec, uint_of};
use crate::rtp::session::{after_audio, DtmfEvent, EventView, SessionView};
use crate::sip::dialog::{after_response, DialogState, DialogView};
use crate::sip::header::{lookup, NameView};
use crate::sip::laws::{law_first_audio, law_first_direction, law_key_format};
use crate::sip::message::{
    built_request, cseq_of, reason_of, MessageView, MethodView, RequestView, ResponseView,
};
use crate::sip::sdp::{audio_of, parse_sdp, MediaView};
use crate::text::{law_contains_text, trimmed};
use vstd::prelude::*;

verus! {

// ---------------------------------------------------------------------------
// Media
// ---------------------------------------------------------------------------

/// Media go to the connection address of a session description, at the port of its
/// first audio, and keys by the number of that audio's first `telephone-event`.
pub proof fn law_media_target(body: Seq<char>, j: int, k: int)
    requires
        parse_sdp(body) is Ok,
        0 <= j < parse_sdp(body)->Ok_0.media.len(),
        parse_sdp(body)->Ok_0.media[j].media_type is Audio,
        forall|i: int|
            0 <= i < j ==> !((#[trigger] parse_sdp(body)->Ok_0.media[i]).media_type is Audio),
        0 <= k <= parse_sdp(body)->Ok_0.media[j].rtpmaps.len(),
        forall|i: int|
            0 <= i < k ==> ascii_lowered(
                (#[trigger] parse_sdp(body)->Ok_0.media[j].rtpmaps[i]).encoding_name,
            ) != "telephone-event"@,
        k < parse_sdp(body)->Ok_0.media[j].rtpmaps.len() ==> ascii_lowered(
            parse_sdp(body)->Ok_0.media[j].rtpmaps[k].encoding_name,
        ) == "telephone-event"@,
    ensures
        ({
            let sdp = parse_sdp(body)->Ok_0;
            let maps = sdp.media[j].rtpmaps;
            &&& media_target(body) is Some
            &&& sdp.connection_address matches Some(ip) ==> (media_target(body)->0).0 == ip + ":"@
                + dec(sdp.media[j].port as nat)
            &&& sdp.connection_address is None ==> (media_target(body)->0).0 == "0.0.0.0"@ + ":"@
                + dec(sdp.media[j].port as nat)
            &&& (media_target(body)->0).1 == (if k < maps.len() {
                Some(maps[k].payload_type)
            } else {
                None
            })
        }),
{
    law_first_audio(parse_sdp(body)->Ok_0.media, j);
    law_key_format(parse_sdp(body)->Ok_0.media[j].rtpmaps, k);
}

/// A description that cannot be read, or that has no audio, says nothing of where
/// media go.
pub proof fn law_no_media_target(body: Seq<char>)
    requires
        parse_sdp(body) matches Ok(sdp) ==> forall|i: int|
            0 <= i < sdp.media.len() ==> !((#[trigger] sdp.media[i]).media_type is Audio),
    ensures
        media_target(body) is None,
{
    if let Ok(sdp) = parse_sdp(body) {
        law_first_audio(sdp.media, sdp.media.len() as int);
    }
}

/// When the call is taken, media go where the session description of that answer
/// says, and nowhere else, whether or not media came before it from an earlier
/// address. The user is told that address. Nothing else about the media changes.
pub proof fn law_answer_moves_media(
    c: CallView,
    res: ResponseView,
    source: EndpointView,
    to: EndpointView,
    branch: Seq<char>,
    session_id: u32,
    j: int,
)
    requires
        c.phone.dialog is Some,
        c.phone.rtp is Some,
        200 <= res.status <= 299,
        res.body is Some,
        parse_sdp(res.body->0) is Ok,
        0 <= j < parse_sdp(res.body->0)->Ok_0.media.len(),
        parse_sdp(res.body->0)->Ok_0.media[j].media_type is Audio,
    ensures
        ({
            let (after, step) = on_message(
                c,
                MessageView::Response(res),
                source,
                Some(to),
                branch,
                session_id,
            );
            &&& after.phone.rtp == Some(SessionView { remote: to, ..c.phone.rtp->0 })
            &&& after.connected
            &&& after.receiving
            &&& step.actions.contains(say(Tone::Info, "RTP remote: "@ + to.text()))
            &&& step.actions.contains(say(Tone::Success, "Call connected!"@))
            &&& !c.receiving <==> exists|i: int|
                0 <= i < step.actions.len() && #[trigger] step.actions[i] is Receive
        }),
{
    let body = res.body->0;
    let sdp = parse_sdp(body)->Ok_0;
    lemma_some_audio(sdp.media, j);
    let m = MessageView::Response(res);
    let (after, step) = on_message(c, m, source, Some(to), branch, session_id);
    let t = (media_target(body)->0).1;
    let n = step.actions.len() as int;
    let at: int = if t is Some {
        2
    } else {
        1
    };
    assert(step.actions[0] == say(Tone::Success, "Call connected!"@));
    assert(step.actions[at] == say(Tone::Info, "RTP remote: "@ + to.text()));
    if !c.receiving {
        assert(step.actions[n - 2] == ActionView::Receive(t));
    } else {
        assert forall|i: int| 0 <= i < n implies !(#[trigger] step.actions[i] is Receive) by {}
    }
}

/// Where there is an audio, the first of them is there.
proof fn lemma_some_audio(ms: Seq<MediaView>, j: int)
    requires
        0 <= j < ms.len(),
        ms[j].media_type is Audio,
    ensures
        audio_of(ms) is Some,
    decreases j,
{
    if exists|i: int| 0 <= i < j && (#[trigger] ms[i]).media_type is Audio {
        let i = choose|i: int| 0 <= i < j && (#[trigger] ms[i]).media_type is Audio;
        lemma_some_audio(ms, i);
    } else {
        law_first_audio(ms, j);
    }
}

/// A session description in a progress report begins the media early, to where it
/// says, if none came before; where media came already they stay as they are.
pub proof fn law_early_media(
    c: CallView,
    res: ResponseView,
    source: EndpointView,
    to: EndpointView,
    branch: Seq<char>,
    session_id: u32,
    j: int,
)
    requires
        c.phone.dialog is Some,
        c.phone.rtp is Some,
        res.status == 183,
        res.body is Some,
        parse_sdp(res.body->0) is Ok,
        0 <= j < parse_sdp(res.body->0)->Ok_0.media.len(),
        parse_sdp(res.body->0)->Ok_0.media[j].media_type is Audio,
    ensures
        ({
            let (after, step) = on_message(
                c,
                MessageView::Response(res),
                source,
                Some(to),
                branch,
                session_id,
            );
            let told = say(Tone::Status, "Early media: RTP remote "@ + to.text());
            &&& after.receiving
            &&& !c.receiving ==> {
                &&& after.phone.rtp == Some(SessionView { remote: to, ..c.phone.rtp->0 })
                &&& after.connected
                &&& step.actions.contains(told)
                &&& step.actions.last() is Receive
            }
            &&& c.receiving ==> {
                &&& after.phone.rtp == c.phone.rtp
                &&& after.connected == c.connected
                &&& !step.actions.contains(told)
                &&& !(step.actions.last() is Receive)
            }
            &&& after.phone.remote == c.phone.remote
        }),
{
    let body = res.body->0;
    lemma_some_audio(parse_sdp(body)->Ok_0.media, j);
    let m = MessageView::Response(res);
    let (after, step) = on_message(c, m, source, Some(to), branch, session_id);
    let told = say(Tone::Status, "Early media: RTP remote "@ + to.text());
    let n = step.actions.len() as int;
    if !c.receiving {
        assert(step.actions[n - 3] == told);
    } else {
        reveal_strlit("Early media: RTP remote ");
        reveal_strlit("Call progress: ");
        assert forall|i: int| 0 <= i < n implies step.actions[i] != told by {
            assert(told->text[0] == 'E');
            assert(step.actions[0]->text[0] == 'C');
        }
    }
}

/// What goes with the media of an answer: the user is told the other end's number for
/// keys where it named one, what is received is listened to with that number, and the
/// flow of media is traced from the phone's own address in the call.
pub proof fn law_answer_described(
    c: CallView,
    res: ResponseView,
    source: EndpointView,
    to: EndpointView,
    branch: Seq<char>,
    session_id: u32,
    j: int,
    k: int,
)
    requires
        200 <= res.status <= 299,
        c.phone.dialog is Some,
        res.body is Some,
        parse_sdp(res.body->0) is Ok,
        0 <= j < parse_sdp(res.body->0)->Ok_0.media.len(),
        parse_sdp(res.body->0)->Ok_0.media[j].media_type is Audio,
        forall|i: int|
            0 <= i < j ==> !((
            #[trigger] parse_sdp(res.body->0)->Ok_0.media[i]).media_type is Audio),
        0 <= k <= parse_sdp(res.body->0)->Ok_0.media[j].rtpmaps.len(),
        forall|i: int|
            0 <= i < k ==> ascii_lowered(
                (#[trigger] parse_sdp(res.body->0)->Ok_0.media[j].rtpmaps[i]).encoding_name,
            ) != "telephone-event"@,
        k < parse_sdp(res.body->0)->Ok_0.media[j].rtpmaps.len() ==> ascii_lowered(
            parse_sdp(res.body->0)->Ok_0.media[j].rtpmaps[k].encoding_name,
        ) == "telephone-event"@,
    ensures
        ({
            let (after, step) = on_message(
                c,
                MessageView::Response(res),
                source,
                Some(to),
                branch,
                session_id,
            );
            let maps = parse_sdp(res.body->0)->Ok_0.media[j].rtpmaps;
            let number = if k < maps.len() {
                Some(maps[k].payload_type)
            } else {
                None
            };
            let n = step.actions.len() as int;
            &&& after.phone.remote_dtmf == number
            &&& number is Some ==> step.actions[1] == say(
                Tone::Info,
                "Remote DTMF RTP payload type: "@ + dec(number->0 as nat),
            )
            &&& c.phone.rtp is Some ==> step.actions.contains(
                ActionView::TraceMedia {
                    call_id: c.phone.dialog->0.call_id,
                    from: c.phone.rtp->0.local,
                    to,
                    label: "Connected call RTP announced (200 OK)"@,
                },
            )
            &&& c.phone.rtp is Some && !c.receiving ==> step.actions[n - 2] == ActionView::Receive(
                number,
            )
            &&& step.actions[n - 1] is Send
            &&& step.actions[n - 1]->traced
            &&& step.actions[n - 1]->Send_to == source
            &&& step.actions[n - 1]->sending == SendingView::Must
        }),
{
    law_media_target(res.body->0, j, k);
    let m = MessageView::Response(res);
    let step = on_message(c, m, source, Some(to), branch, session_id).1;
    let number = (media_target(res.body->0)->0).1;
    let at: int = if number is Some {
        3
    } else {
        2
    };
    if c.phone.rtp is Some {
        let d = after_response(c.phone.dialog->0, m);
        assert(d.call_id == c.phone.dialog->0.call_id);
        assert(step.actions[at] == ActionView::TraceMedia {
            call_id: c.phone.dialog->0.call_id,
            from: c.phone.rtp->0.local,
            to,
            label: "Connected call RTP announced (200 OK)"@,
        });
    }
}

/// What goes with early media, in the same way.
pub proof fn law_early_media_described(
    c: CallView,
    res: ResponseView,
    source: EndpointView,
    to: EndpointView,
    branch: Seq<char>,
    session_id: u32,
    j: int,
    k: int,
)
    requires
        res.status == 183,
        c.phone.dialog is Some,
        res.body is Some,
        parse_sdp(res.body->0) is Ok,
        0 <= j < parse_sdp(res.body->0)->Ok_0.media.len(),
        parse_sdp(res.body->0)->Ok_0.media[j].media_type is Audio,
        forall|i: int|
            0 <= i < j ==> !((
            #[trigger] parse_sdp(res.body->0)->Ok_0.media[i]).media_type is Audio),
        0 <= k <= parse_sdp(res.body->0)->Ok_0.media[j].rtpmaps.len(),
        forall|i: int|
            0 <= i < k ==> ascii_lowered(
                (#[trigger] parse_sdp(res.body->0)->Ok_0.media[j].rtpmaps[i]).encoding_name,
            ) != "telephone-event"@,
        k < parse_sdp(res.body->0)->Ok_0.media[j].rtpmaps.len() ==> ascii_lowered(
            parse_sdp(res.body->0)->Ok_0.media[j].rtpmaps[k].encoding_name,
        ) == "telephone-event"@,
    ensures
        ({
            let (after, step) = on_message(
                c,
                MessageView::Response(res),
                source,
                Some(to),
                branch,
                session_id,
            );
            let maps = parse_sdp(res.body->0)->Ok_0.media[j].rtpmaps;
            let number = if k < maps.len() {
                Some(maps[k].payload_type)
            } else {
                None
            };
            let n = step.actions.len() as int;
            &&& after.phone.remote_dtmf == number
            &&& c.phone.rtp is Some && !c.receiving ==> step.actions[n - 1] == ActionView::Receive(
                number,
            )
            &&& c.phone.rtp is Some && !c.receiving ==> step.actions[n - 2]
                == ActionView::TraceMedia {
                call_id: c.phone.dialog->0.call_id,
                from: c.phone.rtp->0.local,
                to,
                label: "Early media RTP announced (183)"@,
            }
        }),
{
    law_media_target(res.body->0, j, k);
    let m = MessageView::Response(res);
    let d = after_response(c.phone.dialog->0, m);
    assert(d.call_id == c.phone.dialog->0.call_id);
}

/// A report that asks for it is acknowledged, and the user is told so by its number.
pub proof fn law_report_acknowledged(
    c: CallView,
    res: ResponseView,
    source: EndpointView,
    branch: Seq<char>,
    session_id: u32,
)
    requires
        c.phone.dialog is Some,
        100 <= res.status <= 199,
        reliable(MessageView::Response(res)) is Some,
    ensures
        ({
            let a = on_message(
                c,
                MessageView::Response(res),
                source,
                None,
                branch,
                session_id,
            ).1.actions[1];
            let rseq = (reliable(MessageView::Response(res))->0).0;
            &&& a is Send
            &&& a->Send_to == source
            &&& !a->traced
            &&& a->sending == SendingView::Told {
                done: "PRACK sent for RSeq "@ + dec(rseq as nat),
                failed: "Failed to send PRACK: "@,
            }
        }),
{
}

/// How the answers to requests are sent: the trace shows them, but not those to
/// reports on a transfer and to a transfer that is refused; a call that the other end
/// left does not fail where the answer cannot be sent, any other does.
pub proof fn law_answers_sent(
    c: CallView,
    req: RequestView,
    source: EndpointView,
    addr: Option<EndpointView>,
    branch: Seq<char>,
    session_id: u32,
)
    requires
        c.phone.dialog is Some,
        req.method is Bye || req.method is Info || req.method is Invite || req.method is Notify,
    ensures
        ({
            let last = on_message(
                c,
                MessageView::Request(req),
                source,
                addr,
                branch,
                session_id,
            ).1.actions.last();
            &&& last is Send
            &&& last->Send_to == source
            &&& last->Send_message is Response
            &&& last->Send_message->Response_0.status == 200
            &&& last->traced <==> !(req.method is Notify)
            &&& last->sending == (if req.method is Bye {
                SendingView::May
            } else {
                SendingView::Must
            })
            &&& req.method is Invite ==> last->Send_message == reinvite_reply(
                req,
                c.phone.local,
                c.phone.session_text(session_id, "sendrecv"@),
            )
        }),
{
}

/// Where an answer or a progress report has no session description with audio, or
/// its address cannot be read, media stay as they were.
pub proof fn law_media_stay(
    c: CallView,
    res: ResponseView,
    source: EndpointView,
    addr: Option<EndpointView>,
    branch: Seq<char>,
    session_id: u32,
)
    requires
        c.phone.dialog is Some,
        addr is None || res.body is None || (res.status != 183 && !(200 <= res.status <= 299)),
    ensures
        ({
            let after = on_message(
                c,
                MessageView::Response(res),
                source,
                addr,
                branch,
                session_id,
            ).0;
            &&& after.phone.rtp == c.phone.rtp
            &&& after.phone.remote_dtmf == c.phone.remote_dtmf
            &&& after.receiving == c.receiving
            &&& after.connected == c.connected
        }),
{
}

// ---------------------------------------------------------------------------
// Keys
// ---------------------------------------------------------------------------

/// A key that goes over RTP goes by the number that the other end asked for, and by
/// the phone's own only where the other end named none. The key is the one that
/// waited longest.
pub proof fn law_key_number(p: PhoneView, branch: Seq<char>)
    requires
        p.queue.len() > 0,
        p.queue[0].method == DtmfMethod::Rfc2833,
        p.rtp is Some,
    ensures
        key_step(p, branch) is Rtp,
        key_step(p, branch)->Rtp_digit == p.queue[0].digit,
        p.remote_dtmf matches Some(t) ==> key_step(p, branch)->payload_type == t,
        p.remote_dtmf is None ==> key_step(p, branch)->payload_type == p.local_dtmf,
        after_key_step(p) == (PhoneView { queue: p.queue.skip(1), ..p }),
{
}

/// The next key over RTP, after an answer or a progress report with a session
/// description, goes by the number of the first `telephone-event` there, and by the
/// phone's own where there is none.
pub proof fn law_key_number_learnt(
    c: CallView,
    res: ResponseView,
    source: EndpointView,
    to: EndpointView,
    branch: Seq<char>,
    session_id: u32,
    j: int,
    k: int,
)
    requires
        c.phone.dialog is Some,
        c.phone.rtp is Some,
        c.phone.queue.len() > 0,
        c.phone.queue[0].method == DtmfMethod::Rfc2833,
        res.status == 183 || 200 <= res.status <= 299,
        res.body is Some,
        parse_sdp(res.body->0) is Ok,
        0 <= j < parse_sdp(res.body->0)->Ok_0.media.len(),
        parse_sdp(res.body->0)->Ok_0.media[j].media_type is Audio,
        forall|i: int|
            0 <= i < j ==> !((
            #[trigger] parse_sdp(res.body->0)->Ok_0.media[i]).media_type is Audio),
        0 <= k <= parse_sdp(res.body->0)->Ok_0.media[j].rtpmaps.len(),
        forall|i: int|
            0 <= i < k ==> ascii_lowered(
                (#[trigger] parse_sdp(res.body->0)->Ok_0.media[j].rtpmaps[i]).encoding_name,
            ) != "telephone-event"@,
        k < parse_sdp(res.body->0)->Ok_0.media[j].rtpmaps.len() ==> ascii_lowered(
            parse_sdp(res.body->0)->Ok_0.media[j].rtpmaps[k].encoding_name,
        ) == "telephone-event"@,
    ensures
        ({
            let after = on_message(
                c,
                MessageView::Response(res),
                source,
                Some(to),
                branch,
                session_id,
            ).0;
            let maps = parse_sdp(res.body->0)->Ok_0.media[j].rtpmaps;
            key_step(after.phone, branch) == KeyStepView::Rtp {
                digit: c.phone.queue[0].digit,
                payload_type: if k < maps.len() {
                    maps[k].payload_type
                } else {
                    c.phone.local_dtmf
                },
            }
        }),
{
    law_media_target(res.body->0, j, k);
}

/// A key over a message is told to the end that took the call, in the dialog and
/// under its next number. Where there is no such end it is dropped; where there is
/// no media session, a key over RTP cannot go.
pub proof fn law_other_keys(p: PhoneView, branch: Seq<char>)
    requires
        p.can_number(),
    ensures
        p.queue.len() == 0 ==> key_step(p, branch) is Done && after_key_step(p) == p,
        p.queue.len() > 0 ==> !(key_step(p, branch) is Done) && after_key_step(p).queue
            == p.queue.skip(1) && after_key_step(p).rtp == p.rtp,
        p.queue.len() > 0 && p.queue[0].method == DtmfMethod::Rfc2833 && p.rtp is None
            ==> key_step(p, branch) is Stop,
        p.queue.len() > 0 && p.queue[0].method == DtmfMethod::SipInfo && (p.dialog is None
            || p.remote is None) ==> key_step(p, branch) is Skip,
        p.queue.len() > 0 && p.queue[0].method == DtmfMethod::SipInfo && p.dialog is Some
            && p.remote is Some ==> {
            &&& key_step(p, branch) is Info
            &&& key_step(p, branch)->Info_digit == p.queue[0].digit
            &&& Some(key_step(p, branch)->to) == p.remote
            &&& after_key_step(p).dialog->0.local_cseq == p.dialog->0.local_cseq + 1
        },
{
}

/// What a key over a message says: its signal and a duration, in the dialog and under
/// the number that follows.
pub proof fn law_key_message(p: PhoneView, branch: Seq<char>)
    requires
        p.can_number(),
        p.queue.len() > 0,
        p.queue[0].method == DtmfMethod::SipInfo,
        p.dialog is Some,
        p.remote is Some,
    ensures
        ({
            let m = key_step(p, branch)->message;
            &&& m is Request
            &&& m->Request_0.method is Info
            &&& m.body() == Some(
                "Signal="@ + seq![p.queue[0].digit] + "\r\nDuration=160"@,
            )
            &&& m.headers()[4] == (NameView::CallId, p.dialog->0.call_id)
            &&& m.headers()[5] == (
                NameView::CSeq,
                dec((p.dialog->0.local_cseq + 1) as nat) + " "@ + "INFO"@,
            )
            &&& m.headers()[6] == (NameView::ContentType, "application/dtmf-relay"@)
        }),
{
    let n = (p.dialog->0.local_cseq + 1) as u32;
    let d = p.numbered().dialog->0;
    law_dialog_request(MethodView::Info, d, p.local, branch, n);
    law_info(d, p.local, branch, n, p.queue[0].digit);
}

// ---------------------------------------------------------------------------
// Messages
// ---------------------------------------------------------------------------

/// Whether what belongs to the user is the same in both.
spec fn kept(c: CallView, after: CallView) -> bool {
    &&& after.recorder == c.recorder && after.live == c.live
    &&& after.recording == c.recording && after.muted == c.muted
    &&& after.announced_rx == c.announced_rx && after.announced_tx == c.announced_tx
    &&& after.phone.local == c.phone.local && after.phone.tag == c.phone.tag
    &&& after.phone.call_id == c.phone.call_id && after.phone.live == c.phone.live
    &&& after.phone.record_path == c.phone.record_path
    &&& after.phone.local_dtmf == c.phone.local_dtmf && after.phone.queue == c.phone.queue
    &&& after.phone.announced == c.phone.announced
    &&& after.phone.credentials == c.phone.credentials
    &&& after.phone.server_host == c.phone.server_host
    &&& after.phone.reg_user == c.phone.reg_user
}

proof fn lemma_media_keep(
    c: CallView,
    m: MessageView,
    source: EndpointView,
    addr: Option<EndpointView>,
    branch: Seq<char>,
)
    ensures
        kept(c, early_media(c, m, addr).0),
        early_media(c, m, addr).0.phone.on_hold == c.phone.on_hold,
        early_media(c, m, addr).0.phone.dialog == c.phone.dialog,
        early_media(c, m, addr).0.phone.remote == c.phone.remote,
        kept(c, call_media(c, m, addr).0),
        call_media(c, m, addr).0.phone.on_hold == c.phone.on_hold,
        call_media(c, m, addr).0.phone.dialog == c.phone.dialog,
        call_media(c, m, addr).0.phone.remote == c.phone.remote,
        kept(c, acknowledge(c, m, source, branch).0),
        acknowledge(c, m, source, branch).0.phone.on_hold == c.phone.on_hold,
        acknowledge(c, m, source, branch).0.phone.remote == c.phone.remote,
        c.phone.dialog is Some ==> acknowledge(c, m, source, branch).0.phone.dialog is Some,
        c.phone.dialog is Some ==> acknowledge(c, m, source, branch).0.phone.dialog->0 == (
        DialogView {
            local_cseq: acknowledge(c, m, source, branch).0.phone.dialog->0.local_cseq,
            ..c.phone.dialog->0
        }),
{
}

proof fn lemma_progress(
    c: CallView,
    res: ResponseView,
    source: EndpointView,
    addr: Option<EndpointView>,
    branch: Seq<char>,
)
    requires
        c.phone.dialog is Some,
        100 <= res.status <= 199,
    ensures
        ({
            let m = MessageView::Response(res);
            let (after, step) = on_response(c, res, source, addr, branch);
            let d = after_response(c.phone.dialog->0, m);
            &&& kept(c, after)
            &&& after.phone.on_hold == c.phone.on_hold
            &&& after.phone.dialog is Some
            &&& after.phone.dialog->0 == (DialogView {
                local_cseq: after.phone.dialog->0.local_cseq,
                ..d
            })
            &&& step.actions[0] == say(
                Tone::Info,
                "Call progress: "@ + (dec(res.status as nat) + " "@ + reason_of(res.status)),
            )
            &&& step.flow == (if d.state == DialogState::Terminated {
                FlowView::End
            } else {
                FlowView::Go
            })
            &&& after.phone.remote == c.phone.remote
        }),
{
    let m = MessageView::Response(res);
    let c0 = after_reply(c, m);
    lemma_media_keep(c0, m, source, addr, branch);
    let c1 = acknowledge(c0, m, source, branch).0;
    lemma_media_keep(c1, m, source, addr, branch);
}

proof fn lemma_taken(
    c: CallView,
    res: ResponseView,
    source: EndpointView,
    addr: Option<EndpointView>,
    branch: Seq<char>,
)
    requires
        c.phone.dialog is Some,
        200 <= res.status <= 299,
    ensures
        ({
            let m = MessageView::Response(res);
            let (after, step) = on_response(c, res, source, addr, branch);
            let d = after_response(c.phone.dialog->0, m);
            &&& kept(c, after)
            &&& after.phone.on_hold == c.phone.on_hold
            &&& after.phone.dialog == Some(d)
            &&& step.actions[0] == say(Tone::Success, "Call connected!"@)
            &&& step.flow == (if d.state == DialogState::Terminated {
                FlowView::End
            } else {
                FlowView::Go
            })
            &&& after.phone.remote == Some(source)
        }),
{
    let m = MessageView::Response(res);
    let c0 = after_reply(c, m);
    let c1 = CallView { phone: PhoneView { remote: Some(source), ..c0.phone }, ..c0 };
    lemma_media_keep(c1, m, source, addr, branch);
}

proof fn lemma_direction_keeps(c: CallView, m: MessageView)
    ensures
        kept(c, on_direction(c, m).0),
        on_direction(c, m).0.phone.rtp == c.phone.rtp,
        on_direction(c, m).0.phone.remote == c.phone.remote,
        on_direction(c, m).0.phone.remote_dtmf == c.phone.remote_dtmf,
        on_direction(c, m).0.receiving == c.receiving,
        on_direction(c, m).0.connected == c.connected,
{
}

proof fn lemma_request_keeps(
    c: CallView,
    req: RequestView,
    source: EndpointView,
    branch: Seq<char>,
    session_id: u32,
)
    ensures
        ({
            let after = on_request(c, req, source, branch, session_id).0;
            &&& kept(c, after)
            &&& after.phone.rtp == c.phone.rtp
            &&& after.phone.remote == c.phone.remote
            &&& after.phone.remote_dtmf == c.phone.remote_dtmf
            &&& after.receiving == c.receiving
            &&& after.connected == c.connected
        }),
{
    lemma_direction_keeps(c, MessageView::Request(req));
}

proof fn lemma_response_keeps(
    c: CallView,
    res: ResponseView,
    source: EndpointView,
    addr: Option<EndpointView>,
    branch: Seq<char>,
)
    requires
        c.phone.dialog is Some,
    ensures
        kept(c, on_response(c, res, source, addr, branch).0),
        on_response(c, res, source, addr, branch).0.phone.on_hold == c.phone.on_hold,
{
    if 100 <= res.status <= 199 {
        lemma_progress(c, res, source, addr, branch);
    } else if 200 <= res.status <= 299 {
        lemma_taken(c, res, source, addr, branch);
    }
}

/// No message of the other end changes what belongs to the user: the recordings,
/// the mute, the keys that wait, the phone's own address, tag, number for keys and
/// login. A request changes nothing about where media go, either.
pub proof fn law_messages_keep(
    c: CallView,
    m: MessageView,
    source: EndpointView,
    addr: Option<EndpointView>,
    branch: Seq<char>,
    session_id: u32,
)
    ensures
        ({
            let after = on_message(c, m, source, addr, branch, session_id).0;
            &&& after.recorder == c.recorder && after.live == c.live
            &&& after.recording == c.recording && after.muted == c.muted
            &&& after.announced_rx == c.announced_rx && after.announced_tx == c.announced_tx
            &&& after.phone.local == c.phone.local && after.phone.tag == c.phone.tag
            &&& after.phone.call_id == c.phone.call_id && after.phone.live == c.phone.live
            &&& after.phone.record_path == c.phone.record_path
            &&& after.phone.local_dtmf == c.phone.local_dtmf && after.phone.queue == c.phone.queue
            &&& after.phone.announced == c.phone.announced
            &&& after.phone.credentials == c.phone.credentials
            &&& after.phone.server_host == c.phone.server_host
            &&& after.phone.reg_user == c.phone.reg_user
            &&& m is Response ==> after.phone.on_hold == c.phone.on_hold
            &&& m is Request ==> {
                &&& after.phone.rtp == c.phone.rtp
                &&& after.phone.remote == c.phone.remote
                &&& after.phone.remote_dtmf == c.phone.remote_dtmf
                &&& after.receiving == c.receiving
                &&& after.connected == c.connected
            }
            &&& c.phone.dialog is None ==> after == c
        }),
{
    if c.phone.dialog is Some {
        match m {
            MessageView::Response(res) => lemma_response_keeps(c, res, source, addr, branch),
            MessageView::Request(req) => lemma_request_keeps(c, req, source, branch, session_id),
        }
    }
}

/// What a response says of the call goes into the dialog, and the user is told how
/// the call goes on: that it progresses, that it was taken, or that it failed, with
/// the code and its name. A failure ends the call.
pub proof fn law_response_told(
    c: CallView,
    res: ResponseView,
    source: EndpointView,
    addr: Option<EndpointView>,
    branch: Seq<char>,
    session_id: u32,
)
    requires
        c.phone.dialog is Some,
    ensures
        ({
            let m = MessageView::Response(res);
            let (after, step) = on_message(c, m, source, addr, branch, session_id);
            let code = dec(res.status as nat) + " "@ + reason_of(res.status);
            let d = after_response(c.phone.dialog->0, m);
            &&& after.phone.dialog is Some
            &&& after.phone.dialog->0 == (DialogView {
                local_cseq: after.phone.dialog->0.local_cseq,
                ..d
            })
            &&& res.status >= 200 ==> after.phone.dialog->0 == d
            &&& 100 <= res.status <= 199 ==> step.actions[0] == say(
                Tone::Info,
                "Call progress: "@ + code,
            )
            &&& 200 <= res.status <= 299 ==> step.actions[0] == say(
                Tone::Success,
                "Call connected!"@,
            )
            &&& 300 <= res.status <= 399 ==> step.actions.len() == 0
            &&& res.status >= 400 ==> {
                &&& step.actions[0] == say(Tone::Error, "Call failed: "@ + code)
                &&& step.flow == FlowView::Fail(PhoneErrorView::CallFailed(code))
            }
            &&& res.status < 400 ==> step.flow == (if d.state == DialogState::Terminated {
                FlowView::End
            } else {
                FlowView::Go
            })
            &&& 200 <= res.status <= 299 ==> after.phone.remote == Some(source)
            &&& !(200 <= res.status <= 299) ==> after.phone.remote == c.phone.remote
        }),
{
    if 100 <= res.status <= 199 {
        lemma_progress(c, res, source, addr, branch);
    } else if 200 <= res.status <= 299 {
        lemma_taken(c, res, source, addr, branch);
    }
}

/// A report asks to be acknowledged where it requires `100rel` and has a number: what
/// is acknowledged is that number, and the number and the method of the request that
/// the report answers.
pub proof fn law_reliable_report(res: ResponseView, a: Seq<char>, b: Seq<char>)
    ensures
        ({
            let m = MessageView::Response(res);
            let require = lookup(res.headers, NameView::Require);
            let rseq = lookup(res.headers, NameView::RSeq);
            let cseq = lookup(res.headers, NameView::CSeq);
            let n = uint_of(trimmed(rseq->0), 0xffff_ffff);
            &&& require is None ==> reliable(m) is None
            &&& rseq is None ==> reliable(m) is None
            &&& rseq is Some && n is None ==> reliable(m) is None
            &&& require == Some(a + "100rel"@ + b) && rseq is Some && n is Some ==> {
                &&& reliable(m) is Some
                &&& (reliable(m)->0).0 == n->0
                &&& cseq is Some && cseq_of(cseq->0) is Some ==> (reliable(m)->0).1 == (
                    (cseq_of(cseq->0)->0).0,
                    (cseq_of(cseq->0)->0).1.text(),
                )
            }
            &&& require is Some && (forall|i: int|
                0 <= i <= require->0.len() - 6 ==> #[trigger] require->0.subrange(i, i + 6)
                    != "100rel"@) ==> reliable(m) is None
        }),
{
    reveal_strlit("100rel");
    law_contains_text(a, "100rel"@, b, a);
    if let Some(v) = lookup(res.headers, NameView::Require) {
        law_contains_text(a, "100rel"@, b, v);
    }
}

/// When the other end hangs up, the call ends and the user is told; the dialog is
/// over where the message names its call.
pub proof fn law_hung_up(
    c: CallView,
    req: RequestView,
    source: EndpointView,
    addr: Option<EndpointView>,
    branch: Seq<char>,
    session_id: u32,
)
    requires
        c.phone.dialog is Some,
        req.method is Bye,
    ensures
        ({
            let (after, step) = on_message(
                c,
                MessageView::Request(req),
                source,
                addr,
                branch,
                session_id,
            );
            let ours = lookup(req.headers, NameView::CallId) == Some(c.phone.dialog->0.call_id);
            &&& step.flow == FlowView::End
            &&& step.actions[0] == say(Tone::Event, "Remote party hung up"@)
            &&& after.phone.dialog is Some
            &&& ours ==> after.phone.dialog->0 == (DialogView {
                state: DialogState::Terminated,
                ..c.phone.dialog->0
            })
            &&& !ours ==> after.phone.dialog == c.phone.dialog
        }),
{
}

/// A key in a message is told to the user with its duration.
pub proof fn law_info_told(
    c: CallView,
    req: RequestView,
    source: EndpointView,
    addr: Option<EndpointView>,
    branch: Seq<char>,
    session_id: u32,
)
    requires
        c.phone.dialog is Some,
        req.method is Info,
    ensures
        ({
            let (after, step) = on_message(
                c,
                MessageView::Request(req),
                source,
                addr,
                branch,
                session_id,
            );
            &&& after == c
            &&& info_key(req.body) matches Some((digit, duration)) ==> step.actions[0] == say(
                Tone::Event,
                "DTMF received (SIP INFO): "@ + seq![digit] + " (duration "@ + dec(duration)
                    + ")"@,
            )
            &&& info_key(req.body) is None ==> step.actions[0] == say(
                Tone::Info,
                "SIP INFO received"@,
            )
        }),
{
    if let Some((digit, duration)) = info_key(req.body) {
        let head = "DTMF received (SIP INFO): "@;
        assert(head.push(digit) =~= head + seq![digit]);
    }
}

/// The other end puts the call on hold with a description that only sends or is
/// inactive, and resumes it with any other; without a description the call stays as
/// it is.
pub proof fn law_other_end_holds(
    c: CallView,
    req: RequestView,
    source: EndpointView,
    addr: Option<EndpointView>,
    branch: Seq<char>,
    session_id: u32,
    j: int,
    k: int,
)
    requires
        c.phone.dialog is Some,
        req.method is Invite,
        req.body is Some,
        parse_sdp(req.body->0) is Ok,
        0 <= j < parse_sdp(req.body->0)->Ok_0.media.len(),
        parse_sdp(req.body->0)->Ok_0.media[j].media_type is Audio,
        forall|i: int|
            0 <= i < j ==> !((
            #[trigger] parse_sdp(req.body->0)->Ok_0.media[i]).media_type is Audio),
        0 <= k <= parse_sdp(req.body->0)->Ok_0.media[j].attributes.len(),
        forall|i: int|
            0 <= i < k ==> ({
                let name = (#[trigger] parse_sdp(req.body->0)->Ok_0.media[j].attributes[i]).0;
                name != "sendrecv"@ && name != "sendonly"@ && name != "recvonly"@ && name
                    != "inactive"@
            }),
        k < parse_sdp(req.body->0)->Ok_0.media[j].attributes.len() ==> ({
            let name = parse_sdp(req.body->0)->Ok_0.media[j].attributes[k].0;
            name == "sendrecv"@ || name == "sendonly"@ || name == "recvonly"@ || name
                == "inactive"@
        }),
    ensures
        ({
            let (after, step) = on_message(
                c,
                MessageView::Request(req),
                source,
                addr,
                branch,
                session_id,
            );
            let attrs = parse_sdp(req.body->0)->Ok_0.media[j].attributes;
            let sendonly = k < attrs.len() && attrs[k].0 == "sendonly"@;
            let inactive = k < attrs.len() && attrs[k].0 == "inactive"@;
            &&& after.phone.on_hold <==> (sendonly || inactive)
            &&& step.actions[0] == say(Tone::Event, "Re-INVITE received"@)
            &&& sendonly ==> step.actions[1] == say(Tone::Warning, "Remote put call on hold"@)
            &&& inactive ==> step.actions[1] == say(
                Tone::Warning,
                "Remote put call on hold (inactive)"@,
            )
            &&& !sendonly && !inactive && c.phone.on_hold ==> step.actions[1] == say(
                Tone::Success,
                "Remote resumed call"@,
            )
            &&& !sendonly && !inactive && !c.phone.on_hold ==> step.actions.len() == 2
        }),
{
    let media = parse_sdp(req.body->0)->Ok_0.media;
    law_first_audio(media, j);
    law_first_direction(media[j].attributes, k);
    reveal_strlit("sendonly");
    reveal_strlit("inactive");
    assert("sendonly"@[0] == 's' && "inactive"@[0] == 'i');
}

/// A description that is missing or cannot be read leaves the call as it is.
pub proof fn law_unread_offer(
    c: CallView,
    req: RequestView,
    source: EndpointView,
    addr: Option<EndpointView>,
    branch: Seq<char>,
    session_id: u32,
)
    requires
        req.method is Invite,
        req.body matches Some(b) ==> parse_sdp(b) is Err,
    ensures
        on_message(c, MessageView::Request(req), source, addr, branch, session_id).0 == c,
{
}

/// A transfer that names where to is accepted and then reported on, in that order;
/// one that does not is refused.
pub proof fn law_transfer_taken(
    c: CallView,
    req: RequestView,
    source: EndpointView,
    addr: Option<EndpointView>,
    branch: Seq<char>,
    session_id: u32,
)
    requires
        c.phone.dialog is Some,
        c.phone.can_number(),
        req.method is Refer,
    ensures
        ({
            let (after, step) = on_message(
                c,
                MessageView::Request(req),
                source,
                addr,
                branch,
                session_id,
            );
            let n = c.phone.dialog->0.local_cseq;
            match lookup(req.headers, NameView::ReferTo) {
                Some(who) => {
                    &&& step.actions.len() == 3
                    &&& step.actions[0] == say(Tone::Event, "Transfer requested to: "@ + who)
                    &&& step.actions[1] is Send
                    &&& step.actions[1]->Send_message->Response_0.status == 202
                    &&& step.actions[1]->Send_to == source
                    &&& sends(
                        step.actions[2],
                        notify_request(c.phone.dialog->0, c.phone.local, branch, (n + 1) as u32),
                        source,
                    )
                    &&& after.phone.dialog->0.local_cseq == n + 1
                },
                None => {
                    &&& after == c
                    &&& step.actions.len() == 1
                    &&& step.actions[0]->Send_message->Response_0.status == 400
                    &&& step.actions[0]->Send_to == source
                },
            }
        }),
{
}

/// What the other end reports is shown to the user; requests that the phone does not
/// know change nothing and are not answered.
pub proof fn law_other_requests(
    c: CallView,
    req: RequestView,
    source: EndpointView,
    addr: Option<EndpointView>,
    branch: Seq<char>,
    session_id: u32,
)
    requires
        c.phone.dialog is Some,
        !(req.method is Bye),
        !(req.method is Info),
        !(req.method is Invite),
        !(req.method is Refer),
    ensures
        ({
            let (after, step) = on_message(
                c,
                MessageView::Request(req),
                source,
                addr,
                branch,
                session_id,
            );
            &&& after == c
            &&& !(req.method is Notify) ==> step.actions.len() == 0
            &&& req.method is Notify && req.body is Some ==> step.actions[0] == say(
                Tone::Info,
                "NOTIFY: "@ + trimmed(req.body->0),
            ) && step.actions.len() == 2
            &&& req.method is Notify && req.body is None ==> step.actions.len() == 1
            &&& req.method is Notify ==> step.actions.last()->Send_message->Response_0.status
                == 200
        }),
{
}

// ---------------------------------------------------------------------------
// Commands
// ---------------------------------------------------------------------------

/// The user mutes and unmutes themself: that changes, and nothing else.
pub proof fn law_mute(
    c: CallView,
    traced: nat,
    captures: bool,
    dials: SiprConfig,
    branch: Seq<char>,
    session_id: u32,
)
    ensures
        ({
            let (muted, told) = on_command(
                c,
                CommandView::Mute,
                traced,
                captures,
                dials,
                branch,
                session_id,
            );
            &&& muted == (CallView { muted: true, ..c })
            &&& told.actions == seq![say(Tone::Warning, "Muted (outgoing audio silenced)"@)]
            &&& told.flow == FlowView::Go
        }),
        ({
            let (unmuted, told) = on_command(
                c,
                CommandView::Unmute,
                traced,
                captures,
                dials,
                branch,
                session_id,
            );
            &&& unmuted == (CallView { muted: false, ..c })
            &&& told.actions == seq![say(Tone::Status, "Unmuted"@)]
            &&& told.flow == FlowView::Go
        }),
{
}

/// A recording begins empty, at 8000 samples in a second, where none was begun; one
/// that was begun goes on with all that it holds. It stops without losing anything.
pub proof fn law_record_command(
    c: CallView,
    path: Seq<char>,
    traced: nat,
    captures: bool,
    dials: SiprConfig,
    branch: Seq<char>,
    session_id: u32,
)
    ensures
        ({
            let (after, told) = on_command(
                c,
                CommandView::Record(Some(path)),
                traced,
                captures,
                dials,
                branch,
                session_id,
            );
            &&& after.recording
            &&& after.recorder == c.recorder
            &&& c.recorder is Some || c.live is Some ==> after.live == c.live
                && after.phone.record_path == c.phone.record_path && told.actions == seq![
                say(Tone::Status, "Recording resumed."@),
            ]
            &&& c.recorder is None && c.live is None ==> {
                &&& after.live is Some
                &&& (after.live->0).0.len() == 0
                &&& (after.live->0).1 == 8000
                &&& after.phone.record_path == Some(path)
                &&& told.actions == seq![say(Tone::Status, "Recording to: "@ + path)]
            }
            &&& after.muted == c.muted && after.receiving == c.receiving && after.connected
                == c.connected
        }),
        c.recorder is None && c.live is None ==> on_command(
            c,
            CommandView::Record(None),
            traced,
            captures,
            dials,
            branch,
            session_id,
        ).0 == c,
        ({
            let (after, told) = on_command(
                c,
                CommandView::Stop,
                traced,
                captures,
                dials,
                branch,
                session_id,
            );
            &&& after == (CallView { recording: false, ..c })
            &&& !c.recording ==> told.actions == seq![say(Tone::Info, "Not recording."@)]
            &&& c.recording && (c.recorder is Some || c.live is Some) ==> told.actions == seq![
                ActionView::ShowPause,
            ]
        }),
{
}

/// The user puts the call on hold with a description that only sends, and resumes
/// it with one that sends and receives, under the next number of the dialog. A call
/// that is on hold is not put on hold again, nor one resumed that is not.
#[verifier::spinoff_prover]
pub proof fn law_hold_command(
    c: CallView,
    traced: nat,
    captures: bool,
    dials: SiprConfig,
    branch: Seq<char>,
    session_id: u32,
)
    requires
        c.phone.can_number(),
    ensures
        ({
            let (after, step) = on_command(
                c,
                CommandView::Hold,
                traced,
                captures,
                dials,
                branch,
                session_id,
            );
            let n = (c.phone.dialog->0.local_cseq + 1) as u32;
            &&& after.phone.on_hold == c.phone.on_hold
            &&& c.phone.on_hold ==> after == c && step.actions == seq![
                say(Tone::Info, "Already on hold."@),
            ]
            &&& !c.phone.on_hold && c.phone.dialog is None ==> after == c && step.actions == seq![
                say(Tone::Error, "Hold failed: "@ + "no active dialog"@),
            ]
            &&& !c.phone.on_hold && c.phone.dialog is Some ==> {
                &&& step.actions == seq![
                    ActionView::Request {
                        message: reinvite_request(
                            c.phone.dialog->0,
                            c.phone.local,
                            branch,
                            n,
                            c.phone.session_text(session_id, "sendonly"@),
                        ),
                        request: UserRequestView::Hold,
                    },
                ]
                &&& after.phone.dialog->0.local_cseq == n
            }
            &&& step.flow == FlowView::Go
        }),
        ({
            let (after, step) = on_command(
                c,
                CommandView::Resume,
                traced,
                captures,
                dials,
                branch,
                session_id,
            );
            let n = (c.phone.dialog->0.local_cseq + 1) as u32;
            &&& after.phone.on_hold == c.phone.on_hold
            &&& !c.phone.on_hold ==> after == c && step.actions == seq![
                say(Tone::Info, "Call is not on hold."@),
            ]
            &&& c.phone.on_hold && c.phone.dialog is None ==> after == c && step.actions == seq![
                say(Tone::Error, "Resume failed: "@ + "no active dialog"@),
            ]
            &&& c.phone.on_hold && c.phone.dialog is Some ==> {
                &&& step.actions == seq![
                    ActionView::Request {
                        message: reinvite_request(
                            c.phone.dialog->0,
                            c.phone.local,
                            branch,
                            n,
                            c.phone.session_text(session_id, "sendrecv"@),
                        ),
                        request: UserRequestView::Resume,
                    },
                ]
                &&& after.phone.dialog->0.local_cseq == n
            }
            &&& step.flow == FlowView::Go
        }),
{
}

/// The user transfers the call to an address, with a scheme put before it where it
/// has none.
#[verifier::spinoff_prover]
pub proof fn law_transfer_command(
    c: CallView,
    who: Seq<char>,
    traced: nat,
    captures: bool,
    dials: SiprConfig,
    branch: Seq<char>,
    session_id: u32,
)
    requires
        c.phone.can_number(),
    ensures
        ({
            let (after, step) = on_command(
                c,
                CommandView::Transfer(Some(who)),
                traced,
                captures,
                dials,
                branch,
                session_id,
            );
            let n = (c.phone.dialog->0.local_cseq + 1) as u32;
            let full = who.len() >= 4 && who.subrange(0, 4) == "sip:"@;
            &&& c.phone.dialog is None ==> after == c && step.actions == seq![
                say(Tone::Error, "Transfer failed: "@ + "no active dialog"@),
            ]
            &&& c.phone.dialog is Some ==> {
                &&& step.actions == seq![
                    ActionView::Request {
                        message: refer_request(
                            c.phone.dialog->0,
                            c.phone.local,
                            branch,
                            n,
                            if full {
                                who
                            } else {
                                "sip:"@ + who
                            },
                        ),
                        request: UserRequestView::Transfer(who),
                    },
                ]
                &&& after.phone.dialog->0.local_cseq == n
            }
            &&& step.flow == FlowView::Go
        }),
        on_command(
            c,
            CommandView::Transfer(None),
            traced,
            captures,
            dials,
            branch,
            session_id,
        ).0 == c,
{
    reveal_strlit("sip:");
    if who.len() >= 4 {
        assert(who.take(4) =~= who.subrange(0, 4));
    }
}

/// Keys that the user types wait behind those that wait already, in their order and
/// on the way that was asked for; the user is told how many were taken.
pub proof fn law_keys_queued(
    c: CallView,
    digits: Seq<char>,
    traced: nat,
    captures: bool,
    dials: SiprConfig,
    branch: Seq<char>,
    session_id: u32,
)
    ensures
        ({
            let (after, step) = on_command(
                c,
                CommandView::Keys(Some(digits)),
                traced,
                captures,
                dials,
                branch,
                session_id,
            );
            let keys = waiting_keys(digits, DtmfMethod::Rfc2833);
            &&& after.phone.queue == c.phone.queue + keys
            &&& after == (CallView {
                phone: PhoneView { queue: after.phone.queue, ..c.phone },
                ..c
            })
            &&& keys.len() > 0 ==> step.actions.last() == say(
                Tone::Status,
                "Queued "@ + dec(keys.len()) + " DTMF digit(s) for "@ + "RTP RFC2833"@ + "."@,
            )
        }),
        ({
            let (after, step) = on_command(
                c,
                CommandView::InfoKeys(Some(digits)),
                traced,
                captures,
                dials,
                branch,
                session_id,
            );
            let keys = waiting_keys(digits, DtmfMethod::SipInfo);
            &&& after.phone.queue == c.phone.queue + keys
            &&& after == (CallView {
                phone: PhoneView { queue: after.phone.queue, ..c.phone },
                ..c
            })
            &&& keys.len() > 0 ==> step.actions.last() == say(
                Tone::Status,
                "Queued "@ + dec(keys.len()) + " DTMF digit(s) for "@ + "SIP INFO"@ + "."@,
            )
        }),
        ({
            let (after, step) = on_command(
                c,
                CommandView::CountKeys,
                traced,
                captures,
                dials,
                branch,
                session_id,
            );
            &&& after == c
            &&& step.actions == seq![
                say(Tone::Info, "Queued DTMF digits: "@ + dec(c.phone.queue.len())),
            ]
        }),
        ({
            let (after, step) = on_command(
                c,
                CommandView::SendKeys,
                traced,
                captures,
                dials,
                branch,
                session_id,
            );
            &&& after == c
            &&& step.actions == seq![ActionView::SendKeys]
        }),
{
}

/// Each character that is no key is refused with a warning that names it, in order,
/// before anything else is told.
pub proof fn law_keys_refused(
    c: CallView,
    digits: Seq<char>,
    traced: nat,
    captures: bool,
    dials: SiprConfig,
    branch: Seq<char>,
    session_id: u32,
    i: int,
)
    requires
        0 <= i < refused_keys(digits).len(),
    ensures
        on_command(
            c,
            CommandView::Keys(Some(digits)),
            traced,
            captures,
            dials,
            branch,
            session_id,
        ).1.actions[i] == say(
            Tone::Warning,
            "Ignoring unsupported DTMF digit '"@ + seq![refused_keys(digits)[i]] + "'"@,
        ),
        on_command(
            c,
            CommandView::InfoKeys(Some(digits)),
            traced,
            captures,
            dials,
            branch,
            session_id,
        ).1.actions[i] == say(
            Tone::Warning,
            "Ignoring unsupported DTMF digit '"@ + seq![refused_keys(digits)[i]] + "'"@,
        ),
{
    let head = "Ignoring unsupported DTMF digit '"@;
    let k = refused_keys(digits)[i];
    assert(head.push(k) =~= head + seq![k]);
}

/// The user hangs up: the other end is told in the dialog, under its next number;
/// without a dialog the call ends at once.
pub proof fn law_hangup_command(
    c: CallView,
    traced: nat,
    captures: bool,
    dials: SiprConfig,
    branch: Seq<char>,
    session_id: u32,
)
    requires
        c.phone.can_number(),
    ensures
        ({
            let (after, step) = on_command(
                c,
                CommandView::Hangup,
                traced,
                captures,
                dials,
                branch,
                session_id,
            );
            let n = (c.phone.dialog->0.local_cseq + 1) as u32;
            &&& step.actions[0] == say(Tone::Info, "Hanging up..."@)
            &&& c.phone.dialog is None ==> after == c && step.flow == FlowView::End
                && step.actions.last() == say(Tone::Warning, "No active dialog to hang up."@)
            &&& c.phone.dialog is Some ==> {
                &&& step.flow == FlowView::Go
                &&& step.actions.last() is Bye
                &&& step.actions.last()->cseq == n
                &&& step.actions.last()->Bye_message == built_request(
                    in_dialog(MethodView::Bye, c.phone.dialog->0, c.phone.local, branch, n),
                )
                &&& after.phone.dialog->0.local_cseq == n
            }
        }),
{
}

/// What only shows something changes nothing.
pub proof fn law_showing_changes_nothing(
    c: CallView,
    word: Seq<char>,
    verbose: bool,
    traced: nat,
    captures: bool,
    dials: SiprConfig,
    branch: Seq<char>,
    session_id: u32,
)
    ensures
        ({
            let (after, step) = on_command(
                c,
                CommandView::Help,
                traced,
                captures,
                dials,
                branch,
                session_id,
            );
            after == c && step.actions == seq![ActionView::ShowHelp]
        }),
        ({
            let (after, step) = on_command(
                c,
                CommandView::Stats,
                traced,
                captures,
                dials,
                branch,
                session_id,
            );
            after == c && step.actions == seq![ActionView::ShowStats]
        }),
        ({
            let (after, step) = on_command(
                c,
                CommandView::Trace { verbose },
                traced,
                captures,
                dials,
                branch,
                session_id,
            );
            after == c && step.actions[0] == ActionView::StartTrace { verbose }
        }),
        ({
            let (after, step) = on_command(
                c,
                CommandView::StopTrace,
                traced,
                captures,
                dials,
                branch,
                session_id,
            );
            after == c && step.actions == seq![
                ActionView::StopTrace,
                say(
                    Tone::Info,
                    "SIP tracing stopped ("@ + dec(traced) + " messages captured)."@,
                ),
            ]
        }),
        ({
            let (after, step) = on_command(
                c,
                CommandView::Flows,
                traced,
                captures,
                dials,
                branch,
                session_id,
            );
            &&& after == c
            &&& captures ==> step.actions == seq![ActionView::ShowSummary, ActionView::ShowFlows]
            &&& !captures ==> step.actions.len() == 1 && step.actions[0] is Say
        }),
        ({
            let (after, step) = on_command(
                c,
                CommandView::Unknown(word),
                traced,
                captures,
                dials,
                branch,
                session_id,
            );
            after == c && step.actions == seq![
                say(
                    Tone::Warning,
                    "Unknown command '"@ + word + "'. Type 'help' for commands."@,
                ),
            ]
        }),
{
}

/// A request that went out takes effect; one that failed takes none, and the user is
/// told why.
pub proof fn law_request_done(c: CallView, who: Seq<char>, e: PhoneErrorView)
    ensures
        on_request_done(c, UserRequestView::Hold, None).0 == (CallView {
            phone: PhoneView { on_hold: true, ..c.phone },
            ..c
        }),
        on_request_done(c, UserRequestView::Resume, None).0 == (CallView {
            phone: PhoneView { on_hold: false, ..c.phone },
            ..c
        }),
        on_request_done(c, UserRequestView::Transfer(who), None) == (
            c,
            seq![say(Tone::Status, "REFER sent to transfer call to "@ + who)],
        ),
        on_request_done(c, UserRequestView::Hold, Some(e)) == (
            c,
            seq![say(Tone::Error, "Hold failed: "@ + e.message())],
        ),
        on_request_done(c, UserRequestView::Resume, Some(e)) == (
            c,
            seq![say(Tone::Error, "Resume failed: "@ + e.message())],
        ),
        on_request_done(c, UserRequestView::Transfer(who), Some(e)) == (
            c,
            seq![say(Tone::Error, "Transfer failed: "@ + e.message())],
        ),
        on_request_done(c, UserRequestView::Hold, None).1 == seq![
            say(Tone::Warning, "Call on hold (re-INVITE sent with a=sendonly)"@),
        ],
        on_request_done(c, UserRequestView::Resume, None).1 == seq![
            say(Tone::Success, "Call resumed (re-INVITE sent with a=sendrecv)"@),
        ],
{
}

/// However the other end takes it, a call that was hung up is over: its media are
/// gone, its dialog has ended and the call ends.
pub proof fn law_bye_done(c: CallView, outcome: ByeOutcome, captures: bool)
    ensures
        ({
            let (after, step) = on_bye_done(c, outcome, captures);
            &&& step.flow == FlowView::End
            &&& after.phone.rtp is None
            &&& c.phone.dialog is Some ==> after.phone.dialog == Some(
                DialogView { state: DialogState::Terminated, ..c.phone.dialog->0 },
            )
            &&& c.phone.dialog is None ==> after.phone.dialog is None
            &&& after.recorder == c.recorder && after.live == c.live
            &&& step.actions.len() == (if captures {
                3int
            } else {
                1
            })
            &&& outcome is NoAddress ==> step.actions[0] == say(
                Tone::Warning,
                "No remote SIP address for BYE; ending locally."@,
            )
            &&& outcome is Accepted ==> step.actions[0] == say(
                Tone::Success,
                "Hangup acknowledged (200 OK)."@,
            )
            &&& outcome is Refused ==> step.actions[0] == say(
                Tone::Warning,
                "Received non-200 response to BYE; ending call."@,
            )
            &&& outcome is NoReply ==> step.actions[0] == say(
                Tone::Warning,
                "No BYE response within 3 seconds; ending call."@,
            )
        }),
{
}

/// A hangup is answered by a response with its own number and method alone, and was
/// accepted where the code says so.
pub proof fn law_bye_answered(res: ResponseView, req: RequestView, cseq: u32)
    ensures
        ({
            let m = MessageView::Response(res);
            let v = lookup(res.headers, NameView::CSeq);
            let own = v is Some && cseq_of(v->0) == Some((cseq, MethodView::Bye));
            &&& !own ==> answers_bye(m, cseq) is None
            &&& own && 200 <= res.status < 300 ==> answers_bye(m, cseq) == Some(true)
            &&& own && !(200 <= res.status < 300) ==> answers_bye(m, cseq) == Some(false)
        }),
        answers_bye(MessageView::Request(req), cseq) is None,
{
}

// ---------------------------------------------------------------------------
// Sound
// ---------------------------------------------------------------------------

/// The user speaks as the microphone hears them, unless they are muted or nothing
/// was heard: then 160 samples of silence go out.
pub proof fn law_frame_to_send(c: CallView, mic: Option<Seq<i16>>)
    ensures
        mic is Some && !c.muted ==> frame_to_send(c, mic) == mic->0,
        mic is None || c.muted ==> frame_to_send(c, mic).len() == 160 && forall|i: int|
            0 <= i < 160 ==> #[trigger] frame_to_send(c, mic)[i] == 0,
{
}

/// What is heard is played as it came. That media are heard is told once, with
/// where they come from.
pub proof fn law_heard(c: CallView, frame: Seq<i16>)
    ensures
        ({
            let (after, actions) = on_media(c, EventView::Audio(frame));
            &&& after.announced_rx
            &&& actions.last() == ActionView::Play(frame)
            &&& c.announced_rx ==> actions.len() == 1
            &&& !c.announced_rx && c.phone.rtp is None ==> actions[0] == say(
                Tone::Status,
                "Audio RX active."@,
            )
            &&& !c.announced_rx && c.phone.rtp is Some ==> actions[0] == say(
                Tone::Status,
                "Audio RX active: codec="@ + c.phone.rtp->0.codec.text() + " PT="@ + dec(
                    c.phone.rtp->0.codec.spec_payload_type() as nat,
                ) + " rate="@ + dec(c.phone.rtp->0.codec.spec_clock_rate() as nat) + "Hz"@,
            )
            &&& !c.announced_rx && c.phone.rtp is Some && c.phone.dialog is Some ==> actions[1]
                == ActionView::TraceMedia {
                call_id: c.phone.dialog->0.call_id,
                from: c.phone.rtp->0.remote,
                to: c.phone.rtp->0.local,
                label: "RTP audio flow active (RX)"@,
            }
            &&& after.phone == c.phone
        }),
        on_backlog(c, EventView::Audio(frame)).1.len() == 0,
{
    reveal_strlit("Audio ");
    reveal_strlit("RX");
    reveal_strlit(" active: codec=");
    reveal_strlit("Audio RX active: codec=");
    assert("Audio "@ + "RX"@ + " active: codec="@ =~= "Audio RX active: codec="@);
}

/// That media go out is told once, when a first packet went out, with where they go.
pub proof fn law_spoken(c: CallView, sent: nat)
    requires
        c.phone.rtp is Some,
    ensures
        ({
            let (after, actions) = on_frame_sent(c, sent);
            let s = c.phone.rtp->0;
            &&& after.phone.rtp == Some(after_audio(s))
            &&& c.announced_tx || sent == 0 ==> actions.len() == 0 && after.announced_tx
                == c.announced_tx
            &&& !c.announced_tx && sent > 0 ==> after.announced_tx && actions[0] == say(
                Tone::Status,
                "Audio TX active: codec="@ + s.codec.text() + " PT="@ + dec(
                    s.codec.spec_payload_type() as nat,
                ) + " rate="@ + dec(s.codec.spec_clock_rate() as nat) + "Hz"@,
            )
            &&& !c.announced_tx && sent > 0 && c.phone.dialog is Some ==> actions[1]
                == ActionView::TraceMedia {
                call_id: c.phone.dialog->0.call_id,
                from: s.local,
                to: s.remote,
                label: "RTP audio flow active (TX)"@,
            }
        }),
{
    reveal_strlit("Audio ");
    reveal_strlit("TX");
    reveal_strlit(" active: codec=");
    reveal_strlit("Audio TX active: codec=");
    assert("Audio "@ + "TX"@ + " active: codec="@ =~= "Audio TX active: codec="@);
}

/// A key over RTP is told when it is let go, by what it is, unless it was told
/// already; a key that is pressed again later is told again.
pub proof fn law_key_heard(c: CallView, e: DtmfEvent)
    ensures
        ({
            let (after, actions) = on_media(c, EventView::Dtmf(e));
            let known = c.phone.announced == Some((e.digit, e.timestamp));
            &&& e.end && !known ==> actions == seq![
                say(Tone::Event, "DTMF received (RTP RFC2833): "@ + seq![e.digit]),
            ] && after.phone.announced == Some((e.digit, e.timestamp))
            &&& !e.end || known ==> actions.len() == 0 && after == c
            &&& on_backlog(c, EventView::Dtmf(e)) == (after, actions)
        }),
{
    let head = "DTMF received (RTP RFC2833): "@;
    assert(head.push(e.digit) =~= head + seq![e.digit]);
}

} // verus!
