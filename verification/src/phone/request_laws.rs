//! What the phone's own requests and responses say, field by field.
use super::dtmf::{
    info_key, is_key, read_info_line, read_info_lines, refused_keys, waiting_keys, DtmfMethod,
    InfoRead, WaitingKey,
};
use super::requests::{
    ack_of, answer_reply, bare, in_dialog, info_request, invite_request, notify_request,
    plain_reply, prack_request, refer_request, register_draft, register_request, reinvite_reply,
    reinvite_request, reply_draft, ringing_reply, RegistrationView,
};
use super::softphone::{
    caller, final_register_outcome, register_outcome, PhoneErrorView, PhoneView, RegisterView,
};
use super::uri::user_of;
use crate::case::{ascii_lowered, ascii_upper};
use crate::net::EndpointView;
use crate::number::{dec, uint_of};
use crate::sip::auth::{answer, answer_text, challenge_of, ChallengeFields};
use crate::sip::dialog::DialogView;
use crate::sip::header::{
    law_set_get, law_set_get_other, lemma_position, lookup, HeaderList, NameView,
};
use crate::sip::message::{
    built_request, built_response, content_length, reason_of, MessageView, MethodView, RequestDraft,
    RequestView, ResponseDraft, ResponseView,
};
use crate::sip::message_laws::{law_body_length, law_reply_fields};
use crate::text::{law_separated, lemma_trimmed_id, lines};
use vstd::prelude::*;
use vstd::utf8::encode_utf8;

verus! {

/// A list that names no length has no length to find.
proof fn lemma_no_length(hs: HeaderList)
    requires
        forall|i: int| 0 <= i < hs.len() ==> !((#[trigger] hs[i]).0 is ContentLength),
    ensures
        lookup(hs, NameView::ContentLength) is None,
{
    lemma_position(hs, NameView::ContentLength);
}

/// Every request of a dialog goes to the contact of the other end, or to its address
/// where no contact is known. It says the way back, both ends with their tags, the
/// call, and the number of the request with its method.
pub proof fn law_dialog_request(
    method: MethodView,
    d: DialogView,
    local: EndpointView,
    branch: Seq<char>,
    cseq: u32,
)
    ensures
        ({
            let r = in_dialog(method, d, local, branch, cseq);
            &&& r.method == method
            &&& d.remote_target is Some ==> Some(r.uri) == d.remote_target
            &&& d.remote_target is None ==> r.uri == d.remote_uri
            &&& r.body is None
            &&& r.headers.len() == 6
            &&& r.headers[0] == (
                NameView::Via,
                "SIP/2.0/UDP "@ + local.text() + ";branch="@ + branch + ";rport"@,
            )
            &&& r.headers[1] == (NameView::MaxForwards, "70"@)
            &&& r.headers[2] == (
                NameView::From,
                "<"@ + d.local_uri + ">"@ + ";tag="@ + d.local_tag,
            )
            &&& r.headers[3].0 == NameView::To
            &&& d.remote_tag is Some ==> r.headers[3].1 == "<"@ + d.remote_uri + ">"@ + ";tag="@
                + d.remote_tag->0
            &&& d.remote_tag is None ==> r.headers[3].1 == "<"@ + d.remote_uri + ">"@
            &&& r.headers[4] == (NameView::CallId, d.call_id)
            &&& r.headers[5] == (NameView::CSeq, dec(cseq as nat) + " "@ + method.text())
        }),
{
}

/// An acknowledgement and a hangup have the fields of the dialog and no body; the
/// acknowledgement bears the number of the invitation.
pub proof fn law_bare_requests(d: DialogView, local: EndpointView, branch: Seq<char>, cseq: u32)
    ensures
        ({
            let m = ack_of(d, local, branch);
            let base = in_dialog(MethodView::Ack, d, local, branch, 1);
            &&& m is Request
            &&& m->Request_0.method is Ack
            &&& m->Request_0.uri == base.uri
            &&& m.headers() == base.headers.push((NameView::ContentLength, dec(0)))
            &&& m.body() is None
        }),
        ({
            let base = in_dialog(MethodView::Bye, d, local, branch, cseq);
            let m = built_request(base);
            &&& m->Request_0.method is Bye
            &&& m->Request_0.uri == base.uri
            &&& m.headers() == base.headers.push((NameView::ContentLength, dec(0)))
            &&& m.body() is None
        }),
{
    let ack = in_dialog(MethodView::Ack, d, local, branch, 1);
    let bye = in_dialog(MethodView::Bye, d, local, branch, cseq);
    let none = ResponseDraft { status: 0, headers: seq![], body: None };
    lemma_no_length(ack.headers);
    lemma_no_length(bye.headers);
    law_body_length(ack, none);
    law_body_length(bye, none);
}

/// What a request of a dialog has besides the fields of the dialog.
proof fn lemma_extended(base: RequestDraft, extra: HeaderList, body: Option<Seq<char>>)
    requires
        forall|i: int|
            0 <= i < base.headers.len() ==> !((#[trigger] base.headers[i]).0 is ContentLength),
        forall|i: int| 0 <= i < extra.len() ==> !((#[trigger] extra[i]).0 is ContentLength),
    ensures
        ({
            let m = built_request(RequestDraft { headers: base.headers + extra, body, ..base });
            let n = match body {
                Some(b) => encode_utf8(b).len(),
                None => 0,
            };
            &&& m is Request
            &&& m->Request_0.method == base.method
            &&& m->Request_0.uri == base.uri
            &&& m.headers() == (base.headers + extra).push((NameView::ContentLength, dec(n)))
            &&& m.body() == body
        }),
{
    let all = base.headers + extra;
    assert forall|i: int| 0 <= i < all.len() implies !((#[trigger] all[i]).0 is ContentLength) by {
        if i < base.headers.len() {
            assert(all[i] == base.headers[i]);
        } else {
            assert(all[i] == extra[i - base.headers.len()]);
        }
    }
    let none = ResponseDraft { status: 0, headers: seq![], body: None };
    lemma_no_length(all);
    law_body_length(RequestDraft { headers: all, body, ..base }, none);
}

/// A new offer in a dialog carries the session description and the phone's contact.
pub proof fn law_reinvite(
    d: DialogView,
    local: EndpointView,
    branch: Seq<char>,
    cseq: u32,
    sdp: Seq<char>,
)
    ensures
        ({
            let base = in_dialog(MethodView::Invite, d, local, branch, cseq);
            let m = reinvite_request(d, local, branch, cseq, sdp);
            &&& m is Request
            &&& m->Request_0.method is Invite
            &&& m->Request_0.uri == base.uri
            &&& m.body() == Some(sdp)
            &&& m.headers() == (base.headers + seq![
                (NameView::Contact, "<"@ + ("sip:"@ + "siphone"@ + "@"@ + local.text()) + ">"@),
                (NameView::ContentType, "application/sdp"@),
                (NameView::UserAgent, "siphone/0.1.0"@),
            ]).push((NameView::ContentLength, dec(encode_utf8(sdp).len())))
        }),
{
    let base = in_dialog(MethodView::Invite, d, local, branch, cseq);
    let extra = seq![
        (NameView::Contact, "<"@ + ("sip:"@ + "siphone"@ + "@"@ + local.text()) + ">"@),
        (NameView::ContentType, "application/sdp"@),
        (NameView::UserAgent, "siphone/0.1.0"@),
    ];
    lemma_extended(base, extra, Some(sdp));
    let draft = base.with(NameView::Contact, extra[0].1).with(
        NameView::ContentType,
        extra[1].1,
    ).with(NameView::UserAgent, extra[2].1);
    assert(draft.headers =~= base.headers + extra);
}

/// A transfer says where to, and on whose behalf.
pub proof fn law_refer(
    d: DialogView,
    local: EndpointView,
    branch: Seq<char>,
    cseq: u32,
    to: Seq<char>,
)
    ensures
        ({
            let base = in_dialog(MethodView::Refer, d, local, branch, cseq);
            let m = refer_request(d, local, branch, cseq, to);
            &&& m is Request
            &&& m->Request_0.method is Refer
            &&& m->Request_0.uri == base.uri
            &&& m.body() is None
            &&& m.headers() == (base.headers + seq![
                (NameView::Contact, "<"@ + ("sip:"@ + "siphone"@ + "@"@ + local.text()) + ">"@),
                (NameView::ReferTo, to),
                (NameView::ReferredBy, "<"@ + d.local_uri + ">"@),
                (NameView::UserAgent, "siphone/0.1.0"@),
            ]).push((NameView::ContentLength, dec(0)))
        }),
{
    let base = in_dialog(MethodView::Refer, d, local, branch, cseq);
    let extra = seq![
        (NameView::Contact, "<"@ + ("sip:"@ + "siphone"@ + "@"@ + local.text()) + ">"@),
        (NameView::ReferTo, to),
        (NameView::ReferredBy, "<"@ + d.local_uri + ">"@),
        (NameView::UserAgent, "siphone/0.1.0"@),
    ];
    lemma_extended(base, extra, None);
    let draft = base.with(NameView::Contact, extra[0].1).with(NameView::ReferTo, extra[1].1).with(
        NameView::ReferredBy,
        extra[2].1,
    ).with(NameView::UserAgent, extra[3].1);
    assert(draft.headers =~= base.headers + extra);
}

/// A report is acknowledged by its own number and by the number and the method of the
/// request that it answers, in that order.
pub proof fn law_prack(
    d: DialogView,
    local: EndpointView,
    branch: Seq<char>,
    cseq: u32,
    rseq: u32,
    number: u32,
    method: Seq<char>,
)
    ensures
        ({
            let base = in_dialog(MethodView::Prack, d, local, branch, cseq);
            let m = prack_request(d, local, branch, cseq, rseq, (number, method));
            &&& m is Request
            &&& m->Request_0.method is Prack
            &&& m->Request_0.uri == base.uri
            &&& m.body() is None
            &&& m.headers() == (base.headers + seq![
                (
                    NameView::RAck,
                    dec(rseq as nat) + " "@ + dec(number as nat) + " "@ + method,
                ),
                (NameView::UserAgent, "siphone/0.1.0"@),
            ]).push((NameView::ContentLength, dec(0)))
        }),
{
    let base = in_dialog(MethodView::Prack, d, local, branch, cseq);
    let extra = seq![
        (NameView::RAck, dec(rseq as nat) + " "@ + dec(number as nat) + " "@ + method),
        (NameView::UserAgent, "siphone/0.1.0"@),
    ];
    lemma_extended(base, extra, None);
    let draft = base.with(NameView::RAck, extra[0].1).with(NameView::UserAgent, extra[1].1);
    assert(draft.headers =~= base.headers + extra);
}

/// A key in a message is its signal and a duration, each on a line.
pub proof fn law_info(
    d: DialogView,
    local: EndpointView,
    branch: Seq<char>,
    cseq: u32,
    digit: char,
)
    ensures
        ({
            let base = in_dialog(MethodView::Info, d, local, branch, cseq);
            let m = info_request(d, local, branch, cseq, digit);
            let body = "Signal="@ + seq![digit] + "\r\nDuration=160"@;
            &&& m is Request
            &&& m->Request_0.method is Info
            &&& m->Request_0.uri == base.uri
            &&& m.body() == Some(body)
            &&& m.headers() == (base.headers + seq![
                (NameView::ContentType, "application/dtmf-relay"@),
                (NameView::Other("Info-Package"@), "dtmf"@),
                (NameView::UserAgent, "siphone/0.1.0"@),
            ]).push((NameView::ContentLength, dec(encode_utf8(body).len())))
        }),
{
    let base = in_dialog(MethodView::Info, d, local, branch, cseq);
    let extra = seq![
        (NameView::ContentType, "application/dtmf-relay"@),
        (NameView::Other("Info-Package"@), "dtmf"@),
        (NameView::UserAgent, "siphone/0.1.0"@),
    ];
    let body = "Signal="@ + seq![digit] + "\r\nDuration=160"@;
    assert("Signal="@.push(digit) =~= "Signal="@ + seq![digit]);
    lemma_extended(base, extra, Some(body));
    let draft = base.with(extra[0].0, extra[0].1).with(extra[1].0, extra[1].1).with(
        extra[2].0,
        extra[2].1,
    );
    assert(draft.headers =~= base.headers + extra);
}

/// How a transfer went is reported once and for all.
pub proof fn law_notify(d: DialogView, local: EndpointView, branch: Seq<char>, cseq: u32)
    ensures
        ({
            let base = in_dialog(MethodView::Notify, d, local, branch, cseq);
            let m = notify_request(d, local, branch, cseq);
            &&& m is Request
            &&& m->Request_0.method is Notify
            &&& m->Request_0.uri == base.uri
            &&& m.body() == Some("SIP/2.0 200 OK"@)
            &&& m.headers() == (base.headers + seq![
                (NameView::Event, "refer"@),
                (NameView::SubscriptionState, "terminated;reason=noresource"@),
                (NameView::ContentType, "message/sipfrag"@),
            ]).push((NameView::ContentLength, dec(encode_utf8("SIP/2.0 200 OK"@).len())))
        }),
{
    let base = in_dialog(MethodView::Notify, d, local, branch, cseq);
    let extra = seq![
        (NameView::Event, "refer"@),
        (NameView::SubscriptionState, "terminated;reason=noresource"@),
        (NameView::ContentType, "message/sipfrag"@),
    ];
    lemma_extended(base, extra, Some("SIP/2.0 200 OK"@));
    let draft = base.with(extra[0].0, extra[0].1).with(extra[1].0, extra[1].1).with(
        extra[2].0,
        extra[2].1,
    );
    assert(draft.headers =~= base.headers + extra);
}

/// A call is asked for by its address, from the user at the host, with the phone's
/// contact and session description; no tag is known of the other end yet.
pub proof fn law_invite(
    uri: Seq<char>,
    user: Seq<char>,
    host: Seq<char>,
    tag: Seq<char>,
    call_id: Seq<char>,
    local: EndpointView,
    branch: Seq<char>,
    sdp: Seq<char>,
)
    ensures
        ({
            let m = invite_request(uri, user, host, tag, call_id, local, branch, sdp);
            &&& m is Request
            &&& m->Request_0.method is Invite
            &&& m->Request_0.uri == uri
            &&& m.body() == Some(sdp)
            &&& m.headers() == seq![
                (
                    NameView::Via,
                    "SIP/2.0/UDP "@ + local.text() + ";branch="@ + branch + ";rport"@,
                ),
                (NameView::MaxForwards, "70"@),
                (
                    NameView::From,
                    "<"@ + ("sip:"@ + user + "@"@ + host) + ">"@ + ";tag="@ + tag,
                ),
                (NameView::To, "<"@ + uri + ">"@),
                (NameView::CallId, call_id),
                (NameView::CSeq, "1 INVITE"@),
                (NameView::Contact, "<"@ + ("sip:"@ + user + "@"@ + local.text()) + ">"@),
                (NameView::ContentType, "application/sdp"@),
                (NameView::UserAgent, "siphone/0.1.0"@),
                (NameView::ContentLength, dec(encode_utf8(sdp).len())),
            ]
        }),
{
    let fields = seq![
        (NameView::Via, "SIP/2.0/UDP "@ + local.text() + ";branch="@ + branch + ";rport"@),
        (NameView::MaxForwards, "70"@),
        (NameView::From, "<"@ + ("sip:"@ + user + "@"@ + host) + ">"@ + ";tag="@ + tag),
        (NameView::To, "<"@ + uri + ">"@),
        (NameView::CallId, call_id),
        (NameView::CSeq, "1 INVITE"@),
        (NameView::Contact, "<"@ + ("sip:"@ + user + "@"@ + local.text()) + ">"@),
        (NameView::ContentType, "application/sdp"@),
        (NameView::UserAgent, "siphone/0.1.0"@),
    ];
    let base = bare(MethodView::Invite, uri);
    lemma_extended(base, fields, Some(sdp));
    let draft = base.with(fields[0].0, fields[0].1).with(fields[1].0, fields[1].1).with(
        fields[2].0,
        fields[2].1,
    ).with(fields[3].0, fields[3].1).with(fields[4].0, fields[4].1).with(
        fields[5].0,
        fields[5].1,
    ).with(fields[6].0, fields[6].1).with(fields[7].0, fields[7].1).with(
        fields[8].0,
        fields[8].1,
    );
    assert(draft.headers =~= base.headers + fields);
    let m = invite_request(uri, user, host, tag, call_id, local, branch, sdp);
    assert(m.headers() =~= fields.push((NameView::ContentLength, dec(encode_utf8(sdp).len()))));
}

/// A registration is asked of the server for the user's own address, for an hour; the
/// answer to a challenge comes behind the other fields, in the field it is for.
pub proof fn law_register(
    a: RegistrationView,
    tag: Seq<char>,
    local: EndpointView,
    branch: Seq<char>,
    cseq: u32,
    field: NameView,
    answer: Seq<char>,
)
    requires
        field is Authorization || field is ProxyAuthorization,
    ensures
        ({
            let plain = register_request(a, tag, local, branch, cseq, None);
            let answered = register_request(a, tag, local, branch, cseq, Some((field, answer)));
            let own = "sip:"@ + a.user + "@"@ + a.server;
            let fields = seq![
                (
                    NameView::Via,
                    "SIP/2.0/UDP "@ + local.text() + ";branch="@ + branch + ";rport"@,
                ),
                (NameView::MaxForwards, "70"@),
                (NameView::From, "<"@ + own + ">"@ + ";tag="@ + tag),
                (NameView::To, "<"@ + own + ">"@),
                (NameView::CallId, a.call_id),
                (NameView::CSeq, dec(cseq as nat) + " "@ + "REGISTER"@),
                (NameView::Contact, "<"@ + ("sip:"@ + a.user + "@"@ + local.text()) + ">"@),
                (NameView::Expires, "3600"@),
                (NameView::UserAgent, "siphone/0.1.0"@),
            ];
            &&& plain is Request && answered is Request
            &&& plain->Request_0.method is Register && answered->Request_0.method is Register
            &&& plain->Request_0.uri == a.server_uri && answered->Request_0.uri == a.server_uri
            &&& plain.body() is None && answered.body() is None
            &&& plain.headers() == fields.push((NameView::ContentLength, dec(0)))
            &&& answered.headers() == fields.push((field, answer)).push(
                (NameView::ContentLength, dec(0)),
            )
        }),
{
    let own = "sip:"@ + a.user + "@"@ + a.server;
    let fields = seq![
        (NameView::Via, "SIP/2.0/UDP "@ + local.text() + ";branch="@ + branch + ";rport"@),
        (NameView::MaxForwards, "70"@),
        (NameView::From, "<"@ + own + ">"@ + ";tag="@ + tag),
        (NameView::To, "<"@ + own + ">"@),
        (NameView::CallId, a.call_id),
        (NameView::CSeq, dec(cseq as nat) + " "@ + "REGISTER"@),
        (NameView::Contact, "<"@ + ("sip:"@ + a.user + "@"@ + local.text()) + ">"@),
        (NameView::Expires, "3600"@),
        (NameView::UserAgent, "siphone/0.1.0"@),
    ];
    let more = fields.push((field, answer));
    let base = bare(MethodView::Register, a.server_uri);
    lemma_extended(base, fields, None);
    lemma_extended(base, more, None);
    let draft = register_draft(a, tag, local, branch, cseq);
    assert(draft.headers =~= base.headers + fields);
    assert(draft.with(field, answer).headers =~= base.headers + more);
    assert(base.headers + fields =~= fields);
    assert(base.headers + more =~= more);
}

// ---------------------------------------------------------------------------
// Responses
// ---------------------------------------------------------------------------

/// Every response bears its code and the name of it, and is told from others by what
/// it takes over of the request: the way back, both ends, the call and the number.
pub proof fn law_plain_reply(req: RequestView, status: u16)
    ensures
        ({
            let m = plain_reply(req, status);
            &&& m is Response
            &&& m->Response_0.status == status
            &&& m->Response_0.reason == reason_of(status)
            &&& m.body() is None
            &&& lookup(m.headers(), NameView::ContentLength) == Some(dec(0))
            &&& lookup(m.headers(), NameView::Via) == lookup(req.headers, NameView::Via)
            &&& lookup(m.headers(), NameView::From) == lookup(req.headers, NameView::From)
            &&& lookup(m.headers(), NameView::To) == lookup(req.headers, NameView::To)
            &&& lookup(m.headers(), NameView::CallId) == lookup(req.headers, NameView::CallId)
            &&& lookup(m.headers(), NameView::CSeq) == lookup(req.headers, NameView::CSeq)
        }),
{
    let draft = reply_draft(req, status);
    law_reply_fields(req.headers);
    lemma_reply_built(draft);
}

/// What was among the fields of a response stays there when it is built.
proof fn lemma_reply_built(draft: ResponseDraft)
    ensures
        ({
            let m = built_response(draft);
            let n = match draft.body {
                Some(b) => encode_utf8(b).len(),
                None => 0,
            };
            &&& m is Response
            &&& m->Response_0.status == draft.status
            &&& m->Response_0.reason == reason_of(draft.status)
            &&& m.body() == draft.body
            &&& lookup(m.headers(), NameView::ContentLength) == Some(dec(n))
            &&& forall|k: NameView|
                !(k is ContentLength) ==> #[trigger] lookup(m.headers(), k) == lookup(
                    draft.headers,
                    k,
                )
        }),
{
    let none = RequestDraft {
        method: MethodView::Ack,
        uri: seq![],
        headers: seq![],
        body: None,
    };
    law_body_length(none, draft);
    let m = built_response(draft);
    assert forall|k: NameView| !(k is ContentLength) implies #[trigger] lookup(m.headers(), k)
        == lookup(draft.headers, k) by {
        law_set_get_other(
            draft.headers,
            NameView::ContentLength,
            content_length(draft.body),
            k,
        );
    }
}

/// A field that is set in a response is found there, and the others as before.
proof fn lemma_reply_with(draft: ResponseDraft, name: NameView, value: Seq<char>)
    ensures
        ({
            let d = draft.with(name, value);
            &&& d.status == draft.status
            &&& d.body == draft.body
            &&& lookup(d.headers, name) == Some(value)
            &&& forall|k: NameView|
                k != name ==> #[trigger] lookup(d.headers, k) == lookup(draft.headers, k)
        }),
{
    law_set_get(draft.headers, name, value);
    let d = draft.with(name, value);
    assert forall|k: NameView| k != name implies #[trigger] lookup(d.headers, k) == lookup(
        draft.headers,
        k,
    ) by {
        law_set_get_other(draft.headers, name, value, k);
    }
}

/// A new offer is answered with the phone's own description and contact; the ends
/// stay those of the request.
pub proof fn law_offer_answered(req: RequestView, local: EndpointView, sdp: Seq<char>)
    ensures
        ({
            let m = reinvite_reply(req, local, sdp);
            &&& m is Response
            &&& m->Response_0.status == 200
            &&& m->Response_0.reason == "OK"@
            &&& m.body() == Some(sdp)
            &&& lookup(m.headers(), NameView::ContentLength) == Some(dec(encode_utf8(sdp).len()))
            &&& lookup(m.headers(), NameView::ContentType) == Some("application/sdp"@)
            &&& lookup(m.headers(), NameView::Contact) == Some(
                "<"@ + ("sip:"@ + "siphone"@ + "@"@ + local.text()) + ">"@,
            )
            &&& lookup(m.headers(), NameView::Via) == lookup(req.headers, NameView::Via)
            &&& lookup(m.headers(), NameView::From) == lookup(req.headers, NameView::From)
            &&& lookup(m.headers(), NameView::To) == lookup(req.headers, NameView::To)
            &&& lookup(m.headers(), NameView::CallId) == lookup(req.headers, NameView::CallId)
            &&& lookup(m.headers(), NameView::CSeq) == lookup(req.headers, NameView::CSeq)
        }),
{
    let contact = "<"@ + ("sip:"@ + "siphone"@ + "@"@ + local.text()) + ">"@;
    let d0 = reply_draft(req, 200);
    let d1 = d0.with(NameView::Contact, contact);
    let d2 = d1.with(NameView::ContentType, "application/sdp"@);
    law_reply_fields(req.headers);
    lemma_reply_with(d0, NameView::Contact, contact);
    lemma_reply_with(d1, NameView::ContentType, "application/sdp"@);
    lemma_reply_built(d2.holding(sdp));
}

/// The end that is called puts its own tag into what it says of itself, while it
/// rings and when it answers; the answer carries its session description.
pub proof fn law_called_end(
    req: RequestView,
    d: DialogView,
    local: EndpointView,
    sdp: Seq<char>,
)
    ensures
        ({
            let m = ringing_reply(req, d, local);
            &&& m is Response
            &&& m->Response_0.status == 180
            &&& m->Response_0.reason == "Ringing"@
            &&& m.body() is None
            &&& lookup(m.headers(), NameView::To) == Some(
                "<"@ + d.local_uri + ">"@ + ";tag="@ + d.local_tag,
            )
            &&& lookup(m.headers(), NameView::Contact) == Some(
                "<"@ + ("sip:"@ + "siphone"@ + "@"@ + local.text()) + ">"@,
            )
            &&& lookup(m.headers(), NameView::Via) == lookup(req.headers, NameView::Via)
            &&& lookup(m.headers(), NameView::From) == lookup(req.headers, NameView::From)
            &&& lookup(m.headers(), NameView::CallId) == lookup(req.headers, NameView::CallId)
            &&& lookup(m.headers(), NameView::CSeq) == lookup(req.headers, NameView::CSeq)
        }),
        ({
            let m = answer_reply(req, d, local, sdp);
            &&& m is Response
            &&& m->Response_0.status == 200
            &&& m->Response_0.reason == "OK"@
            &&& m.body() == Some(sdp)
            &&& lookup(m.headers(), NameView::ContentLength) == Some(dec(encode_utf8(sdp).len()))
            &&& lookup(m.headers(), NameView::ContentType) == Some("application/sdp"@)
            &&& lookup(m.headers(), NameView::UserAgent) == Some("siphone/0.1.0"@)
            &&& lookup(m.headers(), NameView::To) == Some(
                "<"@ + d.local_uri + ">"@ + ";tag="@ + d.local_tag,
            )
            &&& lookup(m.headers(), NameView::Contact) == Some(
                "<"@ + ("sip:"@ + "siphone"@ + "@"@ + local.text()) + ">"@,
            )
            &&& lookup(m.headers(), NameView::Via) == lookup(req.headers, NameView::Via)
            &&& lookup(m.headers(), NameView::From) == lookup(req.headers, NameView::From)
            &&& lookup(m.headers(), NameView::CallId) == lookup(req.headers, NameView::CallId)
            &&& lookup(m.headers(), NameView::CSeq) == lookup(req.headers, NameView::CSeq)
        }),
{
    let contact = "<"@ + ("sip:"@ + "siphone"@ + "@"@ + local.text()) + ">"@;
    let to = "<"@ + d.local_uri + ">"@ + ";tag="@ + d.local_tag;
    law_reply_fields(req.headers);
    let r0 = reply_draft(req, 180);
    let r1 = r0.with(NameView::Contact, contact);
    let r2 = r1.with(NameView::To, to);
    lemma_reply_with(r0, NameView::Contact, contact);
    lemma_reply_with(r1, NameView::To, to);
    lemma_reply_built(r2);
    let a0 = reply_draft(req, 200);
    let a1 = a0.with(NameView::Contact, contact);
    let a2 = a1.with(NameView::To, to);
    let a3 = a2.with(NameView::ContentType, "application/sdp"@);
    let a4 = a3.with(NameView::UserAgent, "siphone/0.1.0"@);
    lemma_reply_with(a0, NameView::Contact, contact);
    lemma_reply_with(a1, NameView::To, to);
    lemma_reply_with(a2, NameView::ContentType, "application/sdp"@);
    lemma_reply_with(a3, NameView::UserAgent, "siphone/0.1.0"@);
    lemma_reply_built(a4.holding(sdp));
}

// ---------------------------------------------------------------------------
// Registration
// ---------------------------------------------------------------------------

/// A registration that is challenged is asked for again, with the answer to the
/// challenge in the field that the kind of challenge calls for; any success ends it,
/// and anything else is a failure with the code and its name.
pub proof fn law_registration(
    p: PhoneView,
    a: RegistrationView,
    res: ResponseView,
    branch: Seq<char>,
    cnonce: Seq<char>,
)
    requires
        p.credentials is Some,
    ensures
        ({
            let r = register_outcome(p, a, MessageView::Response(res), branch, cnonce);
            let www = lookup(res.headers, NameView::WwwAuthenticate);
            let proxy = lookup(res.headers, NameView::ProxyAuthenticate);
            let (user, password) = p.credentials->0;
            let text = |c: ChallengeFields|
                answer_text(answer(c, user, password, "REGISTER"@, a.server_uri, cnonce));
            let unread = RegisterView::Failed(
                PhoneErrorView::CallFailed("Auth challenge parse failed"@),
            );
            &&& 200 <= res.status <= 299 ==> r == RegisterView::Registered
            &&& res.status == 401 && www is Some && challenge_of(www->0) is Some ==> r
                == RegisterView::Retry(
                register_request(
                    a,
                    p.tag,
                    p.local,
                    branch,
                    2,
                    Some((NameView::Authorization, text(challenge_of(www->0)->0))),
                ),
            )
            &&& res.status == 407 && proxy is Some && challenge_of(proxy->0) is Some ==> r
                == RegisterView::Retry(
                register_request(
                    a,
                    p.tag,
                    p.local,
                    branch,
                    2,
                    Some((NameView::ProxyAuthorization, text(challenge_of(proxy->0)->0))),
                ),
            )
            &&& res.status == 401 && (www is None || challenge_of(www->0) is None) ==> r == unread
            &&& res.status == 407 && (proxy is None || challenge_of(proxy->0) is None) ==> r
                == unread
            &&& !(200 <= res.status <= 299) && res.status != 401 && res.status != 407 ==> r
                == RegisterView::Failed(
                PhoneErrorView::CallFailed(
                    "Registration failed: "@ + (dec(res.status as nat) + " "@ + reason_of(
                        res.status,
                    )),
                ),
            )
        }),
        ({
            let r = final_register_outcome(MessageView::Response(res));
            &&& 200 <= res.status <= 299 ==> r == RegisterView::Registered
            &&& !(200 <= res.status <= 299) ==> r == RegisterView::Failed(
                PhoneErrorView::CallFailed(
                    "Registration failed: "@ + (dec(res.status as nat) + " "@ + reason_of(
                        res.status,
                    )),
                ),
            )
        }),
{
}

/// The caller is the user that was given, else the one that the address names, else
/// the one that logs in, else the phone itself.
pub proof fn law_caller(user: Seq<char>, target: Seq<char>, login: Option<Seq<char>>)
    ensures
        caller(Some(user), target, login) == user,
        user_of(target) is Some ==> caller(None, target, login) == user_of(target)->0,
        user_of(target) is None && login is Some ==> caller(None, target, login) == login->0,
        user_of(target) is None && login is None ==> caller(None, target, login) == "siphone"@,
{
}

/// The errors as the user reads them.
pub proof fn law_error_texts(s: Seq<char>)
    ensures
        PhoneErrorView::Transport(s).message() == "transport error: "@ + s,
        PhoneErrorView::Rtp(s).message() == "RTP error: "@ + s,
        PhoneErrorView::NoDialog.message() == "no active dialog"@,
        PhoneErrorView::CallFailed(s).message() == "call failed: "@ + s,
{
}

// ---------------------------------------------------------------------------
// Keys
// ---------------------------------------------------------------------------

/// The sixteen keys are the digits, star, hash and the letters from A to D, in upper
/// or lower case.
pub proof fn law_keys(c: char)
    ensures
        is_key(c) <==> '0' <= c <= '9' || c == '*' || c == '#' || 'A' <= c <= 'D' || 'a' <= c
            <= 'd',
{
}

/// Each key that is typed waits, in upper case and in its order; blanks are passed
/// over, and what is no key is refused.
pub proof fn law_keys_typed(s: Seq<char>, c: char, method: DtmfMethod)
    ensures
        waiting_keys(Seq::empty(), method).len() == 0,
        refused_keys(Seq::empty()).len() == 0,
        '0' <= c <= '9' || c == '*' || c == '#' || 'A' <= c <= 'D' ==> waiting_keys(
            s.push(c),
            method,
        ) == waiting_keys(s, method).push(WaitingKey { digit: c, method }),
        'a' <= c <= 'd' ==> waiting_keys(s.push(c), method) == waiting_keys(s, method).push(
            WaitingKey { digit: (c as u32 - 32) as char, method },
        ),
        is_key(c) ==> refused_keys(s.push(c)) == refused_keys(s),
        c == ' ' || c == '\t' ==> waiting_keys(s.push(c), method) == waiting_keys(s, method)
            && refused_keys(s.push(c)) == refused_keys(s),
        '!' <= c <= '~' && !is_key(c) ==> waiting_keys(s.push(c), method) == waiting_keys(
            s,
            method,
        ) && refused_keys(s.push(c)) == refused_keys(s).push(c),
{
    assert(s.push(c).drop_last() =~= s);
}

/// A key in a message is the first character of its signal, in upper case; its
/// duration is the number there, and 160 where none is there. Names are read in any
/// case.
pub proof fn law_info_lines(f: InfoRead, name: Seq<char>, c: char, n: Seq<char>)
    requires
        !name.contains('='),
        name.len() > 0,
        '!' <= name[0] <= '~',
        '!' <= name.last() <= '~',
        '!' <= c <= '~',
        n.len() > 0,
        '!' <= n[0] <= '~',
        '!' <= n.last() <= '~',
    ensures
        ascii_lowered(name) == "signal"@ && is_key(c) ==> read_info_line(
            f,
            name + seq!['='] + seq![c],
        ) == Some(InfoRead { signal: Some(ascii_upper(c)), ..f }),
        ascii_lowered(name) == "signal"@ && !is_key(c) ==> read_info_line(
            f,
            name + seq!['='] + seq![c],
        ) == Some(f),
        ascii_lowered(name) == "duration"@ ==> read_info_line(f, name + seq!['='] + n) == Some(
            InfoRead { duration: uint_of(n, 0xffff), ..f },
        ),
        ascii_lowered(name) != "signal"@ && ascii_lowered(name) != "duration"@ ==> read_info_line(
            f,
            name + seq!['='] + n,
        ) == Some(f),
        read_info_line(f, name) == Some(f),
{
    let l1 = name + seq!['='] + seq![c];
    let l2 = name + seq!['='] + n;
    assert(l1[0] == name[0] && l2[0] == name[0]);
    assert(l1.last() == c && l2.last() == n.last());
    lemma_trimmed_id(l1);
    lemma_trimmed_id(l2);
    lemma_trimmed_id(name);
    lemma_trimmed_id(seq![c]);
    lemma_trimmed_id(n);
    law_separated(name, '=', seq![c], 2);
    law_separated(name, '=', n, 2);
    reveal_strlit("signal");
    reveal_strlit("duration");
    assert("signal"@.len() == 6 && "duration"@.len() == 8);
}

/// A body is read line by line; it is a key where a signal was read.
pub proof fn law_info_body(body: Seq<char>, ls: Seq<Seq<char>>, l: Seq<char>)
    ensures
        read_info_lines(ls) is Some ==> read_info_lines(ls.push(l)) == read_info_line(
            read_info_lines(ls)->0,
            l,
        ),
        read_info_lines(Seq::empty()) == Some(InfoRead { signal: None, duration: None }),
        info_key(None) is None,
        read_info_lines(lines(body)) matches Some(f) ==> {
            &&& f.signal is None ==> info_key(Some(body)) is None
            &&& f.signal is Some && f.duration is Some ==> info_key(Some(body)) == Some(
                (f.signal->0, f.duration->0),
            )
            &&& f.signal is Some && f.duration is None ==> info_key(Some(body)) == Some(
                (f.signal->0, 160nat),
            )
        },
{
    assert(ls.push(l).drop_last() =~= ls);
}

} // verus!
