//! What a call of each operation of the protocol gives, whoever makes it: in each law
//! the calls that it speaks of stand among its conditions.
use super::auth::{compute_digest_with, Credentials, DigestChallenge, DigestResponse};
use super::dialog::{DialogState, DialogView, SipDialog};
use super::header::{lookup, param_of, uri_of, HeaderName, NameView};
use super::laws::{law_plain_answer, law_quality_answered};
use super::md5::md5_text;
use super::message::{
    RequestBuilder, ResponseBuilder, ResponseDraft, SipMessage, SipRequest, StatusCode,
};
use super::message_laws::{
    law_body_length, law_client_steps, law_intervals, law_reply_fields, law_response_learnt,
    law_server_steps,
};
use super::transaction::{SipTransaction, TransactionAction, TransactionKind, TransactionState};
use crate::number::dec;
use vstd::prelude::*;
use vstd::utf8::encode_utf8;

verus! {

// ---------------------------------------------------------------------------
// Digest authentication
// ---------------------------------------------------------------------------

/// The answer to a challenge, wherever `auth` stands in what the challenge offers: it
/// is of that quality, with the first nonce count and the client's nonce, and its
/// response is the digest of the user's secret, the nonce, both of these and the
/// request.
pub proof fn law_challenge_met(
    challenge: &DigestChallenge,
    creds: &Credentials,
    method: &str,
    uri: &str,
    cnonce: &str,
    r: DigestResponse,
    i: int,
)
    requires
        call_ensures(compute_digest_with, (challenge, creds, method, uri, cnonce), r),
        challenge@.realm is Some,
        challenge@.nonce is Some,
        challenge@.qop is Some,
        0 <= i,
        i + 4 <= challenge@.qop->0.len(),
        challenge@.qop->0.subrange(i, i + 4) == "auth"@,
    ensures
        ({
            let h1 = md5_text(
                creds.username@ + ":"@ + challenge@.realm->0 + ":"@ + creds.password@,
            );
            let h2 = md5_text(method@ + ":"@ + uri@);
            &&& r@.qop == Some("auth"@)
            &&& r@.nc == Some("00000001"@)
            &&& r@.cnonce == Some(cnonce@)
            &&& r@.response == md5_text(
                h1 + ":"@ + challenge@.nonce->0 + ":00000001:"@ + cnonce@ + ":auth:"@ + h2,
            )
            &&& r@.username == creds.username@
            &&& Some(r@.realm) == challenge@.realm
            &&& Some(r@.nonce) == challenge@.nonce
            &&& r@.uri == uri@
            &&& r@.opaque == challenge@.opaque
            &&& r@.algorithm == challenge@.algorithm
        }),
{
    law_quality_answered(
        challenge@,
        creds.username@,
        creds.password@,
        method@,
        uri@,
        cnonce@,
        i,
    );
}

/// The answer to a challenge that offers no such quality names none, and its response
/// is the digest of the user's secret, the nonce and the request alone.
pub proof fn law_plain_challenge_met(
    challenge: &DigestChallenge,
    creds: &Credentials,
    method: &str,
    uri: &str,
    cnonce: &str,
    r: DigestResponse,
)
    requires
        call_ensures(compute_digest_with, (challenge, creds, method, uri, cnonce), r),
        challenge@.realm is Some,
        challenge@.nonce is Some,
        challenge@.qop matches Some(q) ==> forall|i: int|
            0 <= i <= q.len() - 4 ==> #[trigger] q.subrange(i, i + 4) != "auth"@,
    ensures
        ({
            let h1 = md5_text(
                creds.username@ + ":"@ + challenge@.realm->0 + ":"@ + creds.password@,
            );
            let h2 = md5_text(method@ + ":"@ + uri@);
            &&& r@.qop is None && r@.nc is None && r@.cnonce is None
            &&& r@.response == md5_text(h1 + ":"@ + challenge@.nonce->0 + ":"@ + h2)
        }),
{
    law_plain_answer(challenge@, creds.username@, creds.password@, method@, uri@, cnonce@);
}

// ---------------------------------------------------------------------------
// Dialogs
// ---------------------------------------------------------------------------

/// The two ends of a call begin their dialogs at number one and early: the caller
/// without the tag of the other end, the called end with it.
pub proof fn law_dialogs_begin(
    call_id: String,
    local_tag: String,
    remote_tag: String,
    local_uri: String,
    remote_uri: String,
    out: SipDialog,
    inc: SipDialog,
)
    requires
        call_ensures(SipDialog::new_uac, (call_id, local_tag, local_uri, remote_uri), out),
        call_ensures(
            SipDialog::new_uas,
            (call_id, local_tag, remote_tag, local_uri, remote_uri),
            inc,
        ),
    ensures
        out@.call_id == call_id@ && inc@.call_id == call_id@,
        out@.local_tag == local_tag@ && inc@.local_tag == local_tag@,
        out@.remote_tag is None && inc@.remote_tag == Some(remote_tag@),
        out@.local_uri == local_uri@ && inc@.local_uri == local_uri@,
        out@.remote_uri == remote_uri@ && inc@.remote_uri == remote_uri@,
        out@.remote_target is None && inc@.remote_target is None,
        out@.local_cseq == 1 && inc@.local_cseq == 1,
        out@.state == DialogState::Early && inc@.state == DialogState::Early,
{
}

/// Requests of a dialog are numbered one after the other, and nothing else changes.
pub proof fn law_numbers_follow(d: &mut SipDialog, n: u32)
    requires
        old(d)@.local_cseq < u32::MAX,
        call_ensures(SipDialog::next_cseq, (d,), n),
    ensures
        n == old(d)@.local_cseq + 1,
        final(d)@ == (DialogView { local_cseq: n, ..old(d)@ }),
{
}

/// A response of the call is taken in, with the other end's tag and contact and with
/// what its code says of the call; a response of another call is not.
pub proof fn law_response_taken(d: &mut SipDialog, msg: &SipMessage, r: bool)
    requires
        call_ensures(SipDialog::process_response, (d, msg), r),
        msg@ is Response,
    ensures
        ({
            let res = msg@->Response_0;
            let to = lookup(res.headers, NameView::To);
            let contact = lookup(res.headers, NameView::Contact);
            let ours = lookup(res.headers, NameView::CallId) == Some(old(d)@.call_id);
            &&& r <==> ours
            &&& !ours ==> final(d)@ == old(d)@
            &&& ours && to is Some && param_of(to->0, "tag="@) is Some ==> final(d)@.remote_tag
                == param_of(to->0, "tag="@)
            &&& ours && contact is Some ==> final(d)@.remote_target == uri_of(contact->0)
            &&& ours && 200 <= res.status < 300 ==> final(d)@.state == DialogState::Confirmed
            &&& ours && 300 <= res.status < 700 ==> final(d)@.state == DialogState::Terminated
            &&& final(d)@.call_id == old(d)@.call_id && final(d)@.local_tag == old(d)@.local_tag
            &&& final(d)@.local_cseq == old(d)@.local_cseq
        }),
{
    let res = msg@->Response_0;
    if lookup(res.headers, NameView::CallId) == Some(old(d)@.call_id) {
        law_response_learnt(old(d)@, res);
    }
}

/// A hangup of the call ends the dialog; one of another call does not touch it.
pub proof fn law_bye_taken(d: &mut SipDialog, msg: &SipMessage, r: bool)
    requires
        call_ensures(SipDialog::process_bye, (d, msg), r),
    ensures
        r <==> msg@ is Request && msg@->Request_0.method is Bye && lookup(
            msg@.headers(),
            NameView::CallId,
        ) == Some(old(d)@.call_id),
        r ==> final(d)@ == (DialogView { state: DialogState::Terminated, ..old(d)@ }),
        !r ==> final(d)@ == old(d)@,
{
}

// ---------------------------------------------------------------------------
// Messages
// ---------------------------------------------------------------------------

/// The codes fall into classes of a hundred each.
pub proof fn law_code_classes(
    code: &StatusCode,
    provisional: bool,
    success: bool,
    redirect: bool,
    error: bool,
)
    requires
        call_ensures(StatusCode::is_provisional, (code,), provisional),
        call_ensures(StatusCode::is_success, (code,), success),
        call_ensures(StatusCode::is_redirect, (code,), redirect),
        call_ensures(StatusCode::is_error, (code,), error),
    ensures
        provisional <==> code.0 / 100 == 1,
        success <==> code.0 / 100 == 2,
        redirect <==> code.0 / 100 == 3,
        error <==> code.0 / 100 >= 4,
{
}

/// A request is built with the fields in the order in which they were given, and says
/// how many bytes its body has.
pub proof fn law_request_built(
    b: RequestBuilder,
    name: HeaderName,
    value: &str,
    c: RequestBuilder,
    m: SipMessage,
)
    requires
        call_ensures(RequestBuilder::header, (b, name, value), c),
        call_ensures(RequestBuilder::build, (c,), m),
    ensures
        c@.headers == b@.headers.push((name@, value@)),
        c@.method == b@.method && c@.uri == b@.uri && c@.body == b@.body,
        m@ is Request,
        m@->Request_0.method == b@.method,
        m@->Request_0.uri == b@.uri,
        m@->Request_0.version == "SIP/2.0"@,
        m@.body() == b@.body,
        lookup(m@.headers(), NameView::ContentLength) == Some(
            dec(
                match b@.body {
                    Some(t) => encode_utf8(t).len(),
                    None => 0,
                },
            ),
        ),
{
    let none = ResponseDraft { status: 0, headers: seq![], body: None };
    law_body_length(c@, none);
}

/// A response to a request takes over what tells it from others.
pub proof fn law_reply_to(req: &SipRequest, status: StatusCode, b: ResponseBuilder)
    requires
        call_ensures(ResponseBuilder::from_request, (req, status), b),
    ensures
        b@.status == status.0,
        b@.body is None,
        lookup(b@.headers, NameView::Via) == lookup(req@.headers, NameView::Via),
        lookup(b@.headers, NameView::From) == lookup(req@.headers, NameView::From),
        lookup(b@.headers, NameView::To) == lookup(req@.headers, NameView::To),
        lookup(b@.headers, NameView::CallId) == lookup(req@.headers, NameView::CallId),
        lookup(b@.headers, NameView::CSeq) == lookup(req@.headers, NameView::CSeq),
{
    law_reply_fields(req@.headers);
}

// ---------------------------------------------------------------------------
// Transactions
// ---------------------------------------------------------------------------

/// A client's transaction of an invitation: a success ends it and is passed on, any
/// other final response is acknowledged, and a report keeps it open.
pub proof fn law_invitation_answered(
    t: &mut SipTransaction,
    msg: &SipMessage,
    does: TransactionAction,
)
    requires
        call_ensures(SipTransaction::process_response, (t, msg), does),
        msg@ is Response,
        old(t)@.kind == TransactionKind::ClientInvite,
        old(t)@.state == TransactionState::Trying || old(t)@.state
            == TransactionState::Proceeding,
    ensures
        ({
            let code = msg@->Response_0.status;
            &&& 100 <= code < 200 ==> final(t)@.state == TransactionState::Proceeding && does
                == TransactionAction::PassToTU
            &&& 200 <= code < 300 ==> final(t)@.state == TransactionState::Terminated && does
                == TransactionAction::PassToTU
            &&& code >= 300 ==> final(t)@.state == TransactionState::Completed && does
                == TransactionAction::SendAck
        }),
        final(t)@.id == old(t)@.id && final(t)@.branch == old(t)@.branch,
        final(t)@.retransmit_count == old(t)@.retransmit_count,
{
    law_client_steps(old(t)@.state, msg@->Response_0.status);
}

/// What a server sends is kept, to be sent again, and settles its state.
pub proof fn law_response_kept(t: &mut SipTransaction, msg: &SipMessage, does: TransactionAction)
    requires
        call_ensures(SipTransaction::send_response, (t, msg), does),
        msg@ is Response,
        old(t)@.kind == TransactionKind::ServerInvite,
    ensures
        does == TransactionAction::SendResponse,
        final(t)@.last_response == Some(msg@),
        100 <= msg@->Response_0.status < 200 ==> final(t)@.state == TransactionState::Proceeding,
        200 <= msg@->Response_0.status < 300 ==> final(t)@.state == TransactionState::Terminated,
        msg@->Response_0.status >= 300 ==> final(t)@.state == TransactionState::Completed,
{
    law_server_steps(old(t)@.state, msg@->Response_0.status);
}

/// A client sends again after half a second, one, two and four seconds, and then
/// every four.
pub proof fn law_waits(t: &SipTransaction, ms: u64)
    requires
        call_ensures(SipTransaction::retransmit_interval, (t,), ms),
        t@.kind == TransactionKind::ClientInvite || t@.kind == TransactionKind::ClientNonInvite,
    ensures
        t@.retransmit_count == 0 ==> ms == 500,
        t@.retransmit_count == 1 ==> ms == 1000,
        t@.retransmit_count == 2 ==> ms == 2000,
        t@.retransmit_count >= 3 ==> ms == 4000,
{
    law_intervals(t@.kind, t@.retransmit_count);
}

} // verus!
