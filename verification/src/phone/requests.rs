//! The messages that the phone sends.
use crate::net::{Endpoint, EndpointView};
use crate::number::{dec, hex, push_dec};
use crate::sip::dialog::{DialogView, SipDialog};
use crate::sip::header::{generate_branch, HeaderList, HeaderName, NameView};
use crate::sip::header::with_field;
use crate::sip::message::{
    built_request, built_response, reply_fields, MessageView, MethodView, RequestBuilder,
    RequestDraft, RequestView, ResponseBuilder, ResponseDraft, SipMessage, SipMethod, SipRequest,
    StatusCode,
};
use crate::sip::sdp::{fresh_session, offered_audio, sdp_text, SdpSession, SdpView};
use vstd::prelude::*;

verus! {

// ---------------------------------------------------------------------------
// Values of fields
// ---------------------------------------------------------------------------

/// The value of Via: the address from which the request is sent.
pub open spec fn via_value(local: EndpointView, branch: Seq<char>) -> Seq<char> {
    "SIP/2.0/UDP "@ + local.text() + ";branch="@ + branch + ";rport"@
}

fn via_text(local: &Endpoint, branch: &str) -> (r: String)
    ensures
        r@ == via_value(local@, branch@),
{
    let mut s = "SIP/2.0/UDP ".to_owned();
    s.append(local.to_string().as_str());
    s.append(";branch=");
    s.append(branch);
    s.append(";rport");
    s
}

/// A URI in angle brackets.
pub open spec fn angled(uri: Seq<char>) -> Seq<char> {
    "<"@ + uri + ">"@
}

fn angled_text(uri: &str) -> (r: String)
    ensures
        r@ == angled(uri@),
{
    let mut s = "<".to_owned();
    s.append(uri);
    s.append(">");
    s
}

/// A URI in angle brackets, with the tag of the end that it names.
pub open spec fn tagged(uri: Seq<char>, tag: Seq<char>) -> Seq<char> {
    angled(uri) + ";tag="@ + tag
}

fn tagged_text(uri: &str, tag: &str) -> (r: String)
    ensures
        r@ == tagged(uri@, tag@),
{
    let mut s = angled_text(uri);
    s.append(";tag=");
    s.append(tag);
    s
}

/// The URI of a user at a host.
pub open spec fn sip_address(user: Seq<char>, host: Seq<char>) -> Seq<char> {
    "sip:"@ + user + "@"@ + host
}

pub(crate) fn sip_address_text(user: &str, host: &str) -> (r: String)
    ensures
        r@ == sip_address(user@, host@),
{
    let mut s = "sip:".to_owned();
    s.append(user);
    s.append("@");
    s.append(host);
    s
}

/// The contact of a user at the address of the phone.
pub open spec fn contact_value(user: Seq<char>, local: EndpointView) -> Seq<char> {
    angled(sip_address(user, local.text()))
}

fn contact_text(user: &str, local: &Endpoint) -> (r: String)
    ensures
        r@ == contact_value(user@, local@),
{
    angled_text(sip_address_text(user, local.to_string().as_str()).as_str())
}

/// The value of CSeq.
pub open spec fn cseq_value(cseq: u32, method: MethodView) -> Seq<char> {
    dec(cseq as nat) + " "@ + method.text()
}

fn cseq_text(cseq: u32, method: &SipMethod) -> (r: String)
    ensures
        r@ == cseq_value(cseq, method@),
{
    let mut s = String::new();
    push_dec(&mut s, cseq as u64);
    assert(s@ =~= dec(cseq as nat));
    s.append(" ");
    s.append(method.as_str());
    s
}

/// A random branch parameter.
pub open spec fn is_branch(branch: Seq<char>) -> bool {
    exists|n: u64| branch == "z9hG4bK"@ + #[trigger] hex(n as nat)
}

/// What the phone calls itself.
pub open spec fn agent() -> Seq<char> {
    "siphone/0.1.0"@
}

// ---------------------------------------------------------------------------
// Session descriptions
// ---------------------------------------------------------------------------

/// The description of a session with one audio stream at an address.
pub open spec fn audio_session(ip: Seq<char>, id: u32, port: u16, direction: Seq<char>) -> SdpView {
    let s = fresh_session(ip, id);
    SdpView { media: s.media.push(offered_audio(port, direction)), ..s }
}

/// The text of the description of a session with one audio stream.
pub fn audio_session_text(ip: &str, id: u32, port: u16, direction: &str) -> (r: String)
    ensures
        r@ == sdp_text(audio_session(ip@, id, port, direction@)),
{
    let mut sdp = SdpSession::new_with_id(ip, id);
    let _m = sdp.add_audio_media_directed(port, direction);
    sdp.to_string()
}

// ---------------------------------------------------------------------------
// Requests
// ---------------------------------------------------------------------------

impl RequestDraft {
    /// The draft with one more field.
    pub open spec fn with(self, name: NameView, value: Seq<char>) -> RequestDraft {
        RequestDraft { headers: self.headers.push((name, value)), ..self }
    }

    /// The draft with a body.
    pub open spec fn holding(self, body: Seq<char>) -> RequestDraft {
        RequestDraft { body: Some(body), ..self }
    }
}

/// A request without fields.
pub open spec fn bare(method: MethodView, uri: Seq<char>) -> RequestDraft {
    RequestDraft { method, uri, headers: HeaderList::empty(), body: None }
}

/// Where requests of a dialog are addressed: to the contact of the remote end,
/// or to its URI where no contact is known.
pub open spec fn target(d: DialogView) -> Seq<char> {
    match d.remote_target {
        Some(t) => t,
        None => d.remote_uri,
    }
}

/// The value of To in requests of a dialog.
pub open spec fn to_value(d: DialogView) -> Seq<char> {
    match d.remote_tag {
        Some(t) => tagged(d.remote_uri, t),
        None => angled(d.remote_uri),
    }
}

/// The fields that every request of a dialog begins with.
pub open spec fn in_dialog(
    method: MethodView,
    d: DialogView,
    local: EndpointView,
    branch: Seq<char>,
    cseq: u32,
) -> RequestDraft {
    bare(method, target(d)).with(NameView::Via, via_value(local, branch)).with(
        NameView::MaxForwards,
        "70"@,
    ).with(NameView::From, tagged(d.local_uri, d.local_tag)).with(NameView::To, to_value(d)).with(
        NameView::CallId,
        d.call_id,
    ).with(NameView::CSeq, cseq_value(cseq, method))
}

fn start_in_dialog(
    method: SipMethod,
    dialog: &SipDialog,
    local: &Endpoint,
    branch: &str,
    cseq: u32,
) -> (r: RequestBuilder)
    ensures
        r@ == in_dialog(method@, dialog@, local@, branch@, cseq),
{
    let uri = match &dialog.remote_target {
        Some(t) => t.as_str(),
        None => dialog.remote_uri.as_str(),
    };
    let to = match &dialog.remote_tag {
        Some(t) => tagged_text(dialog.remote_uri.as_str(), t.as_str()),
        None => angled_text(dialog.remote_uri.as_str()),
    };
    let number = cseq_text(cseq, &method);
    RequestBuilder::new(method, uri).header(
        HeaderName::Via,
        via_text(local, branch).as_str(),
    ).header(HeaderName::MaxForwards, "70").header(
        HeaderName::From,
        tagged_text(dialog.local_uri.as_str(), dialog.local_tag.as_str()).as_str(),
    ).header(HeaderName::To, to.as_str()).header(
        HeaderName::CallId,
        dialog.call_id.as_str(),
    ).header(HeaderName::CSeq, number.as_str())
}

/// A request of a dialog with nothing more than the fields that all have.
pub fn build_in_dialog_request_with(
    method: SipMethod,
    dialog: &SipDialog,
    local_addr: &Endpoint,
    cseq: u32,
    branch: &str,
) -> (r: SipMessage)
    ensures
        r@ == built_request(in_dialog(method@, dialog@, local_addr@, branch@, cseq)),
{
    start_in_dialog(method, dialog, local_addr, branch, cseq).build()
}

/// A request of a dialog, with a random branch.
pub fn build_in_dialog_request(
    method: SipMethod,
    dialog: &SipDialog,
    local_addr: &Endpoint,
    cseq: u32,
) -> (r: SipMessage)
    ensures
        exists|branch: Seq<char>| #[trigger]
            is_branch(branch) && r@ == built_request(
                in_dialog(method@, dialog@, local_addr@, branch, cseq),
            ),
{
    let branch = generate_branch();
    assert(is_branch(branch@));
    build_in_dialog_request_with(method, dialog, local_addr, cseq, branch.as_str())
}

/// The acknowledgement of an INVITE that opened a dialog: it bears the
/// number of the INVITE.
pub open spec fn ack_of(d: DialogView, local: EndpointView, branch: Seq<char>) -> MessageView {
    built_request(in_dialog(MethodView::Ack, d, local, branch, 1))
}

pub fn build_ack_with(dialog: &SipDialog, local_addr: &Endpoint, branch: &str) -> (r: SipMessage)
    ensures
        r@ == ack_of(dialog@, local_addr@, branch@),
{
    build_in_dialog_request_with(SipMethod::Ack, dialog, local_addr, 1, branch)
}

/// A request to open a session: who calls whom, at which server, and the
/// description of the session.
pub open spec fn invite_request(
    uri: Seq<char>,
    user: Seq<char>,
    host: Seq<char>,
    tag: Seq<char>,
    call_id: Seq<char>,
    local: EndpointView,
    branch: Seq<char>,
    sdp: Seq<char>,
) -> MessageView {
    built_request(
        bare(MethodView::Invite, uri).with(NameView::Via, via_value(local, branch)).with(
            NameView::MaxForwards,
            "70"@,
        ).with(NameView::From, tagged(sip_address(user, host), tag)).with(
            NameView::To,
            angled(uri),
        ).with(NameView::CallId, call_id).with(NameView::CSeq, "1 INVITE"@).with(
            NameView::Contact,
            contact_value(user, local),
        ).with(NameView::ContentType, "application/sdp"@).with(
            NameView::UserAgent,
            agent(),
        ).holding(sdp),
    )
}

pub fn build_invite(
    uri: &str,
    user: &str,
    host: &str,
    tag: &str,
    call_id: &str,
    local_addr: &Endpoint,
    branch: &str,
    sdp: &str,
) -> (r: SipMessage)
    ensures
        r@ == invite_request(
            uri@,
            user@,
            host@,
            tag@,
            call_id@,
            local_addr@,
            branch@,
            sdp@,
        ),
{
    RequestBuilder::new(SipMethod::Invite, uri).header(
        HeaderName::Via,
        via_text(local_addr, branch).as_str(),
    ).header(HeaderName::MaxForwards, "70").header(
        HeaderName::From,
        tagged_text(sip_address_text(user, host).as_str(), tag).as_str(),
    ).header(HeaderName::To, angled_text(uri).as_str()).header(
        HeaderName::CallId,
        call_id,
    ).header(HeaderName::CSeq, "1 INVITE").header(
        HeaderName::Contact,
        contact_text(user, local_addr).as_str(),
    ).header(HeaderName::ContentType, "application/sdp").header(
        HeaderName::UserAgent,
        "siphone/0.1.0",
    ).body(sdp).build()
}

/// What an attempt to register says, apart from its number, its branch and its
/// credentials.
#[derive(Debug)]
pub struct Registration {
    pub server_uri: String,
    pub user: String,
    pub server: String,
    pub call_id: String,
}

pub struct RegistrationView {
    pub server_uri: Seq<char>,
    pub user: Seq<char>,
    pub server: Seq<char>,
    pub call_id: Seq<char>,
}

impl View for Registration {
    type V = RegistrationView;

    open spec fn view(&self) -> RegistrationView {
        RegistrationView {
            server_uri: self.server_uri@,
            user: self.user@,
            server: self.server@,
            call_id: self.call_id@,
        }
    }
}

/// A request to register a user at a server.
pub open spec fn register_draft(
    a: RegistrationView,
    tag: Seq<char>,
    local: EndpointView,
    branch: Seq<char>,
    cseq: u32,
) -> RequestDraft {
    bare(MethodView::Register, a.server_uri).with(NameView::Via, via_value(local, branch)).with(
        NameView::MaxForwards,
        "70"@,
    ).with(NameView::From, tagged(sip_address(a.user, a.server), tag)).with(
        NameView::To,
        angled(sip_address(a.user, a.server)),
    ).with(NameView::CallId, a.call_id).with(
        NameView::CSeq,
        cseq_value(cseq, MethodView::Register),
    ).with(NameView::Contact, contact_value(a.user, local)).with(
        NameView::Expires,
        "3600"@,
    ).with(NameView::UserAgent, agent())
}

/// A request to register a user at a server, with credentials where there are
/// some.
pub open spec fn register_request(
    a: RegistrationView,
    tag: Seq<char>,
    local: EndpointView,
    branch: Seq<char>,
    cseq: u32,
    auth: Option<(NameView, Seq<char>)>,
) -> MessageView {
    let d = register_draft(a, tag, local, branch, cseq);
    built_request(
        match auth {
            Some((name, value)) => d.with(name, value),
            None => d,
        },
    )
}

pub fn build_register_with(
    a: &Registration,
    tag: &str,
    local_addr: &Endpoint,
    branch: &str,
    cseq: u32,
    auth: Option<(HeaderName, String)>,
) -> (r: SipMessage)
    ensures
        r@ == register_request(
            a@,
            tag@,
            local_addr@,
            branch@,
            cseq,
            match auth {
                Some((name, value)) => Some((name@, value@)),
                None => None,
            },
        ),
{
    let who = sip_address_text(a.user.as_str(), a.server.as_str());
    let b = RequestBuilder::new(SipMethod::Register, a.server_uri.as_str()).header(
        HeaderName::Via,
        via_text(local_addr, branch).as_str(),
    ).header(HeaderName::MaxForwards, "70").header(
        HeaderName::From,
        tagged_text(who.as_str(), tag).as_str(),
    ).header(HeaderName::To, angled_text(who.as_str()).as_str()).header(
        HeaderName::CallId,
        a.call_id.as_str(),
    ).header(HeaderName::CSeq, cseq_text(cseq, &SipMethod::Register).as_str()).header(
        HeaderName::Contact,
        contact_text(a.user.as_str(), local_addr).as_str(),
    ).header(HeaderName::Expires, "3600").header(HeaderName::UserAgent, "siphone/0.1.0");
    match auth {
        Some((name, value)) => b.header(name, value.as_str()).build(),
        None => b.build(),
    }
}

/// A request within a dialog to describe its session anew.
pub open spec fn reinvite_request(
    d: DialogView,
    local: EndpointView,
    branch: Seq<char>,
    cseq: u32,
    sdp: Seq<char>,
) -> MessageView {
    built_request(
        in_dialog(MethodView::Invite, d, local, branch, cseq).with(
            NameView::Contact,
            contact_value("siphone"@, local),
        ).with(NameView::ContentType, "application/sdp"@).with(
            NameView::UserAgent,
            agent(),
        ).holding(sdp),
    )
}

pub fn build_reinvite(
    dialog: &SipDialog,
    local_addr: &Endpoint,
    branch: &str,
    cseq: u32,
    sdp: &str,
) -> (r: SipMessage)
    ensures
        r@ == reinvite_request(dialog@, local_addr@, branch@, cseq, sdp@),
{
    start_in_dialog(SipMethod::Invite, dialog, local_addr, branch, cseq).header(
        HeaderName::Contact,
        contact_text("siphone", local_addr).as_str(),
    ).header(HeaderName::ContentType, "application/sdp").header(
        HeaderName::UserAgent,
        "siphone/0.1.0",
    ).body(sdp).build()
}

/// A request to the remote end to call `refer_to` in place of this end.
pub open spec fn refer_request(
    d: DialogView,
    local: EndpointView,
    branch: Seq<char>,
    cseq: u32,
    refer_to: Seq<char>,
) -> MessageView {
    built_request(
        in_dialog(MethodView::Refer, d, local, branch, cseq).with(
            NameView::Contact,
            contact_value("siphone"@, local),
        ).with(NameView::ReferTo, refer_to).with(
            NameView::ReferredBy,
            angled(d.local_uri),
        ).with(NameView::UserAgent, agent()),
    )
}

pub fn build_refer(
    dialog: &SipDialog,
    local_addr: &Endpoint,
    branch: &str,
    cseq: u32,
    refer_to: &str,
) -> (r: SipMessage)
    ensures
        r@ == refer_request(dialog@, local_addr@, branch@, cseq, refer_to@),
{
    start_in_dialog(SipMethod::Refer, dialog, local_addr, branch, cseq).header(
        HeaderName::Contact,
        contact_text("siphone", local_addr).as_str(),
    ).header(HeaderName::ReferTo, refer_to).header(
        HeaderName::ReferredBy,
        angled_text(dialog.local_uri.as_str()).as_str(),
    ).header(HeaderName::UserAgent, "siphone/0.1.0").build()
}

/// The acknowledgement of a reliable provisional response: the number of the
/// response, and the number and the method of the request that it answers.
pub open spec fn prack_request(
    d: DialogView,
    local: EndpointView,
    branch: Seq<char>,
    cseq: u32,
    rseq: u32,
    of: (u32, Seq<char>),
) -> MessageView {
    built_request(
        in_dialog(MethodView::Prack, d, local, branch, cseq).with(
            NameView::RAck,
            dec(rseq as nat) + " "@ + dec(of.0 as nat) + " "@ + of.1,
        ).with(NameView::UserAgent, agent()),
    )
}

pub fn build_prack(
    dialog: &SipDialog,
    local_addr: &Endpoint,
    branch: &str,
    cseq: u32,
    rseq: u32,
    cseq_num: u32,
    cseq_method: &str,
) -> (r: SipMessage)
    ensures
        r@ == prack_request(
            dialog@,
            local_addr@,
            branch@,
            cseq,
            rseq,
            (cseq_num, cseq_method@),
        ),
{
    let mut rack = String::new();
    push_dec(&mut rack, rseq as u64);
    assert(rack@ =~= dec(rseq as nat));
    rack.append(" ");
    push_dec(&mut rack, cseq_num as u64);
    rack.append(" ");
    rack.append(cseq_method);
    start_in_dialog(SipMethod::Prack, dialog, local_addr, branch, cseq).header(
        HeaderName::RAck,
        rack.as_str(),
    ).header(HeaderName::UserAgent, "siphone/0.1.0").build()
}

/// The body of an INFO request for a key.
pub open spec fn key_body(digit: char) -> Seq<char> {
    "Signal="@.push(digit) + "\r\nDuration=160"@
}

/// A request that tells the remote end of a key.
pub open spec fn info_request(
    d: DialogView,
    local: EndpointView,
    branch: Seq<char>,
    cseq: u32,
    digit: char,
) -> MessageView {
    built_request(
        in_dialog(MethodView::Info, d, local, branch, cseq).with(
            NameView::ContentType,
            "application/dtmf-relay"@,
        ).with(NameView::Other("Info-Package"@), "dtmf"@).with(
            NameView::UserAgent,
            agent(),
        ).holding(key_body(digit)),
    )
}

pub fn build_info(
    dialog: &SipDialog,
    local_addr: &Endpoint,
    branch: &str,
    cseq: u32,
    digit: char,
) -> (r: SipMessage)
    ensures
        r@ == info_request(dialog@, local_addr@, branch@, cseq, digit),
{
    let mut body = "Signal=".to_owned();
    body.push(digit);
    body.append("\r\nDuration=160");
    start_in_dialog(SipMethod::Info, dialog, local_addr, branch, cseq).header(
        HeaderName::ContentType,
        "application/dtmf-relay",
    ).header(HeaderName::Other("Info-Package".to_owned()), "dtmf").header(
        HeaderName::UserAgent,
        "siphone/0.1.0",
    ).body(body.as_str()).build()
}

/// A report that a transfer has been carried out.
pub open spec fn notify_request(
    d: DialogView,
    local: EndpointView,
    branch: Seq<char>,
    cseq: u32,
) -> MessageView {
    built_request(
        in_dialog(MethodView::Notify, d, local, branch, cseq).with(
            NameView::Event,
            "refer"@,
        ).with(NameView::SubscriptionState, "terminated;reason=noresource"@).with(
            NameView::ContentType,
            "message/sipfrag"@,
        ).holding("SIP/2.0 200 OK"@),
    )
}

pub fn build_notify(dialog: &SipDialog, local_addr: &Endpoint, branch: &str, cseq: u32) -> (r:
    SipMessage)
    ensures
        r@ == notify_request(dialog@, local_addr@, branch@, cseq),
{
    start_in_dialog(SipMethod::Notify, dialog, local_addr, branch, cseq).header(
        HeaderName::Event,
        "refer",
    ).header(HeaderName::SubscriptionState, "terminated;reason=noresource").header(
        HeaderName::ContentType,
        "message/sipfrag",
    ).body("SIP/2.0 200 OK").build()
}

// ---------------------------------------------------------------------------
// Responses
// ---------------------------------------------------------------------------

impl ResponseDraft {
    /// The draft with a field, in place of the value that it may have.
    pub open spec fn with(self, name: NameView, value: Seq<char>) -> ResponseDraft {
        ResponseDraft { headers: with_field(self.headers, name, value), ..self }
    }

    /// The draft with a body.
    pub open spec fn holding(self, body: Seq<char>) -> ResponseDraft {
        ResponseDraft { body: Some(body), ..self }
    }
}

/// A response to a request, with the fields that it takes over.
pub open spec fn reply_draft(req: RequestView, status: u16) -> ResponseDraft {
    ResponseDraft { status, headers: reply_fields(req.headers), body: None }
}

/// A response to a request, with no fields of its own.
pub open spec fn plain_reply(req: RequestView, status: u16) -> MessageView {
    built_response(reply_draft(req, status))
}

pub fn build_reply(req: &SipRequest, status: u16) -> (r: SipMessage)
    ensures
        r@ == plain_reply(req@, status),
{
    ResponseBuilder::from_request(req, StatusCode(status)).build()
}

/// The answer to a request that describes the session of a dialog anew.
pub open spec fn reinvite_reply(req: RequestView, local: EndpointView, sdp: Seq<char>) -> MessageView {
    built_response(
        reply_draft(req, 200).with(NameView::Contact, contact_value("siphone"@, local)).with(
            NameView::ContentType,
            "application/sdp"@,
        ).holding(sdp),
    )
}

pub fn build_reinvite_reply(req: &SipRequest, local_addr: &Endpoint, sdp: &str) -> (r: SipMessage)
    ensures
        r@ == reinvite_reply(req@, local_addr@, sdp@),
{
    ResponseBuilder::from_request(req, StatusCode(200)).header(
        HeaderName::Contact,
        contact_text("siphone", local_addr).as_str(),
    ).header(HeaderName::ContentType, "application/sdp").body(sdp).build()
}

/// Tells a caller that the phone rings.
pub open spec fn ringing_reply(req: RequestView, d: DialogView, local: EndpointView) -> MessageView {
    built_response(
        reply_draft(req, 180).with(NameView::Contact, contact_value("siphone"@, local)).with(
            NameView::To,
            tagged(d.local_uri, d.local_tag),
        ),
    )
}

pub fn build_ringing(req: &SipRequest, dialog: &SipDialog, local_addr: &Endpoint) -> (r: SipMessage)
    ensures
        r@ == ringing_reply(req@, dialog@, local_addr@),
{
    ResponseBuilder::from_request(req, StatusCode(180)).header(
        HeaderName::Contact,
        contact_text("siphone", local_addr).as_str(),
    ).header(
        HeaderName::To,
        tagged_text(dialog.local_uri.as_str(), dialog.local_tag.as_str()).as_str(),
    ).build()
}

/// Tells a caller that the call is taken, with the session of this end.
pub open spec fn answer_reply(
    req: RequestView,
    d: DialogView,
    local: EndpointView,
    sdp: Seq<char>,
) -> MessageView {
    built_response(
        reply_draft(req, 200).with(NameView::Contact, contact_value("siphone"@, local)).with(
            NameView::To,
            tagged(d.local_uri, d.local_tag),
        ).with(NameView::ContentType, "application/sdp"@).with(
            NameView::UserAgent,
            agent(),
        ).holding(sdp),
    )
}

pub fn build_answer(req: &SipRequest, dialog: &SipDialog, local_addr: &Endpoint, sdp: &str) -> (r:
    SipMessage)
    ensures
        r@ == answer_reply(req@, dialog@, local_addr@, sdp@),
{
    ResponseBuilder::from_request(req, StatusCode(200)).header(
        HeaderName::Contact,
        contact_text("siphone", local_addr).as_str(),
    ).header(
        HeaderName::To,
        tagged_text(dialog.local_uri.as_str(), dialog.local_tag.as_str()).as_str(),
    ).header(HeaderName::ContentType, "application/sdp").header(
        HeaderName::UserAgent,
        "siphone/0.1.0",
    ).body(sdp).build()
}

} // verus!
