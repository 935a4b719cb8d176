//! The phone: what it knows of its registration and of its call, and the
//! requests by which it changes them. What is sent, to whom and when is left to
//! the caller; each step that waits for the network is a method of its own.
use super::dtmf::{read_keys, refused_keys, waiting_keys, DtmfMethod, WaitingKey};
use super::requests::{
    ack_of, answer_reply, audio_session, audio_session_text, build_ack_with, build_answer,
    build_in_dialog_request_with, build_info, build_invite, build_notify, build_prack, build_refer,
    build_register_with, build_reinvite, build_reinvite_reply, build_ringing, in_dialog,
    info_request, invite_request, is_branch, notify_request, prack_request, refer_request,
    register_request, reinvite_reply, reinvite_request, ringing_reply, sip_address,
    sip_address_text, Registration, RegistrationView,
};
use super::uri::{
    add_scheme, extract_host_from_uri, extract_user_from_uri, host_of, user_of, with_scheme,
};
use crate::case::ascii_lowered;
use crate::net::{Endpoint, EndpointView};
use crate::number::{dec, hex, hex_bytes, hex_of_bytes, push_dec};
use crate::random::{is_uuid, random_bytes, random_u32, random_uuid};
use crate::rtp::codec::CodecType;
use crate::rtp::session::{RtpSession, SessionConfig, SessionError, SessionView};
use crate::rtp::wav::AudioRecorder;
use crate::sip::auth::{
    answer, answer_text, challenge_of, compute_digest_with, parse_challenge, Credentials,
};
use crate::sip::dialog::{
    after_response, dialog_of_invite, field_ordered, invite_ordered, is_invite, takes_bye,
    takes_response, DialogState, DialogView, SipDialog,
};
use crate::sip::header::{
    extract_tag, extract_uri, generate_branch, generate_tag, has_ordered_brackets, lookup,
    HeaderName, NameView,
};
use crate::sip::message::{
    built_request, clone_opt, opt_text, reason_of, MessageView, MethodView, SipMessage, SipMethod,
    SipRequest, StatusCode,
};
use crate::sip::sdp::{
    audio_index, audio_of, dtmf_type_of, offered_audio, parse_sdp, sdp_text, SdpSession,
};
use std::collections::VecDeque;
use vstd::prelude::*;

verus! {

// ---------------------------------------------------------------------------
// Errors
// ---------------------------------------------------------------------------

#[derive(Debug)]
pub enum PhoneError {
    /// What the transport says of its failure.
    Transport(String),
    Rtp(SessionError),
    NoDialog,
    CallFailed(String),
}

pub enum PhoneErrorView {
    Transport(Seq<char>),
    Rtp(Seq<char>),
    NoDialog,
    CallFailed(Seq<char>),
}

impl View for PhoneError {
    type V = PhoneErrorView;

    open spec fn view(&self) -> PhoneErrorView {
        match *self {
            PhoneError::Transport(s) => PhoneErrorView::Transport(s@),
            PhoneError::Rtp(e) => PhoneErrorView::Rtp(e@.message()),
            PhoneError::NoDialog => PhoneErrorView::NoDialog,
            PhoneError::CallFailed(s) => PhoneErrorView::CallFailed(s@),
        }
    }
}

impl PhoneErrorView {
    /// The error in words.
    pub open spec fn message(self) -> Seq<char> {
        match self {
            PhoneErrorView::Transport(s) => "transport error: "@ + s,
            PhoneErrorView::Rtp(s) => "RTP error: "@ + s,
            PhoneErrorView::NoDialog => "no active dialog"@,
            PhoneErrorView::CallFailed(s) => "call failed: "@ + s,
        }
    }
}

impl PhoneError {
    /// The error in words.
    pub fn to_string(&self) -> (r: String)
        ensures
            r@ == self@.message(),
    {
        match self {
            PhoneError::Transport(s) => {
                let mut t = "transport error: ".to_owned();
                t.append(s.as_str());
                t
            },
            PhoneError::Rtp(e) => {
                let mut t = "RTP error: ".to_owned();
                t.append(e.to_string().as_str());
                t
            },
            PhoneError::NoDialog => "no active dialog".to_owned(),
            PhoneError::CallFailed(s) => {
                let mut t = "call failed: ".to_owned();
                t.append(s.as_str());
                t
            },
        }
    }
}

/// A status code and the phrase that goes with it.
pub open spec fn status_text(code: u16) -> Seq<char> {
    dec(code as nat) + " "@ + reason_of(code)
}

pub(crate) fn push_status(out: &mut String, status: &StatusCode)
    ensures
        final(out)@ == old(out)@ + status_text(status.0),
{
    push_dec(out, status.0 as u64);
    out.append(" ");
    out.append(status.reason_phrase());
    assert(out@ =~= old(out)@ + status_text(status.0));
}

// ---------------------------------------------------------------------------
// State
// ---------------------------------------------------------------------------

/// What a step draws at random.
#[derive(Debug)]
pub struct Fresh {
    /// A branch parameter for a request.
    pub branch: String,
    /// An identifier for a session description.
    pub session_id: u32,
    /// A client nonce for the answer to a challenge.
    pub cnonce: String,
    /// An identifier for a call.
    pub call_id: String,
}

impl Fresh {
    /// Draws anew.
    pub fn draw() -> (r: Self)
        ensures
            is_branch(r.branch@),
            exists|bytes: Seq<u8>|
                bytes.len() == 8 && r.cnonce@ == #[trigger] hex_bytes(bytes),
            is_uuid(r.call_id@),
    {
        let bytes = random_bytes();
        assert(bytes@.len() == 8);
        Fresh {
            branch: generate_branch(),
            session_id: random_u32(),
            cnonce: hex_of_bytes(bytes.as_slice()),
            call_id: random_uuid(),
        }
    }
}

/// A phone.
pub struct SoftPhone {
    local_addr: Endpoint,
    dialog: Option<SipDialog>,
    rtp_session: Option<RtpSession>,
    call_id: Option<String>,
    local_tag: String,
    live_recorder: Option<AudioRecorder>,
    pending_record_path: Option<String>,
    remote_sip_addr: Option<Endpoint>,
    remote_dtmf_payload_type: Option<u8>,
    local_dtmf_payload_type: u8,
    dtmf_queue: VecDeque<WaitingKey>,
    last_announced_rfc2833: Option<(char, u32)>,
    credentials: Option<Credentials>,
    on_hold: bool,
    server_host: Option<String>,
    reg_user: Option<String>,
}

/// The samples and the rate of a recording.
pub type RecordingView = (Seq<i16>, u32);

pub open spec fn recording(r: AudioRecorder) -> RecordingView {
    (r.spec_samples(), r.spec_rate())
}

/// What a `SoftPhone` knows.
pub struct PhoneView {
    pub local: EndpointView,
    pub dialog: Option<DialogView>,
    pub rtp: Option<SessionView>,
    pub call_id: Option<Seq<char>>,
    pub tag: Seq<char>,
    pub live: Option<RecordingView>,
    pub record_path: Option<Seq<char>>,
    pub remote: Option<EndpointView>,
    pub remote_dtmf: Option<u8>,
    pub local_dtmf: u8,
    pub queue: Seq<WaitingKey>,
    pub announced: Option<(char, u32)>,
    pub credentials: Option<(Seq<char>, Seq<char>)>,
    pub on_hold: bool,
    pub server_host: Option<Seq<char>>,
    pub reg_user: Option<Seq<char>>,
}

/// The endpoint that is there, if any.
pub open spec fn opt_endpoint(e: Option<Endpoint>) -> Option<EndpointView> {
    match e {
        Some(x) => Some(x@),
        None => None,
    }
}

impl View for SoftPhone {
    type V = PhoneView;

    closed spec fn view(&self) -> PhoneView {
        PhoneView {
            local: self.local_addr@,
            dialog: match self.dialog {
                Some(d) => Some(d@),
                None => None,
            },
            rtp: match self.rtp_session {
                Some(s) => Some(s@),
                None => None,
            },
            call_id: opt_text(self.call_id),
            tag: self.local_tag@,
            live: match self.live_recorder {
                Some(r) => Some(recording(r)),
                None => None,
            },
            record_path: opt_text(self.pending_record_path),
            remote: opt_endpoint(self.remote_sip_addr),
            remote_dtmf: self.remote_dtmf_payload_type,
            local_dtmf: self.local_dtmf_payload_type,
            queue: self.dtmf_queue@,
            announced: self.last_announced_rfc2833,
            credentials: match self.credentials {
                Some(c) => Some((c.username@, c.password@)),
                None => None,
            },
            on_hold: self.on_hold,
            server_host: opt_text(self.server_host),
            reg_user: opt_text(self.reg_user),
        }
    }
}

impl PhoneView {
    /// Whether the next request of the dialog, if there is one, can be numbered.
    pub open spec fn can_number(self) -> bool {
        self.dialog is Some ==> self.dialog->0.local_cseq < u32::MAX
    }

    /// The phone after a request of the dialog has been numbered.
    pub open spec fn numbered(self) -> PhoneView {
        let d = self.dialog->0;
        PhoneView {
            dialog: Some(DialogView { local_cseq: (d.local_cseq + 1) as u32, ..d }),
            ..self
        }
    }

    /// The number of the next request of the dialog.
    pub open spec fn next_number(self) -> u32 {
        (self.dialog->0.local_cseq + 1) as u32
    }

    /// The port at which media are received, or 0 where there is no session.
    pub open spec fn media_port(self) -> u16 {
        match self.rtp {
            Some(s) => s.local.port,
            None => 0,
        }
    }

    /// The description of the session of this end.
    pub open spec fn session_text(self, id: u32, direction: Seq<char>) -> Seq<char> {
        sdp_text(audio_session(self.local.ip, id, self.media_port(), direction))
    }

    /// The call that is under way, or else the one that was placed last.
    pub open spec fn active_call(self) -> Option<Seq<char>> {
        match self.dialog {
            Some(d) => Some(d.call_id),
            None => self.call_id,
        }
    }
}

/// Whom to call, and as whom.
#[derive(Debug)]
pub struct CallPlan {
    pub target_uri: String,
    pub user: String,
    pub server_host: String,
}

/// Who calls: the user that is asked for, or the one that the target names, or
/// the one who is logged in, or `siphone`.
pub open spec fn caller(
    user: Option<Seq<char>>,
    target: Seq<char>,
    login: Option<Seq<char>>,
) -> Seq<char> {
    match user {
        Some(u) => u,
        None => match user_of(target) {
            Some(u) => u,
            None => match login {
                Some(u) => u,
                None => "siphone"@,
            },
        },
    }
}

/// The text that a reference shows, if there is one.
pub open spec fn opt_str(s: Option<&str>) -> Option<Seq<char>> {
    match s {
        Some(t) => Some(t@),
        None => None,
    }
}

/// A call that is being placed.
#[derive(Debug)]
pub struct OutgoingCall {
    pub plan: CallPlan,
    pub call_id: String,
    pub invite: SipMessage,
}

/// How long the reply to a registration is awaited, in milliseconds.
pub const REGISTER_WAIT_MS: u64 = 5000;

/// What a reply to a registration leads to.
#[derive(Debug)]
pub enum RegisterStep {
    /// The server has taken the registration.
    Registered,
    /// The server wants credentials: this request has them.
    Retry(SipMessage),
    Failed(PhoneError),
}

/// The field of a challenge, and the field of the answer to it, if the status
/// is one that challenges.
pub open spec fn challenge_fields(code: u16) -> Option<(NameView, NameView)> {
    if code == 401 {
        Some((NameView::WwwAuthenticate, NameView::Authorization))
    } else if code == 407 {
        Some((NameView::ProxyAuthenticate, NameView::ProxyAuthorization))
    } else {
        None
    }
}

/// The answer to the challenge in a reply, if it holds one that can be read.
pub open spec fn challenge_answer(
    reply: MessageView,
    field: NameView,
    credentials: (Seq<char>, Seq<char>),
    uri: Seq<char>,
    cnonce: Seq<char>,
) -> Option<Seq<char>> {
    match lookup(reply.headers(), field) {
        None => None,
        Some(value) => match challenge_of(value) {
            None => None,
            Some(c) => Some(
                answer_text(
                    answer(c, credentials.0, credentials.1, "REGISTER"@, uri, cnonce),
                ),
            ),
        },
    }
}

/// What a step of a registration came to.
pub enum RegisterView {
    Registered,
    Retry(MessageView),
    Failed(PhoneErrorView),
}

impl View for RegisterStep {
    type V = RegisterView;

    open spec fn view(&self) -> RegisterView {
        match *self {
            RegisterStep::Registered => RegisterView::Registered,
            RegisterStep::Retry(m) => RegisterView::Retry(m@),
            RegisterStep::Failed(e) => RegisterView::Failed(e@),
        }
    }
}

/// What the first reply to a registration leads to.
pub open spec fn register_outcome(
    p: PhoneView,
    a: RegistrationView,
    reply: MessageView,
    branch: Seq<char>,
    cnonce: Seq<char>,
) -> RegisterView {
    match reply {
        MessageView::Request(_) => RegisterView::Registered,
        MessageView::Response(res) => match challenge_fields(res.status) {
            Some((asks, answers)) => match challenge_answer(
                reply,
                asks,
                p.credentials->0,
                a.server_uri,
                cnonce,
            ) {
                Some(text) => RegisterView::Retry(
                    register_request(a, p.tag, p.local, branch, 2, Some((answers, text))),
                ),
                None => RegisterView::Failed(
                    PhoneErrorView::CallFailed("Auth challenge parse failed"@),
                ),
            },
            None => if 200 <= res.status <= 299 {
                RegisterView::Registered
            } else {
                RegisterView::Failed(
                    PhoneErrorView::CallFailed("Registration failed: "@ + status_text(res.status)),
                )
            },
        },
    }
}

/// What the reply to a registration with credentials leads to.
pub open spec fn final_register_outcome(reply: MessageView) -> RegisterView {
    match reply {
        MessageView::Request(_) => RegisterView::Failed(
            PhoneErrorView::CallFailed("Auth challenge parse failed"@),
        ),
        MessageView::Response(res) => if 200 <= res.status <= 299 {
            RegisterView::Registered
        } else {
            RegisterView::Failed(
                PhoneErrorView::CallFailed("Registration failed: "@ + status_text(res.status)),
            )
        },
    }
}

/// Where media go, as the body of a message says it: the host and the port,
/// and the payload type for telephone events.
pub open spec fn media_target(body: Seq<char>) -> Option<(Seq<char>, Option<u8>)> {
    match parse_sdp(body) {
        Err(_) => None,
        Ok(sdp) => match audio_of(sdp.media) {
            None => None,
            Some(m) => Some(
                (
                    (match sdp.connection_address {
                        Some(a) => a,
                        None => "0.0.0.0"@,
                    }) + ":"@ + dec(m.port as nat),
                    dtmf_type_of(m.rtpmaps),
                ),
            ),
        },
    }
}

/// Where media go, as the body of a message says it.
pub fn parse_sdp_rtp_addr(body: &str) -> (r: Option<(String, Option<u8>)>)
    ensures
        match r {
            Some((addr, dtmf)) => media_target(body@) == Some((addr@, dtmf)),
            None => media_target(body@) is None,
        },
{
    let sdp = match SdpSession::parse(body) {
        Ok(s) => s,
        Err(_) => {
            return None;
        },
    };
    let port = match sdp.get_audio_port() {
        Some(p) => p,
        None => {
            return None;
        },
    };
    let mut addr = match sdp.get_connection_address() {
        Some(a) => a.to_owned(),
        None => "0.0.0.0".to_owned(),
    };
    addr.append(":");
    push_dec(&mut addr, port as u64);
    Some((addr, sdp.get_audio_dtmf_payload_type()))
}

/// What to do for the key that waits first.
#[derive(Debug)]
pub enum KeyStep {
    /// No key waits.
    Done,
    /// There is no session to send the key in; sending stops, and the key is lost.
    Stop,
    /// The key cannot be sent and is lost.
    Skip,
    /// Send the key in the media stream.
    Rtp { digit: char, payload_type: u8 },
    /// Send the key in a message.
    Info { digit: char, message: SipMessage, to: Endpoint },
}

pub enum KeyStepView {
    Done,
    Stop,
    Skip,
    Rtp { digit: char, payload_type: u8 },
    Info { digit: char, message: MessageView, to: EndpointView },
}

impl View for KeyStep {
    type V = KeyStepView;

    open spec fn view(&self) -> KeyStepView {
        match *self {
            KeyStep::Done => KeyStepView::Done,
            KeyStep::Stop => KeyStepView::Stop,
            KeyStep::Skip => KeyStepView::Skip,
            KeyStep::Rtp { digit, payload_type } => KeyStepView::Rtp { digit, payload_type },
            KeyStep::Info { digit, message, to } => KeyStepView::Info {
                digit,
                message: message@,
                to: to@,
            },
        }
    }
}

/// What is to be done for the key that waits first.
pub open spec fn key_step(p: PhoneView, branch: Seq<char>) -> KeyStepView {
    if p.queue.len() == 0 {
        KeyStepView::Done
    } else {
        let key = p.queue[0];
        match key.method {
            DtmfMethod::Rfc2833 => if p.rtp is Some {
                KeyStepView::Rtp {
                    digit: key.digit,
                    payload_type: match p.remote_dtmf {
                        Some(t) => t,
                        None => p.local_dtmf,
                    },
                }
            } else {
                KeyStepView::Stop
            },
            DtmfMethod::SipInfo => if p.dialog is Some && p.remote is Some {
                KeyStepView::Info {
                    digit: key.digit,
                    message: info_request(
                        p.numbered().dialog->0,
                        p.local,
                        branch,
                        p.next_number(),
                        key.digit,
                    ),
                    to: p.remote->0,
                }
            } else {
                KeyStepView::Skip
            },
        }
    }
}

/// The phone after a step for the key that waits first.
pub open spec fn after_key_step(p: PhoneView) -> PhoneView {
    if p.queue.len() == 0 {
        p
    } else {
        let q = if p.queue[0].method == DtmfMethod::SipInfo && p.dialog is Some {
            p.numbered()
        } else {
            p
        };
        PhoneView { queue: p.queue.skip(1), ..q }
    }
}

/// A request that needs a dialog, and the phone after it was numbered; without
/// a dialog there is no request, and nothing changes.
pub open spec fn sends_in_dialog(
    before: PhoneView,
    after: PhoneView,
    r: Result<SipMessage, PhoneError>,
    request: MessageView,
) -> bool {
    match r {
        Ok(m) => before.dialog is Some && m@ == request && after == before.numbered(),
        Err(e) => before.dialog is None && e@ == PhoneErrorView::NoDialog && after == before,
    }
}

impl SoftPhone {
    /// What holds of every phone.
    pub closed spec fn wf(&self) -> bool {
        self.rtp_session is Some ==> self.rtp_session->0.wf()
    }

    /// A phone that is bound to `local_addr`, with a tag of the caller's choice.
    pub fn with_tag(local_addr: Endpoint, local_tag: String) -> (r: Self)
        ensures
            r.wf(),
            r@ == (PhoneView {
                local: local_addr@,
                dialog: None,
                rtp: None,
                call_id: None,
                tag: local_tag@,
                live: None,
                record_path: None,
                remote: None,
                remote_dtmf: None,
                local_dtmf: 101,
                queue: seq![],
                announced: None,
                credentials: None,
                on_hold: false,
                server_host: None,
                reg_user: None,
            }),
    {
        let r = SoftPhone {
            local_addr,
            dialog: None,
            rtp_session: None,
            call_id: None,
            local_tag,
            live_recorder: None,
            pending_record_path: None,
            remote_sip_addr: None,
            remote_dtmf_payload_type: None,
            local_dtmf_payload_type: 101,
            dtmf_queue: VecDeque::new(),
            last_announced_rfc2833: None,
            credentials: None,
            on_hold: false,
            server_host: None,
            reg_user: None,
        };
        assert(r@.queue =~= seq![]);
        r
    }

    /// A phone that is bound to `local_addr`, with a random tag.
    pub fn new(local_addr: Endpoint) -> (r: Self)
        ensures
            r.wf(),
            exists|n: u64| r@.tag == #[trigger] hex(n as nat),
            r@ == (PhoneView {
                local: local_addr@,
                dialog: None,
                rtp: None,
                call_id: None,
                tag: r@.tag,
                live: None,
                record_path: None,
                remote: None,
                remote_dtmf: None,
                local_dtmf: 101,
                queue: seq![],
                announced: None,
                credentials: None,
                on_hold: false,
                server_host: None,
                reg_user: None,
            }),
    {
        SoftPhone::with_tag(local_addr, generate_tag())
    }

    /// Sets the name and the password with which challenges are answered.
    pub fn set_credentials(&mut self, username: &str, password: &str)
        requires
            old(self).wf(),
        ensures
            final(self).wf(),
            final(self)@ == (PhoneView {
                credentials: Some((username@, password@)),
                ..old(self)@
            }),
    {
        self.credentials = Some(
            Credentials { username: username.to_owned(), password: password.to_owned() },
        );
    }

    /// Begins to register a user at a server; gives the request to send.
    pub fn register(&mut self, server: &str, user: &str, password: &str, fresh: &Fresh) -> (r: (
        Registration,
        SipMessage,
    ))
        requires
            old(self).wf(),
        ensures
            final(self).wf(),
            final(self)@ == (PhoneView {
                credentials: Some((user@, password@)),
                server_host: Some(server@),
                reg_user: Some(user@),
                ..old(self)@
            }),
            r.0@ == (RegistrationView {
                server_uri: with_scheme(server@),
                user: user@,
                server: server@,
                call_id: fresh.call_id@,
            }),
            r.1@ == register_request(
                r.0@,
                old(self)@.tag,
                old(self)@.local,
                fresh.branch@,
                1,
                None,
            ),
    {
        self.set_credentials(user, password);
        self.server_host = Some(server.to_owned());
        self.reg_user = Some(user.to_owned());
        let a = Registration {
            server_uri: add_scheme(server),
            user: user.to_owned(),
            server: server.to_owned(),
            call_id: fresh.call_id.clone(),
        };
        let m = self.build_register(&a, 1, None, fresh.branch.as_str());
        (a, m)
    }

    /// A request to register, with credentials where there are some.
    pub fn build_register(
        &self,
        a: &Registration,
        cseq: u32,
        auth: Option<(HeaderName, String)>,
        branch: &str,
    ) -> (r: SipMessage)
        ensures
            r@ == register_request(
                a@,
                self@.tag,
                self@.local,
                branch@,
                cseq,
                match auth {
                    Some((name, value)) => Some((name@, value@)),
                    None => None,
                },
            ),
    {
        build_register_with(a, self.local_tag.as_str(), &self.local_addr, branch, cseq, auth)
    }

    fn failed_status(status: &StatusCode) -> (r: RegisterStep)
        ensures
            r@ == RegisterView::Failed(
                PhoneErrorView::CallFailed("Registration failed: "@ + status_text(status.0)),
            ),
    {
        let mut s = "Registration failed: ".to_owned();
        push_status(&mut s, status);
        RegisterStep::Failed(PhoneError::CallFailed(s))
    }

    fn answer_challenge(
        &self,
        reply: &SipMessage,
        field: &HeaderName,
        uri: &str,
        cnonce: &str,
    ) -> (r: Option<String>)
        requires
            self@.credentials is Some,
        ensures
            match r {
                Some(t) => challenge_answer(
                    reply@,
                    field@,
                    self@.credentials->0,
                    uri@,
                    cnonce@,
                ) == Some(t@),
                None => challenge_answer(
                    reply@,
                    field@,
                    self@.credentials->0,
                    uri@,
                    cnonce@,
                ) is None,
            },
    {
        let value = match reply.headers().get(field) {
            Some(v) => v,
            None => {
                return None;
            },
        };
        let challenge = match parse_challenge(value.as_str()) {
            Some(c) => c,
            None => {
                return None;
            },
        };
        match &self.credentials {
            Some(c) => Some(
                compute_digest_with(&challenge, c, "REGISTER", uri, cnonce).to_string(),
            ),
            None => None,
        }
    }

    /// Takes in the reply to a registration: it is done, or has to be sent again
    /// with credentials, or has failed.
    pub fn register_reply(&mut self, a: &Registration, reply: &SipMessage, fresh: &Fresh) -> (r:
        RegisterStep)
        requires
            old(self).wf(),
            old(self)@.credentials is Some,
        ensures
            final(self).wf(),
            r@ == register_outcome(
                old(self)@,
                a@,
                reply@,
                fresh.branch@,
                fresh.cnonce@,
            ),
            final(self)@ == (if r@ is Registered {
                PhoneView { call_id: Some(a@.call_id), ..old(self)@ }
            } else {
                old(self)@
            }),
    {
        let status = match reply.status() {
            Some(s) => s,
            None => {
                self.call_id = Some(a.call_id.clone());
                return RegisterStep::Registered;
            },
        };
        let code: u16 = status.0;
        if code == StatusCode::UNAUTHORIZED || code == StatusCode::PROXY_AUTH_REQUIRED {
            let uri = a.server_uri.as_str();
            let cnonce = fresh.cnonce.as_str();
            let text;
            let name;
            if code == StatusCode::UNAUTHORIZED {
                text = self.answer_challenge(reply, &HeaderName::WwwAuthenticate, uri, cnonce);
                name = HeaderName::Authorization;
            } else {
                text = self.answer_challenge(reply, &HeaderName::ProxyAuthenticate, uri, cnonce);
                name = HeaderName::ProxyAuthorization;
            }
            match text {
                Some(t) => RegisterStep::Retry(
                    self.build_register(a, 2, Some((name, t)), fresh.branch.as_str()),
                ),
                None => RegisterStep::Failed(
                    PhoneError::CallFailed("Auth challenge parse failed".to_owned()),
                ),
            }
        } else if status.is_success() {
            self.call_id = Some(a.call_id.clone());
            RegisterStep::Registered
        } else {
            SoftPhone::failed_status(status)
        }
    }

    /// Takes in the reply to a registration that was sent with credentials.
    pub fn register_final(&mut self, a: &Registration, reply: &SipMessage) -> (r: RegisterStep)
        requires
            old(self).wf(),
        ensures
            final(self).wf(),
            r@ == final_register_outcome(reply@),
            final(self)@ == (if r@ is Registered {
                PhoneView { call_id: Some(a@.call_id), ..old(self)@ }
            } else {
                old(self)@
            }),
    {
        match reply.status() {
            Some(status) => if status.is_success() {
                self.call_id = Some(a.call_id.clone());
                RegisterStep::Registered
            } else {
                SoftPhone::failed_status(status)
            },
            None => RegisterStep::Failed(
                PhoneError::CallFailed("Auth challenge parse failed".to_owned()),
            ),
        }
    }

    /// Settles whom to call, as whom and at which server, and takes over the
    /// password where one is given. `login` is the name of the user who runs
    /// the phone.
    pub fn plan_call(
        &mut self,
        uri: &str,
        server: Option<&str>,
        user: Option<&str>,
        password: Option<&str>,
        login: Option<&str>,
    ) -> (r: CallPlan)
        requires
            old(self).wf(),
        ensures
            final(self).wf(),
            r.target_uri@ == with_scheme(uri@),
            r.user@ == caller(opt_str(user), with_scheme(uri@), opt_str(login)),
            r.server_host@ == (match server {
                Some(s) => s@,
                None => host_of(with_scheme(uri@)),
            }),
            final(self)@ == (match password {
                Some(pw) => PhoneView { credentials: Some((r.user@, pw@)), ..old(self)@ },
                None => old(self)@,
            }),
    {
        let target_uri = add_scheme(uri);
        let who = match user {
            Some(u) => u.to_owned(),
            None => match extract_user_from_uri(target_uri.as_str()) {
                Some(u) => u,
                None => match login {
                    Some(u) => u.to_owned(),
                    None => "siphone".to_owned(),
                },
            },
        };
        if let Some(pw) = password {
            self.set_credentials(who.as_str(), pw);
        }
        let host = match server {
            Some(s) => s.to_owned(),
            None => match extract_host_from_uri(target_uri.as_str()) {
                Some(h) => h,
                None => String::new(),
            },
        };
        CallPlan { target_uri, user: who, server_host: host }
    }

    /// Begins a call, whose media are received at `rtp_port`; gives the request
    /// to send. Keys that wait are forgotten.
    pub fn call(&mut self, plan: CallPlan, rtp_port: u16, fresh: &Fresh) -> (r: OutgoingCall)
        requires
            old(self).wf(),
        ensures
            final(self).wf(),
            final(self)@ == (PhoneView {
                local_dtmf: 101,
                remote_dtmf: None,
                queue: seq![],
                announced: None,
                ..old(self)@
            }),
            r.plan == plan,
            r.call_id@ == fresh.call_id@,
            r.invite@ == invite_request(
                plan.target_uri@,
                plan.user@,
                plan.server_host@,
                old(self)@.tag,
                fresh.call_id@,
                old(self)@.local,
                fresh.branch@,
                sdp_text(
                    audio_session(
                        old(self)@.local.ip,
                        fresh.session_id,
                        rtp_port,
                        "sendrecv"@,
                    ),
                ),
            ),
    {
        let mut sdp = SdpSession::new_with_id(self.local_addr.ip.as_str(), fresh.session_id);
        let _m = sdp.add_audio_media(rtp_port);
        proof {
            lemma_offered_dtmf(rtp_port, "sendrecv"@);
            assert(sdp@ == audio_session(
                old(self)@.local.ip,
                fresh.session_id,
                rtp_port,
                "sendrecv"@,
            ));
        }
        self.local_dtmf_payload_type = match sdp.get_audio_dtmf_payload_type() {
            Some(t) => t,
            None => 101,
        };
        self.remote_dtmf_payload_type = None;
        self.dtmf_queue.clear();
        self.last_announced_rfc2833 = None;
        let body = sdp.to_string();
        let invite = build_invite(
            plan.target_uri.as_str(),
            plan.user.as_str(),
            plan.server_host.as_str(),
            self.local_tag.as_str(),
            fresh.call_id.as_str(),
            &self.local_addr,
            fresh.branch.as_str(),
            body.as_str(),
        );
        OutgoingCall { plan, call_id: fresh.call_id.clone(), invite }
    }

    /// Notes that a call has been placed: its dialog is open from now on.
    pub fn call_placed(&mut self, out: &OutgoingCall, rtp: RtpSession)
        requires
            old(self).wf(),
            rtp.wf(),
        ensures
            final(self).wf(),
            final(self)@ == (PhoneView {
                dialog: Some(
                    DialogView {
                        call_id: out.call_id@,
                        local_tag: old(self)@.tag,
                        remote_tag: None,
                        local_uri: sip_address(out.plan.user@, out.plan.server_host@),
                        remote_uri: out.plan.target_uri@,
                        remote_target: None,
                        local_cseq: 1,
                        remote_cseq: None,
                        state: DialogState::Early,
                    },
                ),
                rtp: Some(rtp@),
                call_id: Some(out.call_id@),
                server_host: Some(out.plan.server_host@),
                on_hold: false,
                ..old(self)@
            }),
    {
        self.dialog = Some(
            SipDialog::new_uac(
                out.call_id.clone(),
                self.local_tag.clone(),
                sip_address_text(out.plan.user.as_str(), out.plan.server_host.as_str()),
                out.plan.target_uri.clone(),
            ),
        );
        self.rtp_session = Some(rtp);
        self.call_id = Some(out.call_id.clone());
        self.server_host = Some(out.plan.server_host.clone());
        self.on_hold = false;
    }

    /// The request that ends the call.
    pub fn hangup(&mut self, fresh: &Fresh) -> (r: Result<SipMessage, PhoneError>)
        requires
            old(self).wf(),
            old(self)@.can_number(),
        ensures
            final(self).wf(),
            sends_in_dialog(
                old(self)@,
                final(self)@,
                r,
                built_request(
                    in_dialog(
                        MethodView::Bye,
                        old(self)@.dialog->0,
                        old(self)@.local,
                        fresh.branch@,
                        old(self)@.next_number(),
                    ),
                ),
            ),
    {
        match &mut self.dialog {
            Some(d) => {
                let cseq: u32 = d.next_cseq();
                Ok(
                    build_in_dialog_request_with(
                        SipMethod::Bye,
                        d,
                        &self.local_addr,
                        cseq,
                        fresh.branch.as_str(),
                    ),
                )
            },
            None => Err(PhoneError::NoDialog),
        }
    }

    /// Notes that the call has ended.
    pub fn hung_up(&mut self)
        requires
            old(self).wf(),
        ensures
            final(self).wf(),
            final(self)@ == (PhoneView {
                dialog: match old(self)@.dialog {
                    Some(d) => Some(DialogView { state: DialogState::Terminated, ..d }),
                    None => None,
                },
                rtp: None,
                ..old(self)@
            }),
    {
        if let Some(d) = &mut self.dialog {
            d.terminate();
        }
        self.rtp_session = None;
    }

    /// Where requests of the call are sent: to the address of its contact, where
    /// that could be found, or to where its messages come from.
    pub fn destination(&self, contact: Option<Endpoint>) -> (r: Option<Endpoint>)
        ensures
            opt_endpoint(r) == (match contact {
                Some(e) => Some(e@),
                None => self@.remote,
            }),
    {
        match contact {
            Some(e) => Some(e),
            None => match &self.remote_sip_addr {
                Some(e) => Some(e.clone()),
                None => None,
            },
        }
    }

    fn media_port(&self) -> (r: u16)
        ensures
            r == self@.media_port(),
    {
        match &self.rtp_session {
            Some(s) => s.local_addr().port,
            None => 0,
        }
    }

    fn reinvite(&mut self, direction: &str, fresh: &Fresh) -> (r: Result<SipMessage, PhoneError>)
        requires
            old(self).wf(),
            old(self)@.can_number(),
        ensures
            final(self).wf(),
            sends_in_dialog(
                old(self)@,
                final(self)@,
                r,
                reinvite_request(
                    old(self)@.dialog->0,
                    old(self)@.local,
                    fresh.branch@,
                    old(self)@.next_number(),
                    old(self)@.session_text(fresh.session_id, direction@),
                ),
            ),
    {
        let port: u16 = self.media_port();
        match &mut self.dialog {
            Some(d) => {
                let cseq: u32 = d.next_cseq();
                let sdp = audio_session_text(
                    self.local_addr.ip.as_str(),
                    fresh.session_id,
                    port,
                    direction,
                );
                Ok(build_reinvite(d, &self.local_addr, fresh.branch.as_str(), cseq, sdp.as_str()))
            },
            None => Err(PhoneError::NoDialog),
        }
    }

    /// The request that puts the call on hold: this end only sends.
    pub fn hold(&mut self, fresh: &Fresh) -> (r: Result<SipMessage, PhoneError>)
        requires
            old(self).wf(),
            old(self)@.can_number(),
        ensures
            final(self).wf(),
            sends_in_dialog(
                old(self)@,
                final(self)@,
                r,
                reinvite_request(
                    old(self)@.dialog->0,
                    old(self)@.local,
                    fresh.branch@,
                    old(self)@.next_number(),
                    old(self)@.session_text(fresh.session_id, "sendonly"@),
                ),
            ),
    {
        self.reinvite("sendonly", fresh)
    }

    /// The request that takes the call off hold.
    pub fn resume(&mut self, fresh: &Fresh) -> (r: Result<SipMessage, PhoneError>)
        requires
            old(self).wf(),
            old(self)@.can_number(),
        ensures
            final(self).wf(),
            sends_in_dialog(
                old(self)@,
                final(self)@,
                r,
                reinvite_request(
                    old(self)@.dialog->0,
                    old(self)@.local,
                    fresh.branch@,
                    old(self)@.next_number(),
                    old(self)@.session_text(fresh.session_id, "sendrecv"@),
                ),
            ),
    {
        self.reinvite("sendrecv", fresh)
    }

    /// Notes whether the call is on hold.
    pub fn set_on_hold(&mut self, on_hold: bool)
        requires
            old(self).wf(),
        ensures
            final(self).wf(),
            final(self)@ == (PhoneView { on_hold, ..old(self)@ }),
    {
        self.on_hold = on_hold;
    }

    /// The request that hands the call over to another party.
    pub fn transfer(&mut self, target_uri: &str, fresh: &Fresh) -> (r: Result<
        SipMessage,
        PhoneError,
    >)
        requires
            old(self).wf(),
            old(self)@.can_number(),
        ensures
            final(self).wf(),
            sends_in_dialog(
                old(self)@,
                final(self)@,
                r,
                refer_request(
                    old(self)@.dialog->0,
                    old(self)@.local,
                    fresh.branch@,
                    old(self)@.next_number(),
                    with_scheme(target_uri@),
                ),
            ),
    {
        match &mut self.dialog {
            Some(d) => {
                let cseq: u32 = d.next_cseq();
                let refer_to = add_scheme(target_uri);
                Ok(
                    build_refer(
                        d,
                        &self.local_addr,
                        fresh.branch.as_str(),
                        cseq,
                        refer_to.as_str(),
                    ),
                )
            },
            None => Err(PhoneError::NoDialog),
        }
    }

    /// The request that acknowledges a reliable provisional response.
    pub fn send_prack(&mut self, rseq: u32, cseq_num: u32, cseq_method: &str, branch: &str) -> (r:
        Result<SipMessage, PhoneError>)
        requires
            old(self).wf(),
            old(self)@.can_number(),
        ensures
            final(self).wf(),
            sends_in_dialog(
                old(self)@,
                final(self)@,
                r,
                prack_request(
                    old(self)@.dialog->0,
                    old(self)@.local,
                    branch@,
                    old(self)@.next_number(),
                    rseq,
                    (cseq_num, cseq_method@),
                ),
            ),
    {
        match &mut self.dialog {
            Some(d) => {
                let cseq: u32 = d.next_cseq();
                Ok(
                    build_prack(
                        d,
                        &self.local_addr,
                        branch,
                        cseq,
                        rseq,
                        cseq_num,
                        cseq_method,
                    ),
                )
            },
            None => Err(PhoneError::NoDialog),
        }
    }

    /// Opens the dialog of an incoming call, with `tag` for this end; gives the
    /// response that says that the phone rings.
    pub fn accept_call(&self, invite: &SipMessage, tag: String) -> (r: Result<
        (SipDialog, SipMessage),
        PhoneError,
    >)
        requires
            invite_ordered(invite@),
        ensures
            match r {
                Ok((d, ringing)) => dialog_of_invite(invite@, tag@) == Some(d@) && ringing@
                    == ringing_reply(invite@->Request_0, d@, self@.local),
                Err(e) => dialog_of_invite(invite@, tag@) is None && e@
                    == PhoneErrorView::CallFailed("Failed to create dialog from INVITE"@),
            },
    {
        let dialog = match SipDialog::from_invite_with(invite, tag) {
            Some(d) => d,
            None => {
                return Err(
                    PhoneError::CallFailed("Failed to create dialog from INVITE".to_owned()),
                );
            },
        };
        match invite {
            SipMessage::Request(req) => {
                let ringing = build_ringing(req, &dialog, &self.local_addr);
                Ok((dialog, ringing))
            },
            SipMessage::Response(_) => Err(
                PhoneError::CallFailed("Failed to create dialog from INVITE".to_owned()),
            ),
        }
    }

    /// Whether a message asks for a call.
    pub fn is_call(msg: &SipMessage) -> (r: bool)
        ensures
            r == is_invite(msg@),
    {
        match msg {
            SipMessage::Request(req) => req.method.same(&SipMethod::Invite),
            SipMessage::Response(_) => false,
        }
    }

    /// Whether the angle brackets are in order in each field of an INVITE from
    /// which a URI is taken.
    pub fn can_accept(invite: &SipMessage) -> (r: bool)
        ensures
            r == invite_ordered(invite@),
    {
        let req = match invite {
            SipMessage::Request(req) => req,
            SipMessage::Response(_) => {
                return true;
            },
        };
        if !req.method.same(&SipMethod::Invite) || req.headers.get(&HeaderName::CallId).is_none() {
            return true;
        }
        let from = match req.headers.get(&HeaderName::From) {
            Some(v) => v,
            None => {
                return true;
            },
        };
        if extract_tag(from.as_str()).is_none() {
            return true;
        }
        if !has_ordered_brackets(from.as_str()) {
            return false;
        }
        if extract_uri(from.as_str()).is_none() {
            return true;
        }
        let to = match req.headers.get(&HeaderName::To) {
            Some(v) => v,
            None => {
                return true;
            },
        };
        if !has_ordered_brackets(to.as_str()) {
            return false;
        }
        if extract_uri(to.as_str()).is_none() {
            return true;
        }
        match req.headers.get(&HeaderName::Contact) {
            Some(v) => has_ordered_brackets(v.as_str()),
            None => true,
        }
    }

    /// The set-up of the media session of an incoming call: media go to where the
    /// INVITE says, or else to where it came from, at port 0. `media` is the
    /// address that its body names, with the payload type for telephone events.
    pub fn incoming_media(&mut self, media: Option<(Endpoint, Option<u8>)>, source: &Endpoint) -> (r:
        SessionConfig)
        requires
            old(self).wf(),
        ensures
            final(self).wf(),
            final(self)@ == (match media {
                Some((_, dtmf)) => PhoneView { remote_dtmf: dtmf, ..old(self)@ },
                None => old(self)@,
            }),
            r.local_addr@ == "0.0.0.0:0"@,
            r.remote_addr@ == (match media {
                Some((addr, _)) => addr@,
                None => EndpointView { ip: source@.ip, port: 0 },
            }),
            r.codec == CodecType::Pcmu,
            r.jitter_buffer_size == 10,
    {
        let remote = match media {
            Some((addr, dtmf)) => {
                self.remote_dtmf_payload_type = dtmf;
                addr
            },
            None => Endpoint::new(source.ip.as_str(), 0),
        };
        SessionConfig::new("0.0.0.0:0", remote, CodecType::Pcmu)
    }

    /// The response that takes an incoming call, whose media are received at
    /// `rtp_port`.
    pub fn answer(
        &self,
        invite: &SipMessage,
        dialog: &SipDialog,
        rtp_port: u16,
        fresh: &Fresh,
    ) -> (r: Option<SipMessage>)
        ensures
            match r {
                Some(m) => invite@ is Request && m@ == answer_reply(
                    invite@->Request_0,
                    dialog@,
                    self@.local,
                    sdp_text(
                        audio_session(
                            self@.local.ip,
                            fresh.session_id,
                            rtp_port,
                            "sendrecv"@,
                        ),
                    ),
                ),
                None => invite@ is Response,
            },
    {
        match invite {
            SipMessage::Request(req) => {
                let sdp = audio_session_text(
                    self.local_addr.ip.as_str(),
                    fresh.session_id,
                    rtp_port,
                    "sendrecv",
                );
                Some(build_answer(req, dialog, &self.local_addr, sdp.as_str()))
            },
            SipMessage::Response(_) => None,
        }
    }

    /// Notes that an incoming call has been taken.
    pub fn call_taken(&mut self, dialog: SipDialog, rtp: RtpSession, source: Endpoint)
        requires
            old(self).wf(),
            rtp.wf(),
        ensures
            final(self).wf(),
            final(self)@ == (PhoneView {
                dialog: Some(dialog@),
                rtp: Some(rtp@),
                remote: Some(source@),
                on_hold: false,
                ..old(self)@
            }),
    {
        self.dialog = Some(dialog);
        self.rtp_session = Some(rtp);
        self.remote_sip_addr = Some(source);
        self.on_hold = false;
    }

    /// Puts keys into the queue, to be sent in the media stream; gives how many,
    /// and the characters that stand on no key.
    pub fn queue_rfc2833_dtmf(&mut self, digits: &str) -> (r: (usize, Vec<char>))
        requires
            old(self).wf(),
        ensures
            final(self).wf(),
            final(self)@ == (PhoneView {
                queue: old(self)@.queue + waiting_keys(digits@, DtmfMethod::Rfc2833),
                ..old(self)@
            }),
            r.0 == waiting_keys(digits@, DtmfMethod::Rfc2833).len(),
            r.1@ == refused_keys(digits@),
    {
        self.queue_dtmf_digits(digits, DtmfMethod::Rfc2833)
    }

    /// Puts keys into the queue, to be sent in messages; gives how many, and the
    /// characters that stand on no key.
    pub fn queue_sip_info_dtmf(&mut self, digits: &str) -> (r: (usize, Vec<char>))
        requires
            old(self).wf(),
        ensures
            final(self).wf(),
            final(self)@ == (PhoneView {
                queue: old(self)@.queue + waiting_keys(digits@, DtmfMethod::SipInfo),
                ..old(self)@
            }),
            r.0 == waiting_keys(digits@, DtmfMethod::SipInfo).len(),
            r.1@ == refused_keys(digits@),
    {
        self.queue_dtmf_digits(digits, DtmfMethod::SipInfo)
    }

    fn queue_dtmf_digits(&mut self, digits: &str, method: DtmfMethod) -> (r: (usize, Vec<char>))
        requires
            old(self).wf(),
        ensures
            final(self).wf(),
            final(self)@ == (PhoneView {
                queue: old(self)@.queue + waiting_keys(digits@, method),
                ..old(self)@
            }),
            r.0 == waiting_keys(digits@, method).len(),
            r.1@ == refused_keys(digits@),
    {
        let (keys, refused) = read_keys(digits, method);
        let n: usize = keys.len();
        let mut i: usize = 0;
        assert(self.dtmf_queue@ =~= old(self)@.queue + keys@.take(0));
        while i < n
            invariant
                n == keys@.len(),
                i <= n,
                old(self).wf(),
                self.wf(),
                self@ == (PhoneView {
                    queue: old(self)@.queue + keys@.take(i as int),
                    ..old(self)@
                }),
            decreases n - i,
        {
            self.dtmf_queue.push_back(keys[i]);
            i = i + 1;
            assert(self.dtmf_queue@ =~= old(self)@.queue + keys@.take(i as int));
        }
        assert(keys@.take(n as int) =~= keys@);
        (n, refused)
    }

    /// The number of keys that wait to be sent.
    pub fn queued_dtmf_count(&self) -> (r: usize)
        ensures
            r == self@.queue.len(),
    {
        self.dtmf_queue.len()
    }

    /// The message that tells the remote end of a key; there is none without a
    /// dialog.
    pub fn build_dtmf_info(&mut self, digit: char, branch: &str) -> (r: Option<SipMessage>)
        requires
            old(self).wf(),
            old(self)@.can_number(),
        ensures
            final(self).wf(),
            match r {
                Some(m) => {
                    &&& old(self)@.dialog is Some
                    &&& m@ == info_request(
                        old(self)@.dialog->0,
                        old(self)@.local,
                        branch@,
                        old(self)@.next_number(),
                        digit,
                    )
                    &&& final(self)@ == old(self)@.numbered()
                },
                None => old(self)@.dialog is None && final(self)@ == old(self)@,
            },
    {
        match &mut self.dialog {
            Some(d) => {
                let cseq: u32 = d.next_cseq();
                Some(build_info(d, &self.local_addr, branch, cseq, digit))
            },
            None => None,
        }
    }

    /// Takes the key that waits first from the queue, and says how to send it.
    pub fn next_key(&mut self, branch: &str) -> (r: KeyStep)
        requires
            old(self).wf(),
            old(self)@.can_number(),
        ensures
            final(self).wf(),
            r@ == key_step(old(self)@, branch@),
            final(self)@ == after_key_step(old(self)@),
    {
        let item = match self.dtmf_queue.pop_front() {
            Some(k) => k,
            None => {
                return KeyStep::Done;
            },
        };
        assert(self.dtmf_queue@ =~= old(self)@.queue.skip(1));
        match item.method {
            DtmfMethod::Rfc2833 => match &self.rtp_session {
                Some(_) => {
                    let payload_type = match self.remote_dtmf_payload_type {
                        Some(t) => t,
                        None => self.local_dtmf_payload_type,
                    };
                    KeyStep::Rtp { digit: item.digit, payload_type }
                },
                None => KeyStep::Stop,
            },
            DtmfMethod::SipInfo => match self.build_dtmf_info(item.digit, branch) {
                Some(message) => match &self.remote_sip_addr {
                    Some(to) => KeyStep::Info { digit: item.digit, message, to: to.clone() },
                    None => KeyStep::Skip,
                },
                None => KeyStep::Skip,
            },
        }
    }

    /// Takes in a response to a request of the dialog.
    pub fn process_response(&mut self, msg: &SipMessage)
        requires
            old(self).wf(),
            old(self)@.dialog is Some && takes_response(old(self)@.dialog->0, msg@)
                ==> field_ordered(msg@, NameView::Contact),
        ensures
            final(self).wf(),
            final(self)@ == (PhoneView {
                dialog: match old(self)@.dialog {
                    Some(d) => Some(after_response(d, msg@)),
                    None => None,
                },
                ..old(self)@
            }),
    {
        if let Some(d) = &mut self.dialog {
            let _of_call = d.process_response(msg);
        }
    }

    /// Takes in a request to end the dialog.
    pub fn process_bye(&mut self, msg: &SipMessage)
        requires
            old(self).wf(),
        ensures
            final(self).wf(),
            final(self)@ == (PhoneView {
                dialog: match old(self)@.dialog {
                    Some(d) => Some(
                        if takes_bye(d, msg@) {
                            DialogView { state: DialogState::Terminated, ..d }
                        } else {
                            d
                        },
                    ),
                    None => None,
                },
                ..old(self)@
            }),
    {
        if let Some(d) = &mut self.dialog {
            let _of_call = d.process_bye(msg);
        }
    }

    /// Notes where the messages of the call come from.
    pub fn set_remote(&mut self, source: Endpoint)
        requires
            old(self).wf(),
        ensures
            final(self).wf(),
            final(self)@ == (PhoneView { remote: Some(source@), ..old(self)@ }),
    {
        self.remote_sip_addr = Some(source);
    }

    /// Notes the payload type that the remote end has for telephone events.
    pub fn set_remote_dtmf(&mut self, payload_type: Option<u8>)
        requires
            old(self).wf(),
        ensures
            final(self).wf(),
            final(self)@ == (PhoneView { remote_dtmf: payload_type, ..old(self)@ }),
    {
        self.remote_dtmf_payload_type = payload_type;
    }

    /// Sets where media go, if there is a session for them; gives where it is.
    pub fn point_media(&mut self, addr: &Endpoint) -> (r: Option<Endpoint>)
        requires
            old(self).wf(),
        ensures
            final(self).wf(),
            opt_endpoint(r) == (match old(self)@.rtp {
                Some(s) => Some(s.local),
                None => None,
            }),
            final(self)@ == (PhoneView {
                rtp: match old(self)@.rtp {
                    Some(s) => Some(SessionView { remote: addr@, ..s }),
                    None => None,
                },
                ..old(self)@
            }),
    {
        match &mut self.rtp_session {
            Some(s) => {
                s.set_remote_addr(addr.clone());
                Some(s.local_addr())
            },
            None => None,
        }
    }

    /// The acknowledgement of a final response to the INVITE of the dialog.
    pub fn ack(&self, branch: &str) -> (r: Option<SipMessage>)
        ensures
            match r {
                Some(m) => self@.dialog is Some && m@ == ack_of(
                    self@.dialog->0,
                    self@.local,
                    branch@,
                ),
                None => self@.dialog is None,
            },
    {
        match &self.dialog {
            Some(d) => Some(build_ack_with(d, &self.local_addr, branch)),
            None => None,
        }
    }

    /// The report that a transfer has been carried out.
    pub fn notify(&mut self, branch: &str) -> (r: Option<SipMessage>)
        requires
            old(self).wf(),
            old(self)@.can_number(),
        ensures
            final(self).wf(),
            match r {
                Some(m) => {
                    &&& old(self)@.dialog is Some
                    &&& m@ == notify_request(
                        old(self)@.dialog->0,
                        old(self)@.local,
                        branch@,
                        old(self)@.next_number(),
                    )
                    &&& final(self)@ == old(self)@.numbered()
                },
                None => old(self)@.dialog is None && final(self)@ == old(self)@,
            },
    {
        match &mut self.dialog {
            Some(d) => {
                let cseq: u32 = d.next_cseq();
                Some(build_notify(d, &self.local_addr, branch, cseq))
            },
            None => None,
        }
    }

    /// The answer to a request that describes the session of the dialog anew.
    pub fn answer_reinvite(&self, req: &SipRequest, session_id: u32) -> (r: SipMessage)
        ensures
            r@ == reinvite_reply(
                req@,
                self@.local,
                self@.session_text(session_id, "sendrecv"@),
            ),
    {
        let sdp = audio_session_text(
            self.local_addr.ip.as_str(),
            session_id,
            self.media_port(),
            "sendrecv",
        );
        build_reinvite_reply(req, &self.local_addr, sdp.as_str())
    }

    /// Notes that a key has been heard; says whether it is another than the last
    /// one. A key is known by when it was pressed.
    pub fn heard_key(&mut self, digit: char, timestamp: u32) -> (r: bool)
        requires
            old(self).wf(),
        ensures
            final(self).wf(),
            r == (old(self)@.announced != Some((digit, timestamp))),
            final(self)@ == (PhoneView { announced: Some((digit, timestamp)), ..old(self)@ }),
    {
        let again = match self.last_announced_rfc2833 {
            Some((d, t)) => d == digit && t == timestamp,
            None => false,
        };
        if again {
            return false;
        }
        self.last_announced_rfc2833 = Some((digit, timestamp));
        true
    }

    /// Notes the file that a recording goes to.
    pub fn set_record_path(&mut self, path: &str)
        requires
            old(self).wf(),
        ensures
            final(self).wf(),
            final(self)@ == (PhoneView { record_path: Some(path@), ..old(self)@ }),
    {
        self.pending_record_path = Some(path.to_owned());
    }

    /// Keeps a recording that was begun during a call, or forgets the last one.
    pub fn keep_live_recording(&mut self, rec: Option<AudioRecorder>)
        requires
            old(self).wf(),
        ensures
            final(self).wf(),
            final(self)@ == (PhoneView {
                live: match rec {
                    Some(x) => Some(recording(x)),
                    None => None,
                },
                ..old(self)@
            }),
    {
        self.live_recorder = rec;
    }

    /// The media session of the call.
    pub fn rtp_session(&self) -> (r: Option<&RtpSession>)
        requires
            self.wf(),
        ensures
            match r {
                Some(s) => s.wf() && self@.rtp == Some(s@),
                None => self@.rtp is None,
            },
    {
        match &self.rtp_session {
            Some(s) => Some(s),
            None => None,
        }
    }

    /// Takes the media session of the call out of the phone.
    pub fn take_rtp_session(&mut self) -> (r: Option<RtpSession>)
        requires
            old(self).wf(),
        ensures
            final(self).wf(),
            match r {
                Some(s) => s.wf() && old(self)@.rtp == Some(s@),
                None => old(self)@.rtp is None,
            },
            final(self)@ == (PhoneView { rtp: None, ..old(self)@ }),
    {
        self.rtp_session.take()
    }

    /// Puts a media session into the phone.
    pub fn put_rtp_session(&mut self, rtp: RtpSession)
        requires
            old(self).wf(),
            rtp.wf(),
        ensures
            final(self).wf(),
            final(self)@ == (PhoneView { rtp: Some(rtp@), ..old(self)@ }),
    {
        self.rtp_session = Some(rtp);
    }

    /// The recording that was begun during the call, with the file it goes to.
    /// Where there is a file but no recording, the file is forgotten.
    pub fn take_live_recording(&mut self) -> (r: Option<(String, AudioRecorder)>)
        requires
            old(self).wf(),
        ensures
            final(self).wf(),
            match r {
                Some((path, rec)) => old(self)@.record_path == Some(path@) && old(self)@.live
                    == Some(recording(rec)),
                None => old(self)@.record_path is None || old(self)@.live is None,
            },
            final(self)@ == (PhoneView {
                record_path: None,
                live: if old(self)@.record_path is Some {
                    None
                } else {
                    old(self)@.live
                },
                ..old(self)@
            }),
    {
        let path = match self.pending_record_path.take() {
            Some(p) => p,
            None => {
                return None;
            },
        };
        match self.live_recorder.take() {
            Some(rec) => Some((path, rec)),
            None => None,
        }
    }

    /// The credentials with which challenges are answered.
    pub fn credentials(&self) -> (r: Option<&Credentials>)
        ensures
            match r {
                Some(c) => self@.credentials == Some((c.username@, c.password@)),
                None => self@.credentials is None,
            },
    {
        match &self.credentials {
            Some(c) => Some(c),
            None => None,
        }
    }

    pub fn dialog(&self) -> (r: Option<&SipDialog>)
        ensures
            match r {
                Some(d) => self@.dialog == Some(d@),
                None => self@.dialog is None,
            },
    {
        match &self.dialog {
            Some(d) => Some(d),
            None => None,
        }
    }

    pub fn local_addr(&self) -> (r: Endpoint)
        ensures
            r@ == self@.local,
    {
        self.local_addr.clone()
    }

    pub fn is_on_hold(&self) -> (r: bool)
        ensures
            r == self@.on_hold,
    {
        self.on_hold
    }

    /// Whether the next request of the dialog, if there is one, can be numbered.
    pub fn can_number(&self) -> (r: bool)
        ensures
            r == self@.can_number(),
    {
        match &self.dialog {
            Some(d) => d.local_cseq < u32::MAX,
            None => true,
        }
    }

    /// The call that is under way, or else the one that was placed last.
    pub fn active_call_id(&self) -> (r: Option<String>)
        ensures
            opt_text(r) == self@.active_call(),
    {
        match &self.dialog {
            Some(d) => Some(d.call_id.clone()),
            None => clone_opt(&self.call_id),
        }
    }
}

/// The payload type that the library offers for telephone events.
pub proof fn lemma_offered_dtmf(port: u16, direction: Seq<char>)
    ensures
        dtmf_type_of(offered_audio(port, direction).rtpmaps) == Some(101u8),
        audio_of(seq![offered_audio(port, direction)]) == Some(offered_audio(port, direction)),
{
    let maps = offered_audio(port, direction).rtpmaps;
    reveal_strlit("PCMU");
    reveal_strlit("PCMA");
    reveal_strlit("telephone-event");
    reveal_with_fuel(dtmf_type_of, 4);
    assert(maps.len() == 4);
    assert(ascii_lowered(maps[0].encoding_name).len() == 4);
    assert(maps.skip(1)[0] == maps[1]);
    assert(maps.skip(1).skip(1)[0] == maps[2]);
    assert(ascii_lowered("telephone-event"@) =~= "telephone-event"@);
    reveal_with_fuel(audio_index, 2);
}

} // verus!
