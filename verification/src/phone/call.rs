//! A call under way: what the phone does on each thing that happens. Every
//! event gives the actions that it calls for, in order; whoever drives the call
//! carries them out.
use super::commands::{Command, CommandView};
use super::config::SiprConfig;
use super::dtmf::{info_key, parse_info_dtmf, refused_keys, waiting_keys, DtmfMethod};
use super::requests::{
    ack_of, build_reply, contact_value, in_dialog, notify_request, plain_reply, prack_request,
    refer_request, reinvite_reply, reinvite_request,
};
use super::softphone::{
    media_target, opt_endpoint, parse_sdp_rtp_addr, push_status, recording, status_text, Fresh,
    PhoneError, PhoneErrorView, PhoneView, RecordingView, SoftPhone,
};
use super::uri::with_scheme;
use crate::net::{Endpoint, EndpointView};
use crate::number::{dec, parse_uint, push_dec, uint_of};
use crate::rtp::codec::{payload_of, CodecType, OpusFrame, OpusFrameView};
use crate::rtp::packet::packet_bytes;
use crate::rtp::session::{
    after_audio, audio_view, DtmfEvent, EventView, ReceiveEvent, SessionView,
};
use crate::rtp::wav::AudioRecorder;
use crate::sip::dialog::{
    after_response, field_ordered, takes_bye, takes_response, DialogState, DialogView,
};
use crate::sip::header::{
    has_ordered_brackets, law_set_get_other, lemma_lookup_push, lemma_position, lookup, lookup_all,
    with_field, HeaderList, HeaderName, NameView,
};
use crate::sip::message::{
    built_request, content_length, one_field, opt_text, reply_fields, MessageView, MethodView,
    RequestView, ResponseView, SipMessage, SipMethod, SipRequest, StatusCode,
};
use crate::sip::sdp::{audio_of, direction_of, parse_sdp, SdpSession};
use crate::text::{chars_of, contains_text, has_text, same_text, string_of, trim, trimmed};
use vstd::prelude::*;

verus! {

// ---------------------------------------------------------------------------
// Actions
// ---------------------------------------------------------------------------

/// How a line on the terminal is meant.
#[derive(Debug, Clone, Copy, PartialEq, Eq, Structural)]
pub enum Tone {
    Status,
    Success,
    Warning,
    Error,
    Info,
    Event,
}

/// What becomes of a message that could not be sent.
#[derive(Debug)]
pub enum Sending {
    /// The call fails.
    Must,
    /// Nothing.
    May,
    /// The user is told `failed` and why; where it was sent, `done`.
    Told { done: String, failed: String },
}

/// A request that the user waits for.
#[derive(Debug)]
pub enum UserRequest {
    Hold,
    Resume,
    /// To whom the call is handed over.
    Transfer(String),
}

/// Something to be done.
#[derive(Debug)]
pub enum CallAction {
    /// Tell the user.
    Say { tone: Tone, text: String },
    /// Send a message, and trace it where `traced`.
    Send { message: SipMessage, to: Endpoint, traced: bool, sending: Sending },
    /// Send a request of the user to the destination of the call, if there is one.
    Request { message: SipMessage, request: UserRequest },
    /// Send the request that ends the call, and await the response to `cseq`.
    Bye { message: SipMessage, cseq: u32 },
    /// Play a frame.
    Play(Vec<i16>),
    /// Begin to receive media, with this payload type for telephone events.
    Receive(Option<u8>),
    /// Trace that media flow.
    TraceMedia { call_id: String, from: Endpoint, to: Endpoint, label: String },
    StartTrace { verbose: bool },
    StopTrace,
    /// Send the keys that wait.
    SendKeys,
    ShowHelp,
    ShowStats,
    /// Say how long the recording is that was just paused.
    ShowPause,
    ShowSummary,
    ShowFlows,
}

pub enum SendingView {
    Must,
    May,
    Told { done: Seq<char>, failed: Seq<char> },
}

pub enum UserRequestView {
    Hold,
    Resume,
    Transfer(Seq<char>),
}

pub enum ActionView {
    Say { tone: Tone, text: Seq<char> },
    Send { message: MessageView, to: EndpointView, traced: bool, sending: SendingView },
    Request { message: MessageView, request: UserRequestView },
    Bye { message: MessageView, cseq: u32 },
    Play(Seq<i16>),
    Receive(Option<u8>),
    TraceMedia { call_id: Seq<char>, from: EndpointView, to: EndpointView, label: Seq<char> },
    StartTrace { verbose: bool },
    StopTrace,
    SendKeys,
    ShowHelp,
    ShowStats,
    ShowPause,
    ShowSummary,
    ShowFlows,
}

impl View for Sending {
    type V = SendingView;

    open spec fn view(&self) -> SendingView {
        match *self {
            Sending::Must => SendingView::Must,
            Sending::May => SendingView::May,
            Sending::Told { done, failed } => SendingView::Told { done: done@, failed: failed@ },
        }
    }
}

impl View for UserRequest {
    type V = UserRequestView;

    open spec fn view(&self) -> UserRequestView {
        match *self {
            UserRequest::Hold => UserRequestView::Hold,
            UserRequest::Resume => UserRequestView::Resume,
            UserRequest::Transfer(s) => UserRequestView::Transfer(s@),
        }
    }
}

impl View for CallAction {
    type V = ActionView;

    open spec fn view(&self) -> ActionView {
        match *self {
            CallAction::Say { tone, text } => ActionView::Say { tone, text: text@ },
            CallAction::Send { message, to, traced, sending } => ActionView::Send {
                message: message@,
                to: to@,
                traced,
                sending: sending@,
            },
            CallAction::Request { message, request } => ActionView::Request {
                message: message@,
                request: request@,
            },
            CallAction::Bye { message, cseq } => ActionView::Bye { message: message@, cseq },
            CallAction::Play(frame) => ActionView::Play(frame@),
            CallAction::Receive(t) => ActionView::Receive(t),
            CallAction::TraceMedia { call_id, from, to, label } => ActionView::TraceMedia {
                call_id: call_id@,
                from: from@,
                to: to@,
                label: label@,
            },
            CallAction::StartTrace { verbose } => ActionView::StartTrace { verbose },
            CallAction::StopTrace => ActionView::StopTrace,
            CallAction::SendKeys => ActionView::SendKeys,
            CallAction::ShowHelp => ActionView::ShowHelp,
            CallAction::ShowStats => ActionView::ShowStats,
            CallAction::ShowPause => ActionView::ShowPause,
            CallAction::ShowSummary => ActionView::ShowSummary,
            CallAction::ShowFlows => ActionView::ShowFlows,
        }
    }
}

/// The actions, as values.
pub open spec fn acts(v: Seq<CallAction>) -> Seq<ActionView> {
    Seq::new(v.len(), |i: int| v[i]@)
}

fn put(out: &mut Vec<CallAction>, a: CallAction)
    ensures
        acts(final(out)@) == acts(old(out)@).push(a@),
{
    out.push(a);
    assert(acts(out@) =~= acts(old(out)@).push(a@));
}

/// An action that tells the user something.
pub open spec fn say(tone: Tone, text: Seq<char>) -> ActionView {
    ActionView::Say { tone, text }
}

fn put_text(out: &mut Vec<CallAction>, tone: Tone, text: String)
    ensures
        acts(final(out)@) == acts(old(out)@).push(say(tone, text@)),
{
    put(out, CallAction::Say { tone, text });
}

fn put_line(out: &mut Vec<CallAction>, tone: Tone, text: &str)
    ensures
        acts(final(out)@) == acts(old(out)@).push(say(tone, text@)),
{
    put(out, CallAction::Say { tone, text: text.to_owned() });
}

/// Tells the user `before`, and then `after`.
fn put_two(out: &mut Vec<CallAction>, tone: Tone, before: &str, after: &str)
    ensures
        acts(final(out)@) == acts(old(out)@).push(say(tone, before@ + after@)),
{
    let mut s = before.to_owned();
    s.append(after);
    put(out, CallAction::Say { tone, text: s });
}

/// Whether the call goes on.
#[derive(Debug)]
pub enum Flow {
    Go,
    End,
    Fail(PhoneError),
}

pub enum FlowView {
    Go,
    End,
    Fail(PhoneErrorView),
}

impl View for Flow {
    type V = FlowView;

    open spec fn view(&self) -> FlowView {
        match *self {
            Flow::Go => FlowView::Go,
            Flow::End => FlowView::End,
            Flow::Fail(e) => FlowView::Fail(e@),
        }
    }
}

/// What an event calls for.
#[derive(Debug)]
pub struct Step {
    pub actions: Vec<CallAction>,
    pub flow: Flow,
}

pub struct StepView {
    pub actions: Seq<ActionView>,
    pub flow: FlowView,
}

impl View for Step {
    type V = StepView;

    open spec fn view(&self) -> StepView {
        StepView { actions: acts(self.actions@), flow: self.flow@ }
    }
}

// ---------------------------------------------------------------------------
// State
// ---------------------------------------------------------------------------

/// A call under way.
pub struct Call {
    pub phone: SoftPhone,
    recorder: Option<AudioRecorder>,
    live: Option<AudioRecorder>,
    recording: bool,
    receiving: bool,
    connected: bool,
    muted: bool,
    announced_rx: bool,
    announced_tx: bool,
}

pub struct CallView {
    pub phone: PhoneView,
    /// The recording that was asked for before the call.
    pub recorder: Option<RecordingView>,
    /// The recording that was begun during the call.
    pub live: Option<RecordingView>,
    /// Whether what is heard is recorded.
    pub recording: bool,
    /// Whether media are received.
    pub receiving: bool,
    /// Whether media are sent.
    pub connected: bool,
    pub muted: bool,
    /// Whether the user was told that media are heard.
    pub announced_rx: bool,
    /// Whether the user was told that media are sent.
    pub announced_tx: bool,
}

/// The samples and the rate of a recording, if there is one.
pub open spec fn opt_recording(r: Option<AudioRecorder>) -> Option<RecordingView> {
    match r {
        Some(x) => Some(recording(x)),
        None => None,
    }
}

impl View for Call {
    type V = CallView;

    closed spec fn view(&self) -> CallView {
        CallView {
            phone: self.phone@,
            recorder: opt_recording(self.recorder),
            live: opt_recording(self.live),
            recording: self.recording,
            receiving: self.receiving,
            connected: self.connected,
            muted: self.muted,
            announced_rx: self.announced_rx,
            announced_tx: self.announced_tx,
        }
    }
}

/// The call and the actions after an event.
pub type Outcome = (CallView, Seq<ActionView>);

// ---------------------------------------------------------------------------
// Media
// ---------------------------------------------------------------------------

/// What is said when media begin to flow one way.
pub open spec fn flow_text(way: Seq<char>, codec: CodecType) -> Seq<char> {
    "Audio "@ + way + " active: codec="@ + codec.text() + " PT="@ + dec(
        codec.spec_payload_type() as nat,
    ) + " rate="@ + dec(codec.spec_clock_rate() as nat) + "Hz"@
}

/// The actions by which the user is told that media are heard.
pub open spec fn hearing(p: PhoneView) -> Seq<ActionView> {
    match p.rtp {
        Some(s) => seq![say(Tone::Status, flow_text("RX"@, s.codec))] + (match p.active_call() {
            Some(id) => seq![
                ActionView::TraceMedia {
                    call_id: id,
                    from: s.remote,
                    to: s.local,
                    label: "RTP audio flow active (RX)"@,
                },
            ],
            None => seq![],
        }),
        None => seq![say(Tone::Status, "Audio RX active."@)],
    }
}

/// The call with `frame` at the end of the recording that goes on, if one does:
/// the one that was asked for before the call comes first.
pub open spec fn recorded(c: CallView, frame: Seq<i16>) -> CallView {
    if !c.recording {
        c
    } else {
        match c.recorder {
            Some((samples, rate)) => CallView { recorder: Some((samples + frame, rate)), ..c },
            None => match c.live {
                Some((samples, rate)) => CallView { live: Some((samples + frame, rate)), ..c },
                None => c,
            },
        }
    }
}

/// The user is told of a key when it is let go, once.
pub open spec fn on_key(c: CallView, e: DtmfEvent) -> Outcome {
    let key = Some((e.digit, e.timestamp));
    if e.end && c.phone.announced != key {
        (
            CallView { phone: PhoneView { announced: key, ..c.phone }, ..c },
            seq![say(Tone::Event, "DTMF received (RTP RFC2833): "@.push(e.digit))],
        )
    } else {
        (c, seq![])
    }
}

/// What is heard is played, and recorded where a recording goes on.
pub open spec fn on_media(c: CallView, e: EventView) -> Outcome {
    match e {
        EventView::Audio(frame) => (
            CallView { announced_rx: true, ..recorded(c, frame) },
            (if c.announced_rx {
                seq![]
            } else {
                hearing(c.phone)
            }) + seq![ActionView::Play(frame)],
        ),
        EventView::Dtmf(d) => on_key(c, d),
    }
}

/// What is heard while a backlog is worked off is recorded, and not played.
pub open spec fn on_backlog(c: CallView, e: EventView) -> Outcome {
    match e {
        EventView::Audio(frame) => (recorded(c, frame), seq![]),
        EventView::Dtmf(d) => on_key(c, d),
    }
}

// ---------------------------------------------------------------------------
// Messages
// ---------------------------------------------------------------------------

/// Where media go, as a message says it: `addr` is what the address in its
/// body reads as, if it is one.
pub open spec fn media_in(m: MessageView, addr: Option<EndpointView>) -> Option<
    (EndpointView, Option<u8>),
> {
    match m.body() {
        Some(b) => match media_target(b) {
            Some((_, dtmf)) => match addr {
                Some(a) => Some((a, dtmf)),
                None => None,
            },
            None => None,
        },
        None => None,
    }
}

/// What a reliable provisional response asks to have acknowledged: its number,
/// and the number and the method of the request that it answers.
pub open spec fn reliable(m: MessageView) -> Option<(u32, (u32, Seq<char>))> {
    match lookup(m.headers(), NameView::Require) {
        None => None,
        Some(v) => if !contains_text(v, "100rel"@) {
            None
        } else {
            match lookup(m.headers(), NameView::RSeq) {
                None => None,
                Some(n) => match uint_of(trimmed(n), u32::MAX as nat) {
                    None => None,
                    Some(rseq) => Some(
                        (
                            rseq as u32,
                            match m.cseq() {
                                Some((k, method)) => (k, method.text()),
                                None => (1, "INVITE"@),
                            },
                        ),
                    ),
                },
            }
        },
    }
}

/// A reliable provisional response is acknowledged.
pub open spec fn acknowledge(
    c: CallView,
    m: MessageView,
    source: EndpointView,
    branch: Seq<char>,
) -> Outcome {
    match reliable(m) {
        None => (c, seq![]),
        Some((rseq, of)) => (
            CallView { phone: c.phone.numbered(), ..c },
            seq![
                ActionView::Send {
                    message: prack_request(
                        c.phone.dialog->0,
                        c.phone.local,
                        branch,
                        c.phone.next_number(),
                        rseq,
                        of,
                    ),
                    to: source,
                    traced: false,
                    sending: SendingView::Told {
                        done: "PRACK sent for RSeq "@ + dec(rseq as nat),
                        failed: "Failed to send PRACK: "@,
                    },
                },
            ],
        ),
    }
}

/// The phone with media that go to `addr`.
pub open spec fn pointed(p: PhoneView, addr: EndpointView) -> PhoneView {
    PhoneView {
        rtp: match p.rtp {
            Some(s) => Some(SessionView { remote: addr, ..s }),
            None => None,
        },
        ..p
    }
}

/// Media that flow before the call is taken are heard, where none are yet.
pub open spec fn early_media(
    c: CallView,
    m: MessageView,
    addr: Option<EndpointView>,
) -> Outcome {
    match media_in(m, addr) {
        None => (c, seq![]),
        Some((a, dtmf)) => {
            let p = PhoneView { remote_dtmf: dtmf, ..c.phone };
            if c.receiving || p.rtp is None {
                (CallView { phone: p, ..c }, seq![])
            } else {
                (
                    CallView { phone: pointed(p, a), receiving: true, connected: true, ..c },
                    seq![
                        say(Tone::Status, "Early media: RTP remote "@ + a.text()),
                        ActionView::TraceMedia {
                            call_id: p.dialog->0.call_id,
                            from: p.rtp->0.local,
                            to: a,
                            label: "Early media RTP announced (183)"@,
                        },
                        ActionView::Receive(dtmf),
                    ],
                )
            }
        },
    }
}

/// The media of a call that has been taken are heard and sent.
pub open spec fn call_media(c: CallView, m: MessageView, addr: Option<EndpointView>) -> Outcome {
    match media_in(m, addr) {
        None => (c, seq![]),
        Some((a, dtmf)) => {
            let p = PhoneView { remote_dtmf: dtmf, ..c.phone };
            let told = match dtmf {
                Some(t) => seq![
                    say(Tone::Info, "Remote DTMF RTP payload type: "@ + dec(t as nat)),
                ],
                None => seq![],
            };
            if p.rtp is None {
                (CallView { phone: p, ..c }, told)
            } else {
                (
                    CallView { phone: pointed(p, a), receiving: true, connected: true, ..c },
                    told + seq![
                        say(Tone::Info, "RTP remote: "@ + a.text()),
                        ActionView::TraceMedia {
                            call_id: p.dialog->0.call_id,
                            from: p.rtp->0.local,
                            to: a,
                            label: "Connected call RTP announced (200 OK)"@,
                        },
                    ] + (if c.receiving {
                        seq![]
                    } else {
                        seq![ActionView::Receive(dtmf)]
                    }),
                )
            }
        },
    }
}

/// The call after its dialog has taken in a response.
pub open spec fn after_reply(c: CallView, m: MessageView) -> CallView {
    CallView {
        phone: PhoneView {
            dialog: Some(after_response(c.phone.dialog->0, m)),
            ..c.phone
        },
        ..c
    }
}

/// What a response calls for: progress is reported, a call that is taken is
/// acknowledged and its media flow, and one that is refused is acknowledged too,
/// and fails.
pub open spec fn on_response(
    before: CallView,
    res: ResponseView,
    source: EndpointView,
    addr: Option<EndpointView>,
    branch: Seq<char>,
) -> (CallView, StepView) {
    let m = MessageView::Response(res);
    let c = after_reply(before, m);
    let code = res.status;
    if 100 <= code <= 199 {
        let (c1, a1) = acknowledge(c, m, source, branch);
        let (c2, a2) = if code == 183 {
            early_media(c1, m, addr)
        } else {
            (c1, seq![])
        };
        (
            c2,
            StepView {
                actions: seq![say(Tone::Info, "Call progress: "@ + status_text(code))] + a1 + a2,
                flow: ended(c2),
            },
        )
    } else if 200 <= code <= 299 {
        let c1 = CallView { phone: PhoneView { remote: Some(source), ..c.phone }, ..c };
        let (c2, a2) = call_media(c1, m, addr);
        (
            c2,
            StepView {
                actions: seq![say(Tone::Success, "Call connected!"@)] + a2 + seq![
                    ActionView::Send {
                        message: ack_of(c.phone.dialog->0, c.phone.local, branch),
                        to: source,
                        traced: true,
                        sending: SendingView::Must,
                    },
                ],
                flow: ended(c2),
            },
        )
    } else if code >= 400 {
        (
            c,
            StepView {
                actions: seq![
                    say(Tone::Error, "Call failed: "@ + status_text(code)),
                    ActionView::Send {
                        message: ack_of(c.phone.dialog->0, c.phone.local, branch),
                        to: source,
                        traced: true,
                        sending: SendingView::May,
                    },
                ],
                flow: FlowView::Fail(PhoneErrorView::CallFailed(status_text(code))),
            },
        )
    } else {
        (c, StepView { actions: seq![], flow: ended(c) })
    }
}

/// The call ends with its dialog.
pub open spec fn ended(c: CallView) -> FlowView {
    if c.phone.dialog is Some && c.phone.dialog->0.state == DialogState::Terminated {
        FlowView::End
    } else {
        FlowView::Go
    }
}

/// What a request that describes the session anew does to the hold: a remote
/// end that only sends, or does neither, has put the call on hold.
pub open spec fn on_direction(c: CallView, m: MessageView) -> Outcome {
    match m.body() {
        None => (c, seq![]),
        Some(b) => match parse_sdp(b) {
            Err(_) => (c, seq![]),
            Ok(sdp) => {
                let direction = match audio_of(sdp.media) {
                    Some(media) => direction_of(media.attributes),
                    None => None,
                };
                if direction == Some("sendonly"@) {
                    (
                        held(c, true),
                        seq![say(Tone::Warning, "Remote put call on hold"@)],
                    )
                } else if direction == Some("inactive"@) {
                    (
                        held(c, true),
                        seq![say(Tone::Warning, "Remote put call on hold (inactive)"@)],
                    )
                } else if c.phone.on_hold {
                    (held(c, false), seq![say(Tone::Success, "Remote resumed call"@)])
                } else {
                    (c, seq![])
                }
            },
        },
    }
}

/// The call, on hold or not.
pub open spec fn held(c: CallView, on_hold: bool) -> CallView {
    CallView { phone: PhoneView { on_hold, ..c.phone }, ..c }
}

/// An action that sends a response.
pub open spec fn respond(
    message: MessageView,
    to: EndpointView,
    traced: bool,
    sending: SendingView,
) -> ActionView {
    ActionView::Send { message, to, traced, sending }
}

/// What a request of the remote end calls for.
pub open spec fn on_request(
    c: CallView,
    req: RequestView,
    source: EndpointView,
    branch: Seq<char>,
    session_id: u32,
) -> (CallView, StepView) {
    let m = MessageView::Request(req);
    let d = c.phone.dialog->0;
    match req.method {
        MethodView::Bye => (
            CallView {
                phone: PhoneView {
                    dialog: Some(
                        if takes_bye(d, m) {
                            DialogView { state: DialogState::Terminated, ..d }
                        } else {
                            d
                        },
                    ),
                    ..c.phone
                },
                ..c
            },
            StepView {
                actions: seq![
                    say(Tone::Event, "Remote party hung up"@),
                    respond(plain_reply(req, 200), source, true, SendingView::May),
                ],
                flow: FlowView::End,
            },
        ),
        MethodView::Info => (
            c,
            StepView {
                actions: seq![
                    (match info_key(m.body()) {
                        Some((digit, duration)) => say(
                            Tone::Event,
                            "DTMF received (SIP INFO): "@.push(digit) + " (duration "@ + dec(
                                duration,
                            ) + ")"@,
                        ),
                        None => say(Tone::Info, "SIP INFO received"@),
                    }),
                    respond(plain_reply(req, 200), source, true, SendingView::Must),
                ],
                flow: ended(c),
            },
        ),
        MethodView::Invite => {
            let (c1, a1) = on_direction(c, m);
            (
                c1,
                StepView {
                    actions: seq![say(Tone::Event, "Re-INVITE received"@)] + a1 + seq![
                        respond(
                            reinvite_reply(
                                req,
                                c.phone.local,
                                c.phone.session_text(session_id, "sendrecv"@),
                            ),
                            source,
                            true,
                            SendingView::Must,
                        ),
                    ],
                    flow: ended(c1),
                },
            )
        },
        MethodView::Refer => match lookup(req.headers, NameView::ReferTo) {
            Some(who) => {
                let c1 = CallView { phone: c.phone.numbered(), ..c };
                (
                    c1,
                    StepView {
                        actions: seq![
                            say(Tone::Event, "Transfer requested to: "@ + who),
                            respond(plain_reply(req, 202), source, true, SendingView::Must),
                            respond(
                                notify_request(
                                    d,
                                    c.phone.local,
                                    branch,
                                    c.phone.next_number(),
                                ),
                                source,
                                false,
                                SendingView::Must,
                            ),
                        ],
                        flow: ended(c1),
                    },
                )
            },
            None => (
                c,
                StepView {
                    actions: seq![
                        respond(plain_reply(req, 400), source, false, SendingView::Must),
                    ],
                    flow: ended(c),
                },
            ),
        },
        MethodView::Notify => (
            c,
            StepView {
                actions: (match m.body() {
                    Some(b) => seq![say(Tone::Info, "NOTIFY: "@ + trimmed(b))],
                    None => seq![],
                }) + seq![respond(plain_reply(req, 200), source, false, SendingView::Must)],
                flow: ended(c),
            },
        ),
        _ => (c, StepView { actions: seq![], flow: ended(c) }),
    }
}

/// What a message calls for. Without a dialog, it is ignored.
pub open spec fn on_message(
    c: CallView,
    m: MessageView,
    source: EndpointView,
    addr: Option<EndpointView>,
    branch: Seq<char>,
    session_id: u32,
) -> (CallView, StepView) {
    if c.phone.dialog is None {
        (c, StepView { actions: seq![], flow: FlowView::Go })
    } else {
        match m {
            MessageView::Response(res) => on_response(c, res, source, addr, branch),
            MessageView::Request(req) => on_request(c, req, source, branch, session_id),
        }
    }
}

/// Whether a message can be taken in: the next request of the dialog can be
/// numbered, and where a contact is taken over from a response, its angle
/// brackets are in order.
pub open spec fn takes_in(c: CallView, m: MessageView) -> bool {
    &&& c.phone.can_number()
    &&& c.phone.dialog is Some && takes_response(c.phone.dialog->0, m) ==> field_ordered(
        m,
        NameView::Contact,
    )
}

fn reliable_of(msg: &SipMessage) -> (r: Option<(u32, (u32, String))>)
    ensures
        match r {
            Some((rseq, (n, method))) => reliable(msg@) == Some((rseq, (n, method@))),
            None => reliable(msg@) is None,
        },
{
    let require = match msg.headers().get(&HeaderName::Require) {
        Some(v) => chars_of(v.as_str()),
        None => {
            return None;
        },
    };
    if !has_text(require.as_slice(), "100rel") {
        return None;
    }
    let number = match msg.headers().get(&HeaderName::RSeq) {
        Some(v) => chars_of(v.as_str()),
        None => {
            return None;
        },
    };
    let rseq = match parse_uint(trim(number.as_slice()), 0xffff_ffff) {
        Some(n) => n as u32,
        None => {
            return None;
        },
    };
    match msg.cseq() {
        Some((n, method)) => Some((rseq, (n, method.to_string()))),
        None => Some((rseq, (1, "INVITE".to_owned()))),
    }
}

fn media_of(msg: &SipMessage, addr: &Option<Endpoint>) -> (r: Option<(Endpoint, Option<u8>)>)
    ensures
        match r {
            Some((a, dtmf)) => media_in(msg@, opt_endpoint(*addr)) == Some((a@, dtmf)),
            None => media_in(msg@, opt_endpoint(*addr)) is None,
        },
{
    match msg.body() {
        Some(b) => match parse_sdp_rtp_addr(b) {
            Some((_, dtmf)) => match addr {
                Some(a) => Some((a.clone(), dtmf)),
                None => None,
            },
            None => None,
        },
        None => None,
    }
}

/// The address for media in the body of a message, as text.
pub fn media_address(msg: &SipMessage) -> (r: Option<String>)
    ensures
        match r {
            Some(t) => msg@.body() is Some && media_target(msg@.body()->0) is Some && t@
                == (media_target(msg@.body()->0)->0).0,
            None => msg@.body() is None || media_target(msg@.body()->0) is None,
        },
{
    match msg.body() {
        Some(b) => match parse_sdp_rtp_addr(b) {
            Some((t, _)) => Some(t),
            None => None,
        },
        None => None,
    }
}

impl Call {
    /// What holds of every call.
    pub closed spec fn wf(&self) -> bool {
        self.phone.wf()
    }

    /// A call that the phone has placed or taken, with the recording that was
    /// asked for.
    pub fn new(phone: SoftPhone, recorder: Option<AudioRecorder>) -> (r: Self)
        requires
            phone.wf(),
        ensures
            r.wf(),
            r@ == (CallView {
                phone: phone@,
                recorder: opt_recording(recorder),
                live: None,
                recording: recorder is Some,
                receiving: false,
                connected: false,
                muted: false,
                announced_rx: false,
                announced_tx: false,
            }),
    {
        let recording = recorder.is_some();
        Call {
            phone,
            recorder,
            live: None,
            recording,
            receiving: false,
            connected: false,
            muted: false,
            announced_rx: false,
            announced_tx: false,
        }
    }

    /// The phone after the call, and the recording that was asked for before it.
    /// A recording that was begun during the call is kept in the phone.
    pub fn finish(self) -> (r: (SoftPhone, Option<AudioRecorder>))
        requires
            self.wf(),
        ensures
            r.0.wf(),
            r.0@ == (PhoneView { live: self@.live, ..self@.phone }),
            opt_recording(r.1) == self@.recorder,
    {
        let mut phone = self.phone;
        phone.keep_live_recording(self.live);
        (phone, self.recorder)
    }

    /// Whether a message can be taken in.
    pub fn takes_in(&self, msg: &SipMessage) -> (r: bool)
        requires
            self.wf(),
        ensures
            r == takes_in(self@, msg@),
    {
        if !self.phone.can_number() {
            return false;
        }
        let dialog = match self.phone.dialog() {
            Some(d) => d,
            None => {
                return true;
            },
        };
        let res = match msg {
            SipMessage::Response(res) => res,
            SipMessage::Request(_) => {
                return true;
            },
        };
        match res.headers.get(&HeaderName::CallId) {
            Some(v) => if !same_text(v.as_str(), dialog.call_id.as_str()) {
                return true;
            },
            None => {
                return true;
            },
        }
        match res.headers.get(&HeaderName::Contact) {
            Some(v) => has_ordered_brackets(v.as_str()),
            None => true,
        }
    }

    fn record(&mut self, frame: &Vec<i16>)
        requires
            old(self).wf(),
        ensures
            final(self).wf(),
            final(self)@ == recorded(old(self)@, frame@),
    {
        if self.recording {
            match &mut self.recorder {
                Some(rec) => rec.record_frame(frame.as_slice()),
                None => match &mut self.live {
                    Some(rec) => rec.record_frame(frame.as_slice()),
                    None => {},
                },
            }
        }
    }

    fn hear_key(&mut self, e: DtmfEvent, out: &mut Vec<CallAction>)
        requires
            old(self).wf(),
        ensures
            final(self).wf(),
            final(self)@ == on_key(old(self)@, e).0,
            acts(final(out)@) == acts(old(out)@) + on_key(old(self)@, e).1,
    {
        if e.end && self.phone.heard_key(e.digit, e.timestamp) {
            let mut s = "DTMF received (RTP RFC2833): ".to_owned();
            s.push(e.digit);
            put_text(out, Tone::Event, s);
        }
        assert(acts(out@) =~= acts(old(out)@) + on_key(old(self)@, e).1);
    }

    fn flow_line(way: &str, codec: CodecType) -> (r: String)
        ensures
            r@ == flow_text(way@, codec),
    {
        let mut s = "Audio ".to_owned();
        s.append(way);
        s.append(" active: codec=");
        s.append(codec.to_string().as_str());
        s.append(" PT=");
        push_dec(&mut s, codec.payload_type() as u64);
        s.append(" rate=");
        push_dec(&mut s, codec.clock_rate() as u64);
        s.append("Hz");
        s
    }

    fn tell_hearing(&self, out: &mut Vec<CallAction>)
        requires
            self.wf(),
        ensures
            acts(final(out)@) == acts(old(out)@) + hearing(self@.phone),
    {
        match self.phone.rtp_session() {
            Some(s) => {
                let stats = s.stats();
                put_text(out, Tone::Status, Call::flow_line("RX", stats.codec));
                if let Some(call_id) = self.phone.active_call_id() {
                    put(
                        out,
                        CallAction::TraceMedia {
                            call_id,
                            from: stats.remote_addr,
                            to: stats.local_addr,
                            label: "RTP audio flow active (RX)".to_owned(),
                        },
                    );
                }
            },
            None => put_line(out, Tone::Status, "Audio RX active."),
        }
        assert(acts(out@) =~= acts(old(out)@) + hearing(self@.phone));
    }

    /// What is heard is played, and recorded where a recording goes on.
    pub fn on_media(&mut self, event: ReceiveEvent) -> (r: Vec<CallAction>)
        requires
            old(self).wf(),
        ensures
            final(self).wf(),
            (final(self)@, acts(r@)) == on_media(old(self)@, event@),
    {
        let mut out: Vec<CallAction> = Vec::new();
        assert(acts(out@) =~= seq![]);
        match event {
            ReceiveEvent::Audio(frame) => {
                if !self.announced_rx {
                    self.tell_hearing(&mut out);
                    self.announced_rx = true;
                }
                self.record(&frame);
                put(&mut out, CallAction::Play(frame));
            },
            ReceiveEvent::Dtmf(e) => self.hear_key(e, &mut out),
        }
        assert(acts(out@) =~= on_media(old(self)@, event@).1);
        out
    }

    /// Whether a backlog of media is worked off at once, because it is recorded.
    pub fn works_off_backlog(&self) -> (r: bool)
        ensures
            r == (self@.recording && (self@.recorder is Some || self@.live is Some)),
    {
        self.recording && (self.recorder.is_some() || self.live.is_some())
    }

    /// What is heard while a backlog is worked off is recorded, and not played.
    pub fn on_backlog(&mut self, event: ReceiveEvent) -> (r: Vec<CallAction>)
        requires
            old(self).wf(),
        ensures
            final(self).wf(),
            (final(self)@, acts(r@)) == on_backlog(old(self)@, event@),
    {
        let mut out: Vec<CallAction> = Vec::new();
        assert(acts(out@) =~= seq![]);
        match event {
            ReceiveEvent::Audio(frame) => self.record(&frame),
            ReceiveEvent::Dtmf(e) => self.hear_key(e, &mut out),
        }
        assert(acts(out@) =~= on_backlog(old(self)@, event@).1);
        out
    }

    fn acknowledge(
        &mut self,
        msg: &SipMessage,
        source: &Endpoint,
        branch: &str,
        out: &mut Vec<CallAction>,
    )
        requires
            old(self).wf(),
            old(self)@.phone.dialog is Some,
            old(self)@.phone.can_number(),
        ensures
            final(self).wf(),
            final(self)@ == acknowledge(old(self)@, msg@, source@, branch@).0,
            acts(final(out)@) == acts(old(out)@) + acknowledge(
                old(self)@,
                msg@,
                source@,
                branch@,
            ).1,
    {
        if let Some((rseq, (n, method))) = reliable_of(msg) {
            let sent = self.phone.send_prack(rseq, n, method.as_str(), branch);
            if let Ok(message) = sent {
                let mut done = "PRACK sent for RSeq ".to_owned();
                push_dec(&mut done, rseq as u64);
                put(
                    out,
                    CallAction::Send {
                        message,
                        to: source.clone(),
                        traced: false,
                        sending: Sending::Told { done, failed: "Failed to send PRACK: ".to_owned() },
                    },
                );
            }
        }
        assert(acts(out@) =~= acts(old(out)@) + acknowledge(
            old(self)@,
            msg@,
            source@,
            branch@,
        ).1);
    }

    fn trace_media(
        &self,
        from: Endpoint,
        to: &Endpoint,
        label: &str,
        out: &mut Vec<CallAction>,
    )
        requires
            self@.phone.dialog is Some,
        ensures
            acts(final(out)@) == acts(old(out)@).push(
                ActionView::TraceMedia {
                    call_id: self@.phone.dialog->0.call_id,
                    from: from@,
                    to: to@,
                    label: label@,
                },
            ),
    {
        let call_id = match self.phone.dialog() {
            Some(d) => d.call_id.clone(),
            None => String::new(),
        };
        put(
            out,
            CallAction::TraceMedia { call_id, from, to: to.clone(), label: label.to_owned() },
        );
    }

    fn early_media(&mut self, msg: &SipMessage, addr: &Option<Endpoint>, out: &mut Vec<CallAction>)
        requires
            old(self).wf(),
            old(self)@.phone.dialog is Some,
        ensures
            final(self).wf(),
            final(self)@ == early_media(old(self)@, msg@, opt_endpoint(*addr)).0,
            acts(final(out)@) == acts(old(out)@) + early_media(
                old(self)@,
                msg@,
                opt_endpoint(*addr),
            ).1,
    {
        if let Some((a, dtmf)) = media_of(msg, addr) {
            self.phone.set_remote_dtmf(dtmf);
            if !self.receiving {
                if let Some(local) = self.phone.point_media(&a) {
                    put_two(out, Tone::Status, "Early media: RTP remote ", a.to_string().as_str());
                    self.trace_media(local, &a, "Early media RTP announced (183)", out);
                    put(out, CallAction::Receive(dtmf));
                    self.receiving = true;
                    self.connected = true;
                }
            }
        }
        assert(acts(out@) =~= acts(old(out)@) + early_media(
            old(self)@,
            msg@,
            opt_endpoint(*addr),
        ).1);
    }

    fn call_media(&mut self, msg: &SipMessage, addr: &Option<Endpoint>, out: &mut Vec<CallAction>)
        requires
            old(self).wf(),
            old(self)@.phone.dialog is Some,
        ensures
            final(self).wf(),
            final(self)@ == call_media(old(self)@, msg@, opt_endpoint(*addr)).0,
            acts(final(out)@) == acts(old(out)@) + call_media(
                old(self)@,
                msg@,
                opt_endpoint(*addr),
            ).1,
    {
        if let Some((a, dtmf)) = media_of(msg, addr) {
            self.phone.set_remote_dtmf(dtmf);
            if let Some(t) = dtmf {
                let mut s = "Remote DTMF RTP payload type: ".to_owned();
                push_dec(&mut s, t as u64);
                put_text(out, Tone::Info, s);
            }
            if let Some(local) = self.phone.point_media(&a) {
                put_two(out, Tone::Info, "RTP remote: ", a.to_string().as_str());
                self.trace_media(local, &a, "Connected call RTP announced (200 OK)", out);
                if !self.receiving {
                    put(out, CallAction::Receive(dtmf));
                    self.receiving = true;
                }
                self.connected = true;
            }
        }
        assert(acts(out@) =~= acts(old(out)@) + call_media(
            old(self)@,
            msg@,
            opt_endpoint(*addr),
        ).1);
    }

    fn put_ack(&self, source: &Endpoint, branch: &str, sending: Sending, out: &mut Vec<CallAction>)
        requires
            self@.phone.dialog is Some,
        ensures
            acts(final(out)@) == acts(old(out)@).push(
                ActionView::Send {
                    message: ack_of(self@.phone.dialog->0, self@.phone.local, branch@),
                    to: source@,
                    traced: true,
                    sending: sending@,
                },
            ),
    {
        if let Some(message) = self.phone.ack(branch) {
            put(out, CallAction::Send { message, to: source.clone(), traced: true, sending });
        }
    }

    fn flow(&self) -> (r: Flow)
        ensures
            r@ == ended(self@),
    {
        match self.phone.dialog() {
            Some(d) => if d.is_terminated() {
                Flow::End
            } else {
                Flow::Go
            },
            None => Flow::Go,
        }
    }

    #[verifier::rlimit(60)]
    #[verifier::spinoff_prover]
    fn on_response(
        &mut self,
        msg: &SipMessage,
        status: &StatusCode,
        source: &Endpoint,
        addr: &Option<Endpoint>,
        branch: &str,
    ) -> (r: Step)
        requires
            old(self).wf(),
            old(self)@.phone.dialog is Some,
            takes_in(old(self)@, msg@),
            msg@ is Response,
            status.0 == msg@->Response_0.status,
        ensures
            final(self).wf(),
            (final(self)@, r@) == on_response(
                old(self)@,
                msg@->Response_0,
                source@,
                opt_endpoint(*addr),
                branch@,
            ),
    {
        self.phone.process_response(msg);
        assert(self@ == after_reply(old(self)@, msg@));
        let mut out: Vec<CallAction> = Vec::new();
        assert(acts(out@) =~= seq![]);
        let mut text = String::new();
        push_status(&mut text, status);
        assert(text@ =~= status_text(status.0));
        if status.is_provisional() {
            put_two(&mut out, Tone::Info, "Call progress: ", text.as_str());
            self.acknowledge(msg, source, branch, &mut out);
            if status.0 == 183 {
                self.early_media(msg, addr, &mut out);
            }
            let flow = self.flow();
            assert(acts(out@) =~= on_response(
                old(self)@,
                msg@->Response_0,
                source@,
                opt_endpoint(*addr),
                branch@,
            ).1.actions);
            Step { actions: out, flow }
        } else if status.is_success() {
            put_line(&mut out, Tone::Success, "Call connected!");
            self.phone.set_remote(source.clone());
            self.call_media(msg, addr, &mut out);
            self.put_ack(source, branch, Sending::Must, &mut out);
            let flow = self.flow();
            assert(acts(out@) =~= on_response(
                old(self)@,
                msg@->Response_0,
                source@,
                opt_endpoint(*addr),
                branch@,
            ).1.actions);
            Step { actions: out, flow }
        } else if status.is_error() {
            put_two(&mut out, Tone::Error, "Call failed: ", text.as_str());
            self.put_ack(source, branch, Sending::May, &mut out);
            assert(acts(out@) =~= on_response(
                old(self)@,
                msg@->Response_0,
                source@,
                opt_endpoint(*addr),
                branch@,
            ).1.actions);
            Step { actions: out, flow: Flow::Fail(PhoneError::CallFailed(text)) }
        } else {
            let flow = self.flow();
            Step { actions: out, flow }
        }
    }

    fn on_direction(&mut self, msg: &SipMessage, out: &mut Vec<CallAction>)
        requires
            old(self).wf(),
        ensures
            final(self).wf(),
            final(self)@ == on_direction(old(self)@, msg@).0,
            acts(final(out)@) == acts(old(out)@) + on_direction(old(self)@, msg@).1,
    {
        if let Some(b) = msg.body() {
            if let Ok(sdp) = SdpSession::parse(b) {
                let hold: u8 = match sdp.get_audio_direction() {
                    Some(t) => if same_text(t, "sendonly") {
                        1
                    } else if same_text(t, "inactive") {
                        2
                    } else {
                        0
                    },
                    None => 0,
                };
                if hold == 1 {
                    put_line(out, Tone::Warning, "Remote put call on hold");
                    self.phone.set_on_hold(true);
                } else if hold == 2 {
                    put_line(out, Tone::Warning, "Remote put call on hold (inactive)");
                    self.phone.set_on_hold(true);
                } else if self.phone.is_on_hold() {
                    put_line(out, Tone::Success, "Remote resumed call");
                    self.phone.set_on_hold(false);
                }
            }
        }
        assert(acts(out@) =~= acts(old(out)@) + on_direction(old(self)@, msg@).1);
    }

    fn put_reply(
        req: &SipRequest,
        status: u16,
        source: &Endpoint,
        traced: bool,
        sending: Sending,
        out: &mut Vec<CallAction>,
    )
        ensures
            acts(final(out)@) == acts(old(out)@).push(
                respond(plain_reply(req@, status), source@, traced, sending@),
            ),
    {
        put(
            out,
            CallAction::Send {
                message: build_reply(req, status),
                to: source.clone(),
                traced,
                sending,
            },
        );
    }

    fn on_request(
        &mut self,
        msg: &SipMessage,
        req: &SipRequest,
        source: &Endpoint,
        branch: &str,
        session_id: u32,
    ) -> (r: Step)
        requires
            old(self).wf(),
            old(self)@.phone.dialog is Some,
            takes_in(old(self)@, msg@),
            msg@ == MessageView::Request(req@),
        ensures
            final(self).wf(),
            (final(self)@, r@) == on_request(old(self)@, req@, source@, branch@, session_id),
    {
        let ghost want = on_request(old(self)@, req@, source@, branch@, session_id);
        let mut out: Vec<CallAction> = Vec::new();
        assert(acts(out@) =~= seq![]);
        match &req.method {
            SipMethod::Bye => {
                put_line(&mut out, Tone::Event, "Remote party hung up");
                Call::put_reply(req, StatusCode::OK, source, true, Sending::May, &mut out);
                self.phone.process_bye(msg);
                assert(acts(out@) =~= want.1.actions);
                return Step { actions: out, flow: Flow::End };
            },
            SipMethod::Info => {
                match parse_info_dtmf(msg.body()) {
                    Some((digit, duration)) => {
                        let mut s = "DTMF received (SIP INFO): ".to_owned();
                        s.push(digit);
                        s.append(" (duration ");
                        push_dec(&mut s, duration as u64);
                        s.append(")");
                        put_text(&mut out, Tone::Event, s);
                    },
                    None => put_line(&mut out, Tone::Info, "SIP INFO received"),
                }
                Call::put_reply(req, StatusCode::OK, source, true, Sending::Must, &mut out);
            },
            SipMethod::Invite => {
                put_line(&mut out, Tone::Event, "Re-INVITE received");
                self.on_direction(msg, &mut out);
                put(
                    &mut out,
                    CallAction::Send {
                        message: self.phone.answer_reinvite(req, session_id),
                        to: source.clone(),
                        traced: true,
                        sending: Sending::Must,
                    },
                );
            },
            SipMethod::Refer => match req.headers.get(&HeaderName::ReferTo) {
                Some(who) => {
                    put_two(&mut out, Tone::Event, "Transfer requested to: ", who.as_str());
                    Call::put_reply(
                        req,
                        StatusCode::ACCEPTED,
                        source,
                        true,
                        Sending::Must,
                        &mut out,
                    );
                    if let Some(message) = self.phone.notify(branch) {
                        put(
                            &mut out,
                            CallAction::Send {
                                message,
                                to: source.clone(),
                                traced: false,
                                sending: Sending::Must,
                            },
                        );
                    }
                },
                None => Call::put_reply(
                    req,
                    StatusCode::BAD_REQUEST,
                    source,
                    false,
                    Sending::Must,
                    &mut out,
                ),
            },
            SipMethod::Notify => {
                if let Some(b) = msg.body() {
                    let cs = chars_of(b);
                    put_two(
                        &mut out,
                        Tone::Info,
                        "NOTIFY: ",
                        string_of(trim(cs.as_slice())).as_str(),
                    );
                }
                Call::put_reply(req, StatusCode::OK, source, false, Sending::Must, &mut out);
            },
            _ => {},
        }
        assert(acts(out@) =~= want.1.actions);
        let flow = self.flow();
        Step { actions: out, flow }
    }

    /// Takes in a message from `source`. `addr` is what the address for media in
    /// its body reads as, if it is one.
    pub fn on_message(
        &mut self,
        msg: &SipMessage,
        source: &Endpoint,
        addr: &Option<Endpoint>,
        fresh: &Fresh,
    ) -> (r: Step)
        requires
            old(self).wf(),
            takes_in(old(self)@, msg@),
        ensures
            final(self).wf(),
            (final(self)@, r@) == on_message(
                old(self)@,
                msg@,
                source@,
                opt_endpoint(*addr),
                fresh.branch@,
                fresh.session_id,
            ),
    {
        if self.phone.dialog().is_none() {
            let out: Vec<CallAction> = Vec::new();
            assert(acts(out@) =~= seq![]);
            return Step { actions: out, flow: Flow::Go };
        }
        let branch = fresh.branch.as_str();
        match msg {
            SipMessage::Response(res) => self.on_response(msg, &res.status, source, addr, branch),
            SipMessage::Request(req) => self.on_request(
                msg,
                req,
                source,
                branch,
                fresh.session_id,
            ),
        }
    }
}

// ---------------------------------------------------------------------------
// Commands
// ---------------------------------------------------------------------------

/// One thing to tell the user.
pub open spec fn told(c: CallView, tone: Tone, text: Seq<char>) -> (CallView, StepView) {
    (c, StepView { actions: seq![say(tone, text)], flow: FlowView::Go })
}

/// A request of the user that needs a dialog; without one the user is told
/// that it failed.
pub open spec fn ask(
    c: CallView,
    message: MessageView,
    request: UserRequestView,
    failed: Seq<char>,
) -> (CallView, StepView) {
    if c.phone.dialog is None {
        told(c, Tone::Error, failed + PhoneErrorView::NoDialog.message())
    } else {
        (
            CallView { phone: c.phone.numbered(), ..c },
            StepView {
                actions: seq![ActionView::Request { message, request }],
                flow: FlowView::Go,
            },
        )
    }
}

/// The call is to be handed over.
pub open spec fn transfer(c: CallView, who: Seq<char>, branch: Seq<char>) -> (CallView, StepView) {
    ask(
        c,
        refer_request(
            c.phone.dialog->0,
            c.phone.local,
            branch,
            c.phone.next_number(),
            with_scheme(who),
        ),
        UserRequestView::Transfer(who),
        "Transfer failed: "@,
    )
}

/// The warnings for characters that stand on no key.
pub open spec fn key_warnings(refused: Seq<char>) -> Seq<ActionView> {
    Seq::new(
        refused.len(),
        |i: int|
            say(
                Tone::Warning,
                "Ignoring unsupported DTMF digit '"@.push(refused[i]) + "'"@,
            ),
    )
}

/// Keys are put into the queue.
pub open spec fn queue_keys(
    c: CallView,
    digits: Seq<char>,
    method: DtmfMethod,
    how: Seq<char>,
) -> (CallView, StepView) {
    let keys = waiting_keys(digits, method);
    (
        CallView { phone: PhoneView { queue: c.phone.queue + keys, ..c.phone }, ..c },
        StepView {
            actions: key_warnings(refused_keys(digits)) + (if keys.len() > 0 {
                seq![
                    say(
                        Tone::Status,
                        "Queued "@ + dec(keys.len()) + " DTMF digit(s) for "@ + how + "."@,
                    ),
                ]
            } else {
                seq![]
            }),
            flow: FlowView::Go,
        },
    )
}

/// What a command calls for. `traced` is the number of messages that have been
/// traced, `captures` whether there is anything traced to show, and `dials` the
/// addresses by slot.
pub open spec fn on_command(
    c: CallView,
    cmd: CommandView,
    traced: nat,
    captures: bool,
    dials: SiprConfig,
    branch: Seq<char>,
    session_id: u32,
) -> (CallView, StepView) {
    let d = c.phone.dialog->0;
    match cmd {
        CommandView::Help => (
            c,
            StepView { actions: seq![ActionView::ShowHelp], flow: FlowView::Go },
        ),
        CommandView::Record(file) => if c.recorder is Some || c.live is Some {
            told(CallView { recording: true, ..c }, Tone::Status, "Recording resumed."@)
        } else {
            match file {
                None => told(c, Tone::Warning, "Usage: record <filename.wav>"@),
                Some(path) => told(
                    CallView {
                        phone: PhoneView { record_path: Some(path), ..c.phone },
                        live: Some((seq![], 8000)),
                        recording: true,
                        ..c
                    },
                    Tone::Status,
                    "Recording to: "@ + path,
                ),
            }
        },
        CommandView::Stop => if c.recording {
            (
                CallView { recording: false, ..c },
                StepView {
                    actions: if c.recorder is Some || c.live is Some {
                        seq![ActionView::ShowPause]
                    } else {
                        seq![]
                    },
                    flow: FlowView::Go,
                },
            )
        } else {
            told(c, Tone::Info, "Not recording."@)
        },
        CommandView::Mute => told(
            CallView { muted: true, ..c },
            Tone::Warning,
            "Muted (outgoing audio silenced)"@,
        ),
        CommandView::Unmute => told(CallView { muted: false, ..c }, Tone::Status, "Unmuted"@),
        CommandView::Stats => (
            c,
            StepView { actions: seq![ActionView::ShowStats], flow: FlowView::Go },
        ),
        CommandView::StopTrace => (
            c,
            StepView {
                actions: seq![
                    ActionView::StopTrace,
                    say(
                        Tone::Info,
                        "SIP tracing stopped ("@ + dec(traced) + " messages captured)."@,
                    ),
                ],
                flow: FlowView::Go,
            },
        ),
        CommandView::Trace { verbose } => (
            c,
            StepView {
                actions: seq![
                    ActionView::StartTrace { verbose },
                    say(
                        Tone::Status,
                        "SIP tracing started"@ + (if verbose {
                            " (verbose)"@
                        } else {
                            ""@
                        }) + ". All SIP messages will be displayed."@,
                    ),
                    say(Tone::Info, "  'sniff stop' to stop, 'flows' to show diagrams."@),
                ],
                flow: FlowView::Go,
            },
        ),
        CommandView::Flows => if captures {
            (
                c,
                StepView {
                    actions: seq![ActionView::ShowSummary, ActionView::ShowFlows],
                    flow: FlowView::Go,
                },
            )
        } else {
            told(
                c,
                Tone::Info,
                "No SIP/RTP messages captured. Start tracing with 'sniff' first."@,
            )
        },
        CommandView::Keys(digits) => match digits {
            None => told(c, Tone::Warning, "Usage: dtmf <digits>"@),
            Some(s) => queue_keys(c, s, DtmfMethod::Rfc2833, "RTP RFC2833"@),
        },
        CommandView::InfoKeys(digits) => match digits {
            None => told(c, Tone::Warning, "Usage: dtmf-info <digits>"@),
            Some(s) => queue_keys(c, s, DtmfMethod::SipInfo, "SIP INFO"@),
        },
        CommandView::SendKeys => (
            c,
            StepView { actions: seq![ActionView::SendKeys], flow: FlowView::Go },
        ),
        CommandView::CountKeys => told(
            c,
            Tone::Info,
            "Queued DTMF digits: "@ + dec(c.phone.queue.len()),
        ),
        CommandView::Hold => if c.phone.on_hold {
            told(c, Tone::Info, "Already on hold."@)
        } else {
            ask(
                c,
                reinvite_request(
                    d,
                    c.phone.local,
                    branch,
                    c.phone.next_number(),
                    c.phone.session_text(session_id, "sendonly"@),
                ),
                UserRequestView::Hold,
                "Hold failed: "@,
            )
        },
        CommandView::Resume => if !c.phone.on_hold {
            told(c, Tone::Info, "Call is not on hold."@)
        } else {
            ask(
                c,
                reinvite_request(
                    d,
                    c.phone.local,
                    branch,
                    c.phone.next_number(),
                    c.phone.session_text(session_id, "sendrecv"@),
                ),
                UserRequestView::Resume,
                "Resume failed: "@,
            )
        },
        CommandView::Transfer(who) => match who {
            None => told(c, Tone::Warning, "Usage: transfer <sip:user@host>"@),
            Some(uri) => transfer(c, uri, branch),
        },
        CommandView::Speed(slot) => match slot {
            None => told(c, Tone::Warning, "Usage: speed <0-9>"@),
            Some(k) => match dials.spec_speed_dial(k) {
                None => told(c, Tone::Warning, "No speed dial in slot '"@ + k + "'."@),
                Some(uri) => transfer(c, uri, branch),
            },
        },
        CommandView::Hangup => if c.phone.dialog is None {
            (
                c,
                StepView {
                    actions: seq![
                        say(Tone::Info, "Hanging up..."@),
                        say(Tone::Warning, "No active dialog to hang up."@),
                    ],
                    flow: FlowView::End,
                },
            )
        } else {
            (
                CallView { phone: c.phone.numbered(), ..c },
                StepView {
                    actions: seq![
                        say(Tone::Info, "Hanging up..."@),
                        ActionView::Bye {
                            message: built_request(
                                in_dialog(
                                    MethodView::Bye,
                                    d,
                                    c.phone.local,
                                    branch,
                                    c.phone.next_number(),
                                ),
                            ),
                            cseq: c.phone.next_number(),
                        },
                    ],
                    flow: FlowView::Go,
                },
            )
        },
        CommandView::Unknown(word) => told(
            c,
            Tone::Warning,
            "Unknown command '"@ + word + "'. Type 'help' for commands."@,
        ),
    }
}

/// The error that there is, if any.
pub open spec fn opt_error(e: Option<PhoneError>) -> Option<PhoneErrorView> {
    match e {
        Some(x) => Some(x@),
        None => None,
    }
}

/// What becomes of a request of the user: the user is told, and the hold is
/// noted where it was about that.
pub open spec fn on_request_done(
    c: CallView,
    request: UserRequestView,
    failed: Option<PhoneErrorView>,
) -> Outcome {
    match failed {
        None => match request {
            UserRequestView::Hold => (
                held(c, true),
                seq![say(Tone::Warning, "Call on hold (re-INVITE sent with a=sendonly)"@)],
            ),
            UserRequestView::Resume => (
                held(c, false),
                seq![say(Tone::Success, "Call resumed (re-INVITE sent with a=sendrecv)"@)],
            ),
            UserRequestView::Transfer(who) => (
                c,
                seq![say(Tone::Status, "REFER sent to transfer call to "@ + who)],
            ),
        },
        Some(e) => (
            c,
            seq![
                say(
                    Tone::Error,
                    (match request {
                        UserRequestView::Hold => "Hold failed: "@,
                        UserRequestView::Resume => "Resume failed: "@,
                        UserRequestView::Transfer(_) => "Transfer failed: "@,
                    }) + e.message(),
                ),
            ],
        ),
    }
}

/// How long the response to the request that ends a call is awaited, in
/// milliseconds.
pub const HANGUP_WAIT_MS: u64 = 3000;

/// How often a frame of audio is sent, in milliseconds.
pub const FRAME_INTERVAL_MS: u64 = 20;

/// How long a frame of the microphone is awaited, in milliseconds.
pub const MICROPHONE_WAIT_MS: u64 = 5;

/// What became of the request that ends the call.
#[derive(Debug, Clone, Copy, PartialEq, Eq, Structural)]
pub enum ByeOutcome {
    /// There is nowhere to send it.
    NoAddress,
    /// It was accepted.
    Accepted,
    /// It was refused.
    Refused,
    /// There was no response in time.
    NoReply,
}

/// The call after the request that ends it: the dialog and the media session
/// are over, whatever became of the request.
pub open spec fn on_bye_done(c: CallView, outcome: ByeOutcome, captures: bool) -> (
    CallView,
    StepView,
) {
    (
        CallView {
            phone: PhoneView {
                dialog: match c.phone.dialog {
                    Some(d) => Some(DialogView { state: DialogState::Terminated, ..d }),
                    None => None,
                },
                rtp: None,
                ..c.phone
            },
            ..c
        },
        StepView {
            actions: seq![
                (match outcome {
                    ByeOutcome::NoAddress => say(
                        Tone::Warning,
                        "No remote SIP address for BYE; ending locally."@,
                    ),
                    ByeOutcome::Accepted => say(
                        Tone::Success,
                        "Hangup acknowledged (200 OK)."@,
                    ),
                    ByeOutcome::Refused => say(
                        Tone::Warning,
                        "Received non-200 response to BYE; ending call."@,
                    ),
                    ByeOutcome::NoReply => say(
                        Tone::Warning,
                        "No BYE response within 3 seconds; ending call."@,
                    ),
                }),
            ] + (if captures {
                seq![ActionView::ShowSummary, ActionView::ShowFlows]
            } else {
                seq![]
            }),
            flow: FlowView::End,
        },
    )
}

/// Whether a message is the response to the request that ends the call, and
/// says that it was accepted.
pub open spec fn answers_bye(m: MessageView, cseq: u32) -> Option<bool> {
    match m {
        MessageView::Response(res) => if m.cseq() == Some((cseq, MethodView::Bye)) {
            Some(200 <= res.status <= 299)
        } else {
            None
        },
        MessageView::Request(_) => None,
    }
}

/// Whether a message is the response to the request that ends the call, and
/// says that it was accepted.
pub fn bye_reply(msg: &SipMessage, cseq: u32) -> (r: Option<bool>)
    ensures
        r == answers_bye(msg@, cseq),
{
    match msg {
        SipMessage::Response(res) => match msg.cseq() {
            Some((n, method)) => if n == cseq && method.same(&SipMethod::Bye) {
                Some(res.status.is_success())
            } else {
                None
            },
            None => None,
        },
        SipMessage::Request(_) => None,
    }
}

fn put_key_warnings(refused: &Vec<char>, out: &mut Vec<CallAction>)
    ensures
        acts(final(out)@) == acts(old(out)@) + key_warnings(refused@),
{
    let n: usize = refused.len();
    let mut i: usize = 0;
    let ghost all = key_warnings(refused@);
    assert(acts(out@) =~= acts(old(out)@) + all.take(0));
    while i < n
        invariant
            n == refused@.len(),
            all == key_warnings(refused@),
            i <= n,
            acts(out@) == acts(old(out)@) + all.take(i as int),
        decreases n - i,
    {
        let mut s = "Ignoring unsupported DTMF digit '".to_owned();
        s.push(refused[i]);
        s.append("'");
        put_text(out, Tone::Warning, s);
        i = i + 1;
        assert(acts(out@) =~= acts(old(out)@) + all.take(i as int));
    }
    assert(all.take(n as int) =~= all);
}

/// A step that goes on after one thing that the user is told.
fn step_line(tone: Tone, text: &str) -> (r: Step)
    ensures
        r@ == (StepView { actions: seq![say(tone, text@)], flow: FlowView::Go }),
{
    let mut out: Vec<CallAction> = Vec::new();
    assert(acts(out@) =~= seq![]);
    put_line(&mut out, tone, text);
    assert(acts(out@) =~= seq![say(tone, text@)]);
    Step { actions: out, flow: Flow::Go }
}

/// A step that goes on after one action.
fn step_one(a: CallAction) -> (r: Step)
    ensures
        r@ == (StepView { actions: seq![a@], flow: FlowView::Go }),
{
    let mut out: Vec<CallAction> = Vec::new();
    assert(acts(out@) =~= seq![]);
    put(&mut out, a);
    assert(acts(out@) =~= seq![a@]);
    Step { actions: out, flow: Flow::Go }
}

/// A step for a request of the user, or for its failure.
fn step_request(sent: Result<SipMessage, PhoneError>, request: UserRequest, failed: &str) -> (r:
    Step)
    ensures
        r@ == (match sent {
            Ok(m) => StepView {
                actions: seq![ActionView::Request { message: m@, request: request@ }],
                flow: FlowView::Go,
            },
            Err(e) => StepView {
                actions: seq![say(Tone::Error, failed@ + e@.message())],
                flow: FlowView::Go,
            },
        }),
{
    match sent {
        Ok(message) => step_one(CallAction::Request { message, request }),
        Err(e) => {
            let mut s = failed.to_owned();
            s.append(e.to_string().as_str());
            step_line(Tone::Error, s.as_str())
        },
    }
}

impl Call {
    fn queue_keys(&mut self, digits: &str, method: DtmfMethod, how: &str) -> (r: Step)
        requires
            old(self).wf(),
        ensures
            final(self).wf(),
            (final(self)@, r@) == queue_keys(old(self)@, digits@, method, how@),
    {
        let (n, refused) = match method {
            DtmfMethod::Rfc2833 => self.phone.queue_rfc2833_dtmf(digits),
            DtmfMethod::SipInfo => self.phone.queue_sip_info_dtmf(digits),
        };
        let mut out: Vec<CallAction> = Vec::new();
        assert(acts(out@) =~= seq![]);
        put_key_warnings(&refused, &mut out);
        if n > 0 {
            let mut s = "Queued ".to_owned();
            push_dec(&mut s, n as u64);
            s.append(" DTMF digit(s) for ");
            s.append(how);
            s.append(".");
            put_text(&mut out, Tone::Status, s);
        }
        assert(acts(out@) =~= queue_keys(old(self)@, digits@, method, how@).1.actions);
        Step { actions: out, flow: Flow::Go }
    }

    fn transfer(&mut self, who: &str, fresh: &Fresh) -> (r: Step)
        requires
            old(self).wf(),
            old(self)@.phone.can_number(),
        ensures
            final(self).wf(),
            (final(self)@, r@) == transfer(old(self)@, who@, fresh.branch@),
    {
        let sent = self.phone.transfer(who, fresh);
        step_request(sent, UserRequest::Transfer(who.to_owned()), "Transfer failed: ")
    }

    fn record_to(&mut self, file: &Option<String>) -> (r: Step)
        requires
            old(self).wf(),
        ensures
            final(self).wf(),
            forall|traced: nat, captures: bool, dials: SiprConfig, branch: Seq<char>, id: u32|
                (final(self)@, r@) == #[trigger] on_command(
                    old(self)@,
                    CommandView::Record(opt_text(*file)),
                    traced,
                    captures,
                    dials,
                    branch,
                    id,
                ),
    {
        if self.recorder.is_some() || self.live.is_some() {
            self.recording = true;
            return step_line(Tone::Status, "Recording resumed.");
        }
        match file {
            None => step_line(Tone::Warning, "Usage: record <filename.wav>"),
            Some(path) => {
                self.phone.set_record_path(path.as_str());
                self.live = Some(AudioRecorder::new(8000));
                self.recording = true;
                let mut s = "Recording to: ".to_owned();
                s.append(path.as_str());
                step_line(Tone::Status, s.as_str())
            },
        }
    }

    fn pause(&mut self) -> (r: Step)
        requires
            old(self).wf(),
        ensures
            final(self).wf(),
            forall|traced: nat, captures: bool, dials: SiprConfig, branch: Seq<char>, id: u32|
                (final(self)@, r@) == #[trigger] on_command(
                    old(self)@,
                    CommandView::Stop,
                    traced,
                    captures,
                    dials,
                    branch,
                    id,
                ),
    {
        if self.recording {
            self.recording = false;
            if self.recorder.is_some() || self.live.is_some() {
                step_one(CallAction::ShowPause)
            } else {
                let out: Vec<CallAction> = Vec::new();
                assert(acts(out@) =~= seq![]);
                Step { actions: out, flow: Flow::Go }
            }
        } else {
            step_line(Tone::Info, "Not recording.")
        }
    }

    fn hang_up(&mut self, fresh: &Fresh) -> (r: Step)
        requires
            old(self).wf(),
            old(self)@.phone.can_number(),
        ensures
            final(self).wf(),
            forall|traced: nat, captures: bool, dials: SiprConfig, id: u32|
                (final(self)@, r@) == #[trigger] on_command(
                    old(self)@,
                    CommandView::Hangup,
                    traced,
                    captures,
                    dials,
                    fresh.branch@,
                    id,
                ),
    {
        let mut out: Vec<CallAction> = Vec::new();
        assert(acts(out@) =~= seq![]);
        put_line(&mut out, Tone::Info, "Hanging up...");
        match self.phone.hangup(fresh) {
            Ok(message) => {
                let cseq: u32 = match self.phone.dialog() {
                    Some(d) => d.local_cseq,
                    None => 0,
                };
                let ghost bye = ActionView::Bye { message: message@, cseq };
                put(&mut out, CallAction::Bye { message, cseq });
                assert(acts(out@) =~= seq![say(Tone::Info, "Hanging up..."@), bye]);
                Step { actions: out, flow: Flow::Go }
            },
            Err(_) => {
                put_line(&mut out, Tone::Warning, "No active dialog to hang up.");
                assert(acts(out@) =~= seq![
                    say(Tone::Info, "Hanging up..."@),
                    say(Tone::Warning, "No active dialog to hang up."@),
                ]);
                Step { actions: out, flow: Flow::End }
            },
        }
    }

    fn start_trace(verbose: bool) -> (r: Step)
        ensures
            forall|c: CallView, traced: nat, captures: bool, dials: SiprConfig, branch: Seq<char>, id: u32|
                (c, r@) == #[trigger] on_command(
                    c,
                    CommandView::Trace { verbose },
                    traced,
                    captures,
                    dials,
                    branch,
                    id,
                ),
    {
        let mut out: Vec<CallAction> = Vec::new();
        assert(acts(out@) =~= seq![]);
        put(&mut out, CallAction::StartTrace { verbose });
        let mut s = "SIP tracing started".to_owned();
        s.append(if verbose {
            " (verbose)"
        } else {
            ""
        });
        s.append(". All SIP messages will be displayed.");
        let ghost text = s@;
        put_text(&mut out, Tone::Status, s);
        put_line(&mut out, Tone::Info, "  'sniff stop' to stop, 'flows' to show diagrams.");
        assert(acts(out@) =~= seq![
            ActionView::StartTrace { verbose },
            say(Tone::Status, text),
            say(Tone::Info, "  'sniff stop' to stop, 'flows' to show diagrams."@),
        ]);
        Step { actions: out, flow: Flow::Go }
    }

    /// Carries out a command. `traced` is the number of messages that have been
    /// traced, `captures` whether there is anything traced to show.
    #[verifier::rlimit(60)]
    #[verifier::spinoff_prover]
    pub fn on_command(
        &mut self,
        cmd: &Command,
        traced: usize,
        captures: bool,
        dials: &SiprConfig,
        fresh: &Fresh,
    ) -> (r: Step)
        requires
            old(self).wf(),
            old(self)@.phone.can_number(),
            dials.wf(),
        ensures
            final(self).wf(),
            (final(self)@, r@) == on_command(
                old(self)@,
                cmd@,
                traced as nat,
                captures,
                *dials,
                fresh.branch@,
                fresh.session_id,
            ),
    {
        match cmd {
            Command::Help => step_one(CallAction::ShowHelp),
            Command::Record(file) => self.record_to(file),
            Command::Stop => self.pause(),
            Command::Mute => {
                self.muted = true;
                step_line(Tone::Warning, "Muted (outgoing audio silenced)")
            },
            Command::Unmute => {
                self.muted = false;
                step_line(Tone::Status, "Unmuted")
            },
            Command::Stats => step_one(CallAction::ShowStats),
            Command::StopTrace => {
                let mut out: Vec<CallAction> = Vec::new();
                assert(acts(out@) =~= seq![]);
                put(&mut out, CallAction::StopTrace);
                let mut s = "SIP tracing stopped (".to_owned();
                push_dec(&mut s, traced as u64);
                s.append(" messages captured).");
                let ghost text = s@;
                put_text(&mut out, Tone::Info, s);
                assert(acts(out@) =~= seq![ActionView::StopTrace, say(Tone::Info, text)]);
                Step { actions: out, flow: Flow::Go }
            },
            Command::Trace { verbose } => Call::start_trace(*verbose),
            Command::Flows => if captures {
                let mut out: Vec<CallAction> = Vec::new();
                assert(acts(out@) =~= seq![]);
                put(&mut out, CallAction::ShowSummary);
                put(&mut out, CallAction::ShowFlows);
                assert(acts(out@) =~= seq![ActionView::ShowSummary, ActionView::ShowFlows]);
                Step { actions: out, flow: Flow::Go }
            } else {
                step_line(
                    Tone::Info,
                    "No SIP/RTP messages captured. Start tracing with 'sniff' first.",
                )
            },
            Command::Keys(digits) => match digits {
                None => step_line(Tone::Warning, "Usage: dtmf <digits>"),
                Some(s) => self.queue_keys(s.as_str(), DtmfMethod::Rfc2833, "RTP RFC2833"),
            },
            Command::InfoKeys(digits) => match digits {
                None => step_line(Tone::Warning, "Usage: dtmf-info <digits>"),
                Some(s) => self.queue_keys(s.as_str(), DtmfMethod::SipInfo, "SIP INFO"),
            },
            Command::SendKeys => step_one(CallAction::SendKeys),
            Command::CountKeys => {
                let mut s = "Queued DTMF digits: ".to_owned();
                push_dec(&mut s, self.phone.queued_dtmf_count() as u64);
                step_line(Tone::Info, s.as_str())
            },
            Command::Hold => if self.phone.is_on_hold() {
                step_line(Tone::Info, "Already on hold.")
            } else {
                let sent = self.phone.hold(fresh);
                step_request(sent, UserRequest::Hold, "Hold failed: ")
            },
            Command::Resume => if !self.phone.is_on_hold() {
                step_line(Tone::Info, "Call is not on hold.")
            } else {
                let sent = self.phone.resume(fresh);
                step_request(sent, UserRequest::Resume, "Resume failed: ")
            },
            Command::Transfer(who) => match who {
                None => step_line(Tone::Warning, "Usage: transfer <sip:user@host>"),
                Some(uri) => self.transfer(uri.as_str(), fresh),
            },
            Command::Speed(slot) => match slot {
                None => step_line(Tone::Warning, "Usage: speed <0-9>"),
                Some(k) => match dials.speed_dial(k.as_str()) {
                    None => {
                        let mut s = "No speed dial in slot '".to_owned();
                        s.append(k.as_str());
                        s.append("'.");
                        step_line(Tone::Warning, s.as_str())
                    },
                    Some(uri) => self.transfer(uri.as_str(), fresh),
                },
            },
            Command::Hangup => self.hang_up(fresh),
            Command::Unknown(word) => {
                let mut s = "Unknown command '".to_owned();
                s.append(word.as_str());
                s.append("'. Type 'help' for commands.");
                step_line(Tone::Warning, s.as_str())
            },
        }
    }

    /// Notes what became of a request of the user.
    pub fn on_request_done(&mut self, request: &UserRequest, failed: Option<PhoneError>) -> (r: Vec<
        CallAction,
    >)
        requires
            old(self).wf(),
        ensures
            final(self).wf(),
            (final(self)@, acts(r@)) == on_request_done(old(self)@, request@, opt_error(failed)),
    {
        let ghost want = on_request_done(old(self)@, request@, opt_error(failed));
        let mut out: Vec<CallAction> = Vec::new();
        assert(acts(out@) =~= seq![]);
        match failed {
            None => match request {
                UserRequest::Hold => {
                    self.phone.set_on_hold(true);
                    put_line(
                        &mut out,
                        Tone::Warning,
                        "Call on hold (re-INVITE sent with a=sendonly)",
                    );
                },
                UserRequest::Resume => {
                    self.phone.set_on_hold(false);
                    put_line(
                        &mut out,
                        Tone::Success,
                        "Call resumed (re-INVITE sent with a=sendrecv)",
                    );
                },
                UserRequest::Transfer(who) => put_two(
                    &mut out,
                    Tone::Status,
                    "REFER sent to transfer call to ",
                    who.as_str(),
                ),
            },
            Some(e) => {
                let why = e.to_string();
                match request {
                    UserRequest::Hold => put_two(
                        &mut out,
                        Tone::Error,
                        "Hold failed: ",
                        why.as_str(),
                    ),
                    UserRequest::Resume => put_two(
                        &mut out,
                        Tone::Error,
                        "Resume failed: ",
                        why.as_str(),
                    ),
                    UserRequest::Transfer(_) => put_two(
                        &mut out,
                        Tone::Error,
                        "Transfer failed: ",
                        why.as_str(),
                    ),
                }
            },
        }
        assert(acts(out@) =~= want.1);
        out
    }

    /// Notes what became of the request that ends the call.
    pub fn on_bye_done(&mut self, outcome: ByeOutcome, captures: bool) -> (r: Step)
        requires
            old(self).wf(),
        ensures
            final(self).wf(),
            (final(self)@, r@) == on_bye_done(old(self)@, outcome, captures),
    {
        self.phone.hung_up();
        let mut out: Vec<CallAction> = Vec::new();
        assert(acts(out@) =~= seq![]);
        match outcome {
            ByeOutcome::NoAddress => put_line(
                &mut out,
                Tone::Warning,
                "No remote SIP address for BYE; ending locally.",
            ),
            ByeOutcome::Accepted => put_line(
                &mut out,
                Tone::Success,
                "Hangup acknowledged (200 OK).",
            ),
            ByeOutcome::Refused => put_line(
                &mut out,
                Tone::Warning,
                "Received non-200 response to BYE; ending call.",
            ),
            ByeOutcome::NoReply => put_line(
                &mut out,
                Tone::Warning,
                "No BYE response within 3 seconds; ending call.",
            ),
        }
        if captures {
            put(&mut out, CallAction::ShowSummary);
            put(&mut out, CallAction::ShowFlows);
        }
        assert(acts(out@) =~= on_bye_done(old(self)@, outcome, captures).1.actions);
        Step { actions: out, flow: Flow::End }
    }
}

// ---------------------------------------------------------------------------
// Sending media
// ---------------------------------------------------------------------------

/// A frame without sound.
pub open spec fn quiet_frame() -> Seq<i16> {
    Seq::new(160, |i: int| 0i16)
}

/// The frame that is sent: what the microphone gave, or silence where the user
/// is muted or it gave nothing.
pub open spec fn frame_to_send(c: CallView, mic: Option<Seq<i16>>) -> Seq<i16> {
    match mic {
        Some(f) => if c.muted {
            quiet_frame()
        } else {
            f
        },
        None => quiet_frame(),
    }
}

/// The packet with a frame of audio, if the frame can be encoded.
pub open spec fn audio_bytes(s: SessionView, frame: Seq<i16>, opus: OpusFrameView) -> Option<
    Seq<u8>,
> {
    match payload_of(s.codec, frame, opus) {
        Ok(payload) => Some(packet_bytes(audio_view(s, payload))),
        Err(_) => None,
    }
}

/// What follows when a frame was sent: the session goes on to the next, and
/// the user is told of the first.
pub open spec fn on_frame_sent(c: CallView, sent: nat) -> Outcome {
    match c.phone.rtp {
        None => (c, seq![]),
        Some(s) => {
            let c1 = CallView { phone: PhoneView { rtp: Some(after_audio(s)), ..c.phone }, ..c };
            if c.announced_tx || sent == 0 {
                (c1, seq![])
            } else {
                (
                    CallView { announced_tx: true, ..c1 },
                    seq![say(Tone::Status, flow_text("TX"@, s.codec))] + (
                    match c.phone.active_call() {
                        Some(id) => seq![
                            ActionView::TraceMedia {
                                call_id: id,
                                from: s.local,
                                to: s.remote,
                                label: "RTP audio flow active (TX)"@,
                            },
                        ],
                        None => seq![],
                    }),
                )
            }
        },
    }
}

fn quiet() -> (r: Vec<i16>)
    ensures
        r@ == quiet_frame(),
{
    let mut v: Vec<i16> = Vec::new();
    while v.len() < 160
        invariant
            v@.len() <= 160,
            forall|i: int| 0 <= i < v@.len() ==> v@[i] == 0,
        decreases 160 - v@.len(),
    {
        v.push(0);
    }
    assert(v@ =~= quiet_frame());
    v
}

impl Call {
    /// Whether media are sent.
    pub fn is_connected(&self) -> (r: bool)
        ensures
            r == self@.connected,
    {
        self.connected
    }

    pub fn is_muted(&self) -> (r: bool)
        ensures
            r == self@.muted,
    {
        self.muted
    }

    /// Whether what is heard is recorded.
    pub fn is_recording(&self) -> (r: bool)
        ensures
            r == self@.recording,
    {
        self.recording
    }

    /// The recording that goes on, or that would: the one that was asked for
    /// before the call comes first.
    pub fn active_recording(&self) -> (r: Option<&AudioRecorder>)
        ensures
            match r {
                Some(rec) => Some(recording(*rec)) == (if self@.recorder is Some {
                    self@.recorder
                } else {
                    self@.live
                }),
                None => self@.recorder is None && self@.live is None,
            },
    {
        match &self.recorder {
            Some(rec) => Some(rec),
            None => match &self.live {
                Some(rec) => Some(rec),
                None => None,
            },
        }
    }

    /// The frame to send next: what the microphone gave, or silence where the
    /// user is muted or it gave nothing.
    pub fn frame_to_send(&self, mic: Option<Vec<i16>>) -> (r: Vec<i16>)
        ensures
            r@ == frame_to_send(
                self@,
                match mic {
                    Some(f) => Some(f@),
                    None => None,
                },
            ),
    {
        match mic {
            Some(f) => if self.muted {
                quiet()
            } else {
                f
            },
            None => quiet(),
        }
    }

    /// The packet with a frame, and where it goes; where the codec is Opus,
    /// `opus` is what its encoder made of the frame.
    pub fn next_audio(&mut self, frame: &[i16], opus: OpusFrame) -> (r: Option<(Vec<u8>, Endpoint)>)
        requires
            old(self).wf(),
        ensures
            final(self).wf(),
            final(self)@ == old(self)@,
            match r {
                Some((data, to)) => {
                    &&& old(self)@.phone.rtp is Some
                    &&& audio_bytes(old(self)@.phone.rtp->0, frame@, opus@) == Some(data@)
                    &&& to@ == old(self)@.phone.rtp->0.remote
                },
                None => old(self)@.phone.rtp is None || audio_bytes(
                    old(self)@.phone.rtp->0,
                    frame@,
                    opus@,
                ) is None,
            },
    {
        let mut rtp = match self.phone.take_rtp_session() {
            Some(s) => s,
            None => {
                return None;
            },
        };
        let to = rtp.remote_addr();
        let data = rtp.audio_packet_with(frame, opus);
        self.phone.put_rtp_session(rtp);
        match data {
            Ok(bytes) => Some((bytes, to)),
            Err(_) => None,
        }
    }

    /// Notes that `sent` bytes of a frame were sent.
    pub fn on_frame_sent(&mut self, sent: usize) -> (r: Vec<CallAction>)
        requires
            old(self).wf(),
        ensures
            final(self).wf(),
            (final(self)@, acts(r@)) == on_frame_sent(old(self)@, sent as nat),
    {
        let mut out: Vec<CallAction> = Vec::new();
        assert(acts(out@) =~= seq![]);
        let mut rtp = match self.phone.take_rtp_session() {
            Some(s) => s,
            None => {
                return out;
            },
        };
        let stats = rtp.stats();
        rtp.audio_sent();
        self.phone.put_rtp_session(rtp);
        if !self.announced_tx && sent > 0 {
            put_text(&mut out, Tone::Status, Call::flow_line("TX", stats.codec));
            if let Some(call_id) = self.phone.active_call_id() {
                put(
                    &mut out,
                    CallAction::TraceMedia {
                        call_id,
                        from: stats.local_addr,
                        to: stats.remote_addr,
                        label: "RTP audio flow active (TX)".to_owned(),
                    },
                );
            }
            self.announced_tx = true;
        }
        assert(acts(out@) =~= on_frame_sent(old(self)@, sent as nat).1);
        out
    }
}

// ---------------------------------------------------------------------------
// Laws
// ---------------------------------------------------------------------------

/// Whether an action begins to receive media.
pub open spec fn begins_receiving(a: ActionView) -> bool {
    a is Receive
}

/// A request does not begin to receive media.
proof fn lemma_request_begins_nothing(
    c: CallView,
    req: RequestView,
    source: EndpointView,
    branch: Seq<char>,
    session_id: u32,
    i: int,
)
    requires
        0 <= i < on_request(c, req, source, branch, session_id).1.actions.len(),
    ensures
        !begins_receiving(on_request(c, req, source, branch, session_id).1.actions[i]),
{
}

/// What begins to receive media in a response, and where.
proof fn lemma_response_begins(
    before: CallView,
    res: ResponseView,
    source: EndpointView,
    addr: Option<EndpointView>,
    branch: Seq<char>,
    i: int,
)
    requires
        0 <= i < on_response(before, res, source, addr, branch).1.actions.len(),
        begins_receiving(on_response(before, res, source, addr, branch).1.actions[i]),
    ensures
        !before.receiving,
        on_response(before, res, source, addr, branch).0.receiving,
{
    let m = MessageView::Response(res);
    let c = after_reply(before, m);
    let code = res.status;
    let all = on_response(before, res, source, addr, branch).1.actions;
    if 100 <= code <= 199 {
        let (c1, a1) = acknowledge(c, m, source, branch);
        assert(c1.receiving == before.receiving);
        assert(forall|k: int| 0 <= k < a1.len() ==> !begins_receiving(#[trigger] a1[k]));
        if 0 < i <= a1.len() {
            assert(all[i] == a1[i - 1]);
        }
    } else if 200 <= code <= 299 {
        let c1 = CallView { phone: PhoneView { remote: Some(source), ..c.phone }, ..c };
        let (c2, a2) = call_media(c1, m, addr);
        if 0 < i <= a2.len() {
            assert(all[i] == a2[i - 1]);
        }
    }
}

/// Media are never received twice: a message that arrives while they are
/// received does not begin it again, and one that begins it is noted.
pub proof fn law_received_once(
    c: CallView,
    m: MessageView,
    source: EndpointView,
    addr: Option<EndpointView>,
    branch: Seq<char>,
    session_id: u32,
    i: int,
)
    requires
        0 <= i < on_message(c, m, source, addr, branch, session_id).1.actions.len(),
        begins_receiving(on_message(c, m, source, addr, branch, session_id).1.actions[i]),
    ensures
        !c.receiving,
        on_message(c, m, source, addr, branch, session_id).0.receiving,
{
    match m {
        MessageView::Response(res) => {
            lemma_response_begins(c, res, source, addr, branch, i);
        },
        MessageView::Request(req) => {
            lemma_request_begins_nothing(c, req, source, branch, session_id, i);
        },
    }
}

/// Whether an action sends `m` to `to`.
pub open spec fn sends(a: ActionView, m: MessageView, to: EndpointView) -> bool {
    a matches ActionView::Send { message, to: t, .. } && message == m && t == to
}

/// A call that is refused is acknowledged to the end that refused it, and fails
/// with the reason that it gave.
pub proof fn law_refusal_acknowledged(
    c: CallView,
    res: ResponseView,
    source: EndpointView,
    addr: Option<EndpointView>,
    branch: Seq<char>,
    session_id: u32,
)
    requires
        c.phone.dialog is Some,
        res.status >= 400,
    ensures
        ({
            let m = MessageView::Response(res);
            let (after, step) = on_message(c, m, source, addr, branch, session_id);
            &&& sends(
                step.actions.last(),
                ack_of(after.phone.dialog->0, c.phone.local, branch),
                source,
            )
            &&& step.flow == FlowView::Fail(PhoneErrorView::CallFailed(status_text(res.status)))
        }),
{
}

/// A call that is taken is acknowledged to the end that took it, and messages
/// of the call go there from now on.
pub proof fn law_acceptance_acknowledged(
    c: CallView,
    res: ResponseView,
    source: EndpointView,
    addr: Option<EndpointView>,
    branch: Seq<char>,
    session_id: u32,
)
    requires
        c.phone.dialog is Some,
        200 <= res.status <= 299,
    ensures
        ({
            let m = MessageView::Response(res);
            let (after, step) = on_message(c, m, source, addr, branch, session_id);
            &&& sends(
                step.actions.last(),
                ack_of(after.phone.dialog->0, c.phone.local, branch),
                source,
            )
            &&& after.phone.remote == Some(source)
        }),
{
}

/// The status with which a request of the remote end is answered, for the
/// methods that are.
pub open spec fn answer_status(req: RequestView) -> Option<u16> {
    match req.method {
        MethodView::Bye => Some(200),
        MethodView::Info => Some(200),
        MethodView::Invite => Some(200),
        MethodView::Notify => Some(200),
        MethodView::Refer => Some(
            if lookup(req.headers, NameView::ReferTo) is Some {
                202
            } else {
                400
            },
        ),
        _ => None,
    }
}

/// Whether an action answers a request with its status, to where it came from,
/// with the Call-ID and the number that the request has.
pub open spec fn answers(a: ActionView, req: RequestView, to: EndpointView) -> bool {
    a matches ActionView::Send { message: MessageView::Response(res), to: t, .. } && {
        &&& t == to
        &&& answer_status(req) == Some(res.status)
        &&& lookup(res.headers, NameView::CallId) == lookup(req.headers, NameView::CallId)
        &&& lookup(res.headers, NameView::CSeq) == lookup(req.headers, NameView::CSeq)
    }
}

/// The fields that a response takes over are found in it as in the request.
pub proof fn lemma_reply_finds(hs: HeaderList, k: NameView)
    requires
        k is From || k is To || k is CallId || k is CSeq,
    ensures
        lookup(reply_fields(hs), k) == lookup(hs, k),
{
    let vias = lookup_all(hs, NameView::Via);
    let a = Seq::new(vias.len(), |i: int| (NameView::Via, vias[i]));
    let b = a + one_field(NameView::From, lookup(hs, NameView::From));
    let c = b + one_field(NameView::To, lookup(hs, NameView::To));
    let d = c + one_field(NameView::CallId, lookup(hs, NameView::CallId));
    let e = d + one_field(NameView::CSeq, lookup(hs, NameView::CSeq));
    assert(e =~= reply_fields(hs));
    assert(lookup(a, k) is None) by {
        lemma_position(a, k);
    }
    lemma_one_field_found(a, NameView::From, lookup(hs, NameView::From), k);
    lemma_one_field_found(b, NameView::To, lookup(hs, NameView::To), k);
    lemma_one_field_found(c, NameView::CallId, lookup(hs, NameView::CallId), k);
    lemma_one_field_found(d, NameView::CSeq, lookup(hs, NameView::CSeq), k);
}

/// A field that is found in a list is still found when another is added; and
/// the one that is added is found where it was not there before.
proof fn lemma_one_field_found(hs: HeaderList, name: NameView, v: Option<Seq<char>>, k: NameView)
    ensures
        lookup(hs + one_field(name, v), k) == (if lookup(hs, k) is None && name == k {
            v
        } else {
            lookup(hs, k)
        }),
{
    match v {
        Some(t) => {
            lemma_lookup_push(hs, k, (name, t));
            assert(hs + one_field(name, v) =~= hs.push((name, t)));
        },
        None => {
            assert(hs + one_field(name, v) =~= hs);
        },
    }
}

/// Every request of the remote end that the phone knows of is answered, once
/// there is a dialog.
pub proof fn law_requests_answered(
    c: CallView,
    req: RequestView,
    source: EndpointView,
    addr: Option<EndpointView>,
    branch: Seq<char>,
    session_id: u32,
)
    requires
        c.phone.dialog is Some,
        answer_status(req) is Some,
    ensures
        exists|i: int|
            0 <= i < on_message(
                c,
                MessageView::Request(req),
                source,
                addr,
                branch,
                session_id,
            ).1.actions.len() && answers(
                #[trigger] on_message(
                    c,
                    MessageView::Request(req),
                    source,
                    addr,
                    branch,
                    session_id,
                ).1.actions[i],
                req,
                source,
            ),
{
    let actions = on_message(
        c,
        MessageView::Request(req),
        source,
        addr,
        branch,
        session_id,
    ).1.actions;
    lemma_reply_finds(req.headers, NameView::CallId);
    lemma_reply_finds(req.headers, NameView::CSeq);
    let hs = reply_fields(req.headers);
    let length = content_length(None);
    law_set_get_other(hs, NameView::ContentLength, length, NameView::CallId);
    law_set_get_other(hs, NameView::ContentLength, length, NameView::CSeq);
    if req.method == MethodView::Invite {
        let sdp = c.phone.session_text(session_id, "sendrecv"@);
        let h1 = with_field(hs, NameView::Contact, contact_value("siphone"@, c.phone.local));
        let h2 = with_field(h1, NameView::ContentType, "application/sdp"@);
        law_set_get_other(
            hs,
            NameView::Contact,
            contact_value("siphone"@, c.phone.local),
            NameView::CallId,
        );
        law_set_get_other(
            hs,
            NameView::Contact,
            contact_value("siphone"@, c.phone.local),
            NameView::CSeq,
        );
        law_set_get_other(h1, NameView::ContentType, "application/sdp"@, NameView::CallId);
        law_set_get_other(h1, NameView::ContentType, "application/sdp"@, NameView::CSeq);
        law_set_get_other(
            h2,
            NameView::ContentLength,
            content_length(Some(sdp)),
            NameView::CallId,
        );
        law_set_get_other(
            h2,
            NameView::ContentLength,
            content_length(Some(sdp)),
            NameView::CSeq,
        );
        assert(answers(actions[actions.len() - 1], req, source));
    } else if req.method == MethodView::Refer {
        if lookup(req.headers, NameView::ReferTo) is Some {
            assert(answers(actions[1], req, source));
        } else {
            assert(answers(actions[0], req, source));
        }
    } else {
        assert(answers(actions[actions.len() - 1], req, source));
    }
}

/// Nothing but silence is sent while the user is muted.
pub proof fn law_muted_is_silent(c: CallView, mic: Option<Seq<i16>>, i: int)
    requires
        c.muted,
        0 <= i < frame_to_send(c, mic).len(),
    ensures
        frame_to_send(c, mic).len() == 160,
        frame_to_send(c, mic)[i] == 0,
{
}

/// A key is told to the user once, however many packets say that it was let go.
pub proof fn law_key_told_once(c: CallView, e: DtmfEvent)
    ensures
        on_key(on_key(c, e).0, e).1.len() == 0,
        on_key(c, e).1.len() <= 1,
        !e.end ==> on_key(c, e).1.len() == 0,
{
}

/// The user can take back what they asked for: what was put on hold is resumed.
pub proof fn law_hold_resume(c: CallView)
    requires
        !c.phone.on_hold,
    ensures
        ({
            let (h, _) = on_request_done(c, UserRequestView::Hold, None);
            &&& h.phone.on_hold
            &&& on_request_done(h, UserRequestView::Resume, None).0 == c
        }),
{
}

/// The recording that goes on, if one does: the one that was asked for before
/// the call comes first.
pub open spec fn current_recording(c: CallView) -> Option<RecordingView> {
    if !c.recording {
        None
    } else if c.recorder is Some {
        c.recorder
    } else {
        c.live
    }
}

/// All that is heard is recorded while a recording goes on, whether it is
/// played or comes from a backlog, and nothing is while none does.
pub proof fn law_recorded_as_heard(c: CallView, frame: Seq<i16>)
    ensures
        ({
            let played = on_media(c, EventView::Audio(frame));
            let caught_up = on_backlog(c, EventView::Audio(frame)).0;
            &&& played.1.last() == ActionView::Play(frame)
            &&& match current_recording(c) {
                Some((samples, rate)) => {
                    &&& current_recording(played.0) == Some((samples + frame, rate))
                    &&& current_recording(caught_up) == Some((samples + frame, rate))
                },
                None => {
                    &&& played.0.recorder == c.recorder && played.0.live == c.live
                    &&& caught_up == c
                },
            }
        }),
{
}

/// Early media leave the dialog as it is.
proof fn lemma_early_media_dialog(c: CallView, m: MessageView, addr: Option<EndpointView>)
    ensures
        early_media(c, m, addr).0.phone.dialog == c.phone.dialog,
{
}

/// A provisional response that asks for it is acknowledged to the end that sent
/// it, by a request with the next number of the dialog.
#[verifier::spinoff_prover]
pub proof fn law_reliable_acknowledged(
    c: CallView,
    res: ResponseView,
    source: EndpointView,
    addr: Option<EndpointView>,
    branch: Seq<char>,
    session_id: u32,
)
    requires
        c.phone.dialog is Some,
        c.phone.can_number(),
        100 <= res.status <= 199,
        reliable(MessageView::Response(res)) is Some,
    ensures
        ({
            let m = MessageView::Response(res);
            let (after, step) = on_message(c, m, source, addr, branch, session_id);
            let d = after_response(c.phone.dialog->0, m);
            let (rseq, of) = reliable(m)->0;
            &&& sends(
                step.actions[1],
                prack_request(d, c.phone.local, branch, (d.local_cseq + 1) as u32, rseq, of),
                source,
            )
            &&& after.phone.dialog->0.local_cseq == c.phone.dialog->0.local_cseq + 1
        }),
{
    let m = MessageView::Response(res);
    let c1 = after_reply(c, m);
    let (c2, a2) = acknowledge(c1, m, source, branch);
    let d = c1.phone.dialog->0;
    assert(d.local_cseq == c.phone.dialog->0.local_cseq);
    assert(c2.phone.dialog->0.local_cseq == d.local_cseq + 1);
    lemma_early_media_dialog(c2, m, addr);
    let first = seq![say(Tone::Info, "Call progress: "@ + status_text(res.status))];
    let a3 = if res.status == 183 {
        early_media(c2, m, addr).1
    } else {
        seq![]
    };
    assert(a2.len() == 1);
    assert((first + a2 + a3)[1] == a2[0]);
}

/// A slot of the speed dial stands for its address: to dial the slot is to
/// transfer the call there.
pub proof fn law_speed_is_transfer(
    c: CallView,
    slot: Seq<char>,
    traced: nat,
    captures: bool,
    dials: SiprConfig,
    branch: Seq<char>,
    session_id: u32,
)
    requires
        dials.spec_speed_dial(slot) is Some,
    ensures
        on_command(
            c,
            CommandView::Speed(Some(slot)),
            traced,
            captures,
            dials,
            branch,
            session_id,
        ) == on_command(
            c,
            CommandView::Transfer(dials.spec_speed_dial(slot)),
            traced,
            captures,
            dials,
            branch,
            session_id,
        ),
{
}

} // verus!
