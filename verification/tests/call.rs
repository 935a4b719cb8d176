use sipr::net::Endpoint;
use sipr::phone::call::{
    bye_reply, media_address, ByeOutcome, Call, CallAction, Flow, Sending, Step, Tone, UserRequest,
};
use sipr::phone::commands::Command;
use sipr::phone::config::SiprConfig;
use sipr::phone::softphone::{Fresh, OutgoingCall, PhoneError, SoftPhone};
use sipr::rtp::codec::{CodecType, OpusFrame};
use sipr::rtp::packet::RtpPacket;
use sipr::rtp::session::{DtmfEvent, ReceiveEvent, RtpSession, SessionConfig};
use sipr::rtp::wav::AudioRecorder;
use sipr::sip::header::HeaderName;
use sipr::sip::message::{
    RequestBuilder, ResponseBuilder, SipMessage, SipMethod, SipRequest, StatusCode,
};
use sipr::sip::sdp::SdpSession;

fn fresh() -> Fresh {
    Fresh {
        branch: "z9hG4bKfresh".to_string(),
        session_id: 9,
        cnonce: "00".to_string(),
        call_id: "call-1".to_string(),
    }
}

fn server() -> Endpoint {
    Endpoint::new("127.0.0.1", 5060)
}

fn start(recorder: Option<AudioRecorder>) -> (Call, OutgoingCall) {
    let mut phone = SoftPhone::new(Endpoint::new("127.0.0.1", 40000));
    let plan =
        phone.plan_call("sip:bob@example.com", Some("127.0.0.1:5060"), Some("alice"), None, None);
    let out = phone.call(plan, 30000, &fresh());
    let config = SessionConfig::new("127.0.0.1:0", server(), CodecType::Pcmu);
    phone.call_placed(&out, RtpSession::new(config, Endpoint::new("127.0.0.1", 30000)));
    (Call::new(phone, recorder), out)
}

fn request_of(msg: &SipMessage) -> &SipRequest {
    match msg {
        SipMessage::Request(req) => req,
        SipMessage::Response(_) => panic!("expected a request"),
    }
}

fn response(out: &OutgoingCall, status: u16, body: Option<&str>) -> SipMessage {
    let builder = ResponseBuilder::from_request(request_of(&out.invite), StatusCode(status))
        .header(HeaderName::Contact, "<sip:bob@127.0.0.1:5060>");
    match body {
        Some(b) => builder.header(HeaderName::ContentType, "application/sdp").body(b).build(),
        None => builder.build(),
    }
}

fn answer_body() -> String {
    let mut sdp = SdpSession::new("127.0.0.1");
    sdp.add_audio_media(41000);
    sdp.to_string()
}

fn step(call: &mut Call, msg: &SipMessage) -> Step {
    assert!(call.takes_in(msg));
    let addr = media_address(msg).map(|a| {
        let (ip, port) = a.split_once(':').unwrap();
        Endpoint::new(ip, port.parse().unwrap())
    });
    call.on_message(msg, &server(), &addr, &fresh())
}

fn sent(step: &Step) -> Vec<&SipMessage> {
    step.actions
        .iter()
        .filter_map(|a| match a {
            CallAction::Send { message, .. } => Some(message),
            _ => None,
        })
        .collect()
}

fn said(actions: &[CallAction]) -> Vec<(Tone, &str)> {
    actions
        .iter()
        .filter_map(|a| match a {
            CallAction::Say { tone, text } => Some((*tone, text.as_str())),
            _ => None,
        })
        .collect()
}

fn connect(call: &mut Call, out: &OutgoingCall) {
    let ok = response(out, 200, Some(&answer_body()));
    let s = step(call, &ok);
    assert!(matches!(s.flow, Flow::Go));
    assert!(call.is_connected());
}

fn command(call: &mut Call, cmd: Command) -> Step {
    call.on_command(&cmd, 0, false, &SiprConfig::default(), &fresh())
}

#[test]
fn acceptance_is_acknowledged() {
    let (mut call, out) = start(None);
    assert!(!call.is_connected());
    let ringing = response(&out, 180, None);
    let s = step(&mut call, &ringing);
    assert!(sent(&s).is_empty());
    assert!(!said(&s.actions).is_empty());

    let ok = response(&out, 200, Some(&answer_body()));
    let s = step(&mut call, &ok);
    let acks = sent(&s);
    assert_eq!(acks.len(), 1);
    assert_eq!(request_of(acks[0]).method, SipMethod::Ack);
    assert!(call.is_connected());
    assert!(call.phone.dialog().unwrap().is_confirmed());
    assert_eq!(
        call.phone.rtp_session().unwrap().remote_addr().to_string(),
        "127.0.0.1:41000"
    );
    assert!(s.actions.iter().any(|a| matches!(a, CallAction::Receive(Some(101)))));
}

#[test]
fn test_200ok_after_183_does_not_duplicate_rtp_receiver() {
    let (mut call, out) = start(None);
    let progress = response(&out, 183, Some(&answer_body()));
    let s = step(&mut call, &progress);
    assert!(s.actions.iter().any(|a| matches!(a, CallAction::Receive(_))));
    let ok = response(&out, 200, Some(&answer_body()));
    let s = step(&mut call, &ok);
    assert!(!s.actions.iter().any(|a| matches!(a, CallAction::Receive(_))));
    assert!(call.is_connected());
}

#[test]
fn refusal_is_acknowledged_and_ends_the_call() {
    let (mut call, out) = start(None);
    let busy = response(&out, 486, None);
    let s = step(&mut call, &busy);
    assert_eq!(request_of(sent(&s)[0]).method, SipMethod::Ack);
    match s.flow {
        Flow::Fail(PhoneError::CallFailed(why)) => assert!(why.contains("486"), "{why}"),
        other => panic!("{:?}", other),
    }
}

#[test]
fn messages_of_other_calls_change_nothing() {
    let (mut call, out) = start(None);
    let mut other = response(&out, 200, Some(&answer_body()));
    other.headers_mut().set(HeaderName::CallId, "another-call");
    step(&mut call, &other);
    assert!(call.phone.dialog().unwrap().is_early());
}

fn request(method: SipMethod, body: &str) -> SipMessage {
    let name = method.as_str().to_string();
    RequestBuilder::new(method, "sip:alice@127.0.0.1:40000")
        .header(HeaderName::Via, "SIP/2.0/UDP 127.0.0.1:5060;branch=z9hG4bKin")
        .header(HeaderName::From, "<sip:bob@example.com>;tag=r")
        .header(HeaderName::To, "<sip:alice@127.0.0.1>;tag=l")
        .header(HeaderName::CallId, "call-1")
        .header(HeaderName::CSeq, &format!("7 {}", name))
        .body(body)
        .build()
}

#[test]
fn requests_are_answered() {
    let (mut call, out) = start(None);
    connect(&mut call, &out);

    let info = request(SipMethod::Info, "Signal=5\r\nDuration=160\r\n");
    let s = step(&mut call, &info);
    assert_eq!(sent(&s)[0].status().unwrap().0, 200);
    assert!(said(&s.actions).iter().any(|(_, t)| t.contains('5')));

    let again = request(SipMethod::Invite, "");
    let s = step(&mut call, &again);
    assert_eq!(sent(&s)[0].status().unwrap().0, 200);
    assert!(sent(&s)[0].body().is_some());

    let mut refer = request(SipMethod::Refer, "");
    let s = step(&mut call, &refer);
    assert_eq!(sent(&s)[0].status().unwrap().0, 400);
    refer.headers_mut().add(HeaderName::ReferTo, "sip:carol@example.com");
    let s = step(&mut call, &refer);
    let codes: Vec<u16> =
        sent(&s).iter().filter_map(|m| m.status().map(|c| c.0)).collect();
    assert_eq!(codes, vec![202]);

    let bye = request(SipMethod::Bye, "");
    let s = step(&mut call, &bye);
    assert_eq!(sent(&s)[0].status().unwrap().0, 200);
    assert!(matches!(s.flow, Flow::End));
    assert!(call.phone.dialog().unwrap().is_terminated());
}

#[test]
fn reliable_progress_is_acknowledged() {
    let (mut call, out) = start(None);
    let mut progress = response(&out, 183, Some(&answer_body()));
    progress.headers_mut().add(HeaderName::Require, "100rel");
    progress.headers_mut().add(HeaderName::RSeq, "42");
    let s = step(&mut call, &progress);
    let prack = sent(&s)
        .into_iter()
        .find(|m| m.method() == Some(&SipMethod::Prack))
        .expect("a PRACK");
    assert_eq!(prack.headers().get(&HeaderName::RAck).unwrap().as_str(), "42 1 INVITE");
}

#[test]
fn e2e_interactive_mute_unmute() {
    let (mut call, out) = start(None);
    connect(&mut call, &out);
    assert!(!call.is_muted());
    let frame = call.frame_to_send(Some(vec![5000i16; 160]));
    let (data, _) = call.next_audio(&frame, OpusFrame::Absent).unwrap();
    assert!(RtpPacket::parse(&data).unwrap().payload.iter().all(|&b| b != 0xFF));

    command(&mut call, Command::Mute);
    assert!(call.is_muted());
    let frame = call.frame_to_send(Some(vec![5000i16; 160]));
    assert_eq!(frame, vec![0i16; 160]);
    let (data, to) = call.next_audio(&frame, OpusFrame::Absent).unwrap();
    assert!(RtpPacket::parse(&data).unwrap().payload.iter().all(|&b| b == 0xFF));
    assert_eq!(to.to_string(), "127.0.0.1:41000");

    command(&mut call, Command::Unmute);
    assert!(!call.is_muted());
}

#[test]
fn e2e_interactive_record_mid_call() {
    let (mut call, out) = start(None);
    connect(&mut call, &out);
    let tone: Vec<i16> = (0..800)
        .map(|i| {
            let t = i as f64 / 8000.0;
            (f64::sin(2.0 * std::f64::consts::PI * 440.0 * t) * 12000.0) as i16
        })
        .collect();
    let hear = |call: &mut Call| {
        for frame in tone.chunks(160) {
            call.on_media(ReceiveEvent::Audio(frame.to_vec()));
        }
    };

    // Before recording starts, frames are discarded
    hear(&mut call);
    assert!(call.active_recording().is_none());

    // Now frames are captured
    command(&mut call, Command::Record(Some("take.wav".to_string())));
    assert!(call.is_recording());
    hear(&mut call);
    let frames_after_start = call.active_recording().unwrap().frame_count();
    assert!(frames_after_start > 0);
    assert_eq!(frames_after_start, 5);

    // More frames arrive but aren't recorded
    command(&mut call, Command::Stop);
    assert!(!call.is_recording());
    hear(&mut call);
    assert_eq!(call.active_recording().unwrap().frame_count(), frames_after_start);

    // Resume recording
    command(&mut call, Command::Record(None));
    hear(&mut call);
    assert!(call.active_recording().unwrap().frame_count() > frames_after_start);
    assert!(!call.active_recording().unwrap().to_wav().is_empty());
}

#[test]
fn heard_key_is_told_once() {
    let (mut call, out) = start(None);
    connect(&mut call, &out);
    let key = |end: bool| {
        ReceiveEvent::Dtmf(DtmfEvent {
            digit: '7',
            end,
            duration: 800,
            volume: 10,
            sequence_number: 1,
            timestamp: 4000,
        })
    };
    let first = call.on_media(key(true));
    let second = call.on_media(key(true));
    assert_eq!(said(&first).len(), 1);
    assert!(said(&first)[0].1.contains('7'));
    assert!(said(&second).is_empty());
}

#[test]
fn hold_and_resume_take_turns() {
    let (mut call, out) = start(None);
    connect(&mut call, &out);
    let s = command(&mut call, Command::Resume);
    assert_eq!(said(&s.actions), vec![(Tone::Info, "Call is not on hold.")]);

    let s = command(&mut call, Command::Hold);
    match &s.actions[..] {
        [CallAction::Request { message, request: UserRequest::Hold }] => {
            let sdp = SdpSession::parse(message.body().unwrap()).unwrap();
            assert_eq!(sdp.get_audio_direction(), Some("sendonly"));
        },
        other => panic!("{:?}", other),
    }
    assert!(!call.phone.is_on_hold());
    call.on_request_done(&UserRequest::Hold, None);
    assert!(call.phone.is_on_hold());
    let s = command(&mut call, Command::Hold);
    assert_eq!(said(&s.actions), vec![(Tone::Info, "Already on hold.")]);

    command(&mut call, Command::Resume);
    let told = call.on_request_done(&UserRequest::Resume, Some(PhoneError::NoDialog));
    assert!(said(&told)[0].1.contains("no active dialog"));
    assert!(call.phone.is_on_hold());
    call.on_request_done(&UserRequest::Resume, None);
    assert!(!call.phone.is_on_hold());
}

#[test]
fn speed_dials_transfer_the_call() {
    let (mut call, out) = start(None);
    connect(&mut call, &out);
    let mut dials = SiprConfig::default();
    dials.set_speed_dial("1", "sip:carol@example.com");
    let cmd = Command::Speed(Some("1".to_string()));
    let s = call.on_command(&cmd, 0, false, &dials, &fresh());
    let refer = s
        .actions
        .iter()
        .find_map(|a| match a {
            CallAction::Request { message, .. } => Some(message),
            _ => None,
        })
        .unwrap();
    assert_eq!(
        refer.headers().get(&HeaderName::ReferTo).unwrap().as_str(),
        "sip:carol@example.com"
    );
    let cmd = Command::Speed(Some("2".to_string()));
    let s = call.on_command(&cmd, 0, false, &dials, &fresh());
    assert_eq!(said(&s.actions), vec![(Tone::Warning, "No speed dial in slot '2'.")]);
}

#[test]
fn keys_are_queued_by_command() {
    let (mut call, out) = start(None);
    connect(&mut call, &out);
    let s = command(&mut call, Command::Keys(Some("12".to_string())));
    assert!(!s.actions.is_empty());
    assert_eq!(call.phone.queued_dtmf_count(), 2);
    let s = command(&mut call, Command::CountKeys);
    assert_eq!(said(&s.actions), vec![(Tone::Info, "Queued DTMF digits: 2")]);
    let s = command(&mut call, Command::Keys(None));
    assert_eq!(said(&s.actions), vec![(Tone::Warning, "Usage: dtmf <digits>")]);
    let s = command(&mut call, Command::SendKeys);
    assert!(matches!(s.actions[..], [CallAction::SendKeys]));
}

#[test]
fn hangup_asks_for_the_end() {
    let (mut call, out) = start(None);
    connect(&mut call, &out);
    let s = command(&mut call, Command::Hangup);
    let (bye, cseq) = s
        .actions
        .iter()
        .find_map(|a| match a {
            CallAction::Bye { message, cseq } => Some((message, *cseq)),
            _ => None,
        })
        .unwrap();
    assert_eq!(request_of(bye).method, SipMethod::Bye);
    let ok = ResponseBuilder::from_request(request_of(bye), StatusCode(StatusCode::OK)).build();
    assert_eq!(bye_reply(&ok, cseq), Some(true));
    assert_eq!(bye_reply(&ok, cseq + 1), None);
    let no = ResponseBuilder::from_request(request_of(bye), StatusCode(481)).build();
    assert_eq!(bye_reply(&no, cseq), Some(false));
    let s = call.on_bye_done(ByeOutcome::Accepted, false);
    assert!(matches!(s.flow, Flow::End));
    assert!(call.phone.dialog().unwrap().is_terminated());
    let (phone, recorder) = call.finish();
    assert!(phone.rtp_session().is_none());
    assert!(recorder.is_none());
}

#[test]
fn tracing_is_switched_by_command() {
    let (mut call, _) = start(None);
    let s = command(&mut call, Command::Trace { verbose: true });
    assert!(s.actions.iter().any(|a| matches!(a, CallAction::StartTrace { verbose: true })));
    let s = call.on_command(&Command::StopTrace, 3, false, &SiprConfig::default(), &fresh());
    assert_eq!(
        said(&s.actions),
        vec![(Tone::Info, "SIP tracing stopped (3 messages captured).")]
    );
    let s = command(&mut call, Command::Flows);
    assert_eq!(said(&s.actions).len(), 1);
    let s = call.on_command(&Command::Flows, 3, true, &SiprConfig::default(), &fresh());
    assert!(matches!(s.actions[..], [CallAction::ShowSummary, CallAction::ShowFlows]));
    let s = command(&mut call, Command::Unknown("dance".to_string()));
    assert_eq!(
        said(&s.actions),
        vec![(Tone::Warning, "Unknown command 'dance'. Type 'help' for commands.")]
    );
}

#[test]
fn failing_to_acknowledge_fails_the_call() {
    let (mut call, out) = start(None);
    let ok = response(&out, 200, Some(&answer_body()));
    let s = step(&mut call, &ok);
    let sending = s
        .actions
        .iter()
        .find_map(|a| match a {
            CallAction::Send { sending, .. } => Some(sending),
            _ => None,
        })
        .unwrap();
    assert!(matches!(sending, Sending::Must));
}

#[test]
fn transfer_and_hangup_are_heard_at_the_other_end() {
    let (mut here, out) = start(None);
    connect(&mut here, &out);
    let (mut there, out) = start(None);
    connect(&mut there, &out);

    let s = command(&mut here, Command::Transfer(Some("sip:carol@example.com".to_string())));
    let refer = match &s.actions[0] {
        CallAction::Request { message, .. } => message,
        _ => panic!("expected a request"),
    };
    let s = step(&mut there, refer);
    assert_eq!(
        said(&s.actions),
        vec![(Tone::Event, "Transfer requested to: sip:carol@example.com")]
    );
    assert_eq!(sent(&s)[0].status().unwrap().0, 202);
    assert_eq!(sent(&s)[1].method(), Some(&SipMethod::Notify));

    let s = command(&mut here, Command::Hangup);
    let bye = s
        .actions
        .iter()
        .find_map(|a| match a {
            CallAction::Bye { message, .. } => Some(message),
            _ => None,
        })
        .unwrap();
    let s = step(&mut there, bye);
    assert!(matches!(s.flow, Flow::End));
    assert_eq!(sent(&s)[0].status().unwrap().0, 200);
    assert!(there.phone.dialog().unwrap().is_terminated());
}

#[test]
fn all_that_is_heard_is_recorded() {
    let (mut call, out) = start(Some(AudioRecorder::new(8000)));
    connect(&mut call, &out);
    call.on_media(ReceiveEvent::Audio(vec![1, 2]));
    call.on_backlog(ReceiveEvent::Audio(vec![3]));
    let played = call.on_media(ReceiveEvent::Audio(vec![4]));
    assert!(matches!(&played[..], [CallAction::Play(frame)] if frame == &vec![4]));
    assert_eq!(call.active_recording().unwrap().samples(), &[1, 2, 3, 4]);
    command(&mut call, Command::Stop);
    call.on_media(ReceiveEvent::Audio(vec![5]));
    assert_eq!(call.active_recording().unwrap().samples(), &[1, 2, 3, 4]);
}
