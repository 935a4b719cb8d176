use std::cell::RefCell;
use std::collections::VecDeque;
use std::rc::Rc;

use sipr::net::Endpoint;
use sipr::rtp::codec::{CodecPipeline, CodecType};
use sipr::sip::auth::{compute_digest, parse_challenge, Credentials};
use sipr::sip::dialog::{DialogState, SipDialog};
use sipr::sip::header::{generate_branch, generate_tag, HeaderName, Headers};
use sipr::sip::message::{
    RequestBuilder, ResponseBuilder, SipMessage, SipMethod, SipRequest, StatusCode,
};
use sipr::sip::sdp::{MediaDescription, SdpSession};
use sipr::sip::transaction::{SipTransaction, TransactionAction, TransactionState};
use sipr::sip::transport::parse_datagram;

#[derive(Debug, Clone, Copy, PartialEq)]
struct Addr(u16);

impl std::fmt::Display for Addr {
    fn fmt(&self, f: &mut std::fmt::Formatter<'_>) -> std::fmt::Result {
        f.write_str(&Endpoint::from(*self).to_string())
    }
}

impl From<Addr> for Endpoint {
    fn from(addr: Addr) -> Self {
        Endpoint::new("127.0.0.1", addr.0)
    }
}

impl Addr {
    fn ip(&self) -> &'static str {
        "127.0.0.1"
    }

    fn port(&self) -> u16 {
        self.0
    }
}

/// A network in memory: what was sent to each port, with the sender's port.
#[derive(Clone)]
struct Net(Rc<RefCell<Vec<VecDeque<(Addr, Vec<u8>)>>>>);

impl Net {
    fn new() -> Self {
        Net(Rc::new(RefCell::new(Vec::new())))
    }

    fn bind(&self) -> Addr {
        let mut ports = self.0.borrow_mut();
        ports.push(VecDeque::new());
        Addr(40000 + ports.len() as u16)
    }

    fn send(&self, from: Addr, to: Addr, data: Vec<u8>) {
        self.0.borrow_mut()[to.0 as usize - 40001].push_back((from, data));
    }

    fn take(&self, at: Addr) -> Option<(Addr, Vec<u8>)> {
        self.0.borrow_mut()[at.0 as usize - 40001].pop_front()
    }
}

struct SipTransport {
    net: Net,
    addr: Addr,
}

struct Incoming {
    message: SipMessage,
    source: Addr,
}

impl SipTransport {
    fn bind(net: &Net) -> Self {
        SipTransport { net: net.clone(), addr: net.bind() }
    }

    fn local_addr(&self) -> Addr {
        self.addr
    }

    fn send_to(&self, message: &SipMessage, to: Addr) {
        self.net.send(self.addr, to, message.to_bytes());
    }

    fn recv(&self) -> Incoming {
        let (source, data) = self.net.take(self.addr).expect("a datagram");
        Incoming { message: parse_datagram(&data).unwrap(), source }
    }
}

/// End-to-end integration tests for the SIP softphone stack.
/// These tests simulate real SIP interactions between two endpoints
/// using loopback UDP transport.

#[test]
fn e2e_register_flow() {
    let net = Net::new();
    // Setup: UAC (client) and UAS (server/registrar) transports
    let uac_transport = SipTransport::bind(&net);
    let uas_transport = SipTransport::bind(&net);

    let uac_addr = uac_transport.local_addr();
    let uas_addr = uas_transport.local_addr();

    let call_id = uuid::Uuid::new_v4().to_string();
    let branch = generate_branch();
    let local_tag = generate_tag();

    // Step 1: UAC sends REGISTER
    let register = RequestBuilder::new(SipMethod::Register, &format!("sip:{}", uas_addr))
        .header(
            HeaderName::Via,
            &format!("SIP/2.0/UDP {};branch={};rport", uac_addr, branch),
        )
        .header(HeaderName::MaxForwards, "70")
        .header(
            HeaderName::From,
            &format!("<sip:alice@{}>; tag={}", uas_addr, local_tag),
        )
        .header(HeaderName::To, &format!("<sip:alice@{}>", uas_addr))
        .header(HeaderName::CallId, &call_id)
        .header(HeaderName::CSeq, "1 REGISTER")
        .header(
            HeaderName::Contact,
            &format!("<sip:alice@{}>", uac_addr),
        )
        .header(HeaderName::Expires, "3600")
        .header(HeaderName::UserAgent, "siphone-test/0.1.0")
        .build();

    // Create client transaction
    let mut client_txn = SipTransaction::new_client(&register).unwrap();
    assert_eq!(client_txn.state, TransactionState::Trying);

    uac_transport.send_to(&register, uas_addr);

    // Step 2: UAS receives REGISTER
    let incoming = uas_transport.recv();
    assert_eq!(incoming.source, uac_addr);
    assert!(incoming.message.is_request());

    if let SipMessage::Request(ref req) = incoming.message {
        assert_eq!(req.method, SipMethod::Register);

        // Create server transaction
        let mut server_txn = SipTransaction::new_server(&incoming.message).unwrap();
        assert_eq!(server_txn.state, TransactionState::Trying);

        // Step 3: UAS sends 200 OK
        let ok_response = ResponseBuilder::from_request(req, StatusCode(StatusCode::OK))
            .header(
                HeaderName::Contact,
                &format!("<sip:alice@{}>", uac_addr),
            )
            .header(HeaderName::Expires, "3600")
            .build();

        let action = server_txn.send_response(&ok_response);
        assert_eq!(action, TransactionAction::SendResponse);

        uas_transport.send_to(&ok_response, uac_addr);

        // Step 4: UAC receives 200 OK
        let response = uac_transport.recv();
        assert!(response.message.is_response());

        let action = client_txn.process_response(&response.message);
        assert_eq!(action, TransactionAction::PassToTU);
        // Non-invite client goes to Completed
        assert_eq!(client_txn.state, TransactionState::Completed);

        if let SipMessage::Response(ref res) = response.message {
            assert_eq!(res.status, StatusCode(StatusCode::OK));
        }
    } else {
        panic!("Expected REGISTER request");
    }
}

#[test]
fn e2e_invite_call_flow() {
    let net = Net::new();
    let caller_transport = SipTransport::bind(&net);
    let callee_transport = SipTransport::bind(&net);

    let caller_addr = caller_transport.local_addr();
    let callee_addr = callee_transport.local_addr();

    let call_id = uuid::Uuid::new_v4().to_string();
    let caller_tag = generate_tag();
    let branch = generate_branch();

    // --- Step 1: Caller sends INVITE with SDP ---
    let mut caller_sdp = SdpSession::new(&caller_addr.ip().to_string());
    caller_sdp.add_audio_media(10000);
    let sdp_body = caller_sdp.to_string();

    let invite = RequestBuilder::new(SipMethod::Invite, &format!("sip:bob@{}", callee_addr))
        .header(
            HeaderName::Via,
            &format!("SIP/2.0/UDP {};branch={};rport", caller_addr, branch),
        )
        .header(HeaderName::MaxForwards, "70")
        .header(
            HeaderName::From,
            &format!("<sip:alice@{}>;tag={}", caller_addr, caller_tag),
        )
        .header(
            HeaderName::To,
            &format!("<sip:bob@{}>", callee_addr),
        )
        .header(HeaderName::CallId, &call_id)
        .header(HeaderName::CSeq, "1 INVITE")
        .header(
            HeaderName::Contact,
            &format!("<sip:alice@{}>", caller_addr),
        )
        .header(HeaderName::ContentType, "application/sdp")
        .body(&sdp_body)
        .build();

    // Create caller dialog
    let mut caller_dialog = SipDialog::new_uac(
        call_id.clone(),
        caller_tag.clone(),
        format!("sip:alice@{}", caller_addr),
        format!("sip:bob@{}", callee_addr),
    );
    assert_eq!(caller_dialog.state, DialogState::Early);

    // Create caller transaction
    let mut caller_txn = SipTransaction::new_client(&invite).unwrap();

    caller_transport.send_to(&invite, callee_addr);

    // --- Step 2: Callee receives INVITE, creates dialog ---
    let incoming = callee_transport.recv();
    assert!(incoming.message.is_request());

    let callee_dialog = SipDialog::from_invite(&incoming.message).unwrap();
    assert_eq!(callee_dialog.state, DialogState::Early);
    assert_eq!(callee_dialog.call_id, call_id);

    let callee_tag = callee_dialog.local_tag.clone();

    if let SipMessage::Request(ref req) = incoming.message {
        assert_eq!(req.method, SipMethod::Invite);

        // Verify SDP in body
        let body = req.body.as_ref().unwrap();
        let received_sdp = SdpSession::parse(body).unwrap();
        assert_eq!(received_sdp.get_audio_port(), Some(10000));

        // --- Step 3: Callee sends 180 Ringing ---
        let ringing = ResponseBuilder::from_request(req, StatusCode(StatusCode::RINGING))
            .header(
                HeaderName::To,
                &format!("<sip:bob@{}>;tag={}", callee_addr, callee_tag),
            )
            .build();

        callee_transport.send_to(&ringing, caller_addr);

        // Caller receives 180
        let ringing_recv = caller_transport.recv();
        let action = caller_txn.process_response(&ringing_recv.message);
        assert_eq!(action, TransactionAction::PassToTU);
        assert_eq!(caller_txn.state, TransactionState::Proceeding);

        caller_dialog.process_response(&ringing_recv.message);
        assert_eq!(caller_dialog.state, DialogState::Early);
        assert_eq!(caller_dialog.remote_tag, Some(callee_tag.clone()));

        // --- Step 4: Callee sends 200 OK with SDP answer ---
        let mut callee_sdp = SdpSession::new(&callee_addr.ip().to_string());
        callee_sdp.add_audio_media(20000);
        let callee_sdp_body = callee_sdp.to_string();

        let ok_response = ResponseBuilder::from_request(req, StatusCode(StatusCode::OK))
            .header(
                HeaderName::To,
                &format!("<sip:bob@{}>;tag={}", callee_addr, callee_tag),
            )
            .header(
                HeaderName::Contact,
                &format!("<sip:bob@{}>", callee_addr),
            )
            .header(HeaderName::ContentType, "application/sdp")
            .body(&callee_sdp_body)
            .build();

        callee_transport.send_to(&ok_response, caller_addr);

        // Caller receives 200 OK
        let ok_recv = caller_transport.recv();
        let action = caller_txn.process_response(&ok_recv.message);
        assert_eq!(action, TransactionAction::PassToTU);
        assert_eq!(caller_txn.state, TransactionState::Terminated);

        caller_dialog.process_response(&ok_recv.message);
        assert_eq!(caller_dialog.state, DialogState::Confirmed);

        // Verify SDP answer
        if let SipMessage::Response(ref res) = ok_recv.message {
            let sdp_answer = SdpSession::parse(res.body.as_ref().unwrap()).unwrap();
            assert_eq!(sdp_answer.get_audio_port(), Some(20000));
        }

        // --- Step 5: Caller sends ACK ---
        let ack_branch = generate_branch();
        let ack = RequestBuilder::new(SipMethod::Ack, &format!("sip:bob@{}", callee_addr))
            .header(
                HeaderName::Via,
                &format!("SIP/2.0/UDP {};branch={};rport", caller_addr, ack_branch),
            )
            .header(HeaderName::MaxForwards, "70")
            .header(
                HeaderName::From,
                &format!("<sip:alice@{}>;tag={}", caller_addr, caller_tag),
            )
            .header(
                HeaderName::To,
                &format!("<sip:bob@{}>;tag={}", callee_addr, callee_tag),
            )
            .header(HeaderName::CallId, &call_id)
            .header(HeaderName::CSeq, "1 ACK")
            .build();

        caller_transport.send_to(&ack, callee_addr);

        // Callee receives ACK
        let ack_recv = callee_transport.recv();
        if let SipMessage::Request(ref ack_req) = ack_recv.message {
            assert_eq!(ack_req.method, SipMethod::Ack);
        }

        // --- Step 6: Caller sends BYE ---
        let bye_branch = generate_branch();
        let bye_cseq = caller_dialog.next_cseq();
        let bye = RequestBuilder::new(SipMethod::Bye, &format!("sip:bob@{}", callee_addr))
            .header(
                HeaderName::Via,
                &format!("SIP/2.0/UDP {};branch={};rport", caller_addr, bye_branch),
            )
            .header(HeaderName::MaxForwards, "70")
            .header(
                HeaderName::From,
                &format!("<sip:alice@{}>;tag={}", caller_addr, caller_tag),
            )
            .header(
                HeaderName::To,
                &format!("<sip:bob@{}>;tag={}", callee_addr, callee_tag),
            )
            .header(HeaderName::CallId, &call_id)
            .header(HeaderName::CSeq, &format!("{} BYE", bye_cseq))
            .build();

        caller_dialog.terminate();
        assert_eq!(caller_dialog.state, DialogState::Terminated);

        caller_transport.send_to(&bye, callee_addr);

        // Callee receives BYE
        let bye_recv = callee_transport.recv();
        if let SipMessage::Request(ref bye_req) = bye_recv.message {
            assert_eq!(bye_req.method, SipMethod::Bye);

            // Callee sends 200 OK for BYE
            let bye_ok = ResponseBuilder::from_request(bye_req, StatusCode(StatusCode::OK)).build();
            callee_transport.send_to(&bye_ok, caller_addr);
        }

        // Caller receives 200 OK for BYE
        let bye_ok_recv = caller_transport.recv();
        if let SipMessage::Response(ref res) = bye_ok_recv.message {
            assert_eq!(res.status, StatusCode(StatusCode::OK));
        }
    } else {
        panic!("Expected INVITE request");
    }
}

#[test]
fn e2e_invite_rejected_busy() {
    let net = Net::new();
    let caller = SipTransport::bind(&net);
    let callee = SipTransport::bind(&net);

    let caller_addr = caller.local_addr();
    let callee_addr = callee.local_addr();

    let call_id = uuid::Uuid::new_v4().to_string();
    let caller_tag = generate_tag();
    let branch = generate_branch();

    let invite = RequestBuilder::new(SipMethod::Invite, &format!("sip:bob@{}", callee_addr))
        .header(
            HeaderName::Via,
            &format!("SIP/2.0/UDP {};branch={}", caller_addr, branch),
        )
        .header(HeaderName::MaxForwards, "70")
        .header(
            HeaderName::From,
            &format!("<sip:alice@{}>;tag={}", caller_addr, caller_tag),
        )
        .header(HeaderName::To, &format!("<sip:bob@{}>", callee_addr))
        .header(HeaderName::CallId, &call_id)
        .header(HeaderName::CSeq, "1 INVITE")
        .build();

    let mut caller_dialog = SipDialog::new_uac(
        call_id.clone(),
        caller_tag.clone(),
        format!("sip:alice@{}", caller_addr),
        format!("sip:bob@{}", callee_addr),
    );

    caller.send_to(&invite, callee_addr);

    // Callee receives and rejects
    let incoming = callee.recv();
    if let SipMessage::Request(ref req) = incoming.message {
        let busy = ResponseBuilder::from_request(req, StatusCode(StatusCode::BUSY_HERE))
            .header(
                HeaderName::To,
                &format!("<sip:bob@{}>;tag={}", callee_addr, generate_tag()),
            )
            .build();
        callee.send_to(&busy, caller_addr);
    }

    // Caller receives 486
    let response = caller.recv();
    caller_dialog.process_response(&response.message);
    assert_eq!(caller_dialog.state, DialogState::Terminated);

    if let SipMessage::Response(ref res) = response.message {
        assert_eq!(res.status, StatusCode(StatusCode::BUSY_HERE));
    }
}

#[test]
fn e2e_cancel_invite() {
    let net = Net::new();
    let caller = SipTransport::bind(&net);
    let callee = SipTransport::bind(&net);

    let caller_addr = caller.local_addr();
    let callee_addr = callee.local_addr();

    let call_id = uuid::Uuid::new_v4().to_string();
    let caller_tag = generate_tag();
    let branch = generate_branch();

    // Send INVITE
    let invite = RequestBuilder::new(SipMethod::Invite, &format!("sip:bob@{}", callee_addr))
        .header(
            HeaderName::Via,
            &format!("SIP/2.0/UDP {};branch={}", caller_addr, branch),
        )
        .header(HeaderName::MaxForwards, "70")
        .header(
            HeaderName::From,
            &format!("<sip:alice@{}>;tag={}", caller_addr, caller_tag),
        )
        .header(HeaderName::To, &format!("<sip:bob@{}>", callee_addr))
        .header(HeaderName::CallId, &call_id)
        .header(HeaderName::CSeq, "1 INVITE")
        .build();

    caller.send_to(&invite, callee_addr);

    // Callee receives INVITE
    let incoming = callee.recv();
    assert!(incoming.message.is_request());

    // Callee sends 180 Ringing
    if let SipMessage::Request(ref req) = incoming.message {
        let ringing = ResponseBuilder::from_request(req, StatusCode(StatusCode::RINGING))
            .header(
                HeaderName::To,
                &format!("<sip:bob@{}>;tag={}", callee_addr, generate_tag()),
            )
            .build();
        callee.send_to(&ringing, caller_addr);
    }

    // Caller receives 180
    let ringing_recv = caller.recv();
    assert!(ringing_recv.message.is_response());

    // Caller sends CANCEL (same branch as INVITE)
    let cancel = RequestBuilder::new(SipMethod::Cancel, &format!("sip:bob@{}", callee_addr))
        .header(
            HeaderName::Via,
            &format!("SIP/2.0/UDP {};branch={}", caller_addr, branch),
        )
        .header(HeaderName::MaxForwards, "70")
        .header(
            HeaderName::From,
            &format!("<sip:alice@{}>;tag={}", caller_addr, caller_tag),
        )
        .header(HeaderName::To, &format!("<sip:bob@{}>", callee_addr))
        .header(HeaderName::CallId, &call_id)
        .header(HeaderName::CSeq, "1 CANCEL")
        .build();

    caller.send_to(&cancel, callee_addr);

    // Callee receives CANCEL
    let cancel_recv = callee.recv();
    if let SipMessage::Request(ref req) = cancel_recv.message {
        assert_eq!(req.method, SipMethod::Cancel);

        // Callee sends 200 OK for CANCEL
        let cancel_ok = ResponseBuilder::from_request(req, StatusCode(StatusCode::OK)).build();
        callee.send_to(&cancel_ok, caller_addr);
    }

    // Caller receives 200 OK for CANCEL
    let cancel_ok_recv = caller.recv();
    if let SipMessage::Response(ref res) = cancel_ok_recv.message {
        assert_eq!(res.status, StatusCode(StatusCode::OK));
    }
}

#[test]
fn e2e_message_roundtrip_through_transport() {
    let net = Net::new();
    let t1 = SipTransport::bind(&net);
    let t2 = SipTransport::bind(&net);

    let t1_addr = t1.local_addr();
    let t2_addr = t2.local_addr();

    // Build a complex message
    let mut sdp = SdpSession::new("192.168.1.100");
    sdp.add_audio_media(49170);
    let sdp_body = sdp.to_string();

    let msg = RequestBuilder::new(SipMethod::Invite, "sip:bob@biloxi.com")
        .header(
            HeaderName::Via,
            &format!("SIP/2.0/UDP {};branch={}", t1_addr, generate_branch()),
        )
        .header(HeaderName::MaxForwards, "70")
        .header(
            HeaderName::From,
            &format!("<sip:alice@atlanta.com>;tag={}", generate_tag()),
        )
        .header(HeaderName::To, "<sip:bob@biloxi.com>")
        .header(HeaderName::CallId, &uuid::Uuid::new_v4().to_string())
        .header(HeaderName::CSeq, "1 INVITE")
        .header(
            HeaderName::Contact,
            &format!("<sip:alice@{}>", t1_addr),
        )
        .header(HeaderName::ContentType, "application/sdp")
        .body(&sdp_body)
        .build();

    // Send through UDP
    t1.send_to(&msg, t2_addr);

    // Receive and parse
    let incoming = t2.recv();
    let received = incoming.message;

    // Verify the message survived the roundtrip
    assert!(received.is_request());
    assert_eq!(received.cseq().unwrap().1, SipMethod::Invite);

    // Verify SDP body survived
    let body = received.body().unwrap();
    let received_sdp = SdpSession::parse(body).unwrap();
    assert_eq!(received_sdp.get_audio_port(), Some(49170));
    assert_eq!(
        received_sdp.get_connection_address(),
        Some("192.168.1.100")
    );
}

#[test]
fn e2e_interactive_hangup_sends_bye() {
    let net = Net::new();
    let uac_transport = SipTransport::bind(&net);
    let uas_transport = SipTransport::bind(&net);
    let uac_addr = uac_transport.local_addr();
    let uas_addr = uas_transport.local_addr();

    let call_id = uuid::Uuid::new_v4().to_string();
    let branch = generate_branch();
    let local_tag = generate_tag();
    let remote_tag = generate_tag();

    // Step 1: Setup call — UAC sends INVITE
    let invite = RequestBuilder::new(SipMethod::Invite, &format!("sip:bob@{}", uas_addr))
        .header(HeaderName::Via, &format!("SIP/2.0/UDP {};branch={};rport", uac_addr, branch))
        .header(HeaderName::From, &format!("<sip:alice@{}>;tag={}", uac_addr, local_tag))
        .header(HeaderName::To, &format!("<sip:bob@{}>", uas_addr))
        .header(HeaderName::CallId, &call_id)
        .header(HeaderName::CSeq, "1 INVITE")
        .header(HeaderName::Contact, &format!("<sip:alice@{}>", uac_addr))
        .build();

    uac_transport.send_to(&invite, uas_addr);
    let incoming = uas_transport.recv();
    assert!(incoming.message.is_request());

    // Step 2: UAS sends 200 OK
    let ok = ResponseBuilder::new(StatusCode(StatusCode::OK))
        .header(HeaderName::Via, &format!("SIP/2.0/UDP {};branch={};rport", uac_addr, branch))
        .header(HeaderName::From, &format!("<sip:alice@{}>;tag={}", uac_addr, local_tag))
        .header(HeaderName::To, &format!("<sip:bob@{}>;tag={}", uas_addr, remote_tag))
        .header(HeaderName::CallId, &call_id)
        .header(HeaderName::CSeq, "1 INVITE")
        .header(HeaderName::Contact, &format!("<sip:bob@{}>", uas_addr))
        .build();

    uas_transport.send_to(&ok, uac_addr);
    let response = uac_transport.recv();
    assert!(response.message.is_response());

    // Step 3: Simulate "hangup" — UAC sends BYE
    let bye_branch = generate_branch();
    let bye = RequestBuilder::new(SipMethod::Bye, &format!("sip:bob@{}", uas_addr))
        .header(HeaderName::Via, &format!("SIP/2.0/UDP {};branch={};rport", uac_addr, bye_branch))
        .header(HeaderName::From, &format!("<sip:alice@{}>;tag={}", uac_addr, local_tag))
        .header(HeaderName::To, &format!("<sip:bob@{}>;tag={}", uas_addr, remote_tag))
        .header(HeaderName::CallId, &call_id)
        .header(HeaderName::CSeq, "2 BYE")
        .build();

    uac_transport.send_to(&bye, uas_addr);

    // Verify UAS receives BYE
    let bye_msg = uas_transport.recv();
    assert!(bye_msg.message.is_request());
    if let SipMessage::Request(req) = &bye_msg.message {
        assert_eq!(req.method, SipMethod::Bye);
    }

    // Verify it's the same call
    assert_eq!(bye_msg.message.call_id().unwrap(), call_id);
}

#[test]
fn e2e_sip_debugger_capture() {
    let net = Net::new();
    // Simulate SIP messages being captured by the debugger
    let uac_transport = SipTransport::bind(&net);
    let uas_transport = SipTransport::bind(&net);
    let uac_addr = uac_transport.local_addr();
    let uas_addr = uas_transport.local_addr();

    let call_id = uuid::Uuid::new_v4().to_string();
    let branch = generate_branch();
    let tag = generate_tag();

    // Send INVITE
    let invite = RequestBuilder::new(SipMethod::Invite, &format!("sip:bob@{}", uas_addr))
        .header(HeaderName::Via, &format!("SIP/2.0/UDP {};branch={}", uac_addr, branch))
        .header(HeaderName::From, &format!("<sip:alice@{}>;tag={}", uac_addr, tag))
        .header(HeaderName::To, &format!("<sip:bob@{}>", uas_addr))
        .header(HeaderName::CallId, &call_id)
        .header(HeaderName::CSeq, "1 INVITE")
        .build();

    uac_transport.send_to(&invite, uas_addr);

    // Receive it
    let incoming = uas_transport.recv();
    let msg = incoming.message;

    // Verify the message can be inspected like the debugger does
    assert!(msg.is_request());
    assert_eq!(msg.call_id().unwrap(), call_id);

    // Verify headers are accessible
    let headers = msg.headers();
    assert!(headers.get(&HeaderName::Via).is_some());
    assert!(headers.get(&HeaderName::From).is_some());
    assert!(headers.get(&HeaderName::To).is_some());
    assert!(headers.get(&HeaderName::CallId).is_some());
    assert!(headers.get(&HeaderName::CSeq).is_some());

    // Verify CSeq parsing
    let (seq, method) = msg.cseq().unwrap();
    assert_eq!(seq, 1);
    assert_eq!(method, SipMethod::Invite);

    // Send 180 Ringing
    let ringing = ResponseBuilder::new(StatusCode(StatusCode::RINGING))
        .header(HeaderName::Via, &format!("SIP/2.0/UDP {};branch={}", uac_addr, branch))
        .header(HeaderName::From, &format!("<sip:alice@{}>;tag={}", uac_addr, tag))
        .header(HeaderName::To, &format!("<sip:bob@{}>;tag=resp1", uas_addr))
        .header(HeaderName::CallId, &call_id)
        .header(HeaderName::CSeq, "1 INVITE")
        .build();

    uas_transport.send_to(&ringing, uac_addr);
    let resp = uac_transport.recv();
    assert!(resp.message.is_response());
    assert_eq!(resp.message.status().unwrap().0, 180);

    // Send 200 OK
    let ok = ResponseBuilder::new(StatusCode(StatusCode::OK))
        .header(HeaderName::Via, &format!("SIP/2.0/UDP {};branch={}", uac_addr, branch))
        .header(HeaderName::From, &format!("<sip:alice@{}>;tag={}", uac_addr, tag))
        .header(HeaderName::To, &format!("<sip:bob@{}>;tag=resp1", uas_addr))
        .header(HeaderName::CallId, &call_id)
        .header(HeaderName::CSeq, "1 INVITE")
        .build();

    uas_transport.send_to(&ok, uac_addr);
    let resp = uac_transport.recv();
    assert!(resp.message.is_response());
    assert_eq!(resp.message.status().unwrap().0, 200);
}

#[test]
fn e2e_sip_debugger_call_flow_tracking() {
    let net = Net::new();
    // Test that messages with the same Call-ID are grouped together
    let t1 = SipTransport::bind(&net);
    let t2 = SipTransport::bind(&net);
    let addr1 = t1.local_addr();
    let addr2 = t2.local_addr();

    let call_id_a = "call-flow-A";
    let call_id_b = "call-flow-B";
    let tag1 = generate_tag();
    let tag2 = generate_tag();

    // Send messages from two different calls interleaved
    let invite_a = RequestBuilder::new(SipMethod::Invite, &format!("sip:x@{}", addr2))
        .header(HeaderName::Via, &format!("SIP/2.0/UDP {};branch={}", addr1, generate_branch()))
        .header(HeaderName::From, &format!("<sip:a@{}>;tag={}", addr1, tag1))
        .header(HeaderName::To, &format!("<sip:x@{}>", addr2))
        .header(HeaderName::CallId, call_id_a)
        .header(HeaderName::CSeq, "1 INVITE")
        .build();

    let register_b = RequestBuilder::new(SipMethod::Register, &format!("sip:{}", addr2))
        .header(HeaderName::Via, &format!("SIP/2.0/UDP {};branch={}", addr1, generate_branch()))
        .header(HeaderName::From, &format!("<sip:b@{}>;tag={}", addr1, tag2))
        .header(HeaderName::To, &format!("<sip:b@{}>", addr2))
        .header(HeaderName::CallId, call_id_b)
        .header(HeaderName::CSeq, "1 REGISTER")
        .build();

    t1.send_to(&invite_a, addr2);
    t1.send_to(&register_b, addr2);

    // Receive both
    let msg1 = t2.recv();
    let msg2 = t2.recv();

    // Verify they have different Call-IDs (can be grouped into separate flows)
    let cid1 = msg1.message.call_id().unwrap();
    let cid2 = msg2.message.call_id().unwrap();
    assert_ne!(cid1, cid2);

    // Verify we can identify the methods
    let methods: Vec<SipMethod> = [&msg1.message, &msg2.message]
        .iter()
        .filter_map(|m| m.method().cloned())
        .collect();
    assert!(methods.contains(&SipMethod::Invite));
    assert!(methods.contains(&SipMethod::Register));
}

#[test]
fn e2e_sip_message_roundtrip_for_debug() {
    let net = Net::new();
    // Verify SIP messages survive parse → display → parse round-trip
    // This is important for the debugger's ability to show raw messages
    let t1 = SipTransport::bind(&net);
    let t2 = SipTransport::bind(&net);
    let addr1 = t1.local_addr();
    let addr2 = t2.local_addr();

    // Build an INVITE with SDP body
    let mut sdp = SdpSession::new(&addr1.ip().to_string());
    sdp.add_audio_media(10000);
    let sdp_body = sdp.to_string();

    let invite = RequestBuilder::new(SipMethod::Invite, &format!("sip:test@{}", addr2))
        .header(HeaderName::Via, &format!("SIP/2.0/UDP {};branch={}", addr1, generate_branch()))
        .header(HeaderName::From, &format!("<sip:caller@{}>;tag={}", addr1, generate_tag()))
        .header(HeaderName::To, &format!("<sip:test@{}>", addr2))
        .header(HeaderName::CallId, "roundtrip-test-call")
        .header(HeaderName::CSeq, "1 INVITE")
        .header(HeaderName::ContentType, "application/sdp")
        .header(HeaderName::UserAgent, "siphone/0.1.0")
        .body(&sdp_body)
        .build();

    // Send and receive
    t1.send_to(&invite, addr2);
    let incoming = t2.recv();

    // Verify all fields survived
    let msg = &incoming.message;
    assert!(msg.is_request());
    assert_eq!(msg.call_id().unwrap(), "roundtrip-test-call");

    // Verify SDP body is intact
    let body = msg.body().unwrap();
    let parsed_sdp = SdpSession::parse(body).unwrap();
    assert_eq!(parsed_sdp.get_audio_port().unwrap(), 10000);
    assert_eq!(
        parsed_sdp.get_connection_address().unwrap(),
        &addr1.ip().to_string()
    );

    // Verify the message can be serialized back to bytes (for debugger display)
    let bytes = msg.to_bytes();
    assert!(!bytes.is_empty());

    // Re-parse from bytes
    let reparsed = SipMessage::parse(&String::from_utf8_lossy(&bytes)).unwrap();
    assert_eq!(reparsed.call_id().unwrap(), "roundtrip-test-call");
    assert!(reparsed.body().is_some());
}

#[test]
fn e2e_sniff_start_stop_during_call() {
    let net = Net::new();
    // Simulate the interactive sniff start/stop pattern during a call.
    // Messages received while sniffing is off should not be captured.
    let t1 = SipTransport::bind(&net);
    let t2 = SipTransport::bind(&net);
    let addr1 = t1.local_addr();
    let addr2 = t2.local_addr();

    let call_id = "sniff-test-call";
    let tag = generate_tag();

    // Track captured messages manually (simulating SipDebugger active/inactive)
    let mut sniff_active = false;
    let mut captured: Vec<SipMessage> = Vec::new();

    // --- Phase 1: Sniff OFF — send INVITE, should NOT be captured ---
    let invite = RequestBuilder::new(SipMethod::Invite, &format!("sip:x@{}", addr2))
        .header(HeaderName::Via, &format!("SIP/2.0/UDP {};branch={}", addr1, generate_branch()))
        .header(HeaderName::From, &format!("<sip:a@{}>;tag={}", addr1, tag))
        .header(HeaderName::To, &format!("<sip:x@{}>", addr2))
        .header(HeaderName::CallId, call_id)
        .header(HeaderName::CSeq, "1 INVITE")
        .build();

    t1.send_to(&invite, addr2);
    let incoming = t2.recv();
    if sniff_active {
        captured.push(incoming.message.clone());
    }
    assert_eq!(captured.len(), 0, "Nothing captured while sniff is off");

    // --- Phase 2: User types "sniff" — start capturing ---
    sniff_active = true;

    // Send 180 Ringing back
    let ringing = ResponseBuilder::new(StatusCode(StatusCode::RINGING))
        .header(HeaderName::Via, &format!("SIP/2.0/UDP {};branch={}", addr1, generate_branch()))
        .header(HeaderName::From, &format!("<sip:a@{}>;tag={}", addr1, tag))
        .header(HeaderName::To, &format!("<sip:x@{}>;tag=r1", addr2))
        .header(HeaderName::CallId, call_id)
        .header(HeaderName::CSeq, "1 INVITE")
        .build();

    t2.send_to(&ringing, addr1);
    let resp = t1.recv();
    if sniff_active {
        captured.push(resp.message.clone());
    }
    assert_eq!(captured.len(), 1, "180 Ringing captured");
    assert!(captured[0].is_response());
    assert_eq!(captured[0].status().unwrap().0, 180);

    // Send 200 OK
    let ok = ResponseBuilder::new(StatusCode(StatusCode::OK))
        .header(HeaderName::Via, &format!("SIP/2.0/UDP {};branch={}", addr1, generate_branch()))
        .header(HeaderName::From, &format!("<sip:a@{}>;tag={}", addr1, tag))
        .header(HeaderName::To, &format!("<sip:x@{}>;tag=r1", addr2))
        .header(HeaderName::CallId, call_id)
        .header(HeaderName::CSeq, "1 INVITE")
        .build();

    t2.send_to(&ok, addr1);
    let resp = t1.recv();
    if sniff_active {
        captured.push(resp.message.clone());
    }
    assert_eq!(captured.len(), 2, "200 OK captured");

    // --- Phase 3: User types "sniff stop" ---
    sniff_active = false;

    // Send ACK — should NOT be captured
    let ack = RequestBuilder::new(SipMethod::Ack, &format!("sip:x@{}", addr2))
        .header(HeaderName::Via, &format!("SIP/2.0/UDP {};branch={}", addr1, generate_branch()))
        .header(HeaderName::From, &format!("<sip:a@{}>;tag={}", addr1, tag))
        .header(HeaderName::To, &format!("<sip:x@{}>;tag=r1", addr2))
        .header(HeaderName::CallId, call_id)
        .header(HeaderName::CSeq, "1 ACK")
        .build();

    t1.send_to(&ack, addr2);
    let incoming = t2.recv();
    if sniff_active {
        captured.push(incoming.message.clone());
    }
    assert_eq!(captured.len(), 2, "ACK NOT captured (sniff stopped)");

    // --- Phase 4: User types "sniff" again to re-enable ---
    sniff_active = true;

    // Send BYE
    let bye = RequestBuilder::new(SipMethod::Bye, &format!("sip:x@{}", addr2))
        .header(HeaderName::Via, &format!("SIP/2.0/UDP {};branch={}", addr1, generate_branch()))
        .header(HeaderName::From, &format!("<sip:a@{}>;tag={}", addr1, tag))
        .header(HeaderName::To, &format!("<sip:x@{}>;tag=r1", addr2))
        .header(HeaderName::CallId, call_id)
        .header(HeaderName::CSeq, "2 BYE")
        .build();

    t1.send_to(&bye, addr2);
    let incoming = t2.recv();
    if sniff_active {
        captured.push(incoming.message.clone());
    }
    assert_eq!(captured.len(), 3, "BYE captured after re-enabling sniff");

    // Verify all captured messages belong to the same call
    for msg in &captured {
        assert_eq!(msg.call_id().unwrap(), call_id);
    }
}

#[test]
fn e2e_sniff_full_call_flow_capture() {
    let net = Net::new();
    // Simulate sniff being active for an entire call and verify
    // we capture both directions (incoming + outgoing)
    let uac = SipTransport::bind(&net);
    let uas = SipTransport::bind(&net);
    let uac_addr = uac.local_addr();
    let uas_addr = uas.local_addr();

    let call_id = "full-sniff-call";
    let tag_a = generate_tag();
    let tag_b = generate_tag();

    let mut captured_at_uac: Vec<(Addr, Addr, SipMessage)> = Vec::new();

    // 1. UAC sends INVITE (outgoing from UAC perspective)
    let invite = RequestBuilder::new(SipMethod::Invite, &format!("sip:b@{}", uas_addr))
        .header(HeaderName::Via, &format!("SIP/2.0/UDP {};branch={}", uac_addr, generate_branch()))
        .header(HeaderName::From, &format!("<sip:a@{}>;tag={}", uac_addr, tag_a))
        .header(HeaderName::To, &format!("<sip:b@{}>", uas_addr))
        .header(HeaderName::CallId, call_id)
        .header(HeaderName::CSeq, "1 INVITE")
        .build();

    captured_at_uac.push((uac_addr, uas_addr, invite.clone()));
    uac.send_to(&invite, uas_addr);
    let _ = uas.recv();

    // 2. UAS sends 200 OK (incoming to UAC)
    let ok = ResponseBuilder::new(StatusCode(StatusCode::OK))
        .header(HeaderName::Via, &format!("SIP/2.0/UDP {};branch={}", uac_addr, generate_branch()))
        .header(HeaderName::From, &format!("<sip:a@{}>;tag={}", uac_addr, tag_a))
        .header(HeaderName::To, &format!("<sip:b@{}>;tag={}", uas_addr, tag_b))
        .header(HeaderName::CallId, call_id)
        .header(HeaderName::CSeq, "1 INVITE")
        .build();

    uas.send_to(&ok, uac_addr);
    let resp = uac.recv();
    captured_at_uac.push((resp.source, uac_addr, resp.message));

    // 3. UAC sends ACK (outgoing)
    let ack = RequestBuilder::new(SipMethod::Ack, &format!("sip:b@{}", uas_addr))
        .header(HeaderName::Via, &format!("SIP/2.0/UDP {};branch={}", uac_addr, generate_branch()))
        .header(HeaderName::From, &format!("<sip:a@{}>;tag={}", uac_addr, tag_a))
        .header(HeaderName::To, &format!("<sip:b@{}>;tag={}", uas_addr, tag_b))
        .header(HeaderName::CallId, call_id)
        .header(HeaderName::CSeq, "1 ACK")
        .build();

    captured_at_uac.push((uac_addr, uas_addr, ack.clone()));
    uac.send_to(&ack, uas_addr);
    let _ = uas.recv();

    // 4. UAC sends BYE (outgoing)
    let bye = RequestBuilder::new(SipMethod::Bye, &format!("sip:b@{}", uas_addr))
        .header(HeaderName::Via, &format!("SIP/2.0/UDP {};branch={}", uac_addr, generate_branch()))
        .header(HeaderName::From, &format!("<sip:a@{}>;tag={}", uac_addr, tag_a))
        .header(HeaderName::To, &format!("<sip:b@{}>;tag={}", uas_addr, tag_b))
        .header(HeaderName::CallId, call_id)
        .header(HeaderName::CSeq, "2 BYE")
        .build();

    captured_at_uac.push((uac_addr, uas_addr, bye.clone()));
    uac.send_to(&bye, uas_addr);
    let _ = uas.recv();

    // Verify captured flow
    assert_eq!(captured_at_uac.len(), 4);

    // INVITE (outgoing)
    assert!(captured_at_uac[0].2.is_request());
    assert_eq!(*captured_at_uac[0].2.method().unwrap(), SipMethod::Invite);
    assert_eq!(captured_at_uac[0].0, uac_addr); // from us
    assert_eq!(captured_at_uac[0].1, uas_addr); // to them

    // 200 OK (incoming)
    assert!(captured_at_uac[1].2.is_response());
    assert_eq!(captured_at_uac[1].2.status().unwrap().0, 200);
    assert_eq!(captured_at_uac[1].0, uas_addr); // from them
    assert_eq!(captured_at_uac[1].1, uac_addr); // to us

    // ACK (outgoing)
    assert_eq!(*captured_at_uac[2].2.method().unwrap(), SipMethod::Ack);

    // BYE (outgoing)
    assert_eq!(*captured_at_uac[3].2.method().unwrap(), SipMethod::Bye);

    // All same Call-ID
    for (_, _, msg) in &captured_at_uac {
        assert_eq!(msg.call_id().unwrap(), call_id);
    }
}

#[test]
fn e2e_digest_auth_register() {
    let net = Net::new();
    let uac = SipTransport::bind(&net);
    let uas = SipTransport::bind(&net);
    let uac_addr = uac.local_addr();
    let uas_addr = uas.local_addr();

    let call_id = "auth-test-call-id";
    let local_tag = generate_tag();

    // Step 1: UAC sends REGISTER (no auth)
    let reg1 = RequestBuilder::new(SipMethod::Register, &format!("sip:{}", uas_addr))
        .header(HeaderName::Via, &format!("SIP/2.0/UDP {};branch={}", uac_addr, generate_branch()))
        .header(HeaderName::From, &format!("<sip:alice@example.com>;tag={}", local_tag))
        .header(HeaderName::To, "<sip:alice@example.com>")
        .header(HeaderName::CallId, call_id)
        .header(HeaderName::CSeq, "1 REGISTER")
        .header(HeaderName::Contact, &format!("<sip:alice@{}>", uac_addr))
        .build();
    uac.send_to(&reg1, uas_addr);

    // Step 2: UAS receives REGISTER, responds 401 with challenge
    let incoming = uas.recv();
    assert_eq!(*incoming.message.method().unwrap(), SipMethod::Register);
    assert!(incoming.message.headers().get(&HeaderName::Authorization).is_none());

    if let SipMessage::Request(ref req) = incoming.message {
        let challenge_resp = ResponseBuilder::from_request(req, StatusCode(StatusCode::UNAUTHORIZED))
            .header(HeaderName::WwwAuthenticate,
                r#"Digest realm="example.com", nonce="dcd98b7102dd2f0e", algorithm=MD5, qop="auth""#)
            .build();
        uas.send_to(&challenge_resp, incoming.source);
    }

    // Step 3: UAC receives 401, computes digest, re-sends REGISTER
    let resp = uac.recv();
    assert_eq!(resp.message.status().unwrap().0, 401);

    let www_auth = resp.message.headers().get(&HeaderName::WwwAuthenticate).unwrap();
    let challenge = parse_challenge(www_auth.as_str()).unwrap();
    assert_eq!(challenge.realm, "example.com");
    assert_eq!(challenge.nonce, "dcd98b7102dd2f0e");
    assert_eq!(challenge.qop.as_deref(), Some("auth"));

    let creds = Credentials { username: "alice".to_string(), password: "secret".to_string() };
    let digest = compute_digest(&challenge, &creds, "REGISTER", &format!("sip:{}", uas_addr));
    let auth_value = digest.to_string();
    assert!(auth_value.contains("username=\"alice\""));
    assert!(auth_value.contains("realm=\"example.com\""));

    let reg2 = RequestBuilder::new(SipMethod::Register, &format!("sip:{}", uas_addr))
        .header(HeaderName::Via, &format!("SIP/2.0/UDP {};branch={}", uac_addr, generate_branch()))
        .header(HeaderName::From, &format!("<sip:alice@example.com>;tag={}", local_tag))
        .header(HeaderName::To, "<sip:alice@example.com>")
        .header(HeaderName::CallId, call_id)
        .header(HeaderName::CSeq, "2 REGISTER")
        .header(HeaderName::Contact, &format!("<sip:alice@{}>", uac_addr))
        .header(HeaderName::Authorization, &auth_value)
        .build();
    uac.send_to(&reg2, uas_addr);

    // Step 4: UAS receives authenticated REGISTER, responds 200 OK
    let incoming2 = uas.recv();
    assert_eq!(*incoming2.message.method().unwrap(), SipMethod::Register);
    let auth_header = incoming2.message.headers().get(&HeaderName::Authorization)
        .expect("Second REGISTER must have Authorization");
    assert!(auth_header.as_str().contains("response="));

    if let SipMessage::Request(ref req) = incoming2.message {
        let ok = ResponseBuilder::from_request(req, StatusCode(StatusCode::OK)).build();
        uas.send_to(&ok, incoming2.source);
    }

    let final_resp = uac.recv();
    assert!(final_resp.message.status().unwrap().is_success());
}

#[test]
fn e2e_call_hold_resume() {
    let net = Net::new();
    let uac = SipTransport::bind(&net);
    let uas = SipTransport::bind(&net);
    let uac_addr = uac.local_addr();
    let uas_addr = uas.local_addr();

    let call_id = "hold-test-call-id";
    let local_tag = generate_tag();
    let remote_tag = generate_tag();

    // Establish a call with initial INVITE
    let mut sdp = SdpSession::new("127.0.0.1");
    sdp.add_audio_media(4000);
    let sdp_body = sdp.to_string();

    let invite = RequestBuilder::new(SipMethod::Invite, &format!("sip:bob@{}", uas_addr))
        .header(HeaderName::Via, &format!("SIP/2.0/UDP {};branch={}", uac_addr, generate_branch()))
        .header(HeaderName::From, &format!("<sip:alice@example.com>;tag={}", local_tag))
        .header(HeaderName::To, &format!("<sip:bob@{}>", uas_addr))
        .header(HeaderName::CallId, call_id)
        .header(HeaderName::CSeq, "1 INVITE")
        .header(HeaderName::Contact, &format!("<sip:alice@{}>", uac_addr))
        .header(HeaderName::ContentType, "application/sdp")
        .body(&sdp_body)
        .build();
    uac.send_to(&invite, uas_addr);

    // UAS receives and sends 200 OK
    let incoming = uas.recv();
    if let SipMessage::Request(ref req) = incoming.message {
        let mut answer_sdp = SdpSession::new("127.0.0.1");
        answer_sdp.add_audio_media(5000);
        let answer_body = answer_sdp.to_string();
        let ok = ResponseBuilder::from_request(req, StatusCode(StatusCode::OK))
            .header(HeaderName::Contact, &format!("<sip:bob@{}>", uas_addr))
            .header(HeaderName::To, &format!("<sip:bob@{}>;tag={}", uas_addr, remote_tag))
            .header(HeaderName::ContentType, "application/sdp")
            .body(&answer_body)
            .build();
        uas.send_to(&ok, incoming.source);
    }

    let _ = uac.recv(); // 200 OK

    // Now UAC sends re-INVITE with a=sendonly (hold)
    let mut hold_sdp = SdpSession::new("127.0.0.1");
    hold_sdp.add_audio_media_directed(4000, "sendonly");
    let hold_body = hold_sdp.to_string();

    let reinvite = RequestBuilder::new(SipMethod::Invite, &format!("sip:bob@{}", uas_addr))
        .header(HeaderName::Via, &format!("SIP/2.0/UDP {};branch={}", uac_addr, generate_branch()))
        .header(HeaderName::From, &format!("<sip:alice@example.com>;tag={}", local_tag))
        .header(HeaderName::To, &format!("<sip:bob@{}>;tag={}", uas_addr, remote_tag))
        .header(HeaderName::CallId, call_id)
        .header(HeaderName::CSeq, "2 INVITE")
        .header(HeaderName::Contact, &format!("<sip:alice@{}>", uac_addr))
        .header(HeaderName::ContentType, "application/sdp")
        .body(&hold_body)
        .build();
    uac.send_to(&reinvite, uas_addr);

    // UAS receives re-INVITE and verifies it's a hold
    let hold_incoming = uas.recv();
    assert_eq!(*hold_incoming.message.method().unwrap(), SipMethod::Invite);
    let hold_sdp_parsed = SdpSession::parse(hold_incoming.message.body().unwrap()).unwrap();
    assert_eq!(hold_sdp_parsed.get_audio_direction(), Some("sendonly"));

    // UAS responds 200 OK to hold
    if let SipMessage::Request(ref req) = hold_incoming.message {
        let mut resp_sdp = SdpSession::new("127.0.0.1");
        resp_sdp.add_audio_media_directed(5000, "recvonly");
        let resp_body = resp_sdp.to_string();
        let ok = ResponseBuilder::from_request(req, StatusCode(StatusCode::OK))
            .header(HeaderName::ContentType, "application/sdp")
            .body(&resp_body)
            .build();
        uas.send_to(&ok, hold_incoming.source);
    }

    let hold_resp = uac.recv();
    assert!(hold_resp.message.status().unwrap().is_success());

    // Now UAC sends re-INVITE with a=sendrecv (resume)
    let mut resume_sdp = SdpSession::new("127.0.0.1");
    resume_sdp.add_audio_media_directed(4000, "sendrecv");
    let resume_body = resume_sdp.to_string();

    let reinvite2 = RequestBuilder::new(SipMethod::Invite, &format!("sip:bob@{}", uas_addr))
        .header(HeaderName::Via, &format!("SIP/2.0/UDP {};branch={}", uac_addr, generate_branch()))
        .header(HeaderName::From, &format!("<sip:alice@example.com>;tag={}", local_tag))
        .header(HeaderName::To, &format!("<sip:bob@{}>;tag={}", uas_addr, remote_tag))
        .header(HeaderName::CallId, call_id)
        .header(HeaderName::CSeq, "3 INVITE")
        .header(HeaderName::Contact, &format!("<sip:alice@{}>", uac_addr))
        .header(HeaderName::ContentType, "application/sdp")
        .body(&resume_body)
        .build();
    uac.send_to(&reinvite2, uas_addr);

    let resume_incoming = uas.recv();
    let resume_sdp_parsed = SdpSession::parse(resume_incoming.message.body().unwrap()).unwrap();
    assert_eq!(resume_sdp_parsed.get_audio_direction(), Some("sendrecv"));
}

#[test]
fn e2e_refer_blind_transfer() {
    let net = Net::new();
    let uac = SipTransport::bind(&net);
    let uas = SipTransport::bind(&net);
    let uac_addr = uac.local_addr();
    let uas_addr = uas.local_addr();

    let call_id = "refer-test-call-id";
    let local_tag = generate_tag();
    let remote_tag = generate_tag();

    // UAC sends REFER
    let refer = RequestBuilder::new(SipMethod::Refer, &format!("sip:bob@{}", uas_addr))
        .header(HeaderName::Via, &format!("SIP/2.0/UDP {};branch={}", uac_addr, generate_branch()))
        .header(HeaderName::From, &format!("<sip:alice@example.com>;tag={}", local_tag))
        .header(HeaderName::To, &format!("<sip:bob@{}>;tag={}", uas_addr, remote_tag))
        .header(HeaderName::CallId, call_id)
        .header(HeaderName::CSeq, "1 REFER")
        .header(HeaderName::Contact, &format!("<sip:alice@{}>", uac_addr))
        .header(HeaderName::ReferTo, "sip:carol@example.com")
        .header(HeaderName::ReferredBy, &format!("<sip:alice@{}>", uac_addr))
        .build();
    uac.send_to(&refer, uas_addr);

    // UAS receives REFER
    let incoming = uas.recv();
    assert_eq!(*incoming.message.method().unwrap(), SipMethod::Refer);

    let refer_to = incoming.message.headers().get(&HeaderName::ReferTo)
        .expect("REFER should have Refer-To");
    assert_eq!(refer_to.as_str(), "sip:carol@example.com");

    let referred_by = incoming.message.headers().get(&HeaderName::ReferredBy)
        .expect("REFER should have Referred-By");
    assert!(referred_by.as_str().contains("alice"));

    // UAS sends 202 Accepted
    if let SipMessage::Request(ref req) = incoming.message {
        let accepted = ResponseBuilder::from_request(req, StatusCode(StatusCode::ACCEPTED)).build();
        uas.send_to(&accepted, incoming.source);
    }

    let resp = uac.recv();
    assert_eq!(resp.message.status().unwrap().0, 202);

    // UAS sends NOTIFY with sipfrag body
    let notify = RequestBuilder::new(SipMethod::Notify, &format!("sip:alice@{}", uac_addr))
        .header(HeaderName::Via, &format!("SIP/2.0/UDP {};branch={}", uas_addr, generate_branch()))
        .header(HeaderName::From, &format!("<sip:bob@{}>;tag={}", uas_addr, remote_tag))
        .header(HeaderName::To, &format!("<sip:alice@example.com>;tag={}", local_tag))
        .header(HeaderName::CallId, call_id)
        .header(HeaderName::CSeq, "1 NOTIFY")
        .header(HeaderName::Event, "refer")
        .header(HeaderName::SubscriptionState, "terminated;reason=noresource")
        .header(HeaderName::ContentType, "message/sipfrag")
        .body("SIP/2.0 200 OK")
        .build();
    uas.send_to(&notify, uac_addr);

    let notify_incoming = uac.recv();
    assert_eq!(*notify_incoming.message.method().unwrap(), SipMethod::Notify);
    assert_eq!(notify_incoming.message.body().unwrap().trim(), "SIP/2.0 200 OK");

    let event = notify_incoming.message.headers().get(&HeaderName::Event).unwrap();
    assert_eq!(event.as_str(), "refer");
}

#[test]
fn e2e_prack_reliable_provisional() {
    let net = Net::new();
    let uac = SipTransport::bind(&net);
    let uas = SipTransport::bind(&net);
    let uac_addr = uac.local_addr();
    let uas_addr = uas.local_addr();

    let call_id = "prack-test-call-id";
    let local_tag = generate_tag();
    let remote_tag = generate_tag();

    // UAC sends INVITE
    let invite = RequestBuilder::new(SipMethod::Invite, &format!("sip:bob@{}", uas_addr))
        .header(HeaderName::Via, &format!("SIP/2.0/UDP {};branch={}", uac_addr, generate_branch()))
        .header(HeaderName::From, &format!("<sip:alice@example.com>;tag={}", local_tag))
        .header(HeaderName::To, &format!("<sip:bob@{}>", uas_addr))
        .header(HeaderName::CallId, call_id)
        .header(HeaderName::CSeq, "1 INVITE")
        .header(HeaderName::Supported, "100rel")
        .build();
    uac.send_to(&invite, uas_addr);

    // UAS receives INVITE
    let incoming = uas.recv();
    assert_eq!(*incoming.message.method().unwrap(), SipMethod::Invite);

    // UAS sends 183 Session Progress with Require: 100rel and RSeq
    if let SipMessage::Request(ref req) = incoming.message {
        let mut sdp = SdpSession::new("127.0.0.1");
        sdp.add_audio_media(6000);
        let sdp_body = sdp.to_string();
        let provisional = ResponseBuilder::from_request(req, StatusCode(StatusCode::SESSION_PROGRESS))
            .header(HeaderName::To, &format!("<sip:bob@{}>;tag={}", uas_addr, remote_tag))
            .header(HeaderName::Require, "100rel")
            .header(HeaderName::RSeq, "1")
            .header(HeaderName::ContentType, "application/sdp")
            .body(&sdp_body)
            .build();
        uas.send_to(&provisional, incoming.source);
    }

    // UAC receives 183 with 100rel
    let resp = uac.recv();
    assert_eq!(resp.message.status().unwrap().0, 183);

    let require = resp.message.headers().get(&HeaderName::Require).unwrap();
    assert!(require.as_str().contains("100rel"));

    let rseq = resp.message.headers().get(&HeaderName::RSeq).unwrap();
    assert_eq!(rseq.as_str().trim(), "1");

    // UAC sends PRACK
    let prack = RequestBuilder::new(SipMethod::Prack, &format!("sip:bob@{}", uas_addr))
        .header(HeaderName::Via, &format!("SIP/2.0/UDP {};branch={}", uac_addr, generate_branch()))
        .header(HeaderName::From, &format!("<sip:alice@example.com>;tag={}", local_tag))
        .header(HeaderName::To, &format!("<sip:bob@{}>;tag={}", uas_addr, remote_tag))
        .header(HeaderName::CallId, call_id)
        .header(HeaderName::CSeq, "2 PRACK")
        .header(HeaderName::RAck, "1 1 INVITE")
        .build();
    uac.send_to(&prack, uas_addr);

    // UAS receives PRACK
    let prack_incoming = uas.recv();
    assert_eq!(*prack_incoming.message.method().unwrap(), SipMethod::Prack);

    let rack = prack_incoming.message.headers().get(&HeaderName::RAck)
        .expect("PRACK should have RAck header");
    assert_eq!(rack.as_str(), "1 1 INVITE");

    // UAS sends 200 OK to PRACK
    if let SipMessage::Request(ref req) = prack_incoming.message {
        let ok = ResponseBuilder::from_request(req, StatusCode(StatusCode::OK)).build();
        uas.send_to(&ok, prack_incoming.source);
    }

    let prack_resp = uac.recv();
    assert!(prack_resp.message.status().unwrap().is_success());
}

#[test]
fn e2e_incoming_invite_uas_flow() {
    let net = Net::new();
    // Simulates an incoming call to a UAS and verifies the response flow
    let uas = SipTransport::bind(&net);
    let uac = SipTransport::bind(&net);
    let uas_addr = uas.local_addr();
    let uac_addr = uac.local_addr();

    let call_id = "incoming-test-call-id";
    let local_tag = generate_tag();

    // Build SDP for INVITE
    let mut sdp = SdpSession::new("127.0.0.1");
    sdp.add_audio_media(8000);
    let sdp_body = sdp.to_string();

    // UAC sends INVITE to UAS
    let invite = RequestBuilder::new(SipMethod::Invite, &format!("sip:phone@{}", uas_addr))
        .header(HeaderName::Via, &format!("SIP/2.0/UDP {};branch={}", uac_addr, generate_branch()))
        .header(HeaderName::From, &format!("<sip:caller@example.com>;tag={}", local_tag))
        .header(HeaderName::To, &format!("<sip:phone@{}>", uas_addr))
        .header(HeaderName::CallId, call_id)
        .header(HeaderName::CSeq, "1 INVITE")
        .header(HeaderName::Contact, &format!("<sip:caller@{}>", uac_addr))
        .header(HeaderName::ContentType, "application/sdp")
        .body(&sdp_body)
        .build();
    uac.send_to(&invite, uas_addr);

    // UAS receives INVITE
    let incoming = uas.recv();
    assert_eq!(*incoming.message.method().unwrap(), SipMethod::Invite);
    assert!(incoming.message.body().is_some());

    // Parse SDP from INVITE
    let invite_sdp = SdpSession::parse(incoming.message.body().unwrap()).unwrap();
    assert_eq!(invite_sdp.get_audio_port(), Some(8000));

    // UAS sends 180 Ringing
    let uas_tag = generate_tag();
    if let SipMessage::Request(ref req) = incoming.message {
        let ringing = ResponseBuilder::from_request(req, StatusCode(StatusCode::RINGING))
            .header(HeaderName::Contact, &format!("<sip:phone@{}>", uas_addr))
            .header(HeaderName::To, &format!("<sip:phone@{}>;tag={}", uas_addr, uas_tag))
            .build();
        uas.send_to(&ringing, incoming.source);
    }

    let ringing_resp = uac.recv();
    assert_eq!(ringing_resp.message.status().unwrap().0, 180);

    // UAS sends 200 OK with SDP answer
    let mut answer_sdp = SdpSession::new("127.0.0.1");
    answer_sdp.add_audio_media(9000);
    let answer_body = answer_sdp.to_string();

    if let SipMessage::Request(ref req) = incoming.message {
        let ok = ResponseBuilder::from_request(req, StatusCode(StatusCode::OK))
            .header(HeaderName::Contact, &format!("<sip:phone@{}>", uas_addr))
            .header(HeaderName::To, &format!("<sip:phone@{}>;tag={}", uas_addr, uas_tag))
            .header(HeaderName::ContentType, "application/sdp")
            .body(&answer_body)
            .build();
        uas.send_to(&ok, incoming.source);
    }

    let ok_resp = uac.recv();
    assert!(ok_resp.message.status().unwrap().is_success());
    let ok_sdp = SdpSession::parse(ok_resp.message.body().unwrap()).unwrap();
    assert_eq!(ok_sdp.get_audio_port(), Some(9000));

    // UAC sends ACK
    let ack = RequestBuilder::new(SipMethod::Ack, &format!("sip:phone@{}", uas_addr))
        .header(HeaderName::Via, &format!("SIP/2.0/UDP {};branch={}", uac_addr, generate_branch()))
        .header(HeaderName::From, &format!("<sip:caller@example.com>;tag={}", local_tag))
        .header(HeaderName::To, &format!("<sip:phone@{}>;tag={}", uas_addr, uas_tag))
        .header(HeaderName::CallId, call_id)
        .header(HeaderName::CSeq, "1 ACK")
        .build();
    uac.send_to(&ack, uas_addr);

    let ack_incoming = uas.recv();
    assert_eq!(*ack_incoming.message.method().unwrap(), SipMethod::Ack);
}

#[test]
fn e2e_sdp_codec_negotiation() {
    // Caller offers PCMU, PCMA, Opus
    let mut offer = SdpSession::new("10.0.0.1");
    offer.add_audio_media(5000);

    let offer_str = offer.to_string();

    // Parse the offer
    let parsed_offer = SdpSession::parse(&offer_str).unwrap();
    let audio = &parsed_offer.media_descriptions[0];

    // Verify all codecs are present
    assert!(audio.rtpmaps.iter().any(|r| r.encoding_name == "PCMU"));
    assert!(audio.rtpmaps.iter().any(|r| r.encoding_name == "PCMA"));
    assert!(audio.rtpmaps.iter().any(|r| r.encoding_name == "opus"));

    // Callee answers with just PCMU
    let mut answer = SdpSession::new("10.0.0.2");
    {
        let mut audio_media = MediaDescription::new_audio(6000);
        audio_media.add_codec(0, "PCMU", 8000, None);
        audio_media.add_attribute("sendrecv", None);
        answer.media_descriptions.push(audio_media);
    }

    let answer_str = answer.to_string();
    let parsed_answer = SdpSession::parse(&answer_str).unwrap();

    assert_eq!(parsed_answer.media_descriptions.len(), 1);
    assert_eq!(parsed_answer.media_descriptions[0].rtpmaps.len(), 1);
    assert_eq!(
        parsed_answer.media_descriptions[0].rtpmaps[0].encoding_name,
        "PCMU"
    );

    // Both sides can now use PCMU
    let mut caller_codec = CodecPipeline::new(CodecType::Pcmu);
    let mut callee_codec = CodecPipeline::new(CodecType::Pcmu);

    let samples = vec![5000i16; 160];
    let encoded = caller_codec.encode(&samples).unwrap();
    let decoded = callee_codec.decode(&encoded).unwrap();
    assert_eq!(decoded.len(), 160);
}

#[test]
fn e2e_transaction_retransmit_behavior() {
    let branch = generate_branch();

    let mut headers = Headers::new();
    headers.add(
        HeaderName::Via,
        &format!("SIP/2.0/UDP 10.0.0.1:5060;branch={}", branch),
    );
    headers.add(HeaderName::From, "<sip:alice@a.com>;tag=t1");
    headers.add(HeaderName::To, "<sip:bob@b.com>");
    headers.add(HeaderName::CallId, "retransmit-test");
    headers.add(HeaderName::CSeq, "1 INVITE");
    headers.add(HeaderName::ContentLength, "0");

    let invite = SipMessage::Request(SipRequest {
        method: SipMethod::Invite,
        uri: "sip:bob@b.com".to_string(),
        version: "SIP/2.0".to_string(),
        headers,
        body: None,
    });

    let mut txn = SipTransaction::new_client(&invite).unwrap();

    // Verify exponential backoff
    assert!(txn.should_retransmit());
    let intervals: Vec<u64> = (0..5)
        .map(|_| {
            let interval = txn.retransmit_interval();
            txn.mark_retransmit();
            interval
        })
        .collect();

    // Should double: 500, 1000, 2000, 4000, 4000 (capped at T2)
    assert_eq!(intervals[0], 500);
    assert_eq!(intervals[1], 1000);
    assert_eq!(intervals[2], 2000);
    assert_eq!(intervals[3], 4000);
    assert_eq!(intervals[4], 4000); // capped
}

#[test]
fn e2e_sdp_direction_attributes() {
    // Test that SDP direction attributes are correctly serialized/parsed
    let directions = ["sendrecv", "sendonly", "recvonly", "inactive"];

    for dir in &directions {
        let mut sdp = SdpSession::new("10.0.0.1");
        sdp.add_audio_media_directed(4000, dir);

        // Serialize and parse back
        let text = sdp.to_string();
        assert!(text.contains(&format!("a={}", dir)),
            "SDP should contain a={}, got:\n{}", dir, text);

        let parsed = SdpSession::parse(&text).unwrap();
        assert_eq!(parsed.get_audio_direction(), Some(*dir),
            "Parsed direction should be {} for:\n{}", dir, text);
        assert_eq!(parsed.get_audio_port(), Some(4000));
    }
}
