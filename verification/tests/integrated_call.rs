use std::cell::RefCell;
use std::collections::VecDeque;
use std::rc::Rc;

use sipr::net::Endpoint;
use sipr::rtp::codec::CodecType;
use sipr::rtp::packet::RtpPacket;
use sipr::rtp::session::{RtpSession, SessionConfig};
use sipr::rtp::wav::{decode_wav, max_sample_error, AudioRecorder};
use sipr::sip::header::{generate_branch, generate_tag, HeaderName};
use sipr::sip::message::{RequestBuilder, ResponseBuilder, SipMessage, SipMethod, StatusCode};
use sipr::sip::sdp::SdpSession;
use sipr::sip::transport::parse_datagram;

#[derive(Debug, Clone, Copy, PartialEq)]
struct Addr(u16);

impl std::fmt::Display for Addr {
    fn fmt(&self, f: &mut std::fmt::Formatter<'_>) -> std::fmt::Result {
        f.write_str(&Endpoint::from(*self).to_string())
    }
}

impl From<Addr> for Endpoint {
    fn from(addr: Addr) -> Self {
        Endpoint::new("127.0.0.1", addr.0)
    }
}

impl Addr {
    fn ip(&self) -> &'static str {
        "127.0.0.1"
    }

    fn port(&self) -> u16 {
        self.0
    }
}

/// A network in memory: what was sent to each port, with the sender's port.
#[derive(Clone)]
struct Net(Rc<RefCell<Vec<VecDeque<(Addr, Vec<u8>)>>>>);

impl Net {
    fn new() -> Self {
        Net(Rc::new(RefCell::new(Vec::new())))
    }

    fn bind(&self) -> Addr {
        let mut ports = self.0.borrow_mut();
        ports.push(VecDeque::new());
        Addr(40000 + ports.len() as u16)
    }

    fn send(&self, from: Addr, to: Addr, data: Vec<u8>) {
        self.0.borrow_mut()[to.0 as usize - 40001].push_back((from, data));
    }

    fn take(&self, at: Addr) -> Option<(Addr, Vec<u8>)> {
        self.0.borrow_mut()[at.0 as usize - 40001].pop_front()
    }
}

struct SipTransport {
    net: Net,
    addr: Addr,
}

struct Incoming {
    message: SipMessage,
}

impl SipTransport {
    fn bind(net: &Net) -> Self {
        SipTransport { net: net.clone(), addr: net.bind() }
    }

    fn local_addr(&self) -> Addr {
        self.addr
    }

    fn send_to(&self, message: &SipMessage, to: Addr) {
        self.net.send(self.addr, to, message.to_bytes());
    }

    fn recv(&self) -> Incoming {
        let (_, data) = self.net.take(self.addr).expect("a datagram");
        Incoming { message: parse_datagram(&data).unwrap() }
    }
}

/// A session that sends and receives over the network in memory.
struct Peer {
    session: RtpSession,
    net: Net,
    addr: Addr,
    remote: Addr,
}

impl Peer {
    fn new(net: &Net, addr: Addr, remote: Addr, codec: CodecType) -> Self {
        let config = SessionConfig::new("127.0.0.1:0", Endpoint::from(remote), codec);
        Peer { session: RtpSession::new(config, Endpoint::from(addr)), net: net.clone(), addr, remote }
    }

    fn local_addr(&self) -> Addr {
        self.addr
    }

    fn send_audio(&mut self, samples: &[i16]) -> usize {
        let data = self.session.audio_packet(samples).unwrap();
        let sent = data.len();
        self.net.send(self.addr, self.remote, data);
        self.session.audio_sent();
        sent
    }

    fn recv_packet(&self) -> (RtpPacket, Addr) {
        let (source, data) = self.net.take(self.addr).expect("a datagram");
        (RtpPacket::parse(&data).unwrap(), source)
    }

    fn decode_packet(&mut self, packet: &RtpPacket) -> Vec<i16> {
        self.session.decode_packet(packet).unwrap()
    }
}

fn generate_sine_tone(frequency: f64, sample_rate: u32, duration_ms: u32, amplitude: i16) -> Vec<i16> {
    let num_samples = (sample_rate as u64 * duration_ms as u64 / 1000) as usize;
    (0..num_samples)
        .map(|i| {
            let t = i as f64 / sample_rate as f64;
            (f64::sin(2.0 * std::f64::consts::PI * frequency * t) * amplitude as f64) as i16
        })
        .collect()
}

fn compute_snr(original: &[i16], received: &[i16]) -> f64 {
    let len = original.len().min(received.len());
    if len == 0 {
        return 0.0;
    }

    let mut signal_power = 0.0f64;
    let mut noise_power = 0.0f64;

    for i in 0..len {
        let s = original[i] as f64;
        let n = (original[i] as f64) - (received[i] as f64);
        signal_power += s * s;
        noise_power += n * n;
    }

    if noise_power < 1.0 {
        return 100.0; // Perfect match
    }

    10.0 * (signal_power / noise_power).log10()
}

fn cross_correlation(a: &[i16], b: &[i16]) -> f64 {
    let len = a.len().min(b.len());
    if len == 0 {
        return 0.0;
    }

    let mut sum_ab = 0.0f64;
    let mut sum_aa = 0.0f64;
    let mut sum_bb = 0.0f64;

    for i in 0..len {
        let va = a[i] as f64;
        let vb = b[i] as f64;
        sum_ab += va * vb;
        sum_aa += va * va;
        sum_bb += vb * vb;
    }

    let denom = (sum_aa * sum_bb).sqrt();
    if denom < 1.0 {
        return 0.0;
    }

    sum_ab / denom
}

fn rms_error(original: &[i16], received: &[i16]) -> f64 {
    let len = original.len().min(received.len());
    if len == 0 {
        return 0.0;
    }
    let sum: f64 = (0..len)
        .map(|i| {
            let diff = original[i] as f64 - received[i] as f64;
            diff * diff
        })
        .sum();
    (sum / len as f64).sqrt()
}

#[test]
fn e2e_sip_rtp_integrated_call() {
    let net = Net::new();
    // This test simulates a complete call:
    // 1. INVITE with SDP offer
    // 2. 200 OK with SDP answer
    // 3. ACK
    // 4. RTP audio exchange
    // 5. BYE

    let caller_sip = SipTransport::bind(&net);
    let callee_sip = SipTransport::bind(&net);

    let caller_sip_addr = caller_sip.local_addr();
    let callee_sip_addr = callee_sip.local_addr();

    // Pre-bind RTP sockets to know the ports for SDP
    let caller_rtp_addr = net.bind();
    let caller_rtp_port = caller_rtp_addr.port();

    let call_id = uuid::Uuid::new_v4().to_string();
    let caller_tag = generate_tag();
    let branch = generate_branch();

    // --- INVITE with SDP ---
    let mut caller_sdp = SdpSession::new("127.0.0.1");
    caller_sdp.add_audio_media(caller_rtp_port);
    let sdp_offer = caller_sdp.to_string();

    let invite = RequestBuilder::new(SipMethod::Invite, &format!("sip:bob@{}", callee_sip_addr))
        .header(
            HeaderName::Via,
            &format!("SIP/2.0/UDP {};branch={}", caller_sip_addr, branch),
        )
        .header(HeaderName::MaxForwards, "70")
        .header(
            HeaderName::From,
            &format!("<sip:alice@{}>;tag={}", caller_sip_addr, caller_tag),
        )
        .header(HeaderName::To, &format!("<sip:bob@{}>", callee_sip_addr))
        .header(HeaderName::CallId, &call_id)
        .header(HeaderName::CSeq, "1 INVITE")
        .header(
            HeaderName::Contact,
            &format!("<sip:alice@{}>", caller_sip_addr),
        )
        .header(HeaderName::ContentType, "application/sdp")
        .body(&sdp_offer)
        .build();

    caller_sip.send_to(&invite, callee_sip_addr);

    // --- Callee receives INVITE, parses SDP ---
    let incoming = callee_sip.recv();
    let req = match &incoming.message {
        SipMessage::Request(req) => req.clone(),
        _ => panic!("Expected INVITE"),
    };

    let offer_sdp = SdpSession::parse(req.body.as_ref().unwrap()).unwrap();
    let caller_audio_port = offer_sdp.get_audio_port().unwrap();
    assert_eq!(caller_audio_port, caller_rtp_port);

    // --- Callee sends 200 OK with SDP answer ---
    let callee_tag = generate_tag();

    // Create callee RTP session
    let mut callee_rtp =
        Peer::new(&net, net.bind(), Addr(caller_audio_port), CodecType::Pcmu);
    let callee_rtp_port = callee_rtp.local_addr().port();

    let mut callee_sdp = SdpSession::new("127.0.0.1");
    callee_sdp.add_audio_media(callee_rtp_port);
    let sdp_answer = callee_sdp.to_string();

    let ok_response = ResponseBuilder::from_request(&req, StatusCode(StatusCode::OK))
        .header(
            HeaderName::To,
            &format!("<sip:bob@{}>;tag={}", callee_sip_addr, callee_tag),
        )
        .header(
            HeaderName::Contact,
            &format!("<sip:bob@{}>", callee_sip_addr),
        )
        .header(HeaderName::ContentType, "application/sdp")
        .body(&sdp_answer)
        .build();

    callee_sip.send_to(&ok_response, caller_sip_addr);

    // --- Caller receives 200 OK, extracts SDP answer ---
    let ok_recv = caller_sip.recv();
    if let SipMessage::Response(ref res) = ok_recv.message {
        assert_eq!(res.status, StatusCode(StatusCode::OK));
        let answer_sdp = SdpSession::parse(res.body.as_ref().unwrap()).unwrap();
        let callee_audio_port_from_sdp = answer_sdp.get_audio_port().unwrap();
        assert_eq!(callee_audio_port_from_sdp, callee_rtp_port);

        // --- Create caller RTP session using info from SDP answer ---
        let mut caller_rtp =
            Peer::new(&net, net.bind(), Addr(callee_audio_port_from_sdp), CodecType::Pcmu);

        // --- Send ACK ---
        let ack_branch = generate_branch();
        let ack = RequestBuilder::new(SipMethod::Ack, &format!("sip:bob@{}", callee_sip_addr))
            .header(
                HeaderName::Via,
                &format!("SIP/2.0/UDP {};branch={}", caller_sip_addr, ack_branch),
            )
            .header(HeaderName::MaxForwards, "70")
            .header(
                HeaderName::From,
                &format!("<sip:alice@{}>;tag={}", caller_sip_addr, caller_tag),
            )
            .header(
                HeaderName::To,
                &format!("<sip:bob@{}>;tag={}", callee_sip_addr, callee_tag),
            )
            .header(HeaderName::CallId, &call_id)
            .header(HeaderName::CSeq, "1 ACK")
            .build();

        caller_sip.send_to(&ack, callee_sip_addr);

        // Callee receives ACK
        let ack_recv = callee_sip.recv();
        if let SipMessage::Request(ref ack_req) = ack_recv.message {
            assert_eq!(ack_req.method, SipMethod::Ack);
        } else {
            panic!("Expected ACK");
        }

        // --- RTP audio exchange ---
        let audio_frame: Vec<i16> = (0..160)
            .map(|i| ((i as f64 / 160.0 * std::f64::consts::TAU).sin() * 8000.0) as i16)
            .collect();

        // Caller sends 3 RTP packets
        for _ in 0..3 {
            caller_rtp.send_audio(&audio_frame);
        }

        // Callee receives 3 RTP packets
        for seq in 0..3u16 {
            let (pkt, _) = callee_rtp.recv_packet();
            assert_eq!(pkt.payload_type, 0);
            assert_eq!(pkt.sequence_number, seq);
            let decoded = callee_rtp.decode_packet(&pkt);
            assert_eq!(decoded.len(), 160);
        }

        // --- BYE ---
        let bye_branch = generate_branch();
        let bye = RequestBuilder::new(SipMethod::Bye, &format!("sip:bob@{}", callee_sip_addr))
            .header(
                HeaderName::Via,
                &format!("SIP/2.0/UDP {};branch={}", caller_sip_addr, bye_branch),
            )
            .header(HeaderName::MaxForwards, "70")
            .header(
                HeaderName::From,
                &format!("<sip:alice@{}>;tag={}", caller_sip_addr, caller_tag),
            )
            .header(
                HeaderName::To,
                &format!("<sip:bob@{}>;tag={}", callee_sip_addr, callee_tag),
            )
            .header(HeaderName::CallId, &call_id)
            .header(HeaderName::CSeq, "2 BYE")
            .build();

        caller_sip.send_to(&bye, callee_sip_addr);

        let bye_recv = callee_sip.recv();
        if let SipMessage::Request(ref bye_req) = bye_recv.message {
            assert_eq!(bye_req.method, SipMethod::Bye);
        }
    } else {
        panic!("Expected 200 OK response");
    }
}

#[test]
fn e2e_two_instance_call_with_audio_recording() {
    let net = Net::new();
    // --- Setup SIP transports for Alice and Bob ---
    let alice_sip = SipTransport::bind(&net);
    let bob_sip = SipTransport::bind(&net);
    let alice_sip_addr = alice_sip.local_addr();
    let bob_sip_addr = bob_sip.local_addr();

    // Pre-bind RTP sockets to learn ports for SDP
    let alice_rtp_addr = net.bind();
    let alice_rtp_port = alice_rtp_addr.port();
    let bob_rtp_addr = net.bind();
    let bob_rtp_port = bob_rtp_addr.port();

    let call_id = uuid::Uuid::new_v4().to_string();
    let alice_tag = generate_tag();
    let branch = generate_branch();

    // --- Alice sends INVITE with SDP offer ---
    let mut alice_sdp = SdpSession::new("127.0.0.1");
    alice_sdp.add_audio_media(alice_rtp_port);

    let invite = RequestBuilder::new(SipMethod::Invite, &format!("sip:bob@{}", bob_sip_addr))
        .header(HeaderName::Via, &format!("SIP/2.0/UDP {};branch={}", alice_sip_addr, branch))
        .header(HeaderName::MaxForwards, "70")
        .header(HeaderName::From, &format!("<sip:alice@{}>;tag={}", alice_sip_addr, alice_tag))
        .header(HeaderName::To, &format!("<sip:bob@{}>", bob_sip_addr))
        .header(HeaderName::CallId, &call_id)
        .header(HeaderName::CSeq, "1 INVITE")
        .header(HeaderName::Contact, &format!("<sip:alice@{}>", alice_sip_addr))
        .header(HeaderName::ContentType, "application/sdp")
        .body(&alice_sdp.to_string())
        .build();

    alice_sip.send_to(&invite, bob_sip_addr);

    // --- Bob receives INVITE ---
    let incoming = bob_sip.recv();
    let req = match &incoming.message {
        SipMessage::Request(r) => r.clone(),
        _ => panic!("Expected INVITE"),
    };
    assert_eq!(req.method, SipMethod::Invite);

    let offer = SdpSession::parse(req.body.as_ref().unwrap()).unwrap();
    let alice_audio_port = offer.get_audio_port().unwrap();

    // --- Bob sends 200 OK with SDP answer ---
    let bob_tag = generate_tag();
    let mut bob_sdp = SdpSession::new("127.0.0.1");
    bob_sdp.add_audio_media(bob_rtp_port);

    let ok = ResponseBuilder::from_request(&req, StatusCode(StatusCode::OK))
        .header(HeaderName::To, &format!("<sip:bob@{}>;tag={}", bob_sip_addr, bob_tag))
        .header(HeaderName::Contact, &format!("<sip:bob@{}>", bob_sip_addr))
        .header(HeaderName::ContentType, "application/sdp")
        .body(&bob_sdp.to_string())
        .build();

    bob_sip.send_to(&ok, alice_sip_addr);

    // --- Alice receives 200 OK ---
    let ok_recv = alice_sip.recv();
    let bob_audio_port = match &ok_recv.message {
        SipMessage::Response(res) => {
            assert_eq!(res.status, StatusCode(StatusCode::OK));
            SdpSession::parse(res.body.as_ref().unwrap()).unwrap().get_audio_port().unwrap()
        }
        _ => panic!("Expected 200 OK"),
    };

    // --- Alice sends ACK ---
    let ack = RequestBuilder::new(SipMethod::Ack, &format!("sip:bob@{}", bob_sip_addr))
        .header(HeaderName::Via, &format!("SIP/2.0/UDP {};branch={}", alice_sip_addr, generate_branch()))
        .header(HeaderName::MaxForwards, "70")
        .header(HeaderName::From, &format!("<sip:alice@{}>;tag={}", alice_sip_addr, alice_tag))
        .header(HeaderName::To, &format!("<sip:bob@{}>;tag={}", bob_sip_addr, bob_tag))
        .header(HeaderName::CallId, &call_id)
        .header(HeaderName::CSeq, "1 ACK")
        .build();
    alice_sip.send_to(&ack, bob_sip_addr);

    // Bob receives ACK
    let ack_recv = bob_sip.recv();
    assert!(matches!(&ack_recv.message, SipMessage::Request(r) if r.method == SipMethod::Ack));

    // --- Create RTP sessions ---
    let mut alice_rtp =
        Peer::new(&net, alice_rtp_addr, Addr(bob_audio_port), CodecType::Pcmu);

    let mut bob_rtp = Peer::new(&net, bob_rtp_addr, Addr(alice_audio_port), CodecType::Pcmu);

    // --- Generate test audio: 440Hz sine tone, 10 frames (200ms) ---
    let original_tone = generate_sine_tone(440.0, 8000, 200, 12000);
    let frames: Vec<&[i16]> = original_tone.chunks(160).collect();
    assert_eq!(frames.len(), 10);

    // --- Alice sends audio, Bob records it ---
    let mut bob_recorder = AudioRecorder::new(8000);

    for frame in &frames {
        alice_rtp.send_audio(frame);
    }

    for _ in 0..10 {
        let (pkt, _) = bob_rtp.recv_packet();
        assert_eq!(pkt.payload_type, 0); // PCMU
        let decoded = bob_rtp.decode_packet(&pkt);
        bob_recorder.record_frame(&decoded);
    }

    // --- Verify recording metadata ---
    assert_eq!(bob_recorder.frame_count(), 10);
    assert_eq!(bob_recorder.duration_ms(), 200);
    assert_eq!(bob_recorder.len(), 1600); // 10 * 160

    // --- Audio fidelity checks ---
    let recorded = bob_recorder.samples();

    let snr = compute_snr(&original_tone, recorded);
    assert!(snr > 20.0, "SNR should be >20 dB for G.711, got {:.1} dB", snr);

    let corr = cross_correlation(&original_tone, recorded);
    assert!(corr > 0.95, "Cross-correlation should be >0.95, got {:.4}", corr);

    let max_err = max_sample_error(&original_tone, recorded);
    assert!(max_err < 1000, "Max sample error should be <1000 for G.711, got {}", max_err);

    let rms = rms_error(&original_tone, recorded);
    assert!(rms < 500.0, "RMS error should be <500 for G.711, got {:.1}", rms);

    // --- Verify WAV export/import roundtrip preserves recorded audio ---
    let wav_bytes = bob_recorder.to_wav();
    let (header, wav_samples) = decode_wav(&wav_bytes).unwrap();
    assert_eq!(header.sample_rate, 8000);
    assert_eq!(wav_samples.len(), recorded.len());
    assert_eq!(wav_samples, recorded);

    // --- BYE ---
    let bye = RequestBuilder::new(SipMethod::Bye, &format!("sip:bob@{}", bob_sip_addr))
        .header(HeaderName::Via, &format!("SIP/2.0/UDP {};branch={}", alice_sip_addr, generate_branch()))
        .header(HeaderName::MaxForwards, "70")
        .header(HeaderName::From, &format!("<sip:alice@{}>;tag={}", alice_sip_addr, alice_tag))
        .header(HeaderName::To, &format!("<sip:bob@{}>;tag={}", bob_sip_addr, bob_tag))
        .header(HeaderName::CallId, &call_id)
        .header(HeaderName::CSeq, "2 BYE")
        .build();
    alice_sip.send_to(&bye, bob_sip_addr);

    let bye_recv = bob_sip.recv();
    assert!(matches!(&bye_recv.message, SipMessage::Request(r) if r.method == SipMethod::Bye));

    let bye_ok = match &bye_recv.message {
        SipMessage::Request(r) => ResponseBuilder::from_request(r, StatusCode(StatusCode::OK)).build(),
        _ => panic!("Expected BYE"),
    };
    bob_sip.send_to(&bye_ok, alice_sip_addr);

    let bye_ok_recv = alice_sip.recv();
    assert!(matches!(&bye_ok_recv.message, SipMessage::Response(r) if r.status == StatusCode(StatusCode::OK)));
}

#[test]
fn test_session_creation() {
    let remote_addr = Endpoint::new("127.0.0.1", 9999);
    let config = SessionConfig::new("127.0.0.1:0", remote_addr, CodecType::Pcmu);
    let net = Net::new();
    let session = RtpSession::new(config, Endpoint::from(net.bind()));

    let addr = session.local_addr();
    assert_eq!(addr.ip, "127.0.0.1");
    assert!(addr.port > 0);
    assert_eq!(session.remote_addr().port, 9999);
}

#[test]
fn test_send_raw_packet() {
    let net = Net::new();
    let recv_addr = net.bind();
    let sender = Peer::new(&net, net.bind(), recv_addr, CodecType::Pcmu);

    let packet = RtpPacket::new(0, 42, 6720, 0xBEEF).with_payload(vec![0x7F; 160]);

    let data = packet.serialize();
    assert!(!data.is_empty());
    net.send(sender.local_addr(), recv_addr, data);

    let (_, data) = net.take(recv_addr).expect("a datagram");
    let received = RtpPacket::parse(&data).unwrap();
    assert_eq!(received.sequence_number, 42);
    assert_eq!(received.ssrc, 0xBEEF);
}
