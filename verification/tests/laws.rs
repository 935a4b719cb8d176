use sipr::case::{ascii_lower_text, ascii_upper_text, lower_text, upper_text};
use sipr::net::Endpoint;
use sipr::number::{dec_string, hex_of_bytes};
use sipr::rtp::audio_device::{
    describe_device, find_supported_input_rate, find_supported_output_config, mono_to_multi,
    select_device, AudioConfig, ConfigRange, DevicePick, DeviceSelector, DeviceType,
};
use sipr::rtp::codec::{
    alaw_to_linear, linear_to_alaw, linear_to_ulaw, samples_of_bytes, ulaw_to_linear, CodecError,
    CodecPipeline, CodecType, OpusFrame, OpusSamples,
};
use sipr::rtp::jitter::JitterBuffer;
use sipr::rtp::packet::{RtpError, RtpPacket};
use sipr::rtp::playout::{FrameCutter, PlayoutBuffer};
use sipr::rtp::session::{
    dtmf_digit_to_event, dtmf_event_to_digit, is_rtcp_type, parse_rfc2833_event,
    validate_dtmf_digit, ReceiveEvent, RtpSession, SessionConfig, SessionError, Taken, KEY_PACKETS,
};
use sipr::rtp::wav::{decode_wav, encode_wav, AudioRecorder, WavError, WavHeader};
use sipr::sip::auth::{compute_digest_with, parse_challenge, Credentials};
use sipr::sip::dialog::{DialogState, SipDialog};
use sipr::sip::header::{
    branch_from, extract_param, extract_uri, has_ordered_brackets, tag_from, HeaderName, Headers,
};
use sipr::sip::md5::{md5_compute, md5_hex};
use sipr::sip::message::{
    ParseError, RequestBuilder, ResponseBuilder, SipMessage, SipMethod, StatusCode,
};
use sipr::sip::sdp::{MediaType, SdpError, SdpSession, TransportProtocol};
use sipr::sip::transaction::{SipTransaction, TransactionAction, TransactionState};
use sipr::sip::transport::{parse_datagram, parse_sip_uri};

#[test]
fn cases_beyond_ascii_change_too() {
    assert_eq!(lower_text("ÄÖÜ-Via"), "äöü-via");
    assert_eq!(upper_text("straße"), "STRASSE");
    assert_eq!(ascii_lower_text("ÄB"), "Äb");
    assert_eq!(ascii_upper_text("äb"), "äB");
}

#[test]
fn header_names_are_read_in_any_case() {
    assert_eq!(HeaderName::from_str("X-É"), HeaderName::Other("x-é".to_string()));
    assert_eq!(SipMethod::from_str("é"), SipMethod::Other("É".to_string()));
}

#[test]
fn header_set_is_read_back() {
    let mut headers = Headers::new();
    headers.add(HeaderName::Via, "1");
    headers.add(HeaderName::Contact, "c");
    headers.add(HeaderName::Via, "2");
    assert_eq!(headers.get(&HeaderName::Via).unwrap().as_str(), "1");
    headers.set(HeaderName::Via, "3");
    assert_eq!(headers.get(&HeaderName::Via).unwrap().as_str(), "3");
    assert_eq!(headers.get(&HeaderName::Contact).unwrap().as_str(), "c");
    headers.remove(&HeaderName::Via);
    assert!(headers.get(&HeaderName::Via).is_none());
    assert_eq!(headers.get(&HeaderName::Contact).unwrap().as_str(), "c");
    assert_eq!(headers.iter().len(), 1);
}

#[test]
fn parameters_are_extracted() {
    assert_eq!(extract_param("SIP/2.0/UDP h;branch=z9;rport", "branch="), Some("z9".to_string()));
    assert_eq!(extract_param("SIP/2.0/UDP h", "branch="), None);
    assert!(has_ordered_brackets("<sip:a@b>"));
    assert!(!has_ordered_brackets(">x<"));
    assert_eq!(extract_uri("no uri here"), None);
    assert_eq!(tag_from(0xBEEF), format!("{:x}", 0xBEEF));
    assert!(branch_from(1).starts_with("z9hG4bK"));
}

fn sample_request() -> SipMessage {
    RequestBuilder::new(SipMethod::Options, "sip:bob@example.com")
        .header(HeaderName::Via, "SIP/2.0/UDP 10.0.0.1:5060;branch=z9hG4bK1")
        .header(HeaderName::From, "<sip:alice@example.com>;tag=1")
        .header(HeaderName::To, "<sip:bob@example.com>")
        .header(HeaderName::CallId, "c1")
        .header(HeaderName::CSeq, "5 OPTIONS")
        .header(HeaderName::Other("x-note".to_string()), "a: b")
        .body("first\r\n\r\nsecond")
        .build()
}

#[test]
fn sent_messages_are_read_back() {
    let msg = sample_request();
    let back = SipMessage::parse(&msg.to_string()).unwrap();
    assert_eq!(back.to_string(), msg.to_string());
    assert_eq!(back.body(), Some("first\r\n\r\nsecond"));
    let back = parse_datagram(&msg.to_bytes()).unwrap();
    assert_eq!(back.to_string(), msg.to_string());
}

#[test]
fn datagrams_that_are_no_text_are_replaced() {
    let mut data = sample_request().to_bytes();
    data.push(0xFF);
    let back = parse_datagram(&data).unwrap();
    assert!(back.body().unwrap().ends_with('\u{FFFD}'));
}

#[test]
fn messages_that_cannot_be_read() {
    assert!(matches!(SipMessage::parse(""), Err(ParseError::Incomplete)));
    assert!(matches!(
        SipMessage::parse("INVITE sip:x\r\n\r\n"),
        Err(ParseError::InvalidStartLine(_))
    ));
    assert!(matches!(
        SipMessage::parse("SIP/2.0 abc OK\r\n\r\n"),
        Err(ParseError::InvalidStatusCode(_))
    ));
    assert!(matches!(
        SipMessage::parse("INVITE sip:x SIP/2.0\r\nnocolon\r\n\r\n"),
        Err(ParseError::InvalidHeader(_))
    ));
}

#[test]
fn status_codes_have_classes() {
    assert!(StatusCode(302).is_redirect());
    assert!(StatusCode(404).is_error());
    assert_eq!(StatusCode(404).reason_phrase(), "Not Found");
    assert_eq!(StatusCode(200).to_string(), "200");
}

#[test]
fn digests_of_long_texts() {
    assert_eq!(
        md5_hex("12345678901234567890123456789012345678901234567890123456789012345678901234567890"),
        "57edf4a22be3c955ac49da2e2107b67a"
    );
    assert_eq!(md5_hex("abcdefghijklmnopqrstuvwxyz"), "c3fcd3d76192e4007dfb496cca67e13b");
    assert_eq!(hex_of_bytes(&md5_compute(b"")), "d41d8cd98f00b204e9800998ecf8427e");
    for n in [55, 56, 63, 64, 65, 119, 120] {
        assert_eq!(md5_hex(&"a".repeat(n)).len(), 32);
    }
    assert_eq!(md5_hex(&"a".repeat(64)), "014842d480b571495a4a0363793f7367");
}

#[test]
fn digest_answer_is_the_one_of_the_standard() {
    let challenge = parse_challenge(
        "Digest realm=\"testrealm@host.com\", qop=\"auth\", \
         nonce=\"dcd98b7102dd2f0e8b11d0f600bfb0c093\", \
         opaque=\"5ccc069c403ebaf9f0171e9517f40e41\"",
    )
    .unwrap();
    let creds =
        Credentials { username: "Mufasa".to_string(), password: "Circle Of Life".to_string() };
    let answer = compute_digest_with(&challenge, &creds, "GET", "/dir/index.html", "0a4f113b");
    assert_eq!(answer.response, "6629fae49393a05397450978507c4ef1");
    assert_eq!(answer.cnonce.as_deref(), Some("0a4f113b"));
    assert_eq!(answer.nc.as_deref(), Some("00000001"));
    assert!(parse_challenge("Basic realm=\"x\"").is_none());
    assert!(parse_challenge("Digest realm=\"x\"").is_none());
}

fn dialog() -> SipDialog {
    SipDialog::new_uac(
        "c1".to_string(),
        "1".to_string(),
        "sip:alice@example.com".to_string(),
        "sip:bob@example.com".to_string(),
    )
}

fn reply(status: u16) -> SipMessage {
    match sample_request() {
        SipMessage::Request(req) => ResponseBuilder::from_request(&req, StatusCode(status)).build(),
        SipMessage::Response(_) => panic!("expected a request"),
    }
}

#[test]
fn dialog_keeps_its_ends() {
    for (status, state) in [
        (180u16, DialogState::Early),
        (200, DialogState::Confirmed),
        (404, DialogState::Terminated),
    ] {
        let mut d = dialog();
        assert!(d.process_response(&reply(status)));
        assert_eq!(d.state, state);
        assert_eq!(d.call_id, "c1");
        assert_eq!(d.local_tag, "1");
        assert_eq!(d.local_uri, "sip:alice@example.com");
    }
    let mut d = dialog();
    d.call_id = "other".to_string();
    assert!(!d.process_response(&reply(200)));
    assert!(!d.matches(&reply(200)));
}

#[test]
fn transactions_time_out_and_do_not_go_back() {
    let mut t = SipTransaction::new_client(&sample_request()).unwrap();
    assert!(!t.is_timed_out());
    assert!(!t.is_timed_out_after(1_000_000));
    assert!(t.is_timed_out_after(40_000_000_000));
    assert!(t.matches(&sample_request()));
    assert_eq!(t.process_response(&reply(100)), TransactionAction::PassToTU);
    assert_eq!(t.state, TransactionState::Proceeding);
    assert_eq!(t.process_response(&reply(200)), TransactionAction::PassToTU);
    assert_eq!(t.state, TransactionState::Completed);
    assert_eq!(t.process_response(&reply(100)), TransactionAction::Nothing);
    assert_eq!(t.state, TransactionState::Completed);
}

#[test]
fn refused_invitation_is_acknowledged_each_time() {
    let invite = RequestBuilder::new(SipMethod::Invite, "sip:bob@example.com")
        .header(HeaderName::Via, "SIP/2.0/UDP 10.0.0.1:5060;branch=z9hG4bK1")
        .header(HeaderName::CallId, "c1")
        .header(HeaderName::CSeq, "1 INVITE")
        .build();
    let mut t = SipTransaction::new_client(&invite).unwrap();
    for _ in 0..3 {
        assert_eq!(t.process_response(&reply(486)), TransactionAction::SendAck);
        assert_eq!(t.state, TransactionState::Completed);
    }
}

#[test]
fn session_descriptions_are_read_back() {
    let mut sdp = SdpSession::new_with_id("10.0.0.1", 77);
    sdp.add_audio_media_directed(4000, "inactive");
    let text = sdp.to_string();
    let back = SdpSession::parse(&text).unwrap();
    assert_eq!(back.to_string(), text);
    assert_eq!(back.session_id, "77");
    assert_eq!(back.get_audio_dtmf_payload_type(), Some(101));
    assert_eq!(MediaType::Audio.to_string(), "audio");
    assert_eq!(TransportProtocol::RtpAvp.to_string(), "RTP/AVP");
}

#[test]
fn session_descriptions_that_cannot_be_read() {
    match SdpSession::parse("v=0\r\nm=audio 4000\r\n") {
        Err(SdpError::InvalidMedia(line)) => assert_eq!(line, "audio 4000"),
        other => panic!("{:?}", other),
    }
}

#[test]
fn uris_may_lack_a_user_and_a_port() {
    assert_eq!(parse_sip_uri("sip:h:5070;x=y"), Some(("h".to_string(), 5070)));
    assert_eq!(parse_sip_uri("sip:a@h"), Some(("h".to_string(), 5060)));
    assert_eq!(parse_sip_uri("sips:a@h"), Some(("h".to_string(), 5060)));
    assert_eq!(parse_sip_uri("sip:a@[::1]:5070"), Some(("::1".to_string(), 5070)));
    assert_eq!(parse_sip_uri("sip:a@[::1]"), Some(("::1".to_string(), 5060)));
    assert_eq!(parse_sip_uri("sip:a@::1"), Some(("::1".to_string(), 5060)));
    assert_eq!(parse_sip_uri("sip:a@h:x"), None);
}

#[test]
fn packets_are_read_back() {
    let mut pkt = RtpPacket::new(111, 65535, u32::MAX, 0xFFFF_FFFF)
        .with_marker(true)
        .with_payload(vec![1, 2, 3]);
    pkt.csrc = vec![7, 8];
    pkt.csrc_count = 2;
    assert_eq!(RtpPacket::parse(&pkt.serialize()).unwrap(), pkt);
    assert_eq!(pkt.serialize().len(), pkt.size());
    assert!(matches!(RtpPacket::parse(&[0x82; 13]), Err(RtpError::TooShort(_))));
    assert_eq!(RtpPacket::parse(&[0x40; 12]), Err(RtpError::InvalidVersion(1)));
}

#[test]
fn late_packets_are_dropped_and_others_wait_their_turn() {
    let packet = |seq: u16| RtpPacket::new(0, seq, seq as u32 * 160, 1);
    let mut jb = JitterBuffer::new(4);
    jb.insert(packet(10));
    assert_eq!(jb.pop().unwrap().sequence_number, 10);
    jb.insert(packet(9));
    assert_eq!(jb.packets_dropped(), 1);
    jb.insert(packet(12));
    assert!(jb.pop().is_none());
    assert_eq!(jb.pop().unwrap().sequence_number, 12);
    assert_eq!(jb.packets_received(), 3);
}

#[test]
fn packets_are_played_in_sequence_each_once() {
    let packet = |seq: u16| RtpPacket::new(0, seq, seq as u32 * 160, 1);
    let mut jb = JitterBuffer::new(8);
    for seq in [103, 100, 105, 101, 106] {
        jb.insert(packet(seq));
    }
    let played: Vec<Option<u16>> =
        (0..7).map(|_| jb.pop().map(|p| p.sequence_number)).collect();
    assert_eq!(
        played,
        vec![Some(100), Some(101), None, Some(103), None, Some(105), Some(106)]
    );
    assert!(jb.is_empty());
    assert_eq!(jb.packets_dropped(), 0);
    assert_eq!(jb.packets_received(), 5);
}

#[test]
fn companded_samples_stay_close() {
    for s in (-32768i32..=32767).step_by(97) {
        let s = s as i16;
        let u = ulaw_to_linear(linear_to_ulaw(s));
        let a = alaw_to_linear(linear_to_alaw(s));
        let limit = 16 + (s as i32).abs() / 8;
        assert!((u as i32 - s as i32).abs() <= limit + 700, "{s} {u}");
        assert!((a as i32 - s as i32).abs() <= limit + 700, "{s} {a}");
    }
    for b in 0..=255u8 {
        if b != 0x7f {
            assert_eq!(linear_to_ulaw(ulaw_to_linear(b)), b);
        }
        assert_eq!(linear_to_alaw(alaw_to_linear(b)), b);
    }
    // Negative zero comes back as zero.
    assert_eq!(linear_to_ulaw(ulaw_to_linear(0x7f)), 0xff);
}

#[test]
fn companded_bytes_are_those_of_g711() {
    assert_eq!(linear_to_alaw(0), 0xD5);
    assert_eq!(linear_to_alaw(-1), 0x55);
    assert_eq!(linear_to_alaw(32767), 0xAA);
    assert_eq!(linear_to_alaw(-32768), 0x2A);
    assert_eq!(alaw_to_linear(0xD5), 8);
    assert_eq!(alaw_to_linear(0x55), -8);
    assert_eq!(alaw_to_linear(0xAA), 32256);
    assert_eq!(alaw_to_linear(0x2A), -32256);
    assert_eq!(linear_to_ulaw(0), 0xFF);
    assert_eq!(linear_to_ulaw(32767), 0x80);
    assert_eq!(linear_to_ulaw(-32768), 0x00);
    assert_eq!(ulaw_to_linear(0x80), 32124);
    assert_eq!(ulaw_to_linear(0x00), -32124);
}

#[test]
fn silence_is_what_zeros_are_encoded_to() {
    for codec in [CodecType::Pcmu, CodecType::Pcma, CodecType::Opus] {
        let mut pipeline = CodecPipeline::new(codec);
        let zeros = vec![0i16; codec.samples_per_frame()];
        assert_eq!(pipeline.encode(&zeros).unwrap(), pipeline.silence_frame());
    }
}

#[test]
fn raw_samples_are_read_back() {
    let mut codec = CodecPipeline::new(CodecType::Opus);
    let samples = vec![0i16, -1, 32767, -32768];
    let data = codec.encode(&samples).unwrap();
    assert_eq!(samples_of_bytes(&data), samples);
    assert_eq!(codec.decode(&data).unwrap(), samples);
    assert!(matches!(codec.decode(&[1]), Err(CodecError::DecodingError(_))));
    assert_eq!(CodecPipeline::new(CodecType::Opus).silence_frame(), vec![0u8; 1920]);
}

#[test]
fn wave_files_are_read_back() {
    let samples = vec![1i16, -2, 300, -32768];
    let header = WavHeader { sample_rate: 44100, channels: 2, bits_per_sample: 16, num_samples: 0 };
    let data = encode_wav(&samples, &header);
    assert_eq!(data.len(), 44 + 8);
    let (h, s) = decode_wav(&data).unwrap();
    assert_eq!((h.sample_rate, h.channels, h.bits_per_sample), (44100, 2, 16));
    assert_eq!(s, samples);
    assert_eq!(h.num_samples, 4);
    assert!(matches!(decode_wav(b"RIFF"), Err(WavError::InvalidHeader(_))));
    let mut eight_bits = data.clone();
    eight_bits[34] = 8;
    assert!(matches!(decode_wav(&eight_bits), Err(WavError::UnsupportedFormat(_))));
    let mut rec = AudioRecorder::new(44100);
    rec.record_frame(&samples);
    assert_eq!(decode_wav(&rec.to_wav()).unwrap().1, samples);
}

#[test]
fn keys_and_events_are_inverse() {
    for (event, digit) in "0123456789*#ABCD".chars().enumerate() {
        assert_eq!(dtmf_digit_to_event(digit), Some(event as u8));
        assert_eq!(dtmf_event_to_digit(event as u8), Some(digit));
    }
    assert_eq!(dtmf_event_to_digit(16), None);
    assert_eq!(dtmf_digit_to_event('x'), None);
    assert!(validate_dtmf_digit('9').is_ok());
    assert!(matches!(validate_dtmf_digit('x'), Err(SessionError::InvalidDtmfDigit('x'))));
}

#[test]
fn key_packets_are_read_back() {
    let config = SessionConfig::new("127.0.0.1:0", Endpoint::new("h", 1), CodecType::Pcmu);
    let mut session = RtpSession::new(config, Endpoint::new("127.0.0.1", 2));
    let packets = session.key_packets('#', 101, 800).unwrap();
    assert_eq!(packets.len(), KEY_PACKETS);
    for (i, data) in packets.iter().enumerate() {
        let packet = RtpPacket::parse(data).unwrap();
        let event = parse_rfc2833_event(&packet).unwrap();
        assert_eq!(event.digit, '#');
        assert_eq!(event.end, i == 2);
        assert_eq!(event.duration, [160, 320, 800][i]);
        assert_eq!(packet.marker, i == 0);
        assert_eq!(packet.sequence_number, i as u16);
        assert_eq!(packet.timestamp, 0);
    }
    session.key_sent(1, 800);
    let packet = RtpPacket::parse(&session.audio_packet(&[0; 160]).unwrap()).unwrap();
    assert_eq!((packet.sequence_number, packet.timestamp), (1, 0));
    session.key_sent(3, 800);
    let packet = RtpPacket::parse(&session.audio_packet(&[0; 160]).unwrap()).unwrap();
    assert_eq!((packet.sequence_number, packet.timestamp), (4, 800));
    assert!(matches!(
        session.key_packets('x', 101, 800),
        Err(SessionError::InvalidDtmfDigit('x'))
    ));
    assert!(is_rtcp_type(64) && !is_rtcp_type(96));
}

#[test]
fn frames_are_cut_whole() {
    let mut cutter = FrameCutter::new(3);
    assert!(cutter.push(&[1, 2]).is_empty());
    assert_eq!(cutter.push(&[3, 4, 5, 6, 7]), vec![vec![1, 2, 3], vec![4, 5, 6]]);
    assert_eq!(cutter.push(&[8, 9]), vec![vec![7, 8, 9]]);
}

#[test]
fn playout_corrects_little_by_little() {
    let mut buffer = PlayoutBuffer::new(4);
    // Too little waits: the middle sample is played twice.
    buffer.push_frame(&[1, 2, 3, 4]);
    assert_eq!(buffer.len(), 5);
    buffer.push_frame(&[1, 2, 3, 4]);
    buffer.push_frame(&[1, 2, 3, 4]);
    assert_eq!(buffer.len(), 13);
    // Too much waits: two samples become one.
    buffer.push_frame(&[1, 2, 3, 4]);
    assert_eq!(buffer.len(), 16);
    let all = buffer.take_all();
    assert_eq!(&all[..5], &[2, 4, 6, 6, 8]);
    assert_eq!(&all[13..], &[2, 4, 7]);
    assert_eq!(buffer.len(), 0);
}

#[test]
fn devices_are_selected() {
    let names = [Some("Mic".to_string()), None, Some("USB Mic".to_string())];
    assert_eq!(select_device(&DeviceSelector::ByIndex(2), &names), DevicePick::Listed(2));
    assert_eq!(
        select_device(&DeviceSelector::ByName("USB Mic".to_string()), &names),
        DevicePick::Listed(2)
    );
    assert!(matches!(select_device(&DeviceSelector::Default, &names), DevicePick::SystemDefault));
    assert!(matches!(select_device(&DeviceSelector::ByIndex(3), &names), DevicePick::Missing));
    assert!(matches!(
        select_device(&DeviceSelector::ByName("none".to_string()), &names),
        DevicePick::Missing
    ));
}

#[test]
fn supported_settings_are_found() {
    let cfgs = [ConfigRange { channels: 2, min_rate: 44100, max_rate: 48000 }];
    let (rate, channels) = find_supported_output_config(&cfgs, 8000, 1).unwrap();
    assert_eq!(channels, 2);
    assert!((44100..=48000).contains(&rate));
    assert_eq!(find_supported_output_config(&[], 8000, 1), None);
    assert_eq!(find_supported_input_rate(&cfgs, 48000, 2), Some(48000));
    let info = describe_device("X".to_string(), DeviceType::Output, &cfgs, &Some("X".to_string()));
    assert!(info.is_default);
    assert_eq!(mono_to_multi(&[1, 2], 2), vec![1, 1, 2, 2]);
    assert_eq!(AudioConfig::default().samples_per_frame(), 160);
}

#[test]
fn addresses_and_numbers_are_written() {
    assert_eq!(Endpoint::new("::1", 5060).to_string(), "[::1]:5060");
    assert_eq!(Endpoint::new("1.2.3.4", 80).to_string(), "1.2.3.4:80");
    assert_eq!(dec_string(u64::MAX), u64::MAX.to_string());
    assert_eq!(dec_string(0), "0");
}

#[test]
fn opus_coders_are_the_callers() {
    let mut codec = CodecPipeline::new(CodecType::Opus);
    let frame = OpusFrame::Encoded(vec![9, 9]);
    assert_eq!(codec.encode_with(&[1, 2], frame.clone()).unwrap(), vec![9, 9]);
    assert_eq!(codec.encode_with(&[1, 2], OpusFrame::Absent).unwrap(), vec![1, 0, 2, 0]);
    let failed = OpusFrame::Failed("busy".to_string());
    assert_eq!(
        codec.encode_with(&[1], failed).unwrap_err().to_string(),
        "encoding error: opus encode: busy"
    );
    let samples = OpusSamples::Decoded(vec![7]);
    assert_eq!(codec.decode_with(&[1], samples.clone()).unwrap(), vec![7]);
    for (opus, what) in [
        (OpusSamples::BadPacket("e".to_string()), "opus packet: e"),
        (OpusSamples::BadSignals("e".to_string()), "opus signals: e"),
        (OpusSamples::Failed("e".to_string()), "opus decode: e"),
    ] {
        match codec.decode_with(&[1, 2], opus) {
            Err(CodecError::DecodingError(why)) => assert_eq!(why, what),
            other => panic!("{:?}", other),
        }
    }
    // Other codecs do not ask for it.
    let mut pcmu = CodecPipeline::new(CodecType::Pcmu);
    assert_eq!(pcmu.encode_with(&[0], frame).unwrap(), vec![0xff]);
    assert_eq!(pcmu.decode_with(&[0xff], samples).unwrap(), vec![0]);
}

#[test]
fn opus_payloads_are_decoded_in_turn() {
    let remote = Endpoint::new("10.0.0.2", 4000);
    let config = SessionConfig::new("127.0.0.1:0", remote, CodecType::Opus);
    let mut session = RtpSession::new(config, Endpoint::new("127.0.0.1", 2));
    let mut receiver = session.receiver(Some(101));
    let first = session.audio_packet_with(&[0; 960], OpusFrame::Encoded(vec![1])).unwrap();
    session.audio_sent();
    let second = session.audio_packet_with(&[0; 960], OpusFrame::Encoded(vec![2])).unwrap();
    assert!(session.audio_packet_with(&[0; 960], OpusFrame::Failed("x".to_string())).is_err());
    assert!(receiver.take_in("10.0.0.2", &second).is_none());
    let packet = match receiver.take_in("10.0.0.2", &first) {
        Some(Taken::Frame(packet)) => packet,
        other => panic!("{:?}", other),
    };
    assert_eq!(packet.payload, vec![1]);
    let heard = receiver.hear(&packet, OpusSamples::Decoded(vec![5; 960]));
    assert_eq!(heard, Some(ReceiveEvent::Audio(vec![5; 960])));
    assert_eq!(receiver.hear(&packet, OpusSamples::Failed("x".to_string())), None);
    let samples = session.decode_packet_with(&packet, OpusSamples::Decoded(vec![6])).unwrap();
    assert_eq!(samples, vec![6]);
}
