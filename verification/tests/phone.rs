use sipr::net::Endpoint;
use sipr::phone::dtmf::{is_valid_dtmf_digit, parse_info_dtmf, read_keys, DtmfMethod};
use sipr::phone::history::{
    find_reverse_history_match, history_text, push_history_entry, read_history,
};
use sipr::phone::requests::Registration;
use sipr::phone::softphone::{
    parse_sdp_rtp_addr, Fresh, KeyStep, OutgoingCall, PhoneError, RegisterStep, SoftPhone,
};
use sipr::phone::uri::{
    add_scheme, extract_host_from_uri, extract_user_from_uri, prefer_ipv4, service_order,
    unresolved, without_final_dots, ServerName, ServiceRank,
};
use sipr::rtp::codec::CodecType;
use sipr::rtp::packet::RtpPacket;
use sipr::rtp::session::{ReceiveEvent, RtpSession, SessionConfig};
use sipr::rtp::wav::AudioRecorder;
use sipr::sip::auth::{compute_digest_with, parse_challenge, Credentials};
use sipr::sip::header::{generate_tag, HeaderName};
use sipr::sip::message::{ResponseBuilder, SipMessage, SipMethod, SipRequest, StatusCode};
use sipr::sip::sdp::SdpSession;

/// An address of the form a.b.c.d, as text.
fn ip_of(s: &str) -> Option<String> {
    let parts: Vec<&str> = s.split('.').collect();
    if parts.len() == 4 && parts.iter().all(|p| p.parse::<u8>().is_ok()) {
        Some(s.to_string())
    } else {
        None
    }
}

fn endpoint_of(s: &str) -> Option<Endpoint> {
    let (host, port) = s.split_once(':')?;
    Some(Endpoint::new(&ip_of(host)?, port.parse().ok()?))
}

/// The address of a server that needs no lookup.
fn resolve_server_addr(server: &str) -> Option<Endpoint> {
    let name = ServerName::of(server);
    let whole = endpoint_of(&name.text);
    let host = ip_of(&name.hostname);
    let text = ip_of(&name.text);
    name.fixed(whole, host, text)
}

#[test]
fn test_resolve_server_addr() {
    let addr = resolve_server_addr("192.168.1.1:5060").unwrap();
    assert_eq!(addr.to_string(), "192.168.1.1:5060");

    let addr = resolve_server_addr("192.168.1.1").unwrap();
    assert_eq!(addr.to_string(), "192.168.1.1:5060");

    let addr = resolve_server_addr("sip:192.168.1.1:5060").unwrap();
    assert_eq!(addr.to_string(), "192.168.1.1:5060");

    let addr = resolve_server_addr("sip:10.0.0.1").unwrap();
    assert_eq!(addr.to_string(), "10.0.0.1:5060");
}

#[test]
fn test_resolve_server_addr_invalid() {
    assert!(resolve_server_addr("not-a-valid-address").is_none());
    match unresolved("not-a-valid-address") {
        PhoneError::CallFailed(why) => assert!(why.contains("not-a-valid-address")),
        other => panic!("{:?}", other),
    }
}

#[test]
fn test_resolve_server_addr_ip_passthrough() {
    let addr = resolve_server_addr("192.168.1.1:5060").unwrap();
    assert_eq!(addr.to_string(), "192.168.1.1:5060");

    let addr = resolve_server_addr("192.168.1.1").unwrap();
    assert_eq!(addr.port, 5060);
}

#[test]
fn test_resolve_server_addr_with_explicit_port_skips_srv() {
    let addr = resolve_server_addr("192.168.1.1:5080").unwrap();
    assert_eq!(addr.port, 5080);
    assert_eq!(ServerName::of("example.com:5080").service_name(), None);
    assert_eq!(
        ServerName::of("example.com").service_name(),
        Some("_sip._udp.example.com".to_string())
    );
}

#[test]
fn test_resolve_server_addr_sip_prefix_stripped() {
    let addr = resolve_server_addr("sip:10.0.0.1:5070").unwrap();
    assert_eq!(addr.to_string(), "10.0.0.1:5070");
}

#[test]
fn lookup_name_has_a_port() {
    assert_eq!(ServerName::of("example.com:5080").lookup_name(), "example.com:5080");
    assert_eq!(ServerName::of("example.com").lookup_name(), "example.com:5060");
}

#[test]
fn ipv4_comes_first() {
    assert_eq!(prefer_ipv4(&[false, true, true]), Some(1));
    assert_eq!(prefer_ipv4(&[false, false]), Some(0));
    assert_eq!(prefer_ipv4(&[]), None);
}

#[test]
fn services_come_by_priority_and_weight() {
    let ranks = [
        ServiceRank { priority: 20, weight: 0 },
        ServiceRank { priority: 10, weight: 5 },
        ServiceRank { priority: 10, weight: 60 },
        ServiceRank { priority: 10, weight: 5 },
    ];
    assert_eq!(service_order(&ranks), vec![2, 1, 3, 0]);
    assert_eq!(without_final_dots("sip.example.com."), "sip.example.com");
    assert_eq!(without_final_dots("sip.example.com"), "sip.example.com");
}

#[test]
fn test_extract_host_from_uri() {
    assert_eq!(extract_host_from_uri("sip:bob@example.com"), Some("example.com".into()));
    assert_eq!(extract_host_from_uri("sip:2234@135.125.159.46"), Some("135.125.159.46".into()));
    assert_eq!(extract_host_from_uri("sip:bob@10.0.0.1:5060"), Some("10.0.0.1:5060".into()));
    assert_eq!(extract_host_from_uri("sip:example.com"), Some("example.com".into()));
}

#[test]
fn test_extract_user_from_uri() {
    assert_eq!(extract_user_from_uri("sip:bob@example.com"), Some("bob".into()));
    assert_eq!(extract_user_from_uri("sip:2234@135.125.159.46"), Some("2234".into()));
    assert_eq!(extract_user_from_uri("sip:example.com"), None);
}

#[test]
fn scheme_is_added_once() {
    assert_eq!(add_scheme("bob@example.com"), "sip:bob@example.com");
    assert_eq!(add_scheme("sip:bob@example.com"), "sip:bob@example.com");
}

#[test]
fn test_parse_info_dtmf_body() {
    let parsed = parse_info_dtmf(Some("Signal=5\r\nDuration=240"));
    assert_eq!(parsed, Some(('5', 240)));

    let parsed = parse_info_dtmf(Some("Signal=#"));
    assert_eq!(parsed, Some(('#', 160)));

    assert_eq!(parse_info_dtmf(Some("Signal=Z\r\nDuration=10")), None);
    assert_eq!(parse_info_dtmf(None), None);
}

#[test]
fn test_is_valid_dtmf_digit() {
    assert!(is_valid_dtmf_digit('0'));
    assert!(is_valid_dtmf_digit('*'));
    assert!(is_valid_dtmf_digit('D'));
    assert!(is_valid_dtmf_digit('a'));
    assert!(!is_valid_dtmf_digit('Z'));
}

#[test]
fn keys_are_upper_case_and_others_are_refused() {
    let (keys, refused) = read_keys("1 a x#", DtmfMethod::SipInfo);
    let digits: Vec<char> = keys.iter().map(|k| k.digit).collect();
    assert_eq!(digits, vec!['1', 'A', '#']);
    assert!(keys.iter().all(|k| k.method == DtmfMethod::SipInfo));
    assert_eq!(refused, vec!['x']);
}

#[test]
fn test_load_history_from_path_trims_to_max() {
    let loaded = read_history("cmd1\ncmd2\ncmd3\ncmd4\ncmd5\n", 3);
    assert_eq!(loaded, vec!["cmd3", "cmd4", "cmd5"]);
}

#[test]
fn test_save_history_to_path_keeps_latest_max() {
    let history = vec![
        "one".to_string(),
        "two".to_string(),
        "three".to_string(),
        "four".to_string(),
    ];
    let persisted = history_text(&history, 2);
    assert_eq!(persisted, "three\nfour\n");
}

#[test]
fn saved_history_is_read_back() {
    let history = vec!["mute".to_string(), "stats".to_string()];
    assert_eq!(read_history(&history_text(&history, 10), 10), history);
    assert_eq!(history_text(&[], 10), "");
    assert!(read_history("\n  \n", 10).is_empty());
}

#[test]
fn test_find_reverse_history_match_empty_query_returns_latest() {
    let history = vec![
        "register".to_string(),
        "dtmf 1".to_string(),
        "hangup".to_string(),
    ];
    assert_eq!(find_reverse_history_match(&history, "", None), Some(2));
}

#[test]
fn test_find_reverse_history_match_respects_start_before() {
    let history = vec![
        "dtmf 1".to_string(),
        "call sip:bob@example.com".to_string(),
        "dtmf 2".to_string(),
        "dtmf 3".to_string(),
    ];

    let first = find_reverse_history_match(&history, "dtmf", None);
    assert_eq!(first, Some(3));

    let second = find_reverse_history_match(&history, "dtmf", first);
    assert_eq!(second, Some(2));

    let third = find_reverse_history_match(&history, "dtmf", second);
    assert_eq!(third, Some(0));
}

#[test]
fn test_push_history_entry_skips_consecutive_duplicates_and_caps() {
    let mut history = vec!["call sip:alice@example.com".to_string()];

    assert!(!push_history_entry(&mut history, "call sip:alice@example.com", 3));
    assert_eq!(history, vec!["call sip:alice@example.com"]);

    assert!(push_history_entry(&mut history, "dtmf 1", 3));
    assert_eq!(history, vec!["call sip:alice@example.com", "dtmf 1"]);

    assert!(push_history_entry(&mut history, "dtmf 2", 3));
    assert!(push_history_entry(&mut history, "hangup", 3));
    assert_eq!(history, vec!["dtmf 1", "dtmf 2", "hangup"]);
}

fn new_phone() -> SoftPhone {
    SoftPhone::new(Endpoint::new("127.0.0.1", 40000))
}

fn fresh(call_id: &str) -> Fresh {
    Fresh {
        branch: "z9hG4bK00000001".to_string(),
        session_id: 7,
        cnonce: "0011223344556677".to_string(),
        call_id: call_id.to_string(),
    }
}

fn session(remote: Endpoint, port: u16) -> RtpSession {
    let config = SessionConfig::new("127.0.0.1:0", remote, CodecType::Pcmu);
    RtpSession::new(config, Endpoint::new("127.0.0.1", port))
}

/// Places a call to bob through the server.
fn place_call(phone: &mut SoftPhone, server: &str) -> OutgoingCall {
    let plan = phone.plan_call("sip:bob@example.com", Some(server), Some("alice"), None, None);
    let out = phone.call(plan, 30000, &fresh("call-1"));
    phone.call_placed(&out, session(Endpoint::new("127.0.0.1", 5060), 30000));
    out
}

fn request_of(msg: &SipMessage) -> &SipRequest {
    match msg {
        SipMessage::Request(req) => req,
        SipMessage::Response(_) => panic!("expected a request"),
    }
}

#[test]
fn test_softphone_creation() {
    let phone = new_phone();
    assert!(phone.dialog().is_none());
    assert!(phone.local_addr().port > 0);
}

#[test]
fn test_softphone_dtmf_queue_api() {
    let mut phone = new_phone();
    assert_eq!(phone.queue_rfc2833_dtmf("12#").0, 3);
    assert_eq!(phone.queue_sip_info_dtmf("A").0, 1);
    assert_eq!(phone.queued_dtmf_count(), 4);
}

#[test]
fn keys_wait_for_their_way_out() {
    let mut phone = new_phone();
    phone.queue_rfc2833_dtmf("1");
    phone.queue_sip_info_dtmf("2");
    // There is neither a media session nor a dialog yet.
    assert!(matches!(phone.next_key("z9hG4bK1"), KeyStep::Stop));
    assert!(matches!(phone.next_key("z9hG4bK1"), KeyStep::Skip));
    assert_eq!(phone.queued_dtmf_count(), 0);

    place_call(&mut phone, "127.0.0.1:5060");
    phone.queue_rfc2833_dtmf("5");
    phone.queue_sip_info_dtmf("6");
    match phone.next_key("z9hG4bK1") {
        KeyStep::Rtp { digit, payload_type } => {
            assert_eq!(digit, '5');
            assert_eq!(payload_type, 101);
        },
        other => panic!("{:?}", other),
    }
    phone.set_remote(Endpoint::new("127.0.0.1", 5060));
    match phone.next_key("z9hG4bK1") {
        KeyStep::Info { digit, message, to } => {
            assert_eq!(digit, '6');
            assert_eq!(to.to_string(), "127.0.0.1:5060");
            let req = request_of(&message);
            assert_eq!(req.method, SipMethod::Info);
            assert_eq!(parse_info_dtmf(req.body.as_deref()), Some(('6', 160)));
        },
        other => panic!("{:?}", other),
    }
    assert!(matches!(phone.next_key("z9hG4bK1"), KeyStep::Done));
}

#[test]
fn test_softphone_register() {
    let mut phone = new_phone();
    let (registration, msg) = phone.register("127.0.0.1:5060", "alice", "secret", &fresh("reg-1"));
    assert!(msg.is_request());
    let req = request_of(&msg);
    assert_eq!(req.method, SipMethod::Register);
    let ok = ResponseBuilder::from_request(req, StatusCode(StatusCode::OK)).build();
    let step = phone.register_reply(&registration, &ok, &fresh("reg-1"));
    assert!(matches!(step, RegisterStep::Registered));
}

#[test]
fn test_softphone_call() {
    let mut phone = new_phone();
    let out = place_call(&mut phone, "127.0.0.1:5060");

    assert!(phone.dialog().is_some());
    assert!(phone.dialog().unwrap().is_early());

    let req = request_of(&out.invite);
    assert_eq!(req.method, SipMethod::Invite);
    assert!(req.body.is_some());
    let sdp = SdpSession::parse(req.body.as_ref().unwrap()).unwrap();
    assert!(sdp.get_audio_port().is_some());
    assert_eq!(sdp.get_audio_port(), Some(30000));
}

#[test]
fn test_softphone_call_no_server() {
    let mut phone = new_phone();
    let plan = phone.plan_call("sip:bob@127.0.0.1:5070", None, Some("alice"), None, None);
    assert_eq!(plan.server_host, "127.0.0.1:5070");
    let out = phone.call(plan, 30000, &fresh("call-1"));
    phone.call_placed(&out, session(Endpoint::new("127.0.0.1", 5070), 30000));
    assert!(phone.dialog().is_some());
}

#[test]
fn test_softphone_call_auto_user_from_uri() {
    let mut phone = new_phone();
    let plan = phone.plan_call("sip:bob@127.0.0.1:5070", None, None, None, None);
    assert_eq!(plan.user, "bob");
    let out = phone.call(plan, 30000, &fresh("call-1"));
    phone.call_placed(&out, session(Endpoint::new("127.0.0.1", 5070), 30000));
    assert!(phone.dialog().is_some());
}

#[test]
fn caller_is_named_by_the_login_at_last() {
    let mut phone = new_phone();
    let plan = phone.plan_call("sip:example.com", None, None, None, Some("carol"));
    assert_eq!(plan.user, "carol");
    let plan = phone.plan_call("example.com", None, None, None, None);
    assert_eq!(plan.user, "siphone");
    assert_eq!(plan.target_uri, "sip:example.com");
}

#[test]
fn test_softphone_call_derives_auth_user_when_password_provided() {
    let mut phone = new_phone();
    let plan = phone.plan_call("sip:bob@127.0.0.1:5070", None, None, Some("secret"), None);
    phone.call(plan, 30000, &fresh("call-1"));

    let creds = phone.credentials().expect("credentials should be set");
    assert_eq!(creds.username, "bob");
    assert_eq!(creds.password, "secret");
}

#[test]
fn test_early_media_183_triggers_rtp() {
    let mut phone = new_phone();
    let out = place_call(&mut phone, "127.0.0.1:5060");
    let invite_sdp = SdpSession::parse(out.invite.body().unwrap()).unwrap();
    assert_eq!(invite_sdp.get_audio_port(), Some(30000));

    let sdp_body = "v=0\r\n\
o=- 0 0 IN IP4 127.0.0.1\r\n\
s=-\r\n\
c=IN IP4 127.0.0.1\r\n\
t=0 0\r\n\
m=audio 41000 RTP/AVP 0\r\n\
a=rtpmap:0 PCMU/8000\r\n";
    let response_183 = format!(
        "SIP/2.0 183 Session Progress\r\n\
Via: SIP/2.0/UDP 127.0.0.1:40000;branch=z9hG4bKtest;rport\r\n\
From: <sip:alice@127.0.0.1:5060>;tag=t\r\n\
To: <sip:bob@example.com>;tag=server789\r\n\
Call-ID: {}\r\n\
CSeq: 1 INVITE\r\n\
Content-Type: application/sdp\r\n\
Content-Length: 0\r\n\
\r\n\
{}",
        out.call_id, sdp_body,
    );
    let msg = SipMessage::parse(&response_183).unwrap();
    assert!(msg.is_response());
    let status = msg.status().unwrap();
    assert_eq!(status.0, 183);
    assert!(status.is_provisional());

    let (addr, dtmf) = parse_sdp_rtp_addr(msg.body().expect("183 should have SDP body")).unwrap();
    assert_eq!(addr, "127.0.0.1:41000");
    assert_eq!(dtmf, None);

    let source = Endpoint::new("127.0.0.1", 41000);
    assert!(phone.point_media(&source).is_some());
    let mut receiver = phone.rtp_session().unwrap().receiver(None);
    let mut frames_received = 0;
    for seq in 0u16..5 {
        let payload = vec![0xFFu8; 160];
        let pkt = RtpPacket::new(0, seq, seq as u32 * 160, 0x12345678).with_payload(payload);
        if let Some(ReceiveEvent::Audio(_)) = receiver.receive("127.0.0.1", &pkt.serialize()) {
            frames_received += 1;
        }
    }
    assert!(frames_received > 0);
}

#[test]
fn test_register_with_401_challenge() {
    let mut phone = new_phone();
    let (registration, msg1) = phone.register("127.0.0.1:5060", "alice", "secret", &fresh("r"));
    assert!(msg1.headers().get(&HeaderName::Authorization).is_none());

    let challenge_resp =
        ResponseBuilder::from_request(request_of(&msg1), StatusCode(StatusCode::UNAUTHORIZED))
            .header(
                HeaderName::WwwAuthenticate,
                r#"Digest realm="testrealm", nonce="abc123", algorithm=MD5"#,
            )
            .build();
    let msg2 = match phone.register_reply(&registration, &challenge_resp, &fresh("r")) {
        RegisterStep::Retry(msg) => msg,
        other => panic!("{:?}", other),
    };
    let auth = msg2
        .headers()
        .get(&HeaderName::Authorization)
        .expect("Second REGISTER should have Authorization header");
    let auth_str = auth.as_str();
    assert!(auth_str.starts_with("Digest "));
    assert!(auth_str.contains("username=\"alice\""));
    assert!(auth_str.contains("realm=\"testrealm\""));
    assert!(auth_str.contains("nonce=\"abc123\""));

    // The answer is the one that the challenge asks for.
    let challenge = parse_challenge(
        r#"Digest realm="testrealm", nonce="abc123", algorithm=MD5"#,
    )
    .unwrap();
    let creds = Credentials { username: "alice".to_string(), password: "secret".to_string() };
    let digest = compute_digest_with(
        &challenge,
        &creds,
        "REGISTER",
        "sip:127.0.0.1:5060",
        "0011223344556677",
    );
    assert_eq!(auth_str, digest.to_string());

    let ok = ResponseBuilder::from_request(request_of(&msg2), StatusCode(StatusCode::OK)).build();
    assert!(matches!(phone.register_final(&registration, &ok), RegisterStep::Registered));
}

#[test]
fn test_register_with_407_proxy_auth() {
    let mut phone = new_phone();
    let (registration, msg1) = phone.register("127.0.0.1:5060", "bob", "pass123", &fresh("r"));
    let resp = ResponseBuilder::from_request(
        request_of(&msg1),
        StatusCode(StatusCode::PROXY_AUTH_REQUIRED),
    )
    .header(HeaderName::ProxyAuthenticate, r#"Digest realm="proxy.example.com", nonce="xyz789""#)
    .build();
    let msg2 = match phone.register_reply(&registration, &resp, &fresh("r")) {
        RegisterStep::Retry(msg) => msg,
        other => panic!("{:?}", other),
    };
    let proxy_auth = msg2
        .headers()
        .get(&HeaderName::ProxyAuthorization)
        .expect("Should have Proxy-Authorization header");
    assert!(proxy_auth.as_str().contains("realm=\"proxy.example.com\""));
    let ok = ResponseBuilder::from_request(request_of(&msg2), StatusCode(StatusCode::OK)).build();
    assert!(matches!(phone.register_final(&registration, &ok), RegisterStep::Registered));
}

#[test]
fn refused_registration_fails() {
    let mut phone = new_phone();
    let (registration, msg) = phone.register("127.0.0.1:5060", "alice", "secret", &fresh("r"));
    let req = request_of(&msg);
    let forbidden = ResponseBuilder::from_request(req, StatusCode(StatusCode::FORBIDDEN)).build();
    match phone.register_reply(&registration, &forbidden, &fresh("r")) {
        RegisterStep::Failed(PhoneError::CallFailed(why)) => assert!(why.contains("403"), "{why}"),
        other => panic!("{:?}", other),
    }
    // A challenge without its header cannot be answered.
    let bare = ResponseBuilder::from_request(req, StatusCode(StatusCode::UNAUTHORIZED)).build();
    let step = phone.register_reply(&registration, &bare, &fresh("r"));
    assert!(matches!(step, RegisterStep::Failed(_)));
    // A second challenge is a refusal.
    let again = ResponseBuilder::from_request(req, StatusCode(StatusCode::UNAUTHORIZED))
        .header(HeaderName::WwwAuthenticate, "Digest realm=\"r\", nonce=\"n\"")
        .build();
    let step = phone.register_final(&registration, &again);
    assert!(matches!(step, RegisterStep::Failed(_)));
}

#[test]
fn test_set_credentials() {
    let mut phone = new_phone();
    assert!(phone.credentials().is_none());
    phone.set_credentials("alice", "secret");
    assert!(phone.credentials().is_some());
    let creds = phone.credentials().unwrap();
    assert_eq!(creds.username, "alice");
    assert_eq!(creds.password, "secret");
}

#[test]
fn test_hold_sends_reinvite_sendonly() {
    let mut phone = new_phone();
    place_call(&mut phone, "127.0.0.1:5060");
    phone.set_remote(Endpoint::new("127.0.0.1", 5060));
    assert!(!phone.is_on_hold());

    let msg = phone.hold(&fresh("f")).unwrap();
    phone.set_on_hold(true);
    assert!(phone.is_on_hold());

    let req = request_of(&msg);
    assert_eq!(req.method, SipMethod::Invite);
    let sdp = SdpSession::parse(req.body.as_ref().unwrap()).unwrap();
    assert_eq!(sdp.get_audio_direction(), Some("sendonly"));
}

#[test]
fn test_resume_sends_reinvite_sendrecv() {
    let mut phone = new_phone();
    place_call(&mut phone, "127.0.0.1:5060");
    phone.set_on_hold(true);

    let msg = phone.resume(&fresh("f")).unwrap();
    phone.set_on_hold(false);
    assert!(!phone.is_on_hold());

    let req = request_of(&msg);
    assert_eq!(req.method, SipMethod::Invite);
    let sdp = SdpSession::parse(req.body.as_ref().unwrap()).unwrap();
    assert_eq!(sdp.get_audio_direction(), Some("sendrecv"));
}

#[test]
fn test_hold_without_dialog_fails() {
    let mut phone = new_phone();
    assert!(phone.hold(&fresh("f")).is_err());
}

#[test]
fn test_resume_without_dialog_fails() {
    let mut phone = new_phone();
    assert!(phone.resume(&fresh("f")).is_err());
}

#[test]
fn test_transfer_sends_refer() {
    let mut phone = new_phone();
    place_call(&mut phone, "127.0.0.1:5060");
    let msg = phone.transfer("sip:carol@example.com", &fresh("f")).unwrap();
    assert_eq!(request_of(&msg).method, SipMethod::Refer);
    let refer_to =
        msg.headers().get(&HeaderName::ReferTo).expect("REFER should have Refer-To header");
    assert_eq!(refer_to.as_str(), "sip:carol@example.com");
    let referred_by = msg
        .headers()
        .get(&HeaderName::ReferredBy)
        .expect("REFER should have Referred-By header");
    assert!(referred_by.as_str().contains("alice"));
}

#[test]
fn test_transfer_auto_adds_sip_prefix() {
    let mut phone = new_phone();
    place_call(&mut phone, "127.0.0.1:5060");
    let msg = phone.transfer("carol@example.com", &fresh("f")).unwrap();
    let refer_to = msg.headers().get(&HeaderName::ReferTo).unwrap();
    assert_eq!(refer_to.as_str(), "sip:carol@example.com");
}

#[test]
fn test_transfer_without_dialog_fails() {
    let mut phone = new_phone();
    let result = phone.transfer("sip:carol@example.com", &fresh("f"));
    assert!(result.is_err());
    assert_eq!(result.unwrap_err().to_string(), "no active dialog");
}

#[test]
fn test_send_prack() {
    let mut phone = new_phone();
    place_call(&mut phone, "127.0.0.1:5060");
    let msg = phone.send_prack(1, 1, "INVITE", "z9hG4bK2").unwrap();
    assert_eq!(request_of(&msg).method, SipMethod::Prack);
    let rack = msg.headers().get(&HeaderName::RAck).expect("PRACK should have RAck header");
    assert_eq!(rack.as_str(), "1 1 INVITE");
}

#[test]
fn test_send_prack_without_dialog_fails() {
    let mut phone = new_phone();
    assert!(phone.send_prack(1, 1, "INVITE", "z9hG4bK2").is_err());
}

fn incoming_invite() -> SipMessage {
    SipMessage::parse(
        "INVITE sip:siphone@127.0.0.1:40000 SIP/2.0\r\n\
Via: SIP/2.0/UDP 127.0.0.1:5061;branch=z9hG4bKtest123;rport\r\n\
Max-Forwards: 70\r\n\
From: <sip:alice@example.com>;tag=caller123\r\n\
To: <sip:siphone@127.0.0.1:40000>\r\n\
Call-ID: test-accept-call-id\r\n\
CSeq: 1 INVITE\r\n\
Contact: <sip:alice@127.0.0.1:5061>\r\n\
Content-Type: application/sdp\r\n\
Content-Length: 0\r\n\
\r\n\
v=0\r\n\
o=- 0 0 IN IP4 127.0.0.1\r\n\
s=-\r\n\
c=IN IP4 127.0.0.1\r\n\
t=0 0\r\n\
m=audio 6061 RTP/AVP 0\r\n\
a=rtpmap:0 PCMU/8000\r\n\
a=sendrecv\r\n",
    )
    .unwrap()
}

#[test]
fn test_accept_call_responds_to_invite() {
    let mut phone = new_phone();
    let caller = Endpoint::new("127.0.0.1", 5061);
    let invite = incoming_invite();
    assert!(SoftPhone::is_call(&invite));
    assert!(SoftPhone::can_accept(&invite));

    let (dialog, ringing) = phone.accept_call(&invite, "ourtag".to_string()).unwrap();
    assert_eq!(ringing.status().unwrap().0, 180);

    let media = parse_sdp_rtp_addr(invite.body().unwrap())
        .and_then(|(addr, dtmf)| endpoint_of(&addr).map(|a| (a, dtmf)));
    let config = phone.incoming_media(media, &caller);
    assert_eq!(config.remote_addr.to_string(), "127.0.0.1:6061");
    let rtp = RtpSession::new(config, Endpoint::new("127.0.0.1", 30002));
    let ok = phone.answer(&invite, &dialog, 30002, &fresh("f")).unwrap();
    assert_eq!(ok.status().unwrap().0, 200);
    assert!(ok.body().is_some(), "200 OK should have SDP body");
    assert!(ok.headers().get(&HeaderName::To).unwrap().as_str().contains("ourtag"));
    phone.call_taken(dialog, rtp, caller);

    assert!(phone.dialog().is_some());
    assert!(phone.rtp_session().is_some());
}

#[test]
fn only_invitations_are_calls() {
    let mut phone = new_phone();
    place_call(&mut phone, "127.0.0.1:5060");
    let refer = phone.transfer("sip:carol@example.com", &fresh("f")).unwrap();
    assert!(!SoftPhone::is_call(&refer));
    assert!(phone.accept_call(&refer, "t".to_string()).is_err());
}

#[test]
fn test_build_register_without_auth() {
    let phone = new_phone();
    let registration = Registration {
        server_uri: "sip:example.com".to_string(),
        user: "alice".to_string(),
        server: "example.com".to_string(),
        call_id: "call-123".to_string(),
    };
    let msg = phone.build_register(&registration, 1, None, "z9hG4bK1");
    let s = msg.to_string();
    assert!(s.contains("REGISTER sip:example.com"));
    assert!(s.contains("CSeq: 1 REGISTER"));
    assert!(!s.contains("Authorization"));
}

#[test]
fn test_build_register_with_auth() {
    let phone = new_phone();
    let registration = Registration {
        server_uri: "sip:example.com".to_string(),
        user: "alice".to_string(),
        server: "example.com".to_string(),
        call_id: "call-123".to_string(),
    };
    let msg = phone.build_register(
        &registration,
        2,
        Some((HeaderName::Authorization, "Digest username=\"alice\"".to_string())),
        "z9hG4bK1",
    );
    let s = msg.to_string();
    assert!(s.contains("CSeq: 2 REGISTER"));
    assert!(s.contains("Authorization: Digest username=\"alice\""));
}

#[test]
fn hanging_up_ends_the_dialog() {
    let mut phone = new_phone();
    assert!(phone.hangup(&fresh("f")).is_err());
    place_call(&mut phone, "127.0.0.1:5060");
    let bye = phone.hangup(&fresh("f")).unwrap();
    assert_eq!(request_of(&bye).method, SipMethod::Bye);
    assert_eq!(bye.cseq().unwrap().0, 2);
    phone.hung_up();
    assert!(phone.dialog().unwrap().is_terminated());
    assert!(phone.rtp_session().is_none());
}

#[test]
fn requests_go_to_the_contact_or_where_the_peer_was_heard() {
    let mut phone = new_phone();
    place_call(&mut phone, "127.0.0.1:5060");
    let contact = Endpoint::new("10.0.0.9", 5062);
    let remote = Endpoint::new("127.0.0.1", 5060);
    assert_eq!(phone.destination(None), None);
    phone.set_remote(remote.clone());
    assert_eq!(phone.destination(None), Some(remote));
    assert_eq!(phone.destination(Some(contact.clone())), Some(contact));
}

#[test]
fn fresh_values_differ() {
    let a = Fresh::draw();
    let b = Fresh::draw();
    assert_ne!(a.call_id, b.call_id);
    assert_ne!(a.branch, b.branch);
    assert_ne!(a.cnonce, b.cnonce);
    assert!(a.branch.starts_with("z9hG4bK"));
    assert_eq!(a.cnonce.len(), 16);
    assert_eq!(a.call_id.len(), 36);
    assert_eq!(a.call_id.as_bytes()[14], b'4');
    assert!(b"89ab".contains(&a.call_id.as_bytes()[19]));
    assert_ne!(generate_tag(), generate_tag());
}

#[test]
fn media_address_needs_a_port() {
    assert_eq!(parse_sdp_rtp_addr("v=0\r\ns=-\r\n"), None);
    let body = "v=0\r\no=- 0 0 IN IP4 1.2.3.4\r\ns=-\r\nt=0 0\r\n\
m=audio 4000 RTP/AVP 0 96\r\na=rtpmap:96 telephone-event/8000\r\n";
    let (addr, dtmf) = parse_sdp_rtp_addr(body).unwrap();
    assert_eq!(addr, "0.0.0.0:4000");
    assert_eq!(dtmf, Some(96));
}

#[test]
fn phone_keeps_a_recording_for_its_path() {
    let mut phone = new_phone();
    phone.set_record_path("/tmp/call.wav");
    let mut rec = AudioRecorder::new(8000);
    rec.record_frame(&[1, 2, 3]);
    phone.keep_live_recording(Some(rec));
    let (path, rec) = phone.take_live_recording().unwrap();
    assert_eq!(path, "/tmp/call.wav");
    assert_eq!(rec.samples(), &[1, 2, 3]);
    assert!(phone.take_live_recording().is_none());
}
