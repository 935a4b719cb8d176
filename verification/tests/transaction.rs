use sipr::sip::header::{HeaderName, Headers};
use sipr::sip::message::{SipMessage, SipMethod, SipRequest, SipResponse, StatusCode};
use sipr::sip::transaction::{
    SipTransaction, TransactionAction, TransactionKind, TransactionState, T1, T2,
};

fn make_request(method: SipMethod, branch: &str, call_id: &str) -> SipMessage {
    let mut headers = Headers::new();
    headers.add(
        HeaderName::Via,
        &format!("SIP/2.0/UDP 10.0.0.1:5060;branch={}", branch),
    );
    headers.add(HeaderName::From, "<sip:alice@a.com>;tag=t1");
    headers.add(HeaderName::To, "<sip:bob@b.com>");
    headers.add(HeaderName::CallId, call_id);
    headers.add(
        HeaderName::CSeq,
        &format!("1 {}", method.as_str()),
    );
    headers.add(HeaderName::ContentLength, "0");

    SipMessage::Request(SipRequest {
        method,
        uri: "sip:bob@b.com".to_string(),
        version: "SIP/2.0".to_string(),
        headers,
        body: None,
    })
}

fn make_response(status: StatusCode, branch: &str, call_id: &str, method: &str) -> SipMessage {
    let mut headers = Headers::new();
    headers.add(
        HeaderName::Via,
        &format!("SIP/2.0/UDP 10.0.0.1:5060;branch={}", branch),
    );
    headers.add(HeaderName::From, "<sip:alice@a.com>;tag=t1");
    headers.add(HeaderName::To, "<sip:bob@b.com>;tag=t2");
    headers.add(HeaderName::CallId, call_id);
    headers.add(HeaderName::CSeq, &format!("1 {}", method));
    headers.add(HeaderName::ContentLength, "0");

    SipMessage::Response(SipResponse {
        version: "SIP/2.0".to_string(),
        status,
        reason: status.reason_phrase().to_string(),
        headers,
        body: None,
    })
}

#[test]
fn test_create_client_invite_transaction() {
    let req = make_request(SipMethod::Invite, "z9hG4bK776", "call-1");
    let txn = SipTransaction::new_client(&req).unwrap();

    assert_eq!(txn.kind, TransactionKind::ClientInvite);
    assert_eq!(txn.state, TransactionState::Trying);
    assert_eq!(txn.method, SipMethod::Invite);
    assert_eq!(txn.branch, "z9hG4bK776");
    assert_eq!(txn.call_id, "call-1");
}

#[test]
fn test_create_client_non_invite_transaction() {
    let req = make_request(SipMethod::Register, "z9hG4bK777", "call-2");
    let txn = SipTransaction::new_client(&req).unwrap();

    assert_eq!(txn.kind, TransactionKind::ClientNonInvite);
    assert_eq!(txn.state, TransactionState::Trying);
    assert_eq!(txn.method, SipMethod::Register);
}

#[test]
fn test_create_server_transaction() {
    let req = make_request(SipMethod::Invite, "z9hG4bK778", "call-3");
    let txn = SipTransaction::new_server(&req).unwrap();

    assert_eq!(txn.kind, TransactionKind::ServerInvite);
    assert_eq!(txn.state, TransactionState::Trying);
}

#[test]
fn test_client_invite_provisional_response() {
    let req = make_request(SipMethod::Invite, "z9hG4bK779", "call-4");
    let mut txn = SipTransaction::new_client(&req).unwrap();

    let ringing = make_response(StatusCode(StatusCode::RINGING), "z9hG4bK779", "call-4", "INVITE");
    let action = txn.process_response(&ringing);

    assert_eq!(action, TransactionAction::PassToTU);
    assert_eq!(txn.state, TransactionState::Proceeding);
}

#[test]
fn test_client_invite_success_response() {
    let req = make_request(SipMethod::Invite, "z9hG4bK780", "call-5");
    let mut txn = SipTransaction::new_client(&req).unwrap();

    let ok = make_response(StatusCode(StatusCode::OK), "z9hG4bK780", "call-5", "INVITE");
    let action = txn.process_response(&ok);

    assert_eq!(action, TransactionAction::PassToTU);
    assert_eq!(txn.state, TransactionState::Terminated);
}

#[test]
fn test_client_invite_error_response() {
    let req = make_request(SipMethod::Invite, "z9hG4bK781", "call-6");
    let mut txn = SipTransaction::new_client(&req).unwrap();

    let not_found = make_response(StatusCode(StatusCode::NOT_FOUND), "z9hG4bK781", "call-6", "INVITE");
    let action = txn.process_response(&not_found);

    assert_eq!(action, TransactionAction::SendAck);
    assert_eq!(txn.state, TransactionState::Completed);
}

#[test]
fn test_client_non_invite_success() {
    let req = make_request(SipMethod::Register, "z9hG4bK782", "call-7");
    let mut txn = SipTransaction::new_client(&req).unwrap();

    let ok = make_response(StatusCode(StatusCode::OK), "z9hG4bK782", "call-7", "REGISTER");
    let action = txn.process_response(&ok);

    assert_eq!(action, TransactionAction::PassToTU);
    assert_eq!(txn.state, TransactionState::Completed);
}

#[test]
fn test_server_invite_provisional() {
    let req = make_request(SipMethod::Invite, "z9hG4bK783", "call-8");
    let mut txn = SipTransaction::new_server(&req).unwrap();

    let ringing = make_response(StatusCode(StatusCode::RINGING), "z9hG4bK783", "call-8", "INVITE");
    let action = txn.send_response(&ringing);

    assert_eq!(action, TransactionAction::SendResponse);
    assert_eq!(txn.state, TransactionState::Proceeding);
}

#[test]
fn test_server_invite_success() {
    let req = make_request(SipMethod::Invite, "z9hG4bK784", "call-9");
    let mut txn = SipTransaction::new_server(&req).unwrap();

    let ok = make_response(StatusCode(StatusCode::OK), "z9hG4bK784", "call-9", "INVITE");
    let action = txn.send_response(&ok);

    assert_eq!(action, TransactionAction::SendResponse);
    assert_eq!(txn.state, TransactionState::Terminated);
}

#[test]
fn test_transaction_matching() {
    let req = make_request(SipMethod::Invite, "z9hG4bK785", "call-10");
    let txn = SipTransaction::new_client(&req).unwrap();

    // Same branch should match
    let response = make_response(StatusCode(StatusCode::OK), "z9hG4bK785", "call-10", "INVITE");
    assert!(txn.matches(&response));

    // Different branch should not match
    let other = make_response(StatusCode(StatusCode::OK), "z9hG4bK999", "call-10", "INVITE");
    assert!(!txn.matches(&other));
}

#[test]
fn test_retransmit_interval() {
    let req = make_request(SipMethod::Invite, "z9hG4bK786", "call-11");
    let mut txn = SipTransaction::new_client(&req).unwrap();

    assert_eq!(txn.retransmit_interval(), T1); // 500ms
    txn.mark_retransmit();
    assert_eq!(txn.retransmit_interval(), T1 * 2); // 1000ms
    txn.mark_retransmit();
    assert_eq!(txn.retransmit_interval(), T1 * 4); // 2000ms
    txn.mark_retransmit();
    assert_eq!(txn.retransmit_interval(), T2); // 4000ms (capped)
}

#[test]
fn test_should_retransmit() {
    let req = make_request(SipMethod::Invite, "z9hG4bK787", "call-12");
    let mut txn = SipTransaction::new_client(&req).unwrap();

    assert!(txn.should_retransmit()); // Trying state

    let ringing = make_response(StatusCode(StatusCode::RINGING), "z9hG4bK787", "call-12", "INVITE");
    txn.process_response(&ringing);
    assert!(txn.should_retransmit()); // Proceeding state for INVITE

    let ok = make_response(StatusCode(StatusCode::OK), "z9hG4bK787", "call-12", "INVITE");
    txn.process_response(&ok);
    assert!(!txn.should_retransmit()); // Terminated
}

#[test]
fn test_transaction_terminated() {
    let req = make_request(SipMethod::Register, "z9hG4bK788", "call-13");
    let mut txn = SipTransaction::new_client(&req).unwrap();

    assert!(!txn.is_terminated());

    let ok = make_response(StatusCode(StatusCode::OK), "z9hG4bK788", "call-13", "REGISTER");
    txn.process_response(&ok);

    // Non-invite goes to Completed, not Terminated
    assert!(!txn.is_terminated());
    assert_eq!(txn.state, TransactionState::Completed);
}

#[test]
fn test_create_from_response_fails() {
    let response = make_response(StatusCode(StatusCode::OK), "z9hG4bK789", "call-14", "INVITE");
    assert!(SipTransaction::new_client(&response).is_none());
    assert!(SipTransaction::new_server(&response).is_none());
}

#[test]
fn test_process_response_on_request() {
    let req = make_request(SipMethod::Invite, "z9hG4bK790", "call-15");
    let mut txn = SipTransaction::new_client(&req).unwrap();

    // Passing a request to process_response should return None action
    let action = txn.process_response(&req);
    assert_eq!(action, TransactionAction::Nothing);
}

#[test]
fn test_server_non_invite_response() {
    let req = make_request(SipMethod::Register, "z9hG4bK791", "call-16");
    let mut txn = SipTransaction::new_server(&req).unwrap();

    assert_eq!(txn.kind, TransactionKind::ServerNonInvite);

    let ok = make_response(StatusCode(StatusCode::OK), "z9hG4bK791", "call-16", "REGISTER");
    let action = txn.send_response(&ok);
    assert_eq!(action, TransactionAction::SendResponse);
    assert_eq!(txn.state, TransactionState::Completed);
}
