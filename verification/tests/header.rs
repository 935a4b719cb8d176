use sipr::sip::header::{
    extract_tag, extract_uri, generate_branch, generate_tag, Header, HeaderName, Headers,
};

#[test]
fn test_header_name_parsing() {
    assert_eq!(HeaderName::from_str("Via"), HeaderName::Via);
    assert_eq!(HeaderName::from_str("v"), HeaderName::Via);
    assert_eq!(HeaderName::from_str("VIA"), HeaderName::Via);
    assert_eq!(HeaderName::from_str("from"), HeaderName::From);
    assert_eq!(HeaderName::from_str("f"), HeaderName::From);
    assert_eq!(HeaderName::from_str("Call-ID"), HeaderName::CallId);
    assert_eq!(HeaderName::from_str("i"), HeaderName::CallId);
    assert_eq!(HeaderName::from_str("CSeq"), HeaderName::CSeq);
    assert_eq!(
        HeaderName::from_str("X-Custom"),
        HeaderName::Other("x-custom".to_string())
    );
}

#[test]
fn test_header_name_display() {
    assert_eq!(HeaderName::Via.as_str(), "Via");
    assert_eq!(HeaderName::CallId.as_str(), "Call-ID");
    assert_eq!(HeaderName::ContentType.as_str(), "Content-Type");
}

#[test]
fn test_headers_collection() {
    let mut headers = Headers::new();
    headers.add(HeaderName::Via, "SIP/2.0/UDP 10.0.0.1:5060;branch=z9hG4bK776asdhds");
    headers.add(HeaderName::From, "<sip:alice@atlanta.com>;tag=1928301774");
    headers.add(HeaderName::To, "<sip:bob@biloxi.com>");
    headers.add(HeaderName::CallId, "a84b4c76e66710@pc33.atlanta.com");

    assert_eq!(headers.len(), 4);
    assert!(!headers.is_empty());

    assert_eq!(
        headers.get(&HeaderName::From).unwrap().as_str(),
        "<sip:alice@atlanta.com>;tag=1928301774"
    );

    // Multiple Via headers
    headers.add(HeaderName::Via, "SIP/2.0/UDP 10.0.0.2:5060;branch=z9hG4bKnashds8");
    assert_eq!(headers.get_all(&HeaderName::Via).len(), 2);
}

#[test]
fn test_headers_set_replaces() {
    let mut headers = Headers::new();
    headers.add(HeaderName::ContentLength, "0");
    headers.set(HeaderName::ContentLength, "150");
    assert_eq!(headers.get(&HeaderName::ContentLength).unwrap().as_str(), "150");
    assert_eq!(headers.len(), 1);
}

#[test]
fn test_headers_remove() {
    let mut headers = Headers::new();
    headers.add(HeaderName::Via, "SIP/2.0/UDP 10.0.0.1:5060");
    headers.add(HeaderName::From, "<sip:alice@atlanta.com>");
    headers.remove(&HeaderName::Via);
    assert!(headers.get(&HeaderName::Via).is_none());
    assert_eq!(headers.len(), 1);
}

#[test]
fn test_extract_tag() {
    assert_eq!(
        extract_tag("<sip:alice@atlanta.com>;tag=1928301774"),
        Some("1928301774".to_string())
    );
    assert_eq!(extract_tag("<sip:bob@biloxi.com>"), None);
    assert_eq!(
        extract_tag("\"Alice\" <sip:alice@atlanta.com>;tag=abc123"),
        Some("abc123".to_string())
    );
}

#[test]
fn test_extract_uri() {
    assert_eq!(
        extract_uri("<sip:alice@atlanta.com>;tag=1928301774"),
        Some("sip:alice@atlanta.com".to_string())
    );
    assert_eq!(
        extract_uri("\"Alice\" <sip:alice@atlanta.com>"),
        Some("sip:alice@atlanta.com".to_string())
    );
    assert_eq!(
        extract_uri("sip:bob@biloxi.com"),
        Some("sip:bob@biloxi.com".to_string())
    );
}

#[test]
fn test_generate_tag() {
    let tag = generate_tag();
    assert!(!tag.is_empty());
    // Should be different each time
    let tag2 = generate_tag();
    assert_ne!(tag, tag2);
}

#[test]
fn test_generate_branch() {
    let branch = generate_branch();
    assert!(branch.starts_with("z9hG4bK"));
}

#[test]
fn test_header_display() {
    let header = Header::new(HeaderName::From, "<sip:alice@atlanta.com>;tag=123");
    assert_eq!(
        header.to_string(),
        "From: <sip:alice@atlanta.com>;tag=123"
    );
}
