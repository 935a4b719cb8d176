use sipr::sip::transport::parse_sip_uri;

#[test]
fn test_parse_sip_uri() {
    assert_eq!(
        parse_sip_uri("sip:bob@192.168.1.100:5060"),
        Some(("192.168.1.100".to_string(), 5060))
    );
    assert_eq!(
        parse_sip_uri("sip:bob@biloxi.com"),
        Some(("biloxi.com".to_string(), 5060))
    );
    assert_eq!(
        parse_sip_uri("sip:alice@10.0.0.1:5080"),
        Some(("10.0.0.1".to_string(), 5080))
    );
    assert_eq!(
        parse_sip_uri("sip:registrar.example.com"),
        Some(("registrar.example.com".to_string(), 5060))
    );
}

#[test]
fn test_parse_sip_uri_with_params() {
    assert_eq!(
        parse_sip_uri("sip:bob@192.168.1.100:5060;transport=udp"),
        Some(("192.168.1.100".to_string(), 5060))
    );
}

#[test]
fn test_parse_sip_uri_invalid() {
    assert_eq!(parse_sip_uri("http://example.com"), None);
    assert_eq!(parse_sip_uri("not-a-uri"), None);
}
