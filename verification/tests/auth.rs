use sipr::sip::auth::{
    compute_digest, parse_challenge, split_params, Credentials, DigestAlgorithm, DigestChallenge,
    DigestResponse,
};
use sipr::sip::md5::md5_hex;

#[test]
fn test_md5_known_values() {
    // RFC 1321 test vectors
    assert_eq!(md5_hex(""), "d41d8cd98f00b204e9800998ecf8427e");
    assert_eq!(md5_hex("a"), "0cc175b9c0f1b6a831c399e269772661");
    assert_eq!(md5_hex("abc"), "900150983cd24fb0d6963f7d28e17f72");
    assert_eq!(md5_hex("message digest"), "f96b697d7cb7938d525a2f31aaf161d0");
}

#[test]
fn test_parse_challenge_basic() {
    let header = r#"Digest realm="asterisk", nonce="abc123def""#;
    let challenge = parse_challenge(header).unwrap();
    assert_eq!(challenge.realm, "asterisk");
    assert_eq!(challenge.nonce, "abc123def");
    assert_eq!(challenge.algorithm, DigestAlgorithm::Md5);
    assert!(challenge.opaque.is_none());
    assert!(challenge.qop.is_none());
}

#[test]
fn test_parse_challenge_full() {
    let header = r#"Digest realm="biloxi.com", nonce="dcd98b7102dd2f0e8b11d0f600bfb0c093", opaque="5ccc069c403ebaf9f0171e9517f40e41", qop="auth", algorithm=MD5"#;
    let challenge = parse_challenge(header).unwrap();
    assert_eq!(challenge.realm, "biloxi.com");
    assert_eq!(challenge.nonce, "dcd98b7102dd2f0e8b11d0f600bfb0c093");
    assert_eq!(challenge.opaque.as_deref(), Some("5ccc069c403ebaf9f0171e9517f40e41"));
    assert_eq!(challenge.qop.as_deref(), Some("auth"));
    assert_eq!(challenge.algorithm, DigestAlgorithm::Md5);
}

#[test]
fn test_compute_digest_rfc2617_example() {
    // Based on RFC 2617 Section 3.5 example
    let challenge = DigestChallenge {
        realm: "testrealm@host.com".to_string(),
        nonce: "dcd98b7102dd2f0e8b11d0f600bfb0c093".to_string(),
        opaque: Some("5ccc069c403ebaf9f0171e9517f40e41".to_string()),
        algorithm: DigestAlgorithm::Md5,
        qop: Some("auth".to_string()),
        stale: false,
    };
    let creds = Credentials {
        username: "Mufasa".to_string(),
        password: "Circle Of Life".to_string(),
    };
    let resp = compute_digest(&challenge, &creds, "GET", "/dir/index.html");
    assert_eq!(resp.realm, "testrealm@host.com");
    assert_eq!(resp.username, "Mufasa");
    // Can't check exact response since cnonce is random, but verify it's 32 hex chars
    assert_eq!(resp.response.len(), 32);
    assert!(resp.response.chars().all(|c| c.is_ascii_hexdigit()));
    assert_eq!(resp.qop.as_deref(), Some("auth"));
}

#[test]
fn test_compute_digest_no_qop() {
    let challenge = DigestChallenge {
        realm: "asterisk".to_string(),
        nonce: "1234567890".to_string(),
        opaque: None,
        algorithm: DigestAlgorithm::Md5,
        qop: None,
        stale: false,
    };
    let creds = Credentials {
        username: "alice".to_string(),
        password: "secret".to_string(),
    };
    let resp = compute_digest(&challenge, &creds, "REGISTER", "sip:asterisk");

    // Manually compute expected:
    // HA1 = MD5("alice:asterisk:secret")
    // HA2 = MD5("REGISTER:sip:asterisk")
    // response = MD5(HA1:1234567890:HA2)
    let ha1 = md5_hex("alice:asterisk:secret");
    let ha2 = md5_hex("REGISTER:sip:asterisk");
    let expected = md5_hex(&format!("{}:1234567890:{}", ha1, ha2));
    assert_eq!(resp.response, expected);
    assert!(resp.qop.is_none());
}

#[test]
fn test_digest_response_display() {
    let resp = DigestResponse {
        username: "alice".to_string(),
        realm: "asterisk".to_string(),
        nonce: "abc123".to_string(),
        uri: "sip:asterisk".to_string(),
        response: "deadbeef01234567890abcdef0123456".to_string(),
        algorithm: DigestAlgorithm::Md5,
        opaque: Some("xyz".to_string()),
        qop: None,
        nc: None,
        cnonce: None,
    };
    let s = resp.to_string();
    assert!(s.starts_with("Digest "));
    assert!(s.contains("username=\"alice\""));
    assert!(s.contains("opaque=\"xyz\""));
    assert!(!s.contains("qop="));
}

#[test]
fn test_parse_challenge_stale() {
    let header = r#"Digest realm="test", nonce="new_nonce", stale=true"#;
    let challenge = parse_challenge(header).unwrap();
    assert!(challenge.stale);
}

#[test]
fn test_split_params_with_quotes() {
    let input = r#"realm="a,b", nonce="c""#;
    let params = split_params(input);
    assert_eq!(params.len(), 2);
    assert!(params[0].contains("a,b"));
}
