use sipr::rtp::packet::{RtpError, RtpPacket};

#[test]
fn test_new_packet() {
    let pkt = RtpPacket::new(0, 1, 160, 0x12345678);
    assert_eq!(pkt.version, 2);
    assert_eq!(pkt.payload_type, 0);
    assert_eq!(pkt.sequence_number, 1);
    assert_eq!(pkt.timestamp, 160);
    assert_eq!(pkt.ssrc, 0x12345678);
    assert!(!pkt.marker);
    assert!(pkt.payload.is_empty());
}

#[test]
fn test_with_payload() {
    let pkt = RtpPacket::new(0, 1, 160, 0x12345678).with_payload(vec![1, 2, 3, 4]);
    assert_eq!(pkt.payload, vec![1, 2, 3, 4]);
}

#[test]
fn test_with_marker() {
    let pkt = RtpPacket::new(0, 1, 160, 0x12345678).with_marker(true);
    assert!(pkt.marker);
}

#[test]
fn test_serialize_parse_roundtrip() {
    let original = RtpPacket::new(0, 42, 3360, 0xDEADBEEF)
        .with_payload(vec![0x80, 0xFF, 0x00, 0x7F, 0x01, 0x02])
        .with_marker(true);

    let bytes = original.serialize();
    let parsed = RtpPacket::parse(&bytes).unwrap();

    assert_eq!(parsed.version, 2);
    assert_eq!(parsed.payload_type, 0);
    assert_eq!(parsed.sequence_number, 42);
    assert_eq!(parsed.timestamp, 3360);
    assert_eq!(parsed.ssrc, 0xDEADBEEF);
    assert!(parsed.marker);
    assert_eq!(parsed.payload, vec![0x80, 0xFF, 0x00, 0x7F, 0x01, 0x02]);
}

#[test]
fn test_parse_pcmu_packet() {
    // Construct a minimal PCMU RTP packet manually
    let mut data = vec![
        0x80, // V=2, P=0, X=0, CC=0
        0x00, // M=0, PT=0 (PCMU)
        0x00, 0x01, // seq=1
        0x00, 0x00, 0x00, 0xA0, // timestamp=160
        0x00, 0x00, 0x00, 0x01, // ssrc=1
    ];
    // Add 160 bytes of payload (one PCMU frame at 8kHz, 20ms)
    data.extend_from_slice(&vec![0x7F; 160]);

    let pkt = RtpPacket::parse(&data).unwrap();
    assert_eq!(pkt.version, 2);
    assert_eq!(pkt.payload_type, 0);
    assert_eq!(pkt.sequence_number, 1);
    assert_eq!(pkt.timestamp, 160);
    assert_eq!(pkt.ssrc, 1);
    assert_eq!(pkt.payload.len(), 160);
}

#[test]
fn test_parse_too_short() {
    let data = vec![0x80, 0x00, 0x00];
    let result = RtpPacket::parse(&data);
    assert!(matches!(result, Err(RtpError::TooShort(3))));
}

#[test]
fn test_parse_invalid_version() {
    let data = vec![
        0x00, // V=0
        0x00, 0x00, 0x01, 0x00, 0x00, 0x00, 0xA0, 0x00, 0x00, 0x00, 0x01,
    ];
    let result = RtpPacket::parse(&data);
    assert!(matches!(result, Err(RtpError::InvalidVersion(0))));
}

#[test]
fn test_serialize_header_only() {
    let pkt = RtpPacket::new(8, 100, 16000, 0xAAAABBBB);
    let bytes = pkt.serialize();
    assert_eq!(bytes.len(), RtpPacket::MIN_HEADER_SIZE);

    // Check version bits
    assert_eq!(bytes[0] & 0xC0, 0x80); // V=2

    // Check PT
    assert_eq!(bytes[1] & 0x7F, 8); // PT=8 (PCMA)

    // Check seq
    assert_eq!(u16::from_be_bytes([bytes[2], bytes[3]]), 100);
}

#[test]
fn test_multiple_roundtrips() {
    for pt in [0u8, 8, 111] {
        for seq in [0u16, 1, 65535] {
            let pkt = RtpPacket::new(pt, seq, seq as u32 * 160, 0x11223344)
                .with_payload(vec![0xAA; 20]);
            let bytes = pkt.serialize();
            let parsed = RtpPacket::parse(&bytes).unwrap();
            assert_eq!(parsed.payload_type, pt);
            assert_eq!(parsed.sequence_number, seq);
            assert_eq!(parsed.payload.len(), 20);
        }
    }
}

#[test]
fn test_packet_size() {
    let pkt = RtpPacket::new(0, 1, 160, 1).with_payload(vec![0; 160]);
    assert_eq!(pkt.size(), 12 + 160);

    let pkt_empty = RtpPacket::new(0, 1, 160, 1);
    assert_eq!(pkt_empty.size(), 12);
}

#[test]
fn test_csrc_roundtrip() {
    let mut pkt = RtpPacket::new(0, 1, 160, 0x12345678);
    pkt.csrc = vec![0xAAAA0001, 0xBBBB0002];
    pkt.csrc_count = 2;
    pkt.payload = vec![0xFF; 10];

    let bytes = pkt.serialize();
    let parsed = RtpPacket::parse(&bytes).unwrap();
    assert_eq!(parsed.csrc_count, 2);
    assert_eq!(parsed.csrc, vec![0xAAAA0001, 0xBBBB0002]);
    assert_eq!(parsed.payload.len(), 10);
}

#[test]
fn test_marker_bit_serialization() {
    let pkt = RtpPacket::new(111, 1, 960, 1).with_marker(true);
    let bytes = pkt.serialize();
    assert_eq!(bytes[1] & 0x80, 0x80); // Marker bit set

    let pkt2 = RtpPacket::new(111, 1, 960, 1).with_marker(false);
    let bytes2 = pkt2.serialize();
    assert_eq!(bytes2[1] & 0x80, 0x00); // Marker bit clear
}
