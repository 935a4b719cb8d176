use sipr::sip::sdp::{
    parse_rtpmap, MediaDescription, MediaType, RtpMap, SdpSession, TransportProtocol,
};

const SAMPLE_SDP: &str = "v=0\r\n\
    o=- 123456 654321 IN IP4 192.168.1.100\r\n\
    s=sip-rs\r\n\
    c=IN IP4 192.168.1.100\r\n\
    t=0 0\r\n\
    m=audio 49170 RTP/AVP 0 8 101 111\r\n\
    a=rtpmap:0 PCMU/8000\r\n\
    a=rtpmap:8 PCMA/8000\r\n\
    a=rtpmap:101 telephone-event/8000\r\n\
    a=fmtp:101 0-15\r\n\
    a=rtpmap:111 opus/48000/2\r\n\
    a=sendrecv\r\n";

#[test]
fn test_parse_sdp() {
    let sdp = SdpSession::parse(SAMPLE_SDP).unwrap();
    assert_eq!(sdp.version, 0);
    assert_eq!(sdp.origin_username, "-");
    assert_eq!(sdp.session_id, "123456");
    assert_eq!(sdp.connection_address, Some("192.168.1.100".to_string()));
    assert_eq!(sdp.media_descriptions.len(), 1);

    let audio = &sdp.media_descriptions[0];
    assert_eq!(audio.media_type, MediaType::Audio);
    assert_eq!(audio.port, 49170);
    assert_eq!(audio.protocol, TransportProtocol::RtpAvp);
    assert_eq!(audio.formats, vec![0, 8, 101, 111]);
    assert_eq!(audio.rtpmaps.len(), 4);

    assert_eq!(audio.rtpmaps[0].encoding_name, "PCMU");
    assert_eq!(audio.rtpmaps[0].clock_rate, 8000);
    assert_eq!(audio.rtpmaps[1].encoding_name, "PCMA");
    assert_eq!(audio.rtpmaps[2].encoding_name, "telephone-event");
    assert_eq!(audio.rtpmaps[2].clock_rate, 8000);
    assert_eq!(audio.rtpmaps[3].encoding_name, "opus");
    assert_eq!(audio.rtpmaps[3].clock_rate, 48000);
    assert_eq!(audio.rtpmaps[3].channels, Some(2));
}

#[test]
fn test_sdp_get_audio_port() {
    let sdp = SdpSession::parse(SAMPLE_SDP).unwrap();
    assert_eq!(sdp.get_audio_port(), Some(49170));
}

#[test]
fn test_sdp_get_connection_address() {
    let sdp = SdpSession::parse(SAMPLE_SDP).unwrap();
    assert_eq!(sdp.get_connection_address(), Some("192.168.1.100"));
}

#[test]
fn test_create_sdp() {
    let mut sdp = SdpSession::new("10.0.0.1");
    sdp.add_audio_media(5004);

    let output = sdp.to_string();
    assert!(output.contains("v=0"));
    assert!(output.contains("c=IN IP4 10.0.0.1"));
    assert!(output.contains("m=audio 5004 RTP/AVP 0 8 101 111"));
    assert!(output.contains("a=rtpmap:0 PCMU/8000"));
    assert!(output.contains("a=rtpmap:8 PCMA/8000"));
    assert!(output.contains("a=rtpmap:101 telephone-event/8000"));
    assert!(output.contains("a=fmtp:101 0-15"));
    assert!(output.contains("a=rtpmap:111 opus/48000/2"));
    assert!(output.contains("a=sendrecv"));
}

#[test]
fn test_sdp_roundtrip() {
    let mut sdp = SdpSession::new("192.168.1.50");
    sdp.add_audio_media(8000);

    let serialized = sdp.to_string();
    let parsed = SdpSession::parse(&serialized).unwrap();

    assert_eq!(parsed.version, 0);
    assert_eq!(parsed.connection_address, Some("192.168.1.50".to_string()));
    assert_eq!(parsed.get_audio_port(), Some(8000));
    assert_eq!(parsed.media_descriptions[0].rtpmaps.len(), 4);
    assert_eq!(parsed.get_audio_dtmf_payload_type(), Some(101));
}

#[test]
fn test_parse_rtpmap() {
    let rtpmap = parse_rtpmap("111 opus/48000/2").unwrap();
    assert_eq!(rtpmap.payload_type, 111);
    assert_eq!(rtpmap.encoding_name, "opus");
    assert_eq!(rtpmap.clock_rate, 48000);
    assert_eq!(rtpmap.channels, Some(2));

    let rtpmap = parse_rtpmap("0 PCMU/8000").unwrap();
    assert_eq!(rtpmap.payload_type, 0);
    assert_eq!(rtpmap.encoding_name, "PCMU");
    assert_eq!(rtpmap.clock_rate, 8000);
    assert_eq!(rtpmap.channels, None);
}

#[test]
fn test_media_description_add_codec() {
    let mut media = MediaDescription::new_audio(5000);
    media.add_codec(96, "telephone-event", 8000, None);
    assert_eq!(media.formats, vec![96]);
    assert_eq!(media.rtpmaps[0].encoding_name, "telephone-event");
}

#[test]
fn test_sdp_no_media() {
    let sdp_str = "v=0\r\no=- 1 1 IN IP4 127.0.0.1\r\ns=test\r\nc=IN IP4 127.0.0.1\r\nt=0 0\r\n";
    let sdp = SdpSession::parse(sdp_str).unwrap();
    assert!(sdp.media_descriptions.is_empty());
    assert_eq!(sdp.get_audio_port(), None);
}

#[test]
fn test_rtpmap_display() {
    let rtpmap = RtpMap {
        payload_type: 111,
        encoding_name: "opus".to_string(),
        clock_rate: 48000,
        channels: Some(2),
    };
    assert_eq!(rtpmap.to_string(), "111 opus/48000/2");

    let rtpmap = RtpMap {
        payload_type: 0,
        encoding_name: "PCMU".to_string(),
        clock_rate: 8000,
        channels: None,
    };
    assert_eq!(rtpmap.to_string(), "0 PCMU/8000");
}

#[test]
fn test_add_audio_media_directed_sendonly() {
    let mut sdp = SdpSession::new("192.168.1.1");
    sdp.add_audio_media_directed(4000, "sendonly");
    let direction = sdp.get_audio_direction();
    assert_eq!(direction, Some("sendonly"));
    let s = sdp.to_string();
    assert!(s.contains("a=sendonly"));
    assert!(!s.contains("a=sendrecv"));
}

#[test]
fn test_add_audio_media_directed_recvonly() {
    let mut sdp = SdpSession::new("10.0.0.1");
    sdp.add_audio_media_directed(5000, "recvonly");
    assert_eq!(sdp.get_audio_direction(), Some("recvonly"));
}

#[test]
fn test_add_audio_media_directed_inactive() {
    let mut sdp = SdpSession::new("10.0.0.1");
    sdp.add_audio_media_directed(5000, "inactive");
    assert_eq!(sdp.get_audio_direction(), Some("inactive"));
}

#[test]
fn test_add_audio_media_directed_sendrecv() {
    let mut sdp = SdpSession::new("10.0.0.1");
    sdp.add_audio_media_directed(5000, "sendrecv");
    assert_eq!(sdp.get_audio_direction(), Some("sendrecv"));
}

#[test]
fn test_get_audio_direction_default_is_none() {
    // Standard add_audio_media uses sendrecv
    let mut sdp = SdpSession::new("10.0.0.1");
    sdp.add_audio_media(5000);
    // sendrecv is added by add_audio_media
    assert_eq!(sdp.get_audio_direction(), Some("sendrecv"));
}

#[test]
fn test_parse_sdp_with_direction() {
    let sdp_text = "v=0\r\n\
o=- 0 0 IN IP4 10.0.0.1\r\n\
s=-\r\n\
c=IN IP4 10.0.0.1\r\n\
t=0 0\r\n\
m=audio 4000 RTP/AVP 0\r\n\
a=rtpmap:0 PCMU/8000\r\n\
a=sendonly\r\n";
    let sdp = SdpSession::parse(sdp_text).unwrap();
    assert_eq!(sdp.get_audio_direction(), Some("sendonly"));
    assert_eq!(sdp.get_audio_port(), Some(4000));
}
