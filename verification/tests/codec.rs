use sipr::rtp::codec::{linear_to_ulaw, ulaw_to_linear, CodecPipeline, CodecType};

#[test]
fn test_codec_type_properties() {
    assert_eq!(CodecType::Pcmu.payload_type(), 0);
    assert_eq!(CodecType::Pcma.payload_type(), 8);
    assert_eq!(CodecType::Opus.payload_type(), 111);

    assert_eq!(CodecType::Pcmu.clock_rate(), 8000);
    assert_eq!(CodecType::Opus.clock_rate(), 48000);

    assert_eq!(CodecType::Pcmu.name(), "PCMU");
    assert_eq!(CodecType::Pcma.name(), "PCMA");
    assert_eq!(CodecType::Opus.name(), "opus");
}

#[test]
fn test_codec_from_payload_type() {
    assert_eq!(CodecType::from_payload_type(0), Some(CodecType::Pcmu));
    assert_eq!(CodecType::from_payload_type(8), Some(CodecType::Pcma));
    assert_eq!(CodecType::from_payload_type(111), Some(CodecType::Opus));
    assert_eq!(CodecType::from_payload_type(99), None);
}

#[test]
fn test_samples_per_frame() {
    assert_eq!(CodecType::Pcmu.samples_per_frame(), 160);
    assert_eq!(CodecType::Pcma.samples_per_frame(), 160);
    assert_eq!(CodecType::Opus.samples_per_frame(), 960);
}

#[test]
fn test_pcmu_encode_decode_roundtrip() {
    let mut codec = CodecPipeline::new(CodecType::Pcmu);

    // Test with various sample values
    let samples: Vec<i16> = vec![0, 100, -100, 1000, -1000, 8000, -8000, 32000, -32000];
    let encoded = codec.encode(&samples).unwrap();
    let decoded = codec.decode(&encoded).unwrap();

    assert_eq!(samples.len(), decoded.len());
    // G.711 is lossy, so values won't be exact but should be close
    for (original, decoded) in samples.iter().zip(decoded.iter()) {
        let diff = (*original as i32 - *decoded as i32).abs();
        // Allow some quantization error
        assert!(
            diff < 500,
            "Too much error: original={}, decoded={}, diff={}",
            original,
            decoded,
            diff
        );
    }
}

#[test]
fn test_pcma_encode_decode_roundtrip() {
    let mut codec = CodecPipeline::new(CodecType::Pcma);

    let samples: Vec<i16> = vec![0, 100, -100, 1000, -1000, 8000, -8000, 32000, -32000];
    let encoded = codec.encode(&samples).unwrap();
    let decoded = codec.decode(&encoded).unwrap();

    assert_eq!(samples.len(), decoded.len());
    for (original, decoded) in samples.iter().zip(decoded.iter()) {
        let diff = (*original as i32 - *decoded as i32).abs();
        assert!(
            diff < 500,
            "Too much error: original={}, decoded={}, diff={}",
            original,
            decoded,
            diff
        );
    }
}

#[test]
fn test_opus_roundtrip() {
    let mut codec = CodecPipeline::new(CodecType::Opus);
    // Generate a simple tone for testing
    let samples: Vec<i16> = (0..960)
        .map(|i| ((i as f64 / 960.0 * std::f64::consts::TAU).sin() * 16000.0) as i16)
        .collect();
    let encoded = codec.encode(&samples).unwrap();
    let decoded = codec.decode(&encoded).unwrap();
    // Opus is lossy but output should have correct number of samples
    assert_eq!(decoded.len(), 960);
    // Verify the decoded audio isn't silence (some energy preserved)
    let max_sample = decoded.iter().map(|s| s.abs()).max().unwrap_or(0);
    assert!(max_sample > 1000, "Expected audio energy, max sample was {}", max_sample);
}

#[test]
fn test_opus_stub_decode_odd_length() {
    let mut codec = CodecPipeline::new(CodecType::Opus);
    let result = codec.decode(&[0, 1, 2]); // Odd number of bytes
    assert!(result.is_err());
}

#[test]
fn test_pcmu_silence() {
    let codec = CodecPipeline::new(CodecType::Pcmu);
    let silence = codec.silence_frame();
    assert_eq!(silence.len(), 160);
    assert!(silence.iter().all(|&b| b == 0xFF));
}

#[test]
fn test_pcma_silence() {
    let codec = CodecPipeline::new(CodecType::Pcma);
    let silence = codec.silence_frame();
    assert_eq!(silence.len(), 160);
    assert!(silence.iter().all(|&b| b == 0xD5));
}

#[test]
fn test_pcmu_encode_silence() {
    let mut codec = CodecPipeline::new(CodecType::Pcmu);
    let silence_pcm = vec![0i16; 160];
    let encoded = codec.encode(&silence_pcm).unwrap();
    assert_eq!(encoded.len(), 160);
}

#[test]
fn test_ulaw_known_values() {
    // Silence (0) should encode to 0xFF
    assert_eq!(linear_to_ulaw(0), 0xFF);
    // Decode 0xFF should be close to 0
    let decoded = ulaw_to_linear(0xFF);
    assert!(decoded.abs() < 10, "Expected near-zero, got {}", decoded);
}

#[test]
fn test_codec_pipeline_type() {
    let pipeline = CodecPipeline::new(CodecType::Pcmu);
    assert_eq!(pipeline.codec_type(), CodecType::Pcmu);

    let pipeline = CodecPipeline::new(CodecType::Pcma);
    assert_eq!(pipeline.codec_type(), CodecType::Pcma);
}

#[test]
fn test_pcmu_full_frame() {
    let mut codec = CodecPipeline::new(CodecType::Pcmu);
    // Generate a sine-like wave
    let samples: Vec<i16> = (0..160)
        .map(|i| ((i as f64 / 160.0 * std::f64::consts::TAU).sin() * 16000.0) as i16)
        .collect();

    let encoded = codec.encode(&samples).unwrap();
    assert_eq!(encoded.len(), 160); // 1 byte per sample for G.711

    let decoded = codec.decode(&encoded).unwrap();
    assert_eq!(decoded.len(), 160);
}
