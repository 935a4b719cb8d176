use sipr::rtp::wav::{decode_wav, encode_wav, max_sample_error, AudioRecorder, WavHeader};

fn generate_sine_tone(frequency: f64, sample_rate: u32, duration_ms: u32, amplitude: i16) -> Vec<i16> {
    let num_samples = (sample_rate as u64 * duration_ms as u64 / 1000) as usize;
    (0..num_samples)
        .map(|i| {
            let t = i as f64 / sample_rate as f64;
            (f64::sin(2.0 * std::f64::consts::PI * frequency * t) * amplitude as f64) as i16
        })
        .collect()
}

#[test]
fn test_wav_roundtrip() {
    let samples: Vec<i16> = (0..8000)
        .map(|i| ((i as f64 / 8000.0 * std::f64::consts::TAU * 440.0).sin() * 16000.0) as i16)
        .collect();

    let header = WavHeader::telephony();
    let encoded = encode_wav(&samples, &header);
    let (decoded_header, decoded_samples) = decode_wav(&encoded).unwrap();

    assert_eq!(decoded_header.sample_rate, 8000);
    assert_eq!(decoded_header.channels, 1);
    assert_eq!(decoded_header.bits_per_sample, 16);
    assert_eq!(decoded_samples, samples);
}

#[test]
fn test_wav_invalid() {
    assert!(decode_wav(b"NOT A WAV").is_err());
    assert!(decode_wav(&[0; 10]).is_err());
}

#[test]
fn test_audio_recorder() {
    let mut recorder = AudioRecorder::new(8000);
    assert!(recorder.is_empty());
    assert_eq!(recorder.duration_ms(), 0);

    let frame = vec![1000i16; 160];
    recorder.record_frame(&frame);
    assert_eq!(recorder.len(), 160);
    assert_eq!(recorder.duration_ms(), 20); // 160 / 8000 * 1000 = 20ms
    assert_eq!(recorder.frame_count(), 1);

    recorder.record_frame(&frame);
    assert_eq!(recorder.len(), 320);
    assert_eq!(recorder.frame_count(), 2);
    assert_eq!(recorder.duration_ms(), 40);
}

#[test]
fn test_recorder_to_wav() {
    let mut recorder = AudioRecorder::new(8000);
    let tone = generate_sine_tone(440.0, 8000, 100, 16000);
    for frame in tone.chunks(160) {
        recorder.record_frame(frame);
    }

    let wav = recorder.to_wav();
    let (header, samples) = decode_wav(&wav).unwrap();
    assert_eq!(header.sample_rate, 8000);
    assert_eq!(samples, recorder.samples());
}

#[test]
fn test_max_sample_error() {
    let a = vec![100i16, 200, 300, 400, 500];
    let b = vec![110i16, 190, 310, 350, 510];
    let err = max_sample_error(&a, &b);
    assert_eq!(err, 50); // 400 - 350
}

#[test]
fn test_recorder_clear() {
    let mut recorder = AudioRecorder::new(8000);
    recorder.record_frame(&[100i16; 160]);
    assert!(!recorder.is_empty());
    recorder.clear();
    assert!(recorder.is_empty());
}

#[test]
fn test_wav_header_constructors() {
    let h = WavHeader::telephony();
    assert_eq!(h.sample_rate, 8000);
    assert_eq!(h.channels, 1);

    let h = WavHeader::mono(48000);
    assert_eq!(h.sample_rate, 48000);
    assert_eq!(h.channels, 1);
}
