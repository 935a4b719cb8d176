use std::cell::RefCell;
use std::collections::VecDeque;
use std::rc::Rc;

use sipr::net::Endpoint;
use sipr::rtp::codec::{CodecPipeline, CodecType};
use sipr::rtp::jitter::JitterBuffer;
use sipr::rtp::packet::RtpPacket;
use sipr::rtp::playout::PlayoutBuffer;
use sipr::rtp::session::{
    is_rtcp_type, ReceiveEvent, RtpSession, SessionConfig, SessionStats, DTMF_DURATION,
};
use sipr::rtp::wav::{decode_wav, max_sample_error, AudioRecorder};

#[derive(Debug, Clone, Copy, PartialEq)]
struct Addr(u16);

impl From<Addr> for Endpoint {
    fn from(addr: Addr) -> Self {
        Endpoint::new("127.0.0.1", addr.0)
    }
}

impl Addr {
    fn ip(&self) -> &'static str {
        "127.0.0.1"
    }

    fn port(&self) -> u16 {
        self.0
    }
}

/// A network in memory: what was sent to each port, with the sender's port.
#[derive(Clone)]
struct Net(Rc<RefCell<Vec<VecDeque<(Addr, Vec<u8>)>>>>);

impl Net {
    fn new() -> Self {
        Net(Rc::new(RefCell::new(Vec::new())))
    }

    fn bind(&self) -> Addr {
        let mut ports = self.0.borrow_mut();
        ports.push(VecDeque::new());
        Addr(40000 + ports.len() as u16)
    }

    fn send(&self, from: Addr, to: Addr, data: Vec<u8>) {
        self.0.borrow_mut()[to.0 as usize - 40001].push_back((from, data));
    }

    fn take(&self, at: Addr) -> Option<(Addr, Vec<u8>)> {
        self.0.borrow_mut()[at.0 as usize - 40001].pop_front()
    }
}

/// A session that sends and receives over the network in memory.
struct Peer {
    session: RtpSession,
    net: Net,
    addr: Addr,
    remote: Addr,
}

impl Peer {
    fn new(net: &Net, remote: Addr, codec: CodecType) -> Self {
        let addr = net.bind();
        let config = SessionConfig::new("127.0.0.1:0", Endpoint::from(remote), codec);
        Peer { session: RtpSession::new(config, Endpoint::from(addr)), net: net.clone(), addr, remote }
    }

    fn local_addr(&self) -> Addr {
        self.addr
    }

    fn set_remote_addr(&mut self, remote: Addr) {
        self.remote = remote;
        self.session.set_remote_addr(Endpoint::from(remote));
    }

    fn send_audio(&mut self, samples: &[i16]) -> usize {
        let data = self.session.audio_packet(samples).unwrap();
        let sent = data.len();
        self.net.send(self.addr, self.remote, data);
        self.session.audio_sent();
        sent
    }

    fn recv_packet(&self) -> (RtpPacket, Addr) {
        let (source, data) = self.net.take(self.addr).expect("a datagram");
        (RtpPacket::parse(&data).unwrap(), source)
    }

    fn decode_packet(&mut self, packet: &RtpPacket) -> Vec<i16> {
        self.session.decode_packet(packet).unwrap()
    }

    fn stats(&self) -> SessionStats {
        self.session.stats()
    }

    /// Takes in all that has arrived; gives what comes out of it.
    fn receive_all(&self, dtmf_payload_type: Option<u8>) -> Vec<ReceiveEvent> {
        let mut receiver = self.session.receiver(dtmf_payload_type);
        let mut events = Vec::new();
        while let Some((source, data)) = self.net.take(self.addr) {
            if let Some(event) = receiver.receive(source.ip(), &data) {
                events.push(event);
            }
        }
        events
    }
}

fn generate_sine_tone(frequency: f64, sample_rate: u32, duration_ms: u32, amplitude: i16) -> Vec<i16> {
    let num_samples = (sample_rate as u64 * duration_ms as u64 / 1000) as usize;
    (0..num_samples)
        .map(|i| {
            let t = i as f64 / sample_rate as f64;
            (f64::sin(2.0 * std::f64::consts::PI * frequency * t) * amplitude as f64) as i16
        })
        .collect()
}

fn generate_multi_tone(
    frequencies: &[f64],
    sample_rate: u32,
    duration_ms: u32,
    amplitude: i16,
) -> Vec<i16> {
    let num_samples = (sample_rate as u64 * duration_ms as u64 / 1000) as usize;
    let scale = 1.0 / frequencies.len() as f64;
    (0..num_samples)
        .map(|i| {
            let t = i as f64 / sample_rate as f64;
            let sum: f64 = frequencies
                .iter()
                .map(|&freq| f64::sin(2.0 * std::f64::consts::PI * freq * t))
                .sum();
            (sum * scale * amplitude as f64) as i16
        })
        .collect()
}

fn compute_snr(original: &[i16], received: &[i16]) -> f64 {
    let len = original.len().min(received.len());
    if len == 0 {
        return 0.0;
    }

    let mut signal_power = 0.0f64;
    let mut noise_power = 0.0f64;

    for i in 0..len {
        let s = original[i] as f64;
        let n = (original[i] as f64) - (received[i] as f64);
        signal_power += s * s;
        noise_power += n * n;
    }

    if noise_power < 1.0 {
        return 100.0; // Perfect match
    }

    10.0 * (signal_power / noise_power).log10()
}

fn cross_correlation(a: &[i16], b: &[i16]) -> f64 {
    let len = a.len().min(b.len());
    if len == 0 {
        return 0.0;
    }

    let mut sum_ab = 0.0f64;
    let mut sum_aa = 0.0f64;
    let mut sum_bb = 0.0f64;

    for i in 0..len {
        let va = a[i] as f64;
        let vb = b[i] as f64;
        sum_ab += va * vb;
        sum_aa += va * va;
        sum_bb += vb * vb;
    }

    let denom = (sum_aa * sum_bb).sqrt();
    if denom < 1.0 {
        return 0.0;
    }

    sum_ab / denom
}

fn rms_error(original: &[i16], received: &[i16]) -> f64 {
    let len = original.len().min(received.len());
    if len == 0 {
        return 0.0;
    }
    let sum: f64 = (0..len)
        .map(|i| {
            let diff = original[i] as f64 - received[i] as f64;
            diff * diff
        })
        .sum();
    (sum / len as f64).sqrt()
}

/// Build an RTP packet that carries `samples` encoded with `codec`.
fn encode_packet(
    codec: &mut CodecPipeline,
    codec_type: CodecType,
    seq: u16,
    samples: &[i16],
    ssrc: u32,
) -> RtpPacket {
    let encoded = codec.encode(samples).expect("encode failed");
    let ts = seq as u32 * codec_type.samples_per_frame() as u32;
    RtpPacket::new(codec_type.payload_type(), seq, ts, ssrc).with_payload(encoded)
}

/// Verifies that the RTP timestamp advances by exactly `samples_per_frame`
/// for each codec, matching the codec's own clock rate.
///
/// A mismatch here is the most common cause of pitch / speed artifacts:
/// if the sender increments the timestamp by the wrong amount, the receiver
/// reconstructs audio at a different speed.
#[test]
fn test_clock_rate_timestamp_consistency_pcmu() {
    let codec = CodecType::Pcmu;
    let expected_clock_rate: u32 = 8000;
    let expected_spf: usize = 160; // 8000 * 0.020

    assert_eq!(
        codec.clock_rate(),
        expected_clock_rate,
        "PCMU clock rate must be 8000 Hz"
    );
    assert_eq!(
        codec.samples_per_frame(),
        expected_spf,
        "PCMU samples_per_frame must be 160 (20 ms at 8 kHz)"
    );

    // Simulate RTP timestamp sequence
    let mut ts: u32 = 0;
    for pkt in 0..10u32 {
        let expected_ts = pkt * expected_spf as u32;
        assert_eq!(ts, expected_ts, "packet {pkt}: timestamp mismatch");
        ts = ts.wrapping_add(codec.samples_per_frame() as u32);
    }
}

#[test]
fn test_clock_rate_timestamp_consistency_pcma() {
    let codec = CodecType::Pcma;
    assert_eq!(codec.clock_rate(), 8000);
    assert_eq!(codec.samples_per_frame(), 160);

    let mut ts: u32 = 0;
    for pkt in 0..10u32 {
        assert_eq!(ts, pkt * 160, "packet {pkt}: timestamp mismatch");
        ts = ts.wrapping_add(codec.samples_per_frame() as u32);
    }
}

#[test]
fn test_clock_rate_timestamp_consistency_opus() {
    let codec = CodecType::Opus;
    let expected_clock_rate: u32 = 48000;
    let expected_spf: usize = 960; // 48000 * 0.020

    assert_eq!(
        codec.clock_rate(),
        expected_clock_rate,
        "Opus clock rate must be 48000 Hz"
    );
    assert_eq!(
        codec.samples_per_frame(),
        expected_spf,
        "Opus samples_per_frame must be 960 (20 ms at 48 kHz)"
    );

    let mut ts: u32 = 0;
    for pkt in 0..10u32 {
        let expected_ts = pkt * expected_spf as u32;
        assert_eq!(ts, expected_ts, "packet {pkt}: timestamp mismatch");
        ts = ts.wrapping_add(codec.samples_per_frame() as u32);
    }
}

/// Cross-codec sanity: applying the wrong clock rate to a codec is a common
/// misconfiguration that causes artifacts. This test makes the mismatch
/// explicit so it is easy to spot in test output.
#[test]
fn test_clock_rate_cross_codec_mismatch_is_detectable() {
    // If a PCMU stream (8 kHz) accidentally uses Opus timestamps (48 kHz),
    // the timestamp would advance 960 instead of 160 per frame — a 6× error.
    let pcmu_spf = CodecType::Pcmu.samples_per_frame() as u32; // 160
    let opus_spf = CodecType::Opus.samples_per_frame() as u32; // 960
    let ratio = opus_spf / pcmu_spf;
    assert_eq!(ratio, 6, "mismatch ratio between Opus and PCMU clock rates");

    // Demonstrate: 10 PCMU frames at correct spacing vs wrong (Opus) spacing
    let correct_end_ts = 10 * pcmu_spf; // 1600 (200 ms of audio)
    let wrong_end_ts = 10 * opus_spf; // 9600 (would be interpreted as 1.2 s)
    assert_ne!(
        correct_end_ts, wrong_end_ts,
        "correct vs wrong clock rate produces different end timestamps"
    );
    // A receiver replaying at 8 kHz would think 9600 ts ticks = 1.2 s, not 0.2 s
    let wrong_duration_ms = wrong_end_ts * 1000 / CodecType::Pcmu.clock_rate();
    assert_eq!(
        wrong_duration_ms, 1200,
        "wrong clock rate makes 200 ms of audio appear as 1200 ms"
    );
}

/// G.711 mu-law (PCMU) roundtrip SNR.
/// PCMU is designed for telephony at 8 kHz; expected SNR > 30 dB for a
/// mid-level sine wave. Below ~20 dB the audio sounds noticeably degraded.
#[test]
fn test_codec_snr_pcmu() {
    let mut codec = CodecPipeline::new(CodecType::Pcmu);
    // 1 second of a 400 Hz sine wave at 8 kHz (telephony range)
    let original = generate_sine_tone(400.0, 8000, 1000, 16000);
    let encoded = codec.encode(&original).expect("encode");
    let decoded = codec.decode(&encoded).expect("decode");

    let snr = compute_snr(&original, &decoded);
    let corr = cross_correlation(&original, &decoded);
    let rms = rms_error(&original, &decoded);

    println!(
        "[PCMU] SNR={:.1} dB  corr={:.4}  rms_err={:.1}",
        snr, corr, rms
    );

    assert!(
        snr > 30.0,
        "PCMU SNR {snr:.1} dB is too low (< 30 dB) — codec is causing significant distortion"
    );
    assert!(
        corr > 0.99,
        "PCMU cross-correlation {corr:.4} is too low — signal shape is degraded"
    );
}

/// G.711 A-law (PCMA) roundtrip SNR — similar expectations to PCMU.
#[test]
fn test_codec_snr_pcma() {
    let mut codec = CodecPipeline::new(CodecType::Pcma);
    let original = generate_sine_tone(400.0, 8000, 1000, 16000);
    let encoded = codec.encode(&original).expect("encode");
    let decoded = codec.decode(&encoded).expect("decode");

    let snr = compute_snr(&original, &decoded);
    let corr = cross_correlation(&original, &decoded);

    println!("[PCMA] SNR={:.1} dB  corr={:.4}", snr, corr);

    assert!(
        snr > 30.0,
        "PCMA SNR {snr:.1} dB is too low (< 30 dB)"
    );
    assert!(
        corr > 0.99,
        "PCMA cross-correlation {corr:.4} is too low"
    );
}

/// Multi-tone fidelity for PCMU — simulates a voice signal that contains
/// multiple formant frequencies. Checks that none of the frequencies are
/// being clipped or suppressed.
#[test]
fn test_codec_multitone_fidelity_pcmu() {
    let mut codec = CodecPipeline::new(CodecType::Pcmu);
    // Typical voiced speech formants (F1~700 Hz, F2~1200 Hz, F3~2500 Hz)
    let freqs = [700.0, 1200.0, 2500.0];
    let original = generate_multi_tone(&freqs, 8000, 500, 12000);
    let encoded = codec.encode(&original).expect("encode");
    let decoded = codec.decode(&encoded).expect("decode");

    let snr = compute_snr(&original, &decoded);
    let rms = rms_error(&original, &decoded);
    let max_err = max_sample_error(&original, &decoded);

    println!(
        "[PCMU multi-tone] SNR={:.1} dB  rms_err={:.1}  max_err={}",
        snr, rms, max_err
    );

    assert!(
        snr > 25.0,
        "PCMU multi-tone SNR {snr:.1} dB is too low (< 25 dB)"
    );
}

/// Sends 20 frames out of order, verifies the jitter buffer outputs them in
/// the correct sequence and that the decoded audio matches the original.
/// A broken jitter buffer (or wrong sequence comparison) causes clicks and
/// scrambled audio.
#[test]
fn test_jitter_buffer_reorder_and_audio_fidelity() {
    let codec_type = CodecType::Pcmu;
    let mut encoder = CodecPipeline::new(codec_type);
    let mut decoder = CodecPipeline::new(codec_type);
    let mut jitter = JitterBuffer::new(30);

    let num_frames: u16 = 20;
    let mut originals: Vec<Vec<i16>> = Vec::new();

    // Build packets with distinct known content (seq * 500 DC value +  sine)
    let packets: Vec<RtpPacket> = (0..num_frames)
        .map(|seq| {
            let dc = seq as i16 * 200;
            let tone = generate_sine_tone(300.0 + seq as f64 * 50.0, 8000, 20, 10000);
            let samples: Vec<i16> = tone.iter().map(|&s| s.saturating_add(dc)).collect();
            originals.push(samples.clone());
            encode_packet(&mut encoder, codec_type, seq, &samples, 0xABCD)
        })
        .collect();

    // Scramble the order: reverse half, interleave
    let mut shuffled: Vec<usize> = (0..num_frames as usize).collect();
    // A deterministic shuffle: reverse blocks of 4
    for chunk in shuffled.chunks_mut(4) {
        chunk.reverse();
    }

    for &idx in &shuffled {
        jitter.insert(packets[idx].clone());
    }

    // Drain the buffer and verify ordering + fidelity
    let mut received_seqs: Vec<u16> = Vec::new();
    let mut total_snr = 0.0f64;
    let mut count = 0usize;

    while let Some(pkt) = jitter.pop() {
        let seq = pkt.sequence_number;
        received_seqs.push(seq);

        let decoded = decoder.decode(&pkt.payload).expect("decode");
        let orig = &originals[seq as usize];
        let snr = compute_snr(orig, &decoded);
        total_snr += snr;
        count += 1;
    }

    assert_eq!(
        count, num_frames as usize,
        "jitter buffer must deliver all {num_frames} frames"
    );

    // Verify strictly increasing sequence numbers (no reordering artifacts)
    for window in received_seqs.windows(2) {
        assert!(
            window[1] == window[0] + 1,
            "non-sequential frame delivery: got {} after {}",
            window[1],
            window[0]
        );
    }

    let avg_snr = total_snr / count as f64;
    println!(
        "[Jitter] avg SNR over {count} frames = {avg_snr:.1} dB  ({} dropped)",
        jitter.packets_dropped()
    );

    assert!(
        avg_snr > 25.0,
        "average SNR {avg_snr:.1} dB after jitter buffer reorder is too low — potential artifact"
    );
    assert_eq!(
        jitter.packets_dropped(),
        0,
        "no packets should be dropped in a well-sized buffer with no true loss"
    );
}

/// Simulates 20% packet loss (every 5th packet dropped).
/// The jitter buffer must not stall and must advance past the missing
/// sequence numbers. Frames after the gap must still decode correctly.
#[test]
fn test_jitter_buffer_packet_loss_no_stall() {
    let codec_type = CodecType::Pcmu;
    let mut encoder = CodecPipeline::new(codec_type);
    let mut decoder = CodecPipeline::new(codec_type);
    let mut jitter = JitterBuffer::new(20);

    let num_frames: u16 = 20;
    let drop_every = 5usize; // drop frames 4, 9, 14, 19 → 4 lost out of 20

    for seq in 0..num_frames {
        if (seq as usize + 1) % drop_every == 0 {
            continue; // simulate network loss
        }
        let samples = generate_sine_tone(440.0, 8000, 20, 14000);
        let pkt = encode_packet(&mut encoder, codec_type, seq, &samples, 0x1234);
        jitter.insert(pkt);
    }

    let expected_lost = num_frames as usize / drop_every; // 4
    let expected_received = num_frames as usize - expected_lost; // 16

    assert_eq!(
        jitter.packets_received(),
        expected_received as u64,
        "jitter buffer should have received {expected_received} packets"
    );

    // Pop all frames — lost ones return None (concealment hole), others decode
    let mut delivered = 0usize;
    let mut holes = 0usize;
    let mut good_snr_count = 0usize;

    for _ in 0..num_frames {
        match jitter.pop() {
            Some(pkt) => {
                let decoded = decoder.decode(&pkt.payload).expect("decode");
                let original = generate_sine_tone(440.0, 8000, 20, 14000);
                let snr = compute_snr(&original, &decoded);
                if snr > 25.0 {
                    good_snr_count += 1;
                }
                delivered += 1;
            }
            None => {
                holes += 1; // gap — application should insert PLC or silence here
            }
        }
    }

    println!(
        "[PacketLoss] delivered={delivered}  holes={holes}  good_snr_frames={good_snr_count}"
    );

    assert_eq!(holes, expected_lost, "should have exactly {expected_lost} holes for lost packets");
    assert_eq!(
        delivered, expected_received,
        "should deliver exactly {expected_received} decodable frames"
    );
    assert!(
        good_snr_count >= expected_received - 1,
        "almost all received frames should have good SNR; got {good_snr_count}/{expected_received}"
    );
}

/// A buffer that is too small relative to network jitter will suffer from
/// excessive drops. This test verifies the minimum fill level heuristic:
/// playout should not start until the buffer is at least 25% full.
#[test]
fn test_jitter_buffer_minimum_fill_before_playout() {
    // capacity=8 → min_fill = max(8/4, 1) = 2
    let mut jitter = JitterBuffer::new(8);

    // Insert only 1 packet — below min fill level, pop should return None
    let samples = vec![0i16; 160];
    let mut enc = CodecPipeline::new(CodecType::Pcmu);
    let encoded = enc.encode(&samples).unwrap();
    let pkt = RtpPacket::new(0, 0, 0, 0xBEEF).with_payload(encoded);
    jitter.insert(pkt);

    // With only 1 packet in a capacity-8 buffer (min_fill=2), playout hasn't started
    assert!(
        jitter.pop().is_none(),
        "buffer should not start playout before reaching min fill level"
    );

    // Insert second packet — now at fill level 2, playout starts
    let pkt2 = RtpPacket::new(0, 1, 160, 0xBEEF).with_payload(vec![0u8; 160]);
    jitter.insert(pkt2);

    assert!(
        jitter.pop().is_some(),
        "buffer should start playout once min fill level is reached"
    );
}

/// A very small jitter buffer (capacity=1) should still deliver packets —
/// the min_fill clamp to max(capacity/4, 1) = 1 ensures it.
#[test]
fn test_jitter_buffer_capacity_one_delivers_immediately() {
    let mut jitter = JitterBuffer::new(1);
    let pkt = RtpPacket::new(0, 0, 0, 0).with_payload(vec![0x7Fu8; 160]);
    jitter.insert(pkt);
    assert!(
        jitter.pop().is_some(),
        "capacity-1 buffer must deliver the first packet"
    );
}

/// Verify that the PT 64-95 boundary is exact: PT 63 and PT 96 pass through,
/// PT 64 and PT 95 are rejected.  This guards against off-by-one regressions.
#[test]
fn test_rtcp_payload_type_boundary() {
    assert!(!is_rtcp_type(63), "PT 63 must NOT be in RTCP range");
    assert!(is_rtcp_type(64),  "PT 64 must be in RTCP range (boundary)");
    assert!(is_rtcp_type(72),  "PT 72 (RTCP SR mapped) must be in RTCP range");
    assert!(is_rtcp_type(76),  "PT 76 (RTCP APP mapped) must be in RTCP range");
    assert!(is_rtcp_type(95),  "PT 95 must be in RTCP range (boundary)");
    assert!(!is_rtcp_type(96), "PT 96 must NOT be in RTCP range");
    assert!(!is_rtcp_type(0),  "PT 0 (PCMU) must NOT be filtered");
    assert!(!is_rtcp_type(8),  "PT 8 (PCMA) must NOT be filtered");
    assert!(!is_rtcp_type(111), "PT 111 (Opus) must NOT be filtered");
}

/// A producer that pushes audio faster than the device plays it: the buffer
/// stays within its maximum size.
#[test]
fn test_playback_buffer_bounded_under_fast_producer() {
    // 48000 Hz stereo is the largest common device setting.
    let dst_rate = 48000.0f64;
    let channels = 2usize;
    let max_buf_samples = (4.0 * dst_rate / 50.0 * channels as f64) as usize;

    let mut buffer = PlayoutBuffer::new((dst_rate / 50.0) as usize * channels);

    let frame = vec![16383i16; 960 * channels];
    let mut fullest = 0usize;
    for _ in 0..200 {
        buffer.push_frame(&frame);
        fullest = fullest.max(buffer.len());
        assert!(
            buffer.len() <= max_buf_samples,
            "playback buffer grew to {} samples, exceeding max {}",
            buffer.len(),
            max_buf_samples
        );
    }
    assert!(fullest > max_buf_samples / 2);
}

/// The largest backlog is about 80 ms of audio for the usual device settings.
#[test]
fn test_playback_buffer_max_sizes_are_reasonable() {
    let cases = [(8000u32, 1u16), (44100, 2), (48000, 2), (96000, 2)];
    for (rate, ch) in cases {
        let max = (4.0 * rate as f64 / 50.0 * ch as f64) as usize;
        let latency_ms = max as f64 / (rate as f64 * ch as f64) * 1000.0;
        assert!(
            latency_ms >= 70.0 && latency_ms <= 90.0,
            "{rate} Hz {ch}ch: max latency {latency_ms:.1} ms is not in 70-90 ms range"
        );
        let mut buffer = PlayoutBuffer::new(max / 4);
        for _ in 0..50 {
            buffer.push_frame(&[1000i16; 160]);
            assert!(buffer.len() <= max);
        }
    }
}

#[test]
fn e2e_rtp_jitter_buffer_integration() {
    // Simulate out-of-order packet delivery through the jitter buffer
    let mut codec = CodecPipeline::new(CodecType::Pcmu);
    let mut jitter = JitterBuffer::new(20);

    // Create packets with known content
    let mut packets = Vec::new();
    for seq in 0..10u16 {
        let samples: Vec<i16> = vec![seq as i16 * 100; 160];
        let encoded = codec.encode(&samples).unwrap();
        let packet = RtpPacket::new(0, seq, seq as u32 * 160, 0x12345678)
            .with_payload(encoded);
        packets.push(packet);
    }

    // Insert in scrambled order: 3, 1, 4, 0, 2, 5, 7, 6, 9, 8
    let order = [3, 1, 4, 0, 2, 5, 7, 6, 9, 8];
    for &idx in &order {
        jitter.insert(packets[idx].clone());
    }

    // Pop should return in sequence order 0..10
    for expected_seq in 0..10u16 {
        let pkt = jitter.pop().unwrap();
        assert_eq!(pkt.sequence_number, expected_seq);

        // Decode and verify content
        let decoded = codec.decode(&pkt.payload).unwrap();
        assert_eq!(decoded.len(), 160);
        // Each packet's samples should match the sequence number pattern
        let expected_val = expected_seq as i16 * 100;
        // G.711 is lossy, but for such simple values the decoded should be close
        for &sample in &decoded {
            let diff = (sample as i32 - expected_val as i32).abs();
            assert!(diff < 500, "seq={}, expected~{}, got {}", expected_seq, expected_val, sample);
        }
    }

    assert_eq!(jitter.packets_received(), 10);
}

#[test]
fn e2e_codec_type_display() {
    assert_eq!(CodecType::Pcmu.to_string(), "PCMU (G.711 mu-law)");
    assert_eq!(CodecType::Pcma.to_string(), "PCMA (G.711 A-law)");
    assert_eq!(CodecType::Opus.to_string(), "Opus");
}

#[test]
fn test_full_pipeline_fidelity_pcmu() {
    full_pipeline_fidelity(CodecType::Pcmu, 30.0);
}

#[test]
fn test_full_pipeline_fidelity_pcma() {
    full_pipeline_fidelity(CodecType::Pcma, 30.0);
}

fn full_pipeline_fidelity(codec_type: CodecType, min_snr_db: f64) {
    let net = Net::new();
    let spf = codec_type.samples_per_frame();
    let mut receiver = Peer::new(&net, Addr(1), codec_type);
    let mut sender = Peer::new(&net, receiver.local_addr(), codec_type);
    receiver.set_remote_addr(sender.local_addr());

    // A signal over the telephony band.
    let freqs = [400.0, 1000.0, 2000.0, 3000.0];
    let full_audio = generate_multi_tone(&freqs, codec_type.clock_rate(), 200, 12000);
    let frames: Vec<&[i16]> = full_audio.chunks(spf).collect();
    let num_frames = frames.len();
    for frame in &frames {
        sender.send_audio(frame);
    }

    let mut decoded_full: Vec<i16> = Vec::new();
    for i in 0..num_frames {
        let (pkt, _src) = receiver.recv_packet();
        assert_eq!(pkt.sequence_number, i as u16);
        let decoded = receiver.decode_packet(&pkt);
        assert_eq!(decoded.len(), spf);
        decoded_full.extend_from_slice(&decoded);
    }

    let len = full_audio.len().min(decoded_full.len());
    let snr = compute_snr(&full_audio[..len], &decoded_full[..len]);
    let corr = cross_correlation(&full_audio[..len], &decoded_full[..len]);
    assert!(snr > min_snr_db, "end-to-end SNR {snr:.1} dB < {min_snr_db} dB");
    assert!(corr > 0.99, "end-to-end cross-correlation {corr:.4} < 0.99");
    assert_eq!(sender.stats().packets_sent, num_frames as u64);
}

#[test]
fn test_rtp_timestamp_increments_match_clock_rate() {
    for codec_type in [CodecType::Pcmu, CodecType::Pcma] {
        let net = Net::new();
        let spf = codec_type.samples_per_frame();
        let clock_rate = codec_type.clock_rate();
        let ptime_ms = 20u32;
        assert_eq!(spf, (clock_rate * ptime_ms / 1000) as usize);

        let mut rx = Peer::new(&net, Addr(1), codec_type);
        let mut tx = Peer::new(&net, Addr(1), codec_type);
        rx.set_remote_addr(tx.local_addr());
        tx.set_remote_addr(rx.local_addr());

        let silence = vec![0i16; spf];
        let num = 5usize;
        for _ in 0..num {
            tx.send_audio(&silence);
        }

        let mut prev_ts: Option<u32> = None;
        for i in 0..num {
            let (pkt, _) = rx.recv_packet();
            assert_eq!(pkt.sequence_number, i as u16);
            if let Some(prev) = prev_ts {
                let delta = pkt.timestamp.wrapping_sub(prev);
                assert_eq!(delta, spf as u32);
            }
            prev_ts = Some(pkt.timestamp);
        }
    }
}

/// Control packets on the media port give no audio.
#[test]
fn test_rtcp_packets_not_decoded_as_audio() {
    let net = Net::new();
    let codec_type = CodecType::Pcmu;
    let sender = net.bind();
    let rx = Peer::new(&net, sender, codec_type);

    let rtcp_types: &[u8] = &[200, 201, 202, 203, 204];
    for &pt in rtcp_types {
        let mut pkt = vec![0u8; 8];
        pkt[0] = 0x80;
        pkt[1] = pt;
        pkt[2] = 0x00;
        pkt[3] = 0x01;
        pkt[4..8].copy_from_slice(&0xDEADBEEFu32.to_be_bytes());
        net.send(sender, rx.local_addr(), pkt);
        // The same, long enough to read as a packet.
        let mut long = vec![0u8; 28];
        long[0] = 0x80;
        long[1] = pt;
        net.send(sender, rx.local_addr(), long);
    }

    // The buffer gives one packet per packet taken in once two are there, so
    // four packets give three frames.
    let mut enc = CodecPipeline::new(codec_type);
    let audio = generate_sine_tone(440.0, 8000, 20, 14000);
    let spf = codec_type.samples_per_frame() as u32;
    for seq in 0..4u16 {
        let encoded = enc.encode(&audio).unwrap();
        let real_pkt = RtpPacket::new(codec_type.payload_type(), seq, seq as u32 * spf, 0xCAFE)
            .with_payload(encoded);
        net.send(sender, rx.local_addr(), real_pkt.serialize());
    }

    assert_eq!(rx.receive_all(None).len(), 3);
}

/// Packets of a payload type that was not agreed give no audio.
#[test]
fn test_wrong_payload_type_filtered() {
    let net = Net::new();
    let codec_type = CodecType::Pcmu;
    let sender = net.bind();
    let rx = Peer::new(&net, sender, codec_type);

    for seq in 0..5u16 {
        let pkt = RtpPacket::new(96, seq, seq as u32 * 160, 0xBEEF).with_payload(vec![0xAA; 160]);
        net.send(sender, rx.local_addr(), pkt.serialize());
    }

    let mut enc = CodecPipeline::new(codec_type);
    let audio = generate_sine_tone(400.0, 8000, 20, 10000);
    let spf = codec_type.samples_per_frame() as u32;
    for seq in 0..4u16 {
        let encoded = enc.encode(&audio).unwrap();
        let good_pkt = RtpPacket::new(codec_type.payload_type(), seq, seq as u32 * spf, 0xBEEF)
            .with_payload(encoded);
        net.send(sender, rx.local_addr(), good_pkt.serialize());
    }

    assert_eq!(rx.receive_all(None).len(), 3);
}

fn rms(samples: &[i16]) -> f64 {
    if samples.is_empty() {
        return 0.0;
    }
    let sum: f64 = samples.iter().map(|&s| (s as f64) * (s as f64)).sum();
    (sum / samples.len() as f64).sqrt()
}

#[test]
fn test_round_trip_energy_pcmu() {
    round_trip_energy(CodecType::Pcmu, 440.0, 0.05);
}

#[test]
fn test_round_trip_energy_pcma() {
    round_trip_energy(CodecType::Pcma, 440.0, 0.05);
}

fn round_trip_energy(codec_type: CodecType, freq_hz: f64, max_rel_error: f64) {
    let net = Net::new();
    let spf = codec_type.samples_per_frame();
    let mut receiver = Peer::new(&net, Addr(1), codec_type);
    let mut sender = Peer::new(&net, receiver.local_addr(), codec_type);

    let full = generate_sine_tone(freq_hz, codec_type.clock_rate(), 200, 20_000);
    let frames: Vec<&[i16]> = full.chunks(spf).collect();
    for frame in &frames {
        sender.send_audio(frame);
    }

    for (i, frame) in frames.iter().enumerate() {
        let (pkt, _) = receiver.recv_packet();
        let decoded = receiver.decode_packet(&pkt);
        let orig_rms = rms(frame);
        let recv_rms = rms(&decoded);
        if orig_rms > 1.0 {
            let rel_err = (orig_rms - recv_rms).abs() / orig_rms;
            assert!(rel_err <= max_rel_error, "frame {i}: RMS energy error {rel_err:.3}");
        }
    }
}

#[test]
fn test_cross_channel_isolation() {
    let net = Net::new();
    let codec_type = CodecType::Pcmu;
    let clock_rate = codec_type.clock_rate();
    let num_frames = 8usize;

    let mut a_receiver = Peer::new(&net, Addr(1), codec_type);
    let mut a_sender = Peer::new(&net, a_receiver.local_addr(), codec_type);
    a_receiver.set_remote_addr(a_sender.local_addr());
    let mut b_receiver = Peer::new(&net, Addr(1), codec_type);
    let mut b_sender = Peer::new(&net, b_receiver.local_addr(), codec_type);
    b_receiver.set_remote_addr(b_sender.local_addr());

    let probe_a = generate_sine_tone(440.0, clock_rate, 20, 20_000);
    let probe_b = generate_sine_tone(880.0, clock_rate, 20, 20_000);
    for _ in 0..num_frames + 1 {
        a_sender.send_audio(&probe_a);
        b_sender.send_audio(&probe_b);
    }

    let mut a_out: Vec<i16> = Vec::new();
    let mut b_out: Vec<i16> = Vec::new();
    for _ in 0..num_frames {
        let (pkt, _) = a_receiver.recv_packet();
        a_out.extend_from_slice(&a_receiver.decode_packet(&pkt));
        let (pkt, _) = b_receiver.recv_packet();
        b_out.extend_from_slice(&b_receiver.decode_packet(&pkt));
    }

    let a_ref: Vec<i16> = probe_a.iter().cloned().cycle().take(a_out.len()).collect();
    let b_ref: Vec<i16> = probe_b.iter().cloned().cycle().take(b_out.len()).collect();
    let a_self_corr = cross_correlation(&a_ref, &a_out);
    let b_self_corr = cross_correlation(&b_ref, &b_out);
    let len = a_out.len().min(b_out.len());
    let cross_ab = cross_correlation(&a_out[..len], &b_out[..len]).abs();

    assert!(a_self_corr > 0.90);
    assert!(b_self_corr > 0.90);
    assert!(
        cross_ab < 0.30,
        "cross-corr A↔B = {cross_ab:.4} — sessions are contaminating each other"
    );
}

#[test]
fn e2e_rtp_audio_exchange() {
    let net = Net::new();
    let mut receiver = Peer::new(&net, Addr(1), CodecType::Pcmu);
    let mut sender = Peer::new(&net, receiver.local_addr(), CodecType::Pcmu);

    let samples: Vec<i16> = (0..160)
        .map(|i| {
            let t = i as f64 / 8000.0;
            (f64::sin(2.0 * std::f64::consts::PI * 400.0 * t) * 16000.0) as i16
        })
        .collect();

    for _ in 0..5 {
        sender.send_audio(&samples);
    }

    for i in 0..5 {
        let (packet, _source) = receiver.recv_packet();
        assert_eq!(packet.payload_type, 0);
        assert_eq!(packet.sequence_number, i);
        assert_eq!(packet.payload.len(), 160);

        let decoded = receiver.decode_packet(&packet);
        assert_eq!(decoded.len(), 160);
        for (orig, dec) in samples.iter().zip(decoded.iter()) {
            let diff = (*orig as i32 - *dec as i32).abs();
            assert!(diff < 500, "Audio quality too low: diff={}", diff);
        }
    }

    assert_eq!(sender.stats().packets_sent, 5);
}

#[test]
fn e2e_bidirectional_rtp() {
    let net = Net::new();
    let mut session_a = Peer::new(&net, Addr(1), CodecType::Pcmu);
    let mut session_b = Peer::new(&net, session_a.local_addr(), CodecType::Pcmu);
    session_a.set_remote_addr(session_b.local_addr());

    session_a.send_audio(&vec![1000i16; 160]);
    let (pkt_at_b, _) = session_b.recv_packet();
    assert_eq!(pkt_at_b.payload_type, 0);
    assert_eq!(session_b.decode_packet(&pkt_at_b).len(), 160);

    session_b.send_audio(&vec![2000i16; 160]);
    let (pkt_at_a, _) = session_a.recv_packet();
    assert_eq!(pkt_at_a.payload_type, 0);
    assert_eq!(session_a.decode_packet(&pkt_at_a).len(), 160);
}

#[test]
fn e2e_bidirectional_audio_recording_fidelity() {
    let net = Net::new();
    let mut session_a = Peer::new(&net, Addr(1), CodecType::Pcmu);
    let mut session_b = Peer::new(&net, session_a.local_addr(), CodecType::Pcmu);
    session_a.set_remote_addr(session_b.local_addr());

    let tone_a = generate_sine_tone(440.0, 8000, 200, 12000);
    let tone_b = generate_sine_tone(1000.0, 8000, 200, 12000);
    let mut recorder_at_b = AudioRecorder::new(8000);
    let mut recorder_at_a = AudioRecorder::new(8000);
    let frames_a: Vec<&[i16]> = tone_a.chunks(160).collect();
    let frames_b: Vec<&[i16]> = tone_b.chunks(160).collect();
    assert_eq!(frames_a.len(), 10);
    assert_eq!(frames_b.len(), 10);

    for i in 0..10 {
        session_a.send_audio(frames_a[i]);
        session_b.send_audio(frames_b[i]);
        let (pkt_b, _) = session_b.recv_packet();
        recorder_at_b.record_frame(&session_b.decode_packet(&pkt_b));
        let (pkt_a, _) = session_a.recv_packet();
        recorder_at_a.record_frame(&session_a.decode_packet(&pkt_a));
    }

    assert_eq!(recorder_at_b.frame_count(), 10);
    assert!(compute_snr(&tone_a, recorder_at_b.samples()) > 20.0);
    assert!(cross_correlation(&tone_a, recorder_at_b.samples()) > 0.95);
    assert_eq!(recorder_at_a.frame_count(), 10);
    assert!(compute_snr(&tone_b, recorder_at_a.samples()) > 20.0);
    assert!(cross_correlation(&tone_b, recorder_at_a.samples()) > 0.95);
    assert!(cross_correlation(&tone_a, recorder_at_a.samples()) < 0.5);
}

#[test]
fn e2e_audio_pipeline_wav_roundtrip() {
    let net = Net::new();
    let mut session_b = Peer::new(&net, Addr(1), CodecType::Pcmu);
    let mut session_a = Peer::new(&net, session_b.local_addr(), CodecType::Pcmu);

    let original = generate_multi_tone(&[300.0, 700.0, 1200.0], 8000, 400, 10000);
    assert_eq!(original.len(), 3200);
    let mut recorder = AudioRecorder::new(8000);
    let frames: Vec<&[i16]> = original.chunks(160).collect();
    assert_eq!(frames.len(), 20);
    for frame in &frames {
        session_a.send_audio(frame);
    }
    for _ in 0..20 {
        let (pkt, _) = session_b.recv_packet();
        recorder.record_frame(&session_b.decode_packet(&pkt));
    }

    assert_eq!(recorder.frame_count(), 20);
    assert_eq!(recorder.duration_ms(), 400);
    let recorded = recorder.samples();
    assert!(compute_snr(&original, recorded) > 20.0);
    assert!(cross_correlation(&original, recorded) > 0.95);
    assert!(max_sample_error(&original, recorded) < 1000);
    assert!(rms_error(&original, recorded) < 500.0);

    let wav_bytes = recorder.to_wav();
    let (header, wav_samples) = decode_wav(&wav_bytes).unwrap();
    assert_eq!(header.sample_rate, 8000);
    assert_eq!(header.channels, 1);
    assert_eq!(wav_samples.len(), 3200);
    assert_eq!(wav_samples, recorded);
    assert!(compute_snr(&original, &wav_samples) > 20.0);
}

#[test]
fn e2e_alaw_audio_recording_fidelity() {
    let net = Net::new();
    let mut session_b = Peer::new(&net, Addr(1), CodecType::Pcma);
    let mut session_a = Peer::new(&net, session_b.local_addr(), CodecType::Pcma);

    let original = generate_sine_tone(600.0, 8000, 200, 12000);
    let mut recorder = AudioRecorder::new(8000);
    for frame in original.chunks(160) {
        session_a.send_audio(frame);
    }
    for _ in 0..10 {
        let (pkt, _) = session_b.recv_packet();
        assert_eq!(pkt.payload_type, 8);
        recorder.record_frame(&session_b.decode_packet(&pkt));
    }

    assert!(compute_snr(&original, recorder.samples()) > 20.0);
    assert!(cross_correlation(&original, recorder.samples()) > 0.95);
}

#[test]
fn e2e_interactive_stats_during_call() {
    let net = Net::new();
    let mut session = Peer::new(&net, Addr(1), CodecType::Pcmu);
    let stats = session.stats();
    assert_eq!(stats.packets_sent, 0);
    assert_eq!(stats.codec, CodecType::Pcmu);

    let recv_addr = net.bind();
    session.set_remote_addr(recv_addr);
    for _ in 0..5 {
        session.send_audio(&vec![1000i16; 160]);
    }

    let stats = session.stats();
    assert_eq!(stats.packets_sent, 5);
    assert_eq!(stats.remote_addr, Endpoint::from(recv_addr));
    assert_ne!(stats.ssrc, 0);
}

#[test]
fn e2e_full_call_with_interactive_features() {
    let net = Net::new();
    let receiver = Peer::new(&net, Addr(1), CodecType::Pcmu);
    let mut sender = Peer::new(&net, receiver.local_addr(), CodecType::Pcmu);

    let tone = generate_sine_tone(440.0, 8000, 200, 12000);
    let frames: Vec<&[i16]> = tone.chunks(160).collect();
    for frame in &frames {
        sender.send_audio(frame);
    }

    // Record from the second frame on, up to the sixth.
    let mut recorder = AudioRecorder::new(8000);
    let mut recording_active = false;
    let mut frame_count = 0;
    for event in receiver.receive_all(None) {
        if let ReceiveEvent::Audio(audio_frame) = event {
            frame_count += 1;
            if frame_count == 2 {
                recording_active = true;
            }
            if frame_count == 6 {
                recording_active = false;
            }
            if recording_active {
                recorder.record_frame(&audio_frame);
            }
        }
    }

    assert!(recorder.frame_count() >= 2);
    assert!(recorder.frame_count() <= 5);
    assert!(!recorder.is_empty());
    assert!(recorder.duration_ms() > 0);
    assert_eq!(sender.stats().packets_sent, frames.len() as u64);
}

#[test]
fn e2e_multiple_concurrent_rtp_sessions() {
    let net = Net::new();
    let session_a = Peer::new(&net, Addr(1), CodecType::Pcmu);
    let session_b = Peer::new(&net, Addr(1), CodecType::Pcma);
    assert_ne!(session_a.local_addr().port(), session_b.local_addr().port());
    assert_ne!(session_a.stats().ssrc, session_b.stats().ssrc);
    assert_eq!(session_a.stats().codec, CodecType::Pcmu);
    assert_eq!(session_b.stats().codec, CodecType::Pcma);
}

#[test]
fn e2e_opus_codec_roundtrip() {
    let net = Net::new();
    let rtp_b = Peer::new(&net, Addr(19000), CodecType::Opus);
    let mut rtp_a = Peer::new(&net, rtp_b.local_addr(), CodecType::Opus);

    let samples: Vec<i16> = (0..960)
        .map(|i| ((i as f64 / 960.0 * std::f64::consts::TAU).sin() * 16000.0) as i16)
        .collect();
    assert!(rtp_a.send_audio(&samples) > 0);

    assert_eq!(CodecType::Opus.clock_rate(), 48000);
    assert_eq!(CodecType::Opus.payload_type(), 111);
    assert_eq!(CodecType::Opus.samples_per_frame(), 960);
    assert_eq!(CodecType::Opus.name(), "opus");
}

#[test]
fn test_send_and_receive_audio() {
    let net = Net::new();
    let mut recv_session = Peer::new(&net, Addr(1), CodecType::Pcmu);
    let mut send_session = Peer::new(&net, recv_session.local_addr(), CodecType::Pcmu);

    let samples: Vec<i16> = (0..160)
        .map(|i| ((i as f64 / 160.0 * std::f64::consts::TAU).sin() * 8000.0) as i16)
        .collect();
    assert!(send_session.send_audio(&samples) > 0);

    let (packet, _source) = recv_session.recv_packet();
    assert_eq!(packet.payload_type, 0);
    assert_eq!(packet.sequence_number, 0);
    assert_eq!(packet.payload.len(), 160);
    assert_eq!(recv_session.decode_packet(&packet).len(), 160);
}

#[test]
fn test_send_multiple_packets() {
    let net = Net::new();
    let recv_addr = net.bind();
    let mut send_session = Peer::new(&net, recv_addr, CodecType::Pcmu);
    for _ in 0..3 {
        send_session.send_audio(&vec![0i16; 160]);
    }
    assert_eq!(send_session.stats().packets_sent, 3);
}

#[test]
fn test_session_stats() {
    let net = Net::new();
    let session = Peer::new(&net, Addr(9999), CodecType::Pcmu);
    let stats = session.stats();
    assert_eq!(stats.codec, CodecType::Pcmu);
    assert_eq!(stats.remote_addr, Endpoint::new("127.0.0.1", 9999));
    assert_eq!(stats.packets_sent, 0);
}

#[test]
fn test_silence_frame() {
    let net = Net::new();
    let peer = Peer::new(&net, Addr(9999), CodecType::Pcmu);
    assert_eq!(peer.session.silence_frame().len(), 160);
}

#[test]
fn test_receive_loop() {
    let net = Net::new();
    let recv_session = Peer::new(&net, Addr(1), CodecType::Pcmu);
    let mut send_session = Peer::new(&net, recv_session.local_addr(), CodecType::Pcmu);
    for _ in 0..3 {
        send_session.send_audio(&vec![1000i16; 160]);
    }
    let events = recv_session.receive_all(None);
    match &events[0] {
        ReceiveEvent::Audio(audio) => assert_eq!(audio.len(), 160),
        ReceiveEvent::Dtmf(_) => panic!("expected audio"),
    }
}

#[test]
fn test_pcma_session() {
    let net = Net::new();
    let recv_addr = net.bind();
    let mut send_session = Peer::new(&net, recv_addr, CodecType::Pcma);
    assert!(send_session.send_audio(&vec![5000i16; 160]) > 0);
    let (_, data) = net.take(recv_addr).unwrap();
    assert_eq!(RtpPacket::parse(&data).unwrap().payload_type, 8);
}

#[test]
fn test_send_rfc2833_digit_packet_shape() {
    let net = Net::new();
    let peer = Peer::new(&net, Addr(1), CodecType::Pcmu);
    let packets = peer.session.key_packets('5', 101, DTMF_DURATION).unwrap();
    let pkt = RtpPacket::parse(&packets[0]).unwrap();
    assert_eq!(pkt.payload_type, 101);
    assert!(pkt.marker);
    assert_eq!(pkt.payload[0], 5);
}

#[test]
fn test_queue_and_flush_rfc2833_digits() {
    let net = Net::new();
    let mut sender = Peer::new(&net, Addr(1), CodecType::Pcmu);
    let queued = sender.session.queue_rfc2833_digits("12#").unwrap();
    assert_eq!(queued, 3);
    assert_eq!(sender.session.queued_rfc2833_digits(), 3);

    let mut sent = 0;
    while let Some(key) = sender.session.take_queued() {
        let packets = sender.session.key_packets(key.digit, 101, key.duration_samples).unwrap();
        sender.session.key_sent(packets.len(), key.duration_samples);
        sent += 1;
    }
    assert_eq!(sent, 3);
    assert_eq!(sender.session.queued_rfc2833_digits(), 0);
}

#[test]
fn test_receive_event_reports_dtmf() {
    let net = Net::new();
    let recv_session = Peer::new(&net, Addr(1), CodecType::Pcmu);
    let send_session = Peer::new(&net, recv_session.local_addr(), CodecType::Pcmu);
    for data in send_session.session.key_packets('9', 101, DTMF_DURATION).unwrap() {
        net.send(send_session.local_addr(), recv_session.local_addr(), data);
    }
    let events = recv_session.receive_all(Some(101));
    match &events[0] {
        ReceiveEvent::Dtmf(dtmf) => assert_eq!(dtmf.digit, '9'),
        ReceiveEvent::Audio(_) => panic!("expected DTMF event"),
    }
}
