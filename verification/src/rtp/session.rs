//! The state of an RTP session: what is sent next, and what is made of what
//! comes in. Sockets are the caller's.
use super::codec::{
    decoded, encoded, payload_of, samples_of, silence, CodecError, CodecErrorView, CodecPipeline,
    CodecType, OpusFrame, OpusSamples, OpusSamplesView,
};
use super::jitter::{front, inserted, popped, JitterBuffer, JitterView};
use super::packet::{packet_bytes, parse_packet, u16_at, PacketView, RtpError, RtpPacket};
use crate::case::{ascii_upper, ascii_upper_char};
use crate::net::{Endpoint, EndpointView};
use crate::random::random_u32;
use crate::text::{chars_of, is_space, is_space_char, same_text};
use std::collections::VecDeque;
use vstd::prelude::*;

verus! {

/// Why a step of a session failed.
#[derive(Debug)]
pub enum SessionError {
    Codec(CodecError),
    Rtp(RtpError),
    NotStarted,
    InvalidDtmfDigit(char),
}

pub enum SessionErrorView {
    Codec(CodecErrorView),
    Rtp(RtpError),
    NotStarted,
    InvalidDtmfDigit(char),
}

impl View for SessionError {
    type V = SessionErrorView;

    open spec fn view(&self) -> SessionErrorView {
        match *self {
            SessionError::Codec(e) => SessionErrorView::Codec(e@),
            SessionError::Rtp(e) => SessionErrorView::Rtp(e),
            SessionError::NotStarted => SessionErrorView::NotStarted,
            SessionError::InvalidDtmfDigit(c) => SessionErrorView::InvalidDtmfDigit(c),
        }
    }
}

impl SessionErrorView {
    /// The error in words.
    pub open spec fn message(self) -> Seq<char> {
        match self {
            SessionErrorView::Codec(e) => "codec error: "@ + e.message(),
            SessionErrorView::Rtp(e) => "RTP error: "@ + e.message(),
            SessionErrorView::NotStarted => "session not started"@,
            SessionErrorView::InvalidDtmfDigit(c) => "invalid DTMF digit: "@.push(c),
        }
    }
}

impl SessionError {
    /// The error in words.
    pub fn to_string(&self) -> (r: String)
        ensures
            r@ == self@.message(),
    {
        match self {
            SessionError::Codec(e) => {
                let mut s = "codec error: ".to_owned();
                let t = e.to_string();
                s.append(t.as_str());
                s
            },
            SessionError::Rtp(e) => {
                let mut s = "RTP error: ".to_owned();
                let t = e.to_string();
                s.append(t.as_str());
                s
            },
            SessionError::NotStarted => "session not started".to_owned(),
            SessionError::InvalidDtmfDigit(c) => {
                let mut s = "invalid DTMF digit: ".to_owned();
                s.push(*c);
                s
            },
        }
    }
}

// ---------------------------------------------------------------------------
// Telephone events
// ---------------------------------------------------------------------------

/// The event number of a key of the telephone; letters may be in either case.
pub open spec fn dtmf_event(digit: char) -> Option<u8> {
    let c = ascii_upper(digit);
    if '0' <= c <= '9' {
        Some((c as u32 - '0' as u32) as u8)
    } else if c == '*' {
        Some(10)
    } else if c == '#' {
        Some(11)
    } else if 'A' <= c <= 'D' {
        Some((c as u32 - 'A' as u32 + 12) as u8)
    } else {
        None
    }
}

/// The key of the telephone with that event number.
pub open spec fn dtmf_key(event: u8) -> Option<char> {
    if event <= 9 {
        Some(('0' as u32 + event) as char)
    } else if event == 10 {
        Some('*')
    } else if event == 11 {
        Some('#')
    } else if event <= 15 {
        Some(('A' as u32 + event - 12) as char)
    } else {
        None
    }
}

/// The event number of a key of the telephone.
pub fn dtmf_digit_to_event(digit: char) -> (r: Option<u8>)
    ensures
        r == dtmf_event(digit),
{
    let c = ascii_upper_char(digit);
    match c {
        '0' => Some(0),
        '1' => Some(1),
        '2' => Some(2),
        '3' => Some(3),
        '4' => Some(4),
        '5' => Some(5),
        '6' => Some(6),
        '7' => Some(7),
        '8' => Some(8),
        '9' => Some(9),
        '*' => Some(10),
        '#' => Some(11),
        'A' => Some(12),
        'B' => Some(13),
        'C' => Some(14),
        'D' => Some(15),
        _ => None,
    }
}

/// The key of the telephone with that event number.
pub fn dtmf_event_to_digit(event: u8) -> (r: Option<char>)
    ensures
        r == dtmf_key(event),
{
    if event <= 9 {
        Some((48u8 + event) as char)
    } else if event == 10 {
        Some('*')
    } else if event == 11 {
        Some('#')
    } else if event <= 15 {
        Some((53u8 + event) as char)
    } else {
        None
    }
}

/// A key and its event number determine each other.
pub proof fn law_dtmf_inverse(digit: char, event: u8)
    ensures
        dtmf_key(event) is Some ==> dtmf_event(dtmf_key(event)->0) == Some(event),
        dtmf_event(digit) is Some ==> dtmf_key(dtmf_event(digit)->0) == Some(ascii_upper(digit)),
{
}

/// Whether a character is a key of the telephone.
pub fn validate_dtmf_digit(digit: char) -> (r: Result<(), SessionError>)
    ensures
        match r {
            Ok(_) => dtmf_event(digit) is Some,
            Err(e) => dtmf_event(digit) is None && e@ == SessionErrorView::InvalidDtmfDigit(digit),
        },
{
    if dtmf_digit_to_event(digit).is_some() {
        Ok(())
    } else {
        Err(SessionError::InvalidDtmfDigit(digit))
    }
}

/// A telephone event that came in.
#[derive(Debug, Clone, Copy, PartialEq, Eq, Structural)]
pub struct DtmfEvent {
    pub digit: char,
    pub end: bool,
    pub duration: u16,
    pub volume: u8,
    pub sequence_number: u16,
    pub timestamp: u32,
}

/// The payload of a telephone event: the event, the end flag with a volume of
/// ten, and the duration.
pub open spec fn dtmf_payload(event: u8, end: bool, duration: u16) -> Seq<u8> {
    seq![
        event,
        if end {
            138u8
        } else {
            10u8
        },
        (duration / 256) as u8,
        (duration % 256) as u8,
    ]
}

/// The telephone event in a packet.
pub open spec fn event_in(p: PacketView) -> Option<DtmfEvent> {
    if p.payload.len() < 4 {
        None
    } else {
        match dtmf_key(p.payload[0]) {
            Some(digit) => Some(
                DtmfEvent {
                    digit,
                    end: p.payload[1] >= 128,
                    duration: u16_at(p.payload, 2),
                    volume: (p.payload[1] % 64) as u8,
                    sequence_number: p.sequence_number,
                    timestamp: p.timestamp,
                },
            ),
            None => None,
        }
    }
}

/// The telephone event in a packet.
pub fn parse_rfc2833_event(packet: &RtpPacket) -> (r: Option<DtmfEvent>)
    ensures
        r == event_in(packet@),
{
    if packet.payload.len() < 4 {
        return None;
    }
    let flags: u8 = packet.payload[1];
    match dtmf_event_to_digit(packet.payload[0]) {
        Some(digit) => Some(
            DtmfEvent {
                digit,
                end: flags >= 128,
                duration: packet.payload[2] as u16 * 256 + packet.payload[3] as u16,
                volume: flags % 64,
                sequence_number: packet.sequence_number,
                timestamp: packet.timestamp,
            },
        ),
        None => None,
    }
}

/// A telephone event that is sent is the event that is received.
pub proof fn law_dtmf_reads_back(p: PacketView, digit: char, end: bool, duration: u16)
    requires
        dtmf_event(digit) is Some,
        p.payload == dtmf_payload(dtmf_event(digit)->0, end, duration),
    ensures
        event_in(p) == Some(
            DtmfEvent {
                digit: ascii_upper(digit),
                end,
                duration,
                volume: 10,
                sequence_number: p.sequence_number,
                timestamp: p.timestamp,
            },
        ),
{
    law_dtmf_inverse(digit, dtmf_event(digit)->0);
}

/// A key that waits to be sent, and how long it is held down, in samples.
#[derive(Debug, Clone, Copy, PartialEq, Eq, Structural)]
pub struct QueuedDtmf {
    pub digit: char,
    pub duration_samples: u16,
}

/// How long a key is held down, in samples.
pub const DTMF_DURATION: u16 = 800;

/// How many packets report a key.
pub const KEY_PACKETS: usize = 3;

/// The keys of a text up to the first character that is none; white space is
/// left out.
pub open spec fn keys_of(s: Seq<char>) -> Seq<QueuedDtmf>
    decreases s.len(),
{
    if s.len() == 0 {
        seq![]
    } else if is_space(s[0]) {
        keys_of(s.skip(1))
    } else if dtmf_event(s[0]) is None {
        seq![]
    } else {
        seq![
            QueuedDtmf { digit: ascii_upper(s[0]), duration_samples: DTMF_DURATION },
        ] + keys_of(s.skip(1))
    }
}

/// The first character of a text that is neither a key nor white space.
pub open spec fn bad_key(s: Seq<char>) -> Option<char>
    decreases s.len(),
{
    if s.len() == 0 {
        None
    } else if is_space(s[0]) || dtmf_event(s[0]) is Some {
        bad_key(s.skip(1))
    } else {
        Some(s[0])
    }
}

// ---------------------------------------------------------------------------
// Sending
// ---------------------------------------------------------------------------

/// How a session is set up.
#[derive(Debug)]
pub struct SessionConfig {
    pub local_addr: String,
    pub remote_addr: Endpoint,
    pub codec: CodecType,
    pub ssrc: u32,
    pub jitter_buffer_size: usize,
}

impl Clone for SessionConfig {
    fn clone(&self) -> (r: Self)
        ensures
            r.local_addr@ == self.local_addr@,
            r.remote_addr@ == self.remote_addr@,
            r.codec == self.codec,
            r.ssrc == self.ssrc,
            r.jitter_buffer_size == self.jitter_buffer_size,
    {
        SessionConfig {
            local_addr: self.local_addr.clone(),
            remote_addr: self.remote_addr.clone(),
            codec: self.codec,
            ssrc: self.ssrc,
            jitter_buffer_size: self.jitter_buffer_size,
        }
    }
}

impl SessionConfig {
    /// A set-up with a random source identifier.
    pub fn new(local_addr: &str, remote_addr: Endpoint, codec: CodecType) -> (r: Self)
        ensures
            r.local_addr@ == local_addr@,
            r.remote_addr@ == remote_addr@,
            r.codec == codec,
            r.jitter_buffer_size == 10,
    {
        SessionConfig {
            local_addr: local_addr.to_owned(),
            remote_addr,
            codec,
            ssrc: random_u32(),
            jitter_buffer_size: 10,
        }
    }
}

/// What is known of a session from the outside.
#[derive(Debug)]
pub struct SessionStats {
    pub local_addr: Endpoint,
    pub remote_addr: Endpoint,
    pub codec: CodecType,
    pub ssrc: u32,
    pub packets_sent: u64,
}

/// A session: its set-up, and the numbers of the packet that is sent next.
pub struct RtpSession {
    config: SessionConfig,
    codec: CodecPipeline,
    sequence_number: u16,
    timestamp: u32,
    local_addr: Endpoint,
    dtmf_queue: VecDeque<QueuedDtmf>,
}

/// What an `RtpSession` holds.
pub struct SessionView {
    pub local: EndpointView,
    pub remote: EndpointView,
    pub codec: CodecType,
    pub ssrc: u32,
    pub jitter_buffer_size: nat,
    pub seq: u16,
    pub ts: u32,
    pub queue: Seq<QueuedDtmf>,
}

impl View for RtpSession {
    type V = SessionView;

    closed spec fn view(&self) -> SessionView {
        SessionView {
            local: self.local_addr@,
            remote: self.config.remote_addr@,
            codec: self.config.codec,
            ssrc: self.config.ssrc,
            jitter_buffer_size: self.config.jitter_buffer_size as nat,
            seq: self.sequence_number,
            ts: self.timestamp,
            queue: self.dtmf_queue@,
        }
    }
}

/// The packet that a session sends next with that payload type, time and
/// payload.
pub open spec fn next_packet(s: SessionView, pt: u8, ts: u32, marker: bool, payload: Seq<u8>) -> PacketView {
    PacketView {
        version: 2,
        padding: false,
        extension: false,
        csrc_count: 0,
        marker,
        payload_type: pt,
        sequence_number: s.seq,
        timestamp: ts,
        ssrc: s.ssrc,
        csrc: seq![],
        payload,
    }
}

/// The session after a packet has been sent.
pub open spec fn after_packet(s: SessionView) -> SessionView {
    SessionView { seq: s.seq.wrapping_add(1), ..s }
}

/// The next packet of audio, with its payload.
pub open spec fn audio_view(s: SessionView, payload: Seq<u8>) -> PacketView {
    next_packet(s, s.codec.spec_payload_type(), s.ts, false, payload)
}

/// The session after a frame of audio has been sent: its clock has moved on by
/// the samples of a frame.
pub open spec fn after_audio(s: SessionView) -> SessionView {
    SessionView { ts: s.ts.wrapping_add(s.codec.frame_len() as u32), ..after_packet(s) }
}

/// The session after `sent` packets of a key of that duration have been sent:
/// its clock moves on by the duration with the last of them.
pub open spec fn after_key(s: SessionView, sent: nat, duration: u16) -> SessionView {
    SessionView {
        seq: s.seq.wrapping_add(sent as u16),
        ts: if sent == KEY_PACKETS {
            s.ts.wrapping_add(duration as u32)
        } else {
            s.ts
        },
        ..s
    }
}

/// The durations in the packets of a key.
pub open spec fn ramp(i: int, duration: u16) -> u16 {
    if i == 0 {
        160
    } else if i == 1 {
        320
    } else {
        duration
    }
}

/// The packets that report a key: they have the time at which it began; the
/// first has the marker, and the last the end flag.
pub open spec fn key_packets(s: SessionView, event: u8, pt: u8, duration: u16) -> Seq<PacketView> {
    Seq::new(
        KEY_PACKETS as nat,
        |i: int|
            next_packet(
                SessionView { seq: s.seq.wrapping_add(i as u16), ..s },
                pt,
                s.ts,
                i == 0,
                dtmf_payload(event, i == KEY_PACKETS - 1, ramp(i, duration)),
            ),
    )
}

/// The bytes of packets.
pub open spec fn datagrams(ps: Seq<PacketView>) -> Seq<Seq<u8>> {
    Seq::new(ps.len(), |i: int| packet_bytes(ps[i]))
}

/// Byte strings, as sequences.
pub open spec fn byte_views(v: Seq<Vec<u8>>) -> Seq<Seq<u8>> {
    Seq::new(v.len(), |i: int| v[i]@)
}

impl RtpSession {
    /// What holds of every session.
    pub closed spec fn wf(&self) -> bool {
        self.codec.spec_codec() == self.config.codec
    }

    /// A session that is bound to `local_addr`.
    pub fn new(config: SessionConfig, local_addr: Endpoint) -> (r: Self)
        ensures
            r.wf(),
            r@ == (SessionView {
                local: local_addr@,
                remote: config.remote_addr@,
                codec: config.codec,
                ssrc: config.ssrc,
                jitter_buffer_size: config.jitter_buffer_size as nat,
                seq: 0,
                ts: 0,
                queue: seq![],
            }),
    {
        let codec = CodecPipeline::new(config.codec);
        let r = RtpSession {
            config,
            codec,
            sequence_number: 0,
            timestamp: 0,
            local_addr,
            dtmf_queue: VecDeque::new(),
        };
        assert(r@.queue =~= seq![]);
        r
    }

    pub fn local_addr(&self) -> (r: Endpoint)
        ensures
            r@ == self@.local,
    {
        self.local_addr.clone()
    }

    pub fn remote_addr(&self) -> (r: Endpoint)
        ensures
            r@ == self@.remote,
    {
        self.config.remote_addr.clone()
    }

    /// Sets where packets are sent.
    pub fn set_remote_addr(&mut self, addr: Endpoint)
        requires
            old(self).wf(),
        ensures
            final(self).wf(),
            final(self)@ == (SessionView { remote: addr@, ..old(self)@ }),
    {
        self.config.remote_addr = addr;
    }

    /// The bytes of the packet with a frame of audio.
    pub fn audio_packet(&mut self, pcm_samples: &[i16]) -> (r: Result<Vec<u8>, SessionError>)
        requires
            old(self).wf(),
        ensures
            final(self).wf(),
            final(self)@ == old(self)@,
            r is Ok,
            (r->Ok_0)@ == packet_bytes(
                audio_view(old(self)@, encoded(old(self)@.codec, pcm_samples@)),
            ),
    {
        self.audio_packet_with(pcm_samples, OpusFrame::Absent)
    }

    /// The bytes of the next packet of audio, where the codec is Opus with what
    /// its encoder made of the samples.
    pub fn audio_packet_with(&mut self, pcm_samples: &[i16], opus: OpusFrame) -> (r: Result<
        Vec<u8>,
        SessionError,
    >)
        requires
            old(self).wf(),
        ensures
            final(self).wf(),
            final(self)@ == old(self)@,
            match payload_of(old(self)@.codec, pcm_samples@, opus@) {
                Ok(payload) => r is Ok && (r->Ok_0)@ == packet_bytes(
                    audio_view(old(self)@, payload),
                ),
                Err(e) => r is Err && (r->Err_0)@ == SessionErrorView::Codec(e),
            },
    {
        match self.codec.encode_with(pcm_samples, opus) {
            Ok(payload) => {
                let packet = RtpPacket::new(
                    self.config.codec.payload_type(),
                    self.sequence_number,
                    self.timestamp,
                    self.config.ssrc,
                ).with_payload(payload);
                Ok(packet.serialize())
            },
            Err(e) => Err(SessionError::Codec(e)),
        }
    }

    /// Notes that a frame of audio has been sent.
    pub fn audio_sent(&mut self)
        requires
            old(self).wf(),
        ensures
            final(self).wf(),
            final(self)@ == after_audio(old(self)@),
    {
        self.sequence_number = self.sequence_number.wrapping_add(1);
        self.timestamp = self.timestamp.wrapping_add(self.config.codec.samples_per_frame() as u32);
    }

    /// The bytes of packet `i` of those that report a key.
    fn key_packet(&self, event: u8, payload_type: u8, i: u16, duration: u16) -> (r: Vec<u8>)
        requires
            i < KEY_PACKETS,
        ensures
            r@ == packet_bytes(key_packets(self@, event, payload_type, duration)[i as int]),
    {
        let end: bool = i == 2;
        let dur: u16 = if i == 0 {
            160
        } else if i == 1 {
            320
        } else {
            duration
        };
        let flags: u8 = if end {
            138
        } else {
            10
        };
        let mut payload: Vec<u8> = Vec::new();
        payload.push(event);
        payload.push(flags);
        payload.push((dur / 256) as u8);
        payload.push((dur % 256) as u8);
        assert(payload@ =~= dtmf_payload(event, end, ramp(i as int, duration)));
        let packet = RtpPacket::new(
            payload_type,
            self.sequence_number.wrapping_add(i),
            self.timestamp,
            self.config.ssrc,
        ).with_marker(i == 0).with_payload(payload);
        packet.serialize()
    }

    /// The packets that report a key, in the order in which they are sent.
    pub fn key_packets(&self, digit: char, payload_type: u8, duration: u16) -> (r: Result<
        Vec<Vec<u8>>,
        SessionError,
    >)
        ensures
            match r {
                Ok(v) => dtmf_event(digit) is Some && byte_views(v@) == datagrams(
                    key_packets(self@, dtmf_event(digit)->0, payload_type, duration),
                ),
                Err(e) => dtmf_event(digit) is None && e@ == SessionErrorView::InvalidDtmfDigit(
                    digit,
                ),
            },
    {
        let event: u8 = match dtmf_digit_to_event(digit) {
            Some(e) => e,
            None => {
                return Err(SessionError::InvalidDtmfDigit(digit));
            },
        };
        let mut out: Vec<Vec<u8>> = Vec::new();
        out.push(self.key_packet(event, payload_type, 0, duration));
        out.push(self.key_packet(event, payload_type, 1, duration));
        out.push(self.key_packet(event, payload_type, 2, duration));
        assert(byte_views(out@) =~= datagrams(
            key_packets(self@, event, payload_type, duration),
        ));
        Ok(out)
    }

    /// Notes that so many packets of a key have been sent.
    pub fn key_sent(&mut self, sent: usize, duration: u16)
        requires
            old(self).wf(),
            sent <= KEY_PACKETS,
        ensures
            final(self).wf(),
            final(self)@ == after_key(old(self)@, sent as nat, duration),
    {
        self.sequence_number = self.sequence_number.wrapping_add(sent as u16);
        if sent == KEY_PACKETS {
            self.timestamp = self.timestamp.wrapping_add(duration as u32);
        }
    }

    /// Queues the keys in a text, up to the first character that is none; says
    /// how many there are.
    pub fn queue_rfc2833_digits(&mut self, digits: &str) -> (r: Result<usize, SessionError>)
        requires
            old(self).wf(),
        ensures
            final(self).wf(),
            final(self)@ == (SessionView {
                queue: old(self)@.queue + keys_of(digits@),
                ..old(self)@
            }),
            match r {
                Ok(n) => bad_key(digits@) is None && n == keys_of(digits@).len(),
                Err(e) => bad_key(digits@) is Some && e@ == SessionErrorView::InvalidDtmfDigit(
                    bad_key(digits@)->0,
                ),
            },
    {
        let cs = chars_of(digits);
        let n: usize = cs.len();
        let mut queued: usize = 0;
        let mut i: usize = 0;
        assert(cs@.skip(0) =~= cs@);
        assert(self@.queue + keys_of(cs@) =~= old(self)@.queue + keys_of(digits@));
        while i < n
            invariant
                n == cs@.len(),
                cs@ == digits@,
                i <= n,
                queued <= i,
                self.wf(),
                self@ == (SessionView { queue: self@.queue, ..old(self)@ }),
                self@.queue + keys_of(cs@.skip(i as int)) == old(self)@.queue + keys_of(digits@),
                queued + keys_of(cs@.skip(i as int)).len() == keys_of(digits@).len(),
                bad_key(cs@.skip(i as int)) == bad_key(digits@),
            decreases n - i,
        {
            let c = cs[i];
            proof {
                assert(cs@.skip(i as int)[0] == c);
                assert(cs@.skip(i as int).skip(1) =~= cs@.skip(i + 1));
            }
            if !is_space_char(c) {
                match validate_dtmf_digit(c) {
                    Ok(_) => {},
                    Err(e) => {
                        assert(self@.queue + keys_of(cs@.skip(i as int)) =~= self@.queue);
                        return Err(e);
                    },
                }
                let ghost before = self@.queue;
                let q = QueuedDtmf {
                    digit: ascii_upper_char(c),
                    duration_samples: DTMF_DURATION,
                };
                self.dtmf_queue.push_back(q);
                queued = queued + 1;
                assert(self@.queue =~= before.push(q));
                assert(self@.queue + keys_of(cs@.skip(i + 1)) =~= before + (seq![q] + keys_of(
                    cs@.skip(i + 1),
                )));
            }
            i = i + 1;
        }
        assert(self@.queue + keys_of(cs@.skip(n as int)) =~= self@.queue);
        Ok(queued)
    }

    /// The number of keys that wait to be sent.
    pub fn queued_rfc2833_digits(&self) -> (r: usize)
        ensures
            r == self@.queue.len(),
    {
        self.dtmf_queue.len()
    }

    /// Takes the next key that waits to be sent.
    pub fn take_queued(&mut self) -> (r: Option<QueuedDtmf>)
        requires
            old(self).wf(),
        ensures
            final(self).wf(),
            match r {
                Some(q) => old(self)@.queue.len() > 0 && q == old(self)@.queue[0] && final(self)@
                    == (SessionView { queue: old(self)@.queue.skip(1), ..old(self)@ }),
                None => old(self)@.queue.len() == 0 && final(self)@ == old(self)@,
            },
    {
        let r = self.dtmf_queue.pop_front();
        proof {
            if r is Some {
                assert(self@.queue =~= old(self)@.queue.skip(1));
            } else {
                assert(self@.queue =~= old(self)@.queue);
            }
        }
        r
    }

    /// Whether to wait before the next key is sent.
    pub fn needs_gap(&self, inter_digit_gap_ms: u64) -> (r: bool)
        ensures
            r == (self@.queue.len() > 0 && inter_digit_gap_ms > 0),
    {
        self.dtmf_queue.len() > 0 && inter_digit_gap_ms > 0
    }

    /// The samples in a packet.
    pub fn decode_packet(&mut self, packet: &RtpPacket) -> (r: Result<Vec<i16>, SessionError>)
        requires
            old(self).wf(),
        ensures
            final(self).wf(),
            final(self)@ == old(self)@,
            match decoded(old(self)@.codec, packet@.payload) {
                Ok(s) => r is Ok && (r->Ok_0)@ == s,
                Err(e) => r is Err && (r->Err_0)@ == SessionErrorView::Codec(e),
            },
    {
        self.decode_packet_with(packet, OpusSamples::Absent)
    }

    /// The samples of a packet, where the codec is Opus with what its decoder
    /// made of the payload.
    pub fn decode_packet_with(&mut self, packet: &RtpPacket, opus: OpusSamples) -> (r: Result<
        Vec<i16>,
        SessionError,
    >)
        requires
            old(self).wf(),
        ensures
            final(self).wf(),
            final(self)@ == old(self)@,
            match samples_of(old(self)@.codec, packet@.payload, opus@) {
                Ok(s) => r is Ok && (r->Ok_0)@ == s,
                Err(e) => r is Err && (r->Err_0)@ == SessionErrorView::Codec(e),
            },
    {
        match self.codec.decode_with(packet.payload.as_slice(), opus) {
            Ok(v) => Ok(v),
            Err(e) => Err(SessionError::Codec(e)),
        }
    }

    /// A frame of silence.
    pub fn silence_frame(&self) -> (r: Vec<u8>)
        requires
            self.wf(),
        ensures
            r@ == silence(self@.codec),
    {
        self.codec.silence_frame()
    }

    pub fn stats(&self) -> (r: SessionStats)
        ensures
            r.local_addr@ == self@.local,
            r.remote_addr@ == self@.remote,
            r.codec == self@.codec,
            r.ssrc == self@.ssrc,
            r.packets_sent == self@.seq,
    {
        SessionStats {
            local_addr: self.local_addr.clone(),
            remote_addr: self.config.remote_addr.clone(),
            codec: self.config.codec,
            ssrc: self.config.ssrc,
            packets_sent: self.sequence_number as u64,
        }
    }

    pub fn codec(&self) -> (r: &CodecPipeline)
        requires
            self.wf(),
        ensures
            r.spec_codec() == self@.codec,
    {
        &self.codec
    }

    /// The receiving side of the session, with the payload type of telephone
    /// events if there is one.
    pub fn receiver(&self, dtmf_payload_type: Option<u8>) -> (r: RtpReceiver)
        ensures
            r.wf(),
            r@ == (ReceiverView {
                codec: self@.codec,
                jitter: JitterView {
                    buffer: Map::empty(),
                    capacity: self@.jitter_buffer_size,
                    next: None,
                    received: 0,
                    dropped: 0,
                },
                source_ip: self@.remote.ip,
                dtmf_type: dtmf_payload_type,
            }),
    {
        RtpReceiver {
            codec: CodecPipeline::new(self.config.codec),
            jitter: JitterBuffer::new(self.config.jitter_buffer_size),
            source_ip: self.config.remote_addr.ip.clone(),
            dtmf_type: dtmf_payload_type,
        }
    }
}

// ---------------------------------------------------------------------------
// Receiving
// ---------------------------------------------------------------------------

/// What comes out of a session.
#[derive(Debug, PartialEq, Eq)]
pub enum ReceiveEvent {
    Audio(Vec<i16>),
    Dtmf(DtmfEvent),
}

pub enum EventView {
    Audio(Seq<i16>),
    Dtmf(DtmfEvent),
}

impl View for ReceiveEvent {
    type V = EventView;

    open spec fn view(&self) -> EventView {
        match *self {
            ReceiveEvent::Audio(v) => EventView::Audio(v@),
            ReceiveEvent::Dtmf(e) => EventView::Dtmf(e),
        }
    }
}

/// Whether a payload type collides with the packet types of RTCP (RFC 5761).
pub open spec fn rtcp_type(pt: u8) -> bool {
    64 <= pt <= 95
}

/// Whether a payload type collides with the packet types of RTCP (RFC 5761).
pub fn is_rtcp_type(pt: u8) -> (r: bool)
    ensures
        r == rtcp_type(pt),
{
    pt >= 64 && pt <= 95
}

/// The receiving side of a session.
pub struct RtpReceiver {
    codec: CodecPipeline,
    jitter: JitterBuffer,
    source_ip: String,
    dtmf_type: Option<u8>,
}

/// What an `RtpReceiver` holds.
pub struct ReceiverView {
    pub codec: CodecType,
    pub jitter: JitterView,
    pub source_ip: Seq<char>,
    pub dtmf_type: Option<u8>,
}

impl View for RtpReceiver {
    type V = ReceiverView;

    closed spec fn view(&self) -> ReceiverView {
        ReceiverView {
            codec: self.codec.spec_codec(),
            jitter: self.jitter@,
            source_ip: self.source_ip@,
            dtmf_type: self.dtmf_type,
        }
    }
}

/// What becomes of a datagram.
pub enum Fate {
    /// It comes from elsewhere, is no RTP packet, is one of RTCP, or has a
    /// payload type that the session does not expect.
    Ignored,
    /// It reports a key of the telephone, or tries to.
    Key(PacketView),
    /// It is a packet of audio.
    Media(PacketView),
}

/// What becomes of a datagram from `ip`.
pub open spec fn fate(v: ReceiverView, ip: Seq<char>, data: Seq<u8>) -> Fate {
    if ip != v.source_ip {
        Fate::Ignored
    } else {
        match parse_packet(data) {
            Err(_) => Fate::Ignored,
            Ok(p) => if rtcp_type(p.payload_type) {
                Fate::Ignored
            } else if v.dtmf_type == Some(p.payload_type) {
                Fate::Key(p)
            } else if p.payload_type != v.codec.spec_payload_type() {
                Fate::Ignored
            } else {
                Fate::Media(p)
            },
        }
    }
}

/// The receiver after a datagram: a packet of audio goes into the jitter
/// buffer, and one is taken out.
pub open spec fn after_datagram(v: ReceiverView, ip: Seq<char>, data: Seq<u8>) -> ReceiverView {
    match fate(v, ip, data) {
        Fate::Media(p) => ReceiverView { jitter: popped(inserted(v.jitter, p)), ..v },
        _ => v,
    }
}

/// What a datagram brings out of a receiver: a key, or a packet whose payload
/// is to be decoded.
#[derive(Debug)]
pub enum Taken {
    Key(DtmfEvent),
    Frame(RtpPacket),
}

pub enum TakenView {
    Key(DtmfEvent),
    Frame(PacketView),
}

impl View for Taken {
    type V = TakenView;

    open spec fn view(&self) -> TakenView {
        match *self {
            Taken::Key(e) => TakenView::Key(e),
            Taken::Frame(p) => TakenView::Frame(p@),
        }
    }
}

/// What a datagram brings out of a receiver.
pub open spec fn taken_of(v: ReceiverView, ip: Seq<char>, data: Seq<u8>) -> Option<TakenView> {
    match fate(v, ip, data) {
        Fate::Ignored => None,
        Fate::Key(p) => match event_in(p) {
            Some(e) => Some(TakenView::Key(e)),
            None => None,
        },
        Fate::Media(p) => match front(inserted(v.jitter, p)) {
            Some(q) => Some(TakenView::Frame(q)),
            None => None,
        },
    }
}

/// What is heard of a packet: nothing where its payload cannot be decoded.
pub open spec fn heard(c: CodecType, p: PacketView, opus: OpusSamplesView) -> Option<EventView> {
    match samples_of(c, p.payload, opus) {
        Ok(s) => Some(EventView::Audio(s)),
        Err(_) => None,
    }
}

/// What comes out of a receiver for a datagram.
pub open spec fn event_of(v: ReceiverView, ip: Seq<char>, data: Seq<u8>) -> Option<EventView> {
    match taken_of(v, ip, data) {
        None => None,
        Some(TakenView::Key(e)) => Some(EventView::Dtmf(e)),
        Some(TakenView::Frame(p)) => heard(v.codec, p, OpusSamplesView::Absent),
    }
}

impl RtpReceiver {
    /// What holds of every receiver.
    pub open spec fn wf(&self) -> bool {
        self@.jitter.wf()
    }

    /// Takes in a datagram from `source_ip`; gives what it brings out.
    pub fn take_in(&mut self, source_ip: &str, data: &[u8]) -> (r: Option<Taken>)
        requires
            old(self).wf(),
            old(self)@.jitter.received < u64::MAX,
        ensures
            final(self).wf(),
            final(self)@ == after_datagram(old(self)@, source_ip@, data@),
            match r {
                Some(e) => taken_of(old(self)@, source_ip@, data@) == Some(e@),
                None => taken_of(old(self)@, source_ip@, data@) is None,
            },
    {
        if !same_text(source_ip, self.source_ip.as_str()) {
            return None;
        }
        let packet = match RtpPacket::parse(data) {
            Ok(p) => p,
            Err(_) => {
                return None;
            },
        };
        if is_rtcp_type(packet.payload_type) {
            return None;
        }
        if let Some(pt) = self.dtmf_type {
            if packet.payload_type == pt {
                return match parse_rfc2833_event(&packet) {
                    Some(e) => Some(Taken::Key(e)),
                    None => None,
                };
            }
        }
        let codec = self.codec.codec_type();
        if packet.payload_type != codec.payload_type() {
            return None;
        }
        self.jitter.insert(packet);
        match self.jitter.pop() {
            Some(p) => Some(Taken::Frame(p)),
            None => None,
        }
    }

    /// Decodes a packet, where the codec is Opus with what its decoder made of
    /// the payload.
    pub fn hear(&mut self, packet: &RtpPacket, opus: OpusSamples) -> (r: Option<ReceiveEvent>)
        requires
            old(self).wf(),
        ensures
            final(self).wf(),
            final(self)@ == old(self)@,
            match r {
                Some(e) => heard(old(self)@.codec, packet@, opus@) == Some(e@),
                None => heard(old(self)@.codec, packet@, opus@) is None,
            },
    {
        match self.codec.decode_with(packet.payload.as_slice(), opus) {
            Ok(samples) => Some(ReceiveEvent::Audio(samples)),
            Err(_) => None,
        }
    }

    /// Takes in a datagram from `source_ip`; gives what comes out without an
    /// Opus library.
    pub fn receive(&mut self, source_ip: &str, data: &[u8]) -> (r: Option<ReceiveEvent>)
        requires
            old(self).wf(),
            old(self)@.jitter.received < u64::MAX,
        ensures
            final(self).wf(),
            final(self)@ == after_datagram(old(self)@, source_ip@, data@),
            match r {
                Some(e) => event_of(old(self)@, source_ip@, data@) == Some(e@),
                None => event_of(old(self)@, source_ip@, data@) is None,
            },
    {
        match self.take_in(source_ip, data) {
            None => None,
            Some(Taken::Key(e)) => Some(ReceiveEvent::Dtmf(e)),
            Some(Taken::Frame(p)) => self.hear(&p, OpusSamples::Absent),
        }
    }

    /// The jitter buffer.
    pub fn jitter(&self) -> (r: &JitterBuffer)
        ensures
            r@ == self@.jitter,
    {
        &self.jitter
    }
}

// ---------------------------------------------------------------------------
// Laws
// ---------------------------------------------------------------------------

/// A key is sent as three packets with consecutive numbers and the time at which
/// it began. The first alone has the marker, the last alone says that the key was
/// let go, and how long it was held. When all are sent, the number behind the
/// last is next, and the clock has moved on by the duration; where sending breaks
/// off, the clock stays.
pub proof fn law_key_is_three_packets(s: SessionView, digit: char, pt: u8, duration: u16)
    requires
        dtmf_event(digit) is Some,
    ensures
        ({
            let ps = key_packets(s, dtmf_event(digit)->0, pt, duration);
            &&& ps.len() == 3
            &&& forall|i: int|
                0 <= i < 3 ==> {
                    let p = #[trigger] ps[i];
                    &&& p.payload_type == pt && p.ssrc == s.ssrc
                    &&& p.sequence_number == s.seq.wrapping_add(i as u16)
                    &&& p.timestamp == s.ts
                    &&& p.marker == (i == 0)
                    &&& event_in(p) == Some(
                        DtmfEvent {
                            digit: ascii_upper(digit),
                            end: i == 2,
                            duration: ramp(i, duration),
                            volume: 10,
                            sequence_number: p.sequence_number,
                            timestamp: s.ts,
                        },
                    )
                }
            &&& ramp(2, duration) == duration
            &&& after_key(s, 3, duration).seq == s.seq.wrapping_add(3)
            &&& after_key(s, 3, duration).ts == s.ts.wrapping_add(duration as u32)
            &&& forall|sent: nat|
                sent < 3 ==> #[trigger] after_key(s, sent, duration) == (SessionView {
                    seq: s.seq.wrapping_add(sent as u16),
                    ..s
                })
        }),
{
    let ps = key_packets(s, dtmf_event(digit)->0, pt, duration);
    assert forall|i: int| 0 <= i < 3 implies event_in(#[trigger] ps[i]) == Some(
        DtmfEvent {
            digit: ascii_upper(digit),
            end: i == 2,
            duration: ramp(i, duration),
            volume: 10,
            sequence_number: ps[i].sequence_number,
            timestamp: s.ts,
        },
    ) by {
        law_dtmf_reads_back(ps[i], digit, i == 2, ramp(i, duration));
    }
}

/// A packet of RTCP is never taken for audio: it changes nothing, and nothing
/// comes out.
pub proof fn law_rtcp_ignored(v: ReceiverView, ip: Seq<char>, data: Seq<u8>)
    requires
        parse_packet(data) is Ok,
        rtcp_type((parse_packet(data)->Ok_0).payload_type),
    ensures
        after_datagram(v, ip, data) == v,
        event_of(v, ip, data) is None,
{
}

/// A packet of a payload type that was not agreed on, or from elsewhere,
/// changes nothing, and nothing comes out.
pub proof fn law_stray_ignored(v: ReceiverView, ip: Seq<char>, data: Seq<u8>)
    requires
        ip != v.source_ip || (parse_packet(data) is Ok && (parse_packet(data)->Ok_0).payload_type
            != v.codec.spec_payload_type() && v.dtmf_type != Some(
            (parse_packet(data)->Ok_0).payload_type,
        )),
    ensures
        after_datagram(v, ip, data) == v,
        event_of(v, ip, data) is None,
{
}

/// With each frame of audio, the clock moves on by the samples of twenty
/// milliseconds, and the sequence number by one.
pub proof fn law_clock_of_audio(s: SessionView)
    ensures
        after_audio(s).ts == s.ts.wrapping_add((s.codec.spec_clock_rate() / 50) as u32),
        after_audio(s).seq == s.seq.wrapping_add(1),
        after_audio(s).ssrc == s.ssrc,
        after_audio(s).queue == s.queue,
{
}

/// The payload types that the library uses itself are none of RTCP.
pub proof fn law_own_types_pass(c: CodecType)
    ensures
        !rtcp_type(c.spec_payload_type()),
        !rtcp_type(101),
{
}

} // verus!
