//! What a call of each operation on media gives, whoever makes it: in each law the
//! calls that it speaks of stand among its conditions.
use super::audio_device::{name_has, select_device, DevicePick, DeviceSelector, SelectorView};
use super::codec::{linear_to_alaw, linear_to_ulaw, ulaw_to_linear};
use super::jitter::JitterBuffer;
use super::laws::{
    law_alaw_code, law_key_numbers, law_key_payloads, law_packet_layout, law_packet_read,
    law_ulaw_code, law_ulaw_meaning,
};
use super::packet::{
    packet_bytes, push_be16, push_be32, read_be16, read_be32, PacketView, RtpError, RtpPacket,
};
use super::session::{
    byte_views, datagrams, dtmf_event, key_packets, QueuedDtmf, RtpReceiver, RtpSession,
    SessionConfig, SessionError,
};
use super::wav::AudioRecorder;
use crate::net::Endpoint;
use crate::text::contains_text;
use vstd::arithmetic::power2::pow2;
use vstd::prelude::*;

verus! {

// ---------------------------------------------------------------------------
// Packets
// ---------------------------------------------------------------------------

/// A number goes behind what is there in network order: the bytes, the most
/// significant first, are worth it.
pub proof fn law_pushed_numbers(a: &mut Vec<u8>, x: u16, b: &mut Vec<u8>, y: u32)
    requires
        call_ensures(push_be16, (a, x), ()),
        call_ensures(push_be32, (b, y), ()),
    ensures
        ({
            let n = old(a)@.len() as int;
            let d = final(a)@;
            &&& d.len() == n + 2
            &&& d.subrange(0, n) == old(a)@
            &&& d[n] * 0x100 + d[n + 1] == x
        }),
        ({
            let n = old(b)@.len() as int;
            let d = final(b)@;
            &&& d.len() == n + 4
            &&& d.subrange(0, n) == old(b)@
            &&& d[n] * 0x100_0000 + d[n + 1] * 0x1_0000 + d[n + 2] * 0x100 + d[n + 3] == y
        }),
{
    let n = old(a)@.len() as int;
    let m = old(b)@.len() as int;
    assert(final(a)@.subrange(0, n) =~= old(a)@);
    assert(final(b)@.subrange(0, m) =~= old(b)@);
    assert(y == (y / 16777216) * 16777216 + ((y / 65536) % 256) * 65536 + ((y / 256) % 256) * 256
        + y % 256);
}

/// A number is read in network order from where it stands.
pub proof fn law_read_numbers(d: &[u8], i: usize, x: u16, y: u32)
    requires
        i + 4 <= d@.len(),
        call_ensures(read_be16, (d, i), x),
        call_ensures(read_be32, (d, i), y),
    ensures
        x == d@[i as int] * 0x100 + d@[i + 1],
        y == d@[i as int] * 0x100_0000 + d@[i + 1] * 0x1_0000 + d@[i + 2] * 0x100 + d@[i + 3],
{
}

/// What a packet is sent as: each field at its place, in numbers.
pub proof fn law_packet_sent(p: &RtpPacket, bytes: Vec<u8>, i: int)
    requires
        call_ensures(RtpPacket::serialize, (p,), bytes),
        p@.version < 4,
        p@.payload_type < 128,
        p@.csrc.len() < 16,
    ensures
        ({
            let d = bytes@;
            &&& d.len() == 12 + 4 * p@.csrc.len() + p@.payload.len()
            &&& d[0] / 64 == p@.version
            &&& d[1] >= 128 <==> p@.marker
            &&& d[1] % 128 == p@.payload_type
            &&& d[2] * 0x100 + d[3] == p@.sequence_number
            &&& d[4] * 0x100_0000 + d[5] * 0x1_0000 + d[6] * 0x100 + d[7] == p@.timestamp
            &&& d[8] * 0x100_0000 + d[9] * 0x1_0000 + d[10] * 0x100 + d[11] == p@.ssrc
            &&& 0 <= i < p@.payload.len() ==> d[12 + 4 * p@.csrc.len() + i] == p@.payload[i]
        }),
{
    law_packet_layout(p@, i);
}

/// What bytes are read as: a packet of version 2 with the numbers that stand in them.
pub proof fn law_packet_received(bytes: &[u8], r: Result<RtpPacket, RtpError>)
    requires
        call_ensures(RtpPacket::parse, (bytes,), r),
    ensures
        ({
            let d = bytes@;
            &&& r is Ok <==> d.len() >= 12 && d[0] / 64 == 2 && d.len() >= 12 + 4 * (d[0] % 16)
            &&& r matches Ok(p) ==> {
                &&& p@.marker <==> d[1] >= 128
                &&& p@.payload_type == d[1] % 128
                &&& p@.sequence_number == d[2] * 0x100 + d[3]
                &&& p@.timestamp == d[4] * 0x100_0000 + d[5] * 0x1_0000 + d[6] * 0x100 + d[7]
                &&& p@.ssrc == d[8] * 0x100_0000 + d[9] * 0x1_0000 + d[10] * 0x100 + d[11]
                &&& p@.csrc.len() == d[0] % 16
            }
        }),
{
    law_packet_read(bytes@, 0);
}

/// A new packet is plain: version 2, no mark, nothing in it, and the numbers that it
/// was given.
pub proof fn law_new_packet(
    payload_type: u8,
    sequence_number: u16,
    timestamp: u32,
    ssrc: u32,
    p: RtpPacket,
)
    requires
        call_ensures(RtpPacket::new, (payload_type, sequence_number, timestamp, ssrc), p),
    ensures
        p@.version == 2,
        !p@.padding && !p@.extension && !p@.marker,
        p@.payload_type == payload_type,
        p@.sequence_number == sequence_number,
        p@.timestamp == timestamp,
        p@.ssrc == ssrc,
        p@.csrc.len() == 0 && p@.payload.len() == 0,
{
}

// ---------------------------------------------------------------------------
// Codecs
// ---------------------------------------------------------------------------

/// A sample of mu-law: the sign, the segment that its magnitude plus 132 lies in and
/// the step of it, all bits inverted; what is read back is no further off than half
/// that step, where the magnitude is within range.
pub proof fn law_ulaw_calls(s: i16, b: u8, back: i16)
    requires
        call_ensures(linear_to_ulaw, (s,), b),
        call_ensures(ulaw_to_linear, (b,), back),
    ensures
        ({
            let u = 255 - b;
            let e = ((u / 16) % 8) as nat;
            let m = u % 16;
            let abs = if s < 0 {
                -(s as int)
            } else {
                s as int
            };
            let v = 132 + if abs > 32635 {
                32635
            } else {
                abs
            };
            let far = v - (132 + if back < 0 {
                -(back as int)
            } else {
                back as int
            });
            &&& u >= 128 <==> s < 0
            &&& 128 * pow2(e) <= v < 256 * pow2(e)
            &&& (16 + m) * (8 * pow2(e)) <= v < (17 + m) * (8 * pow2(e))
            &&& -4 * pow2(e) <= far < 4 * pow2(e)
        }),
{
    law_ulaw_code(s);
    law_ulaw_meaning(b);
    let e = (((255 - b) / 16) % 8) as nat;
    let m = (255 - b) % 16;
    assert((17 + m) * (8 * pow2(e)) == (16 + m) * (8 * pow2(e)) + 8 * pow2(e)) by (nonlinear_arith);
}

/// A sample of A-law: the sign, the segment that its magnitude lies in and the step
/// of it, every second bit inverted.
pub proof fn law_alaw_calls(s: i16, b: u8)
    requires
        call_ensures(linear_to_alaw, (s,), b),
    ensures
        ({
            let u = b ^ 0x55;
            let e = ((u / 16) % 8) as nat;
            let m = (u % 16) as int;
            let abs = if s < 0 {
                -(s as int)
            } else {
                s as int
            };
            let v = if abs > 32767 {
                32767
            } else {
                abs
            };
            &&& u >= 128 <==> s >= 0
            &&& e == 0 ==> 16 * m <= v < 16 * m + 16
            &&& e > 0 ==> 128 * pow2(e) <= v < 256 * pow2(e)
            &&& e > 0 ==> (16 + m) * (8 * pow2(e)) <= v < (17 + m) * (8 * pow2(e))
        }),
{
    law_alaw_code(s);
}

// ---------------------------------------------------------------------------
// Sessions
// ---------------------------------------------------------------------------

/// A session begins at number and time zero with what it was set up for, and with no
/// key waiting; its receiver hears its codec, the address it sends to, and keys by
/// the number that was agreed.
pub proof fn law_session_begins(
    config: SessionConfig,
    local: Endpoint,
    s: RtpSession,
    dtmf: Option<u8>,
    r: RtpReceiver,
)
    requires
        call_ensures(RtpSession::new, (config, local), s),
        call_ensures(RtpSession::receiver, (&s, dtmf), r),
    ensures
        s@.local == local@,
        s@.remote == config.remote_addr@,
        s@.codec == config.codec,
        s@.ssrc == config.ssrc,
        s@.seq == 0 && s@.ts == 0 && s@.queue.len() == 0,
        r@.codec == config.codec,
        r@.source_ip == config.remote_addr@.ip,
        r@.dtmf_type == dtmf,
        r@.jitter.capacity == config.jitter_buffer_size,
        r@.jitter.next is None && r@.jitter.received == 0 && r@.jitter.dropped == 0,
        r@.jitter.buffer == Map::<u16, PacketView>::empty(),
{
}

/// Keys leave the queue in the order in which they came.
pub proof fn law_first_key_first(s: &mut RtpSession, r: Option<QueuedDtmf>)
    requires
        call_ensures(RtpSession::take_queued, (s,), r),
    ensures
        old(s)@.queue.len() > 0 ==> r == Some(old(s)@.queue[0]) && final(s)@.queue
            == old(s)@.queue.skip(1),
        old(s)@.queue.len() == 0 ==> r is None && final(s)@.queue.len() == 0,
        final(s)@.seq == old(s)@.seq && final(s)@.ts == old(s)@.ts && final(s)@.remote == old(
            s,
        )@.remote,
{
}

/// The packets of a key go by the number that they are sent with: in each, the key,
/// the time at which it began and the session's source stand in the bytes.
pub proof fn law_key_sent_as(
    s: &RtpSession,
    digit: char,
    payload_type: u8,
    duration: u16,
    r: Result<Vec<Vec<u8>>, SessionError>,
    i: int,
)
    requires
        call_ensures(RtpSession::key_packets, (s, digit, payload_type, duration), r),
        payload_type < 128,
        0 <= i < 3,
    ensures
        '0' <= digit <= '9' || digit == '*' || digit == '#' || 'A' <= digit <= 'D' || 'a' <= digit
            <= 'd' <==> r is Ok,
        r matches Ok(v) ==> {
            let d = v@[i]@;
            &&& v@.len() == 3
            &&& d.len() == 16
            &&& d[1] % 128 == payload_type
            &&& d[1] >= 128 <==> i == 0
            &&& d[2] * 0x100 + d[3] == (s@.seq + i) % 0x1_0000
            &&& d[4] * 0x100_0000 + d[5] * 0x1_0000 + d[6] * 0x100 + d[7] == s@.ts
            &&& d[8] * 0x100_0000 + d[9] * 0x1_0000 + d[10] * 0x100 + d[11] == s@.ssrc
            &&& '0' <= digit <= '9' ==> d[12] == digit as u32 - '0' as u32
            &&& digit == '*' ==> d[12] == 10
            &&& digit == '#' ==> d[12] == 11
            &&& 'A' <= digit <= 'D' ==> d[12] == digit as u32 - 'A' as u32 + 12
            &&& d[13] >= 128 <==> i == 2
        },
{
    law_key_numbers(digit);
    if let Ok(v) = r {
        let event = dtmf_event(digit)->0;
        let ps = key_packets(s@, event, payload_type, duration);
        law_key_payloads(s@, event, payload_type, duration, i);
        law_packet_layout(ps[i], 0);
        law_packet_layout(ps[i], 1);
        assert(datagrams(ps)[i] == packet_bytes(ps[i]));
        assert(byte_views(v@).len() == v@.len());
        assert(datagrams(ps).len() == 3);
        assert(byte_views(v@)[i] == v@[i]@);
    }
}

// ---------------------------------------------------------------------------
// Recording
// ---------------------------------------------------------------------------

/// A recording holds all that was given to it, in its order, at the rate at which it
/// was begun; its length in time follows from both.
pub proof fn law_recording(
    rate: u32,
    fresh: AudioRecorder,
    rec: &mut AudioRecorder,
    frame: &[i16],
    other: &AudioRecorder,
    ms: u64,
    frames: usize,
)
    requires
        call_ensures(AudioRecorder::new, (rate,), fresh),
        call_ensures(AudioRecorder::record_frame, (rec, frame), ()),
        call_ensures(AudioRecorder::duration_ms, (other,), ms),
        call_ensures(AudioRecorder::frame_count, (other,), frames),
        other.spec_rate() == 8000,
    ensures
        fresh.spec_samples().len() == 0,
        fresh.spec_rate() == rate,
        final(rec).spec_samples() == old(rec).spec_samples() + frame@,
        final(rec).spec_rate() == old(rec).spec_rate(),
        ms == other.spec_samples().len() / 8,
        frames == other.spec_samples().len() / 160,
{
    let n = other.spec_samples().len() as int;
    assert(n * 1000 / 8000 == n / 8);
}

/// A buffer that is emptied keeps its counts and begins anew.
pub proof fn law_buffer_reset(j: &mut JitterBuffer)
    requires
        call_ensures(JitterBuffer::reset, (j,), ()),
    ensures
        final(j)@.buffer.dom() == Set::<u16>::empty(),
        final(j)@.next is None,
        final(j)@.received == old(j)@.received && final(j)@.dropped == old(j)@.dropped,
        final(j)@.capacity == old(j)@.capacity,
{
    assert(final(j)@.buffer.dom() =~= Set::<u16>::empty());
}

/// A device is the default one, the one with the number, or the first whose name has
/// the text in it; where there is none, it is missing.
pub proof fn law_device_selected(
    s: &DeviceSelector,
    names: &[Option<String>],
    r: DevicePick,
    i: int,
)
    requires
        call_ensures(select_device, (s, names), r),
        0 <= i < names@.len(),
    ensures
        s@ is Default ==> r == DevicePick::SystemDefault,
        s@ matches SelectorView::ByIndex(n) ==> (n < names@.len() ==> r == DevicePick::Listed(
            n as usize,
        )) && (n >= names@.len() ==> r == DevicePick::Missing),
        s@ matches SelectorView::ByName(want) ==> {
            &&& r != DevicePick::SystemDefault
            &&& names@[i] is Some && contains_text(names@[i]->0@, want) ==> r is Listed
                && r->Listed_0 <= i
            &&& r is Listed ==> r->Listed_0 < names@.len() && names@[r->Listed_0 as int] is Some
                && contains_text(names@[r->Listed_0 as int]->0@, want)
        },
{
    if s@ is ByName && names@[i] is Some && contains_text(names@[i]->0@, s@->ByName_0) {
        assert(name_has(names@[i], s@->ByName_0));
    }
}

} // verus!
