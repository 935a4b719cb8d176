//! What the formats of media mean, in numbers: which bytes stand for which
//! fields, codes and samples, so that any other end reads the same in them.
use super::audio_device::{
    channels_text, device_text, input_setting, listed_rates, output_setting, pick_rate, rates_text,
    spread, standard_rates, supports, supports_rate, usual_rates, ConfigRange, DeviceType,
    SelectorView,
};
use super::codec::{
    alaw_of, alaw_value, bytes_samples, decoded, encoded, exponent, lemma_samples_bytes,
    lemma_samples_bytes_len, lemma_xor_twice, magnitude,
    payload_of, samples_bytes, samples_of, segment, silence, ulaw_of, ulaw_value, CodecErrorView,
    CodecType, OpusFrameView, OpusSamplesView,
};
use super::jitter::{front, inserted, is_least, least, lemma_least_exists, popped, JitterView};
use super::packet::{
    be16, be32, byte0, byte1, csrc_bytes, lemma_csrc_len, lemma_csrc_reads_back, packet_bytes,
    parse_packet, PacketView, RtpError,
};
use super::playout::{capped, corrected};
use super::session::{
    after_audio, after_datagram, audio_view, bad_key, dtmf_event, event_of, key_packets, keys_of,
    taken_of, EventView, QueuedDtmf, ReceiverView, SessionView, TakenView,
};
use super::wav::{
    block_align, byte_rate, data_chunk, data_head, data_tag, fmt_chunk, fmt_tag, le16, le32,
    le32_at, lemma_le16_reads_back, lemma_le32_reads_back, lemma_le_len, parse_wav, riff_head,
    riff_tag, tag_at, wav_bytes, wave_tag, WavErrorView, WavHeader,
};
use crate::case::ascii_lowered;
use crate::number::{dec, uint_of};
use vstd::arithmetic::power2::{lemma2_to64, pow2};
use vstd::prelude::*;

verus! {

// ---------------------------------------------------------------------------
// Packets
// ---------------------------------------------------------------------------

/// In the bytes of a packet the fields stand where RFC 3550 has them, the more
/// significant bytes of a number first, then the contributing sources, and then
/// the payload.
pub proof fn law_packet_layout(p: PacketView, i: int)
    requires
        p.version < 4,
        p.payload_type < 128,
        p.csrc.len() < 16,
    ensures
        ({
            let d = packet_bytes(p);
            &&& d.len() == 12 + 4 * p.csrc.len() + p.payload.len()
            &&& d[0] / 64 == p.version
            &&& (d[0] / 32) % 2 == 1 <==> p.padding
            &&& (d[0] / 16) % 2 == 1 <==> p.extension
            &&& d[0] % 16 == p.csrc.len()
            &&& d[1] >= 128 <==> p.marker
            &&& d[1] % 128 == p.payload_type
            &&& d[2] * 0x100 + d[3] == p.sequence_number
            &&& d[4] * 0x100_0000 + d[5] * 0x1_0000 + d[6] * 0x100 + d[7] == p.timestamp
            &&& d[8] * 0x100_0000 + d[9] * 0x1_0000 + d[10] * 0x100 + d[11] == p.ssrc
            &&& 0 <= i < p.csrc.len() ==> d[12 + 4 * i] * 0x100_0000 + d[13 + 4 * i] * 0x1_0000
                + d[14 + 4 * i] * 0x100 + d[15 + 4 * i] == p.csrc[i]
            &&& 0 <= i < p.payload.len() ==> d[12 + 4 * p.csrc.len() + i] == p.payload[i]
        }),
{
    lemma_head_bytes(p);
    lemma_head_fields(p);
    lemma_source_bytes(p, i);
}

/// Where the parts of a packet stand in its bytes.
proof fn lemma_head_bytes(p: PacketView)
    ensures
        ({
            let d = packet_bytes(p);
            &&& d.len() == 12 + 4 * p.csrc.len() + p.payload.len()
            &&& d[0] == byte0(p) && d[1] == byte1(p)
            &&& d[2] == be16(p.sequence_number)[0] && d[3] == be16(p.sequence_number)[1]
            &&& d.subrange(4, 8) == be32(p.timestamp)
            &&& d.subrange(8, 12) == be32(p.ssrc)
        }),
{
    let d = packet_bytes(p);
    lemma_csrc_len(p.csrc);
    assert(d.subrange(4, 8) =~= be32(p.timestamp));
    assert(d.subrange(8, 12) =~= be32(p.ssrc));
}

/// What the first twelve bytes are worth.
proof fn lemma_head_fields(p: PacketView)
    requires
        p.version < 4,
        p.payload_type < 128,
        p.csrc.len() < 16,
    ensures
        ({
            let d = packet_bytes(p);
            &&& d[0] / 64 == p.version
            &&& (d[0] / 32) % 2 == 1 <==> p.padding
            &&& (d[0] / 16) % 2 == 1 <==> p.extension
            &&& d[0] % 16 == p.csrc.len()
            &&& d[1] >= 128 <==> p.marker
            &&& d[1] % 128 == p.payload_type
            &&& d[2] * 0x100 + d[3] == p.sequence_number
            &&& d[4] * 0x100_0000 + d[5] * 0x1_0000 + d[6] * 0x100 + d[7] == p.timestamp
            &&& d[8] * 0x100_0000 + d[9] * 0x1_0000 + d[10] * 0x100 + d[11] == p.ssrc
        }),
{
    let d = packet_bytes(p);
    lemma_head_bytes(p);
    lemma_first_two(p);
    lemma_four_bytes(d, 4, p.timestamp);
    lemma_four_bytes(d, 8, p.ssrc);
}

/// What the first two bytes are worth.
proof fn lemma_first_two(p: PacketView)
    requires
        p.version < 4,
        p.payload_type < 128,
        p.csrc.len() < 16,
    ensures
        byte0(p) / 64 == p.version,
        (byte0(p) / 32) % 2 == 1 <==> p.padding,
        (byte0(p) / 16) % 2 == 1 <==> p.extension,
        byte0(p) % 16 == p.csrc.len(),
        byte1(p) >= 128 <==> p.marker,
        byte1(p) % 128 == p.payload_type,
{
}

/// Where the contributing sources and the payload stand.
proof fn lemma_source_bytes(p: PacketView, i: int)
    ensures
        ({
            let d = packet_bytes(p);
            &&& 0 <= i < p.csrc.len() ==> d[12 + 4 * i] * 0x100_0000 + d[13 + 4 * i] * 0x1_0000
                + d[14 + 4 * i] * 0x100 + d[15 + 4 * i] == p.csrc[i]
            &&& 0 <= i < p.payload.len() ==> d[12 + 4 * p.csrc.len() + i] == p.payload[i]
        }),
{
    let d = packet_bytes(p);
    let b = csrc_bytes(p.csrc);
    lemma_csrc_len(p.csrc);
    if 0 <= i < p.csrc.len() {
        lemma_csrc_reads_back(p.csrc, i);
        let s = b.subrange(4 * i, 4 * i + 4);
        assert(d.subrange(12 + 4 * i, 12 + 4 * i + 4) =~= s);
        lemma_four_bytes(d, 12 + 4 * i, p.csrc[i]);
    }
}

/// What four bytes in network order are worth.
proof fn lemma_four_bytes(d: Seq<u8>, k: int, x: u32)
    requires
        0 <= k,
        k + 4 <= d.len(),
    ensures
        d.subrange(k, k + 4) == be32(x) ==> d[k] * 0x100_0000 + d[k + 1] * 0x1_0000 + d[k + 2]
            * 0x100 + d[k + 3] == x,
{
    let s = d.subrange(k, k + 4);
    assert(s[0] == d[k] && s[1] == d[k + 1] && s[2] == d[k + 2] && s[3] == d[k + 3]);
    assert(x == (x / 16777216) * 16777216 + ((x / 65536) % 256) * 65536 + ((x / 256) % 256) * 256
        + x % 256);
}

/// Bytes are a packet where there are at least twelve of them, the first two
/// bits say version 2, and there is room for the contributing sources that are
/// counted; its fields are those that stand in the bytes.
pub proof fn law_packet_read(d: Seq<u8>, i: int)
    ensures
        parse_packet(d) is Ok <==> d.len() >= 12 && d[0] / 64 == 2 && d.len() >= 12 + 4 * (d[0]
            % 16),
        parse_packet(d) matches Err(e) ==> e == (if d.len() >= 12 && d[0] / 64 != 2 {
            RtpError::InvalidVersion((d[0] / 64) as u8)
        } else {
            RtpError::TooShort(d.len() as usize)
        }),
        parse_packet(d) matches Ok(p) ==> {
            &&& p.version == 2
            &&& p.padding <==> (d[0] / 32) % 2 == 1
            &&& p.extension <==> (d[0] / 16) % 2 == 1
            &&& p.csrc_count == d[0] % 16
            &&& p.marker <==> d[1] >= 128
            &&& p.payload_type == d[1] % 128
            &&& p.sequence_number == d[2] * 0x100 + d[3]
            &&& p.timestamp == d[4] * 0x100_0000 + d[5] * 0x1_0000 + d[6] * 0x100 + d[7]
            &&& p.ssrc == d[8] * 0x100_0000 + d[9] * 0x1_0000 + d[10] * 0x100 + d[11]
            &&& p.csrc.len() == d[0] % 16
            &&& 0 <= i < d[0] % 16 ==> p.csrc[i] == d[12 + 4 * i] * 0x100_0000 + d[13 + 4 * i]
                * 0x1_0000 + d[14 + 4 * i] * 0x100 + d[15 + 4 * i]
        },
{
}

/// The payload of a packet is what stands between its header, with the extension
/// that the header announces, and its padding, whose last byte counts it.
pub proof fn law_payload_read(
    head: Seq<u8>,
    extension: Seq<u8>,
    payload: Seq<u8>,
    padding: Seq<u8>,
)
    requires
        head.len() >= 12,
        head[0] / 64 == 2,
        head.len() == 12 + 4 * (head[0] % 16),
        if (head[0] / 16) % 2 == 1 {
            extension.len() >= 4 && extension.len() == 4 + 4 * (extension[2] * 0x100
                + extension[3])
        } else {
            extension.len() == 0
        },
        if (head[0] / 32) % 2 == 1 {
            padding.len() > 0 && padding.last() == padding.len()
        } else {
            padding.len() == 0
        },
    ensures
        parse_packet(head + extension + payload + padding) is Ok,
        (parse_packet(head + extension + payload + padding)->Ok_0).payload == payload,
{
    let d = head + extension + payload + padding;
    let h = head.len() as int;
    assert(d[0] == head[0]);
    if extension.len() > 0 {
        assert(d[h + 2] == extension[2] && d[h + 3] == extension[3]);
    }
    if padding.len() > 0 {
        assert(d.last() == padding.last());
    }
    let start = h + extension.len();
    let end = start + payload.len();
    assert(d.subrange(start, end) =~= payload);
}

// ---------------------------------------------------------------------------
// G.711
// ---------------------------------------------------------------------------

/// What the segments and steps are worth.
proof fn lemma_worth(e: int)
    requires
        0 <= e < 8,
    ensures
        segment(e) == pow2(e as nat),
{
    lemma2_to64();
}

/// In a step of a segment, and not in another.
proof fn lemma_in_step(w: int, g: int)
    requires
        g == 1 || g == 2 || g == 4 || g == 8 || g == 16 || g == 32 || g == 64 || g == 128,
        128 * g <= w < 256 * g,
    ensures
        ({
            let m = (w / (8 * g)) % 16;
            0 <= m < 16 && (16 + m) * (8 * g) <= w < (17 + m) * (8 * g)
        }),
{
    let q = w / (8 * g);
    let m = q % 16;
    vstd::arithmetic::div_mod::lemma_fundamental_div_mod(w, 8 * g);
    vstd::arithmetic::div_mod::lemma_mod_bound(w, 8 * g);
    assert(w == (8 * g) * q + w % (8 * g));
    assert(16 <= q < 32) by (nonlinear_arith)
        requires
            g >= 1,
            128 * g <= w < 256 * g,
            w == (8 * g) * q + w % (8 * g),
            0 <= w % (8 * g) < 8 * g,
    ;
    assert(q == 16 + m);
    assert((16 + m) * (8 * g) <= w < (17 + m) * (8 * g)) by (nonlinear_arith)
        requires
            q == 16 + m,
            w == (8 * g) * q + w % (8 * g),
            0 <= w % (8 * g) < 8 * g,
    ;
}

/// The step of a code ends where or before the step of a greater one begins.
proof fn lemma_steps_in_order(e1: int, m1: int, e2: int, m2: int)
    requires
        0 <= e1 < 8 && 0 <= e2 < 8,
        0 <= m1 < 16 && 0 <= m2 < 16,
        16 * e1 + m1 < 16 * e2 + m2,
    ensures
        (17 + m1) * (8 * pow2(e1 as nat)) <= (16 + m2) * (8 * pow2(e2 as nat)),
        pow2(e1 as nat) >= 1 && pow2(e2 as nat) >= 1,
{
    lemma2_to64();
    let g1 = pow2(e1 as nat) as int;
    let g2 = pow2(e2 as nat) as int;
    assert(g1 >= 1 && g2 >= 1);
    if e1 == e2 {
        assert((17 + m1) * (8 * g1) <= (16 + m2) * (8 * g2)) by (nonlinear_arith)
            requires
                g1 == g2,
                g1 >= 1,
                m1 < m2,
        ;
    } else {
        assert(2 * g1 <= g2);
        assert((17 + m1) * (8 * g1) <= (16 + m2) * (8 * g2)) by (nonlinear_arith)
            requires
                2 * g1 <= g2,
                g1 >= 1,
                0 <= m1 < 16,
                0 <= m2,
        ;
    }
}

/// A byte of mu-law, with its bits inverted, gives in its first bit whether the
/// sample is negative, in the next three the segment that the magnitude plus 132
/// lies in, each twice as wide as the one before, and in the last four the step
/// of that segment.
pub proof fn law_ulaw_code(s: i16)
    ensures
        ({
            let u = 255 - ulaw_of(s);
            let e = ((u / 16) % 8) as nat;
            let m = u % 16;
            let abs = if s < 0 {
                -(s as int)
            } else {
                s as int
            };
            let v = 132 + if abs > 32635 {
                32635
            } else {
                abs
            };
            &&& u >= 128 <==> s < 0
            &&& 128 * pow2(e) <= v < 256 * pow2(e)
            &&& (16 + m) * (8 * pow2(e)) <= v < (17 + m) * (8 * pow2(e))
        }),
{
    let v = magnitude(s as int, 32635) + 132;
    let e = exponent(v);
    lemma_in_step(v, segment(e));
    lemma_worth(e);
    let m = (v / (8 * segment(e))) % 16;
    let u = 255 - ulaw_of(s);
    let sign: int = if s < 0 {
        128
    } else {
        0
    };
    assert(u == sign + 16 * e + m);
    assert((u / 16) % 8 == e && u % 16 == m);
}

/// A byte of mu-law stands for the middle of its step: the code is read as it is
/// written.
pub proof fn law_ulaw_meaning(b: u8)
    ensures
        ({
            let u = 255 - b;
            let e = ((u / 16) % 8) as nat;
            let m = u % 16;
            let v = (16 + m) * (8 * pow2(e)) + 4 * pow2(e) - 132;
            ulaw_value(b) == if u >= 128 {
                -v
            } else {
                v
            }
        }),
{
    let u = 255 - b;
    let e = (u / 16) % 8;
    let m = u % 16;
    lemma_worth(e as int);
    let g = segment(e as int);
    assert((2 * m + 33) * (4 * g) == (16 + m) * (8 * g) + 4 * g) by (nonlinear_arith);
    assert(0 <= (2 * m + 33) * (4 * g) <= 63 * 512) by (nonlinear_arith)
        requires
            0 <= m <= 15,
            1 <= g <= 128,
    ;
}

/// Of two samples of one sign, the louder never has the smaller code, which is the
/// byte with all bits inverted.
pub proof fn law_ulaw_codes_in_order(s: i16, t: i16)
    ensures
        0 <= s <= t ==> ulaw_of(t) <= ulaw_of(s),
        s <= t < 0 ==> ulaw_of(s) <= ulaw_of(t),
{
    law_ulaw_code(s);
    law_ulaw_code(t);
    let us = (255 - ulaw_of(s)) as int;
    let ut = (255 - ulaw_of(t)) as int;
    let (es, ms) = ((us / 16) % 8, us % 16);
    let (et, mt) = ((ut / 16) % 8, ut % 16);
    if 16 * es + ms < 16 * et + mt {
        lemma_steps_in_order(es, ms, et, mt);
    }
    if 16 * et + mt < 16 * es + ms {
        lemma_steps_in_order(et, mt, es, ms);
    }
    lemma2_to64();
}

/// Of two bytes of one sign, the one with the greater code stands for the louder
/// sample.
pub proof fn law_ulaw_values_in_order(a: u8, b: u8)
    ensures
        128 <= a < b ==> ulaw_value(b) < ulaw_value(a),
        a < b < 128 ==> ulaw_value(a) < ulaw_value(b),
{
    law_ulaw_meaning(a);
    law_ulaw_meaning(b);
    let ua = (255 - a) as int;
    let ub = (255 - b) as int;
    let (ea, ma) = ((ua / 16) % 8, ua % 16);
    let (eb, mb) = ((ub / 16) % 8, ub % 16);
    assert((17 + ma) * (8 * pow2(ea as nat)) == (16 + ma) * (8 * pow2(ea as nat)) + 8 * pow2(
        ea as nat,
    )) by (nonlinear_arith);
    assert((17 + mb) * (8 * pow2(eb as nat)) == (16 + mb) * (8 * pow2(eb as nat)) + 8 * pow2(
        eb as nat,
    )) by (nonlinear_arith);
    if 16 * ea + ma < 16 * eb + mb {
        lemma_steps_in_order(ea, ma, eb, mb);
    }
    if 16 * eb + mb < 16 * ea + ma {
        lemma_steps_in_order(eb, mb, ea, ma);
    }
    lemma2_to64();
}

/// A byte of A-law, with every other bit inverted, gives in its first bit whether
/// the sample is not negative, in the next three the segment that the magnitude
/// lies in, and in the last four the step of that segment. The first two segments
/// have steps of 16, and the others are each twice as wide as the one before.
pub proof fn law_alaw_code(s: i16)
    ensures
        ({
            let u = alaw_of(s) ^ 0x55;
            let e = ((u / 16) % 8) as nat;
            let m = (u % 16) as int;
            let abs = if s < 0 {
                -(s as int)
            } else {
                s as int
            };
            let v = if abs > 32767 {
                32767
            } else {
                abs
            };
            &&& u >= 128 <==> s >= 0
            &&& e == 0 ==> 16 * m <= v < 16 * m + 16
            &&& e > 0 ==> 128 * pow2(e) <= v < 256 * pow2(e)
            &&& e > 0 ==> (16 + m) * (8 * pow2(e)) <= v < (17 + m) * (8 * pow2(e))
        }),
{
    let v = magnitude(s as int, 32767);
    let e = exponent(v);
    let m = if e == 0 {
        v / 16
    } else {
        (v / (8 * segment(e))) % 16
    };
    if e > 0 {
        lemma_in_step(v, segment(e));
    }
    lemma_worth(e);
    let sign: int = if s < 0 {
        0
    } else {
        128
    };
    let x = (sign + 16 * e + m) as u8;
    lemma_xor_twice(x);
    assert(x == sign + 16 * e + m);
    assert((x / 16) % 8 == e && x % 16 == m);
}

/// A byte of A-law stands for the middle of its step.
pub proof fn law_alaw_meaning(b: u8)
    ensures
        ({
            let u = b ^ 0x55;
            let e = ((u / 16) % 8) as nat;
            let m = (u % 16) as int;
            let v = if e == 0 {
                16 * m + 8
            } else {
                (16 + m) * (8 * pow2(e)) + 4 * pow2(e)
            };
            alaw_value(b) == if u >= 128 {
                v
            } else {
                -v
            }
        }),
{
    let u = b ^ 0x55;
    let e = ((u / 16) % 8) as int;
    let m = (u % 16) as int;
    lemma_worth(e);
    let g = segment(e);
    assert((2 * m + 33) * (4 * g) == (16 + m) * (8 * g) + 4 * g) by (nonlinear_arith);
    assert(0 <= (2 * m + 33) * (4 * g) <= 63 * 512) by (nonlinear_arith)
        requires
            0 <= m <= 15,
            1 <= g <= 128,
    ;
}

/// Of two samples of one sign, the louder never has the smaller code, which is the
/// byte with every other bit inverted.
pub proof fn law_alaw_codes_in_order(s: i16, t: i16)
    ensures
        0 <= s <= t ==> alaw_of(s) ^ 0x55 <= alaw_of(t) ^ 0x55,
        s <= t < 0 ==> alaw_of(t) ^ 0x55 <= alaw_of(s) ^ 0x55,
{
    law_alaw_code(s);
    law_alaw_code(t);
    let us = (alaw_of(s) ^ 0x55) as int;
    let ut = (alaw_of(t) ^ 0x55) as int;
    let (es, ms) = ((us / 16) % 8, us % 16);
    let (et, mt) = ((ut / 16) % 8, ut % 16);
    if 16 * es + ms < 16 * et + mt {
        lemma_steps_in_order(es, ms, et, mt);
    }
    if 16 * et + mt < 16 * es + ms {
        lemma_steps_in_order(et, mt, es, ms);
    }
    lemma2_to64();
}

/// Of two bytes of one sign, the one with the greater code stands for the louder
/// sample.
pub proof fn law_alaw_values_in_order(a: u8, b: u8)
    ensures
        128 <= a ^ 0x55 < b ^ 0x55 ==> alaw_value(a) < alaw_value(b),
        (a ^ 0x55) < b ^ 0x55 < 128 ==> alaw_value(b) < alaw_value(a),
{
    law_alaw_meaning(a);
    law_alaw_meaning(b);
    let ua = (a ^ 0x55) as int;
    let ub = (b ^ 0x55) as int;
    let (ea, ma) = ((ua / 16) % 8, ua % 16);
    let (eb, mb) = ((ub / 16) % 8, ub % 16);
    assert((17 + ma) * (8 * pow2(ea as nat)) == (16 + ma) * (8 * pow2(ea as nat)) + 8 * pow2(
        ea as nat,
    )) by (nonlinear_arith);
    assert((17 + mb) * (8 * pow2(eb as nat)) == (16 + mb) * (8 * pow2(eb as nat)) + 8 * pow2(
        eb as nat,
    )) by (nonlinear_arith);
    assert((16 + ma) * (8 * pow2(ea as nat)) >= 128 * pow2(ea as nat)) by (nonlinear_arith)
        requires
            ma >= 0,
    ;
    assert((16 + mb) * (8 * pow2(eb as nat)) >= 128 * pow2(eb as nat)) by (nonlinear_arith)
        requires
            mb >= 0,
    ;
    if 16 * ea + ma < 16 * eb + mb {
        lemma_steps_in_order(ea, ma, eb, mb);
    }
    if 16 * eb + mb < 16 * ea + ma {
        lemma_steps_in_order(eb, mb, ea, ma);
    }
    lemma2_to64();
}

// ---------------------------------------------------------------------------
// Frames
// ---------------------------------------------------------------------------

/// The numbers by which the codecs go: their payload types, and the samples in a
/// second and in a frame of twenty milliseconds.
pub proof fn law_codec_numbers(c: CodecType)
    ensures
        c.spec_payload_type() == match c {
            CodecType::Pcmu => 0u8,
            CodecType::Pcma => 8u8,
            CodecType::Opus => 111u8,
        },
        c.spec_clock_rate() == match c {
            CodecType::Opus => 48000u32,
            _ => 8000u32,
        },
        c.frame_len() == match c {
            CodecType::Opus => 960nat,
            _ => 160nat,
        },
{
}

/// Samples that stand as they are are two bytes each, in two's complement, the
/// less significant first.
pub proof fn law_raw_samples(samples: Seq<i16>, data: Seq<u8>, i: int)
    ensures
        samples_bytes(samples).len() == 2 * samples.len(),
        0 <= i < samples.len() ==> samples_bytes(samples)[2 * i] + 0x100 * samples_bytes(
            samples,
        )[2 * i + 1] == (if samples[i] < 0 {
            samples[i] + 0x1_0000
        } else {
            samples[i] as int
        }),
        bytes_samples(data).len() == data.len() / 2,
        0 <= i < data.len() / 2 ==> data[2 * i] + 0x100 * data[2 * i + 1] == (if bytes_samples(
            data,
        )[i] < 0 {
            bytes_samples(data)[i] + 0x1_0000
        } else {
            bytes_samples(data)[i] as int
        }),
{
    lemma_samples_bytes_len(samples);
    if 0 <= i < samples.len() {
        lemma_samples_bytes(samples, i);
    }
}

/// A frame is coded sample by sample, by the law that the codec is named after.
pub proof fn law_coded_by_sample(samples: Seq<i16>, data: Seq<u8>, i: int)
    ensures
        encoded(CodecType::Pcmu, samples).len() == samples.len(),
        encoded(CodecType::Pcma, samples).len() == samples.len(),
        0 <= i < samples.len() ==> {
            &&& encoded(CodecType::Pcmu, samples)[i] == ulaw_of(samples[i])
            &&& encoded(CodecType::Pcma, samples)[i] == alaw_of(samples[i])
        },
        decoded(CodecType::Pcmu, data) matches Ok(u) && u.len() == data.len() && (0 <= i
            < data.len() ==> u[i] == ulaw_value(data[i])),
        decoded(CodecType::Pcma, data) matches Ok(a) && a.len() == data.len() && (0 <= i
            < data.len() ==> a[i] == alaw_value(data[i])),
{
}

// ---------------------------------------------------------------------------
// Telephone keys
// ---------------------------------------------------------------------------

/// The numbers of the keys (RFC 2833): the digits are 0 to 9, the star is 10, the
/// hash is 11 and the letters are 12 to 15, in either case. Nothing else is a key.
pub proof fn law_key_numbers(c: char)
    ensures
        dtmf_event(c) == (if '0' <= c <= '9' {
            Some((c as u32 - 48) as u8)
        } else if c == '*' {
            Some(10u8)
        } else if c == '#' {
            Some(11u8)
        } else if c == 'A' || c == 'a' {
            Some(12u8)
        } else if c == 'B' || c == 'b' {
            Some(13u8)
        } else if c == 'C' || c == 'c' {
            Some(14u8)
        } else if c == 'D' || c == 'd' {
            Some(15u8)
        } else {
            None
        }),
{
}

/// The packets of a key, in bytes: its number, the flag for the end with a volume
/// of ten, and how long it has been held, which is 160 samples, then 320, and in
/// the end the duration.
pub proof fn law_key_payloads(s: SessionView, event: u8, pt: u8, duration: u16, i: int)
    requires
        0 <= i < 3,
    ensures
        ({
            let p = key_packets(s, event, pt, duration)[i];
            let b = p.payload;
            &&& b.len() == 4
            &&& b[0] == event
            &&& b[1] == (if i == 2 {
                138int
            } else {
                10int
            })
            &&& b[2] * 0x100 + b[3] == (if i == 0 {
                160
            } else if i == 1 {
                320
            } else {
                duration as int
            })
            &&& p.marker == (i == 0)
            &&& p.payload_type == pt
            &&& p.timestamp == s.ts
            &&& p.ssrc == s.ssrc
            &&& p.sequence_number == (s.seq + i) % 0x1_0000
        }),
{
}

/// A datagram of the agreed type for telephone events tells of the key whose
/// number it holds, of its end, and of how long it has been held.
pub proof fn law_key_datagram(v: ReceiverView, d: Seq<u8>)
    requires
        d.len() >= 16,
        d[0] == 128,
        v.dtmf_type == Some((d[1] % 128) as u8),
        !(64 <= d[1] % 128 <= 95),
    ensures
        after_datagram(v, v.source_ip, d) == v,
        d[12] > 15 ==> taken_of(v, v.source_ip, d) is None,
        d[12] <= 15 ==> {
            &&& taken_of(v, v.source_ip, d) matches Some(TakenView::Key(e))
            &&& dtmf_event(e.digit) == Some(d[12])
            &&& !('a' <= e.digit <= 'd')
            &&& e.end <==> d[13] >= 128
            &&& e.volume == d[13] % 64
            &&& e.duration == d[14] * 0x100 + d[15]
            &&& e.sequence_number == d[2] * 0x100 + d[3]
            &&& e.timestamp == d[4] * 0x100_0000 + d[5] * 0x1_0000 + d[6] * 0x100 + d[7]
            &&& event_of(v, v.source_ip, d) == Some(EventView::Dtmf(e))
        },
{
    let p = parse_packet(d)->Ok_0;
    assert(p.payload =~= d.skip(12));
    assert(p.payload[0] == d[12] && p.payload[1] == d[13] && p.payload[2] == d[14] && p.payload[3]
        == d[15]);
}

// ---------------------------------------------------------------------------
// Receiving
// ---------------------------------------------------------------------------

/// A datagram of audio that is due is heard at once: each byte of its payload
/// becomes the sample that it stands for, in its place.
pub proof fn law_audio_datagram(v: ReceiverView, d: Seq<u8>, i: int)
    requires
        v.codec == CodecType::Pcmu || v.codec == CodecType::Pcma,
        d.len() >= 12,
        d[0] == 128,
        d[1] % 128 == (if v.codec == CodecType::Pcmu {
            0int
        } else {
            8
        }),
        v.dtmf_type != Some((d[1] % 128) as u8),
        v.jitter.next == Some((d[2] * 0x100 + d[3]) as u16),
        v.jitter.buffer.len() < v.jitter.capacity,
    ensures
        event_of(v, v.source_ip, d) matches Some(EventView::Audio(samples)) && {
            &&& samples.len() == d.len() - 12
            &&& 0 <= i < samples.len() ==> samples[i] == (if v.codec == CodecType::Pcmu {
                ulaw_value(d[12 + i])
            } else {
                alaw_value(d[12 + i])
            })
        },
        after_datagram(v, v.source_ip, d).jitter.next == Some(
            ((d[2] * 0x100 + d[3] + 1) % 0x1_0000) as u16,
        ),
        after_datagram(v, v.source_ip, d).jitter.dropped == v.jitter.dropped,
{
    let p = parse_packet(d)->Ok_0;
    assert(p.payload =~= d.skip(12));
    assert(front(inserted(v.jitter, p)) == Some(p));
}

/// What does not come from the other end, is no packet, or has a type of RTCP or
/// one that was not agreed on, is as if it had not come.
pub proof fn law_other_datagrams(v: ReceiverView, ip: Seq<char>, d: Seq<u8>)
    requires
        ip != v.source_ip || d.len() < 12 || d[0] / 64 != 2 || 64 <= d[1] % 128 <= 95 || (d[1]
            % 128 != v.codec.spec_payload_type() && v.dtmf_type != Some((d[1] % 128) as u8)),
    ensures
        after_datagram(v, ip, d) == v,
        taken_of(v, ip, d) is None,
        event_of(v, ip, d) is None,
{
}

// ---------------------------------------------------------------------------
// Jitter
// ---------------------------------------------------------------------------

/// Late and early, around the wrap of the numbers too: a packet with one of the
/// 32768 numbers before the one that is due is dropped and counted, and one with
/// that number or one of the 32767 behind it is kept where there is room.
pub proof fn law_late_or_kept(j: JitterView, p: PacketView, n: u16, k: int)
    requires
        j.next == Some(n),
    ensures
        1 <= k <= 32768 && p.sequence_number == (n - k) % 0x1_0000 ==> inserted(j, p) == (
        JitterView { received: j.received + 1, dropped: j.dropped + 1, ..j }),
        0 <= k < 32768 && p.sequence_number == (n + k) % 0x1_0000 && j.buffer.len() < j.capacity
            ==> inserted(j, p) == (JitterView {
            buffer: j.buffer.insert(p.sequence_number, p),
            received: j.received + 1,
            ..j
        }),
{
}

/// A full buffer gives up the packet with the least number for one behind it, and
/// counts it as dropped; all others stay.
pub proof fn law_oldest_makes_room(j: JitterView, p: PacketView, old: u16)
    requires
        j.wf(),
        j.next is None || j.next == Some(old),
        j.buffer.len() == j.capacity,
        j.buffer.contains_key(old),
        forall|k: u16| #[trigger] j.buffer.contains_key(k) ==> old <= k,
        old < p.sequence_number < old + 32768,
    ensures
        inserted(j, p).buffer == j.buffer.remove(old).insert(p.sequence_number, p),
        inserted(j, p).dropped == j.dropped + 1,
        inserted(j, p).received == j.received + 1,
{
    lemma_least_exists(j.buffer.dom());
    assert(j.buffer.len() > 0) by {
        if j.buffer.dom().len() == 0 {
            assert(j.buffer.dom() =~= Set::empty());
        }
    }
    assert(is_least(j.buffer.dom(), least(j.buffer.dom())));
    assert(j.buffer.contains_key(least(j.buffer.dom())));
    assert(least(j.buffer.dom()) == old);
}

/// A full buffer has no room for a packet that is not behind its oldest: it is
/// dropped and counted, and nothing else changes.
pub proof fn law_no_room(j: JitterView, p: PacketView, old: u16)
    requires
        j.wf(),
        j.next is None || j.next == Some(p.sequence_number),
        j.buffer.len() >= j.capacity,
        j.buffer.contains_key(old),
        forall|k: u16| #[trigger] j.buffer.contains_key(k) ==> old <= k,
        p.sequence_number <= old < p.sequence_number + 32768,
    ensures
        inserted(j, p) == (JitterView { received: j.received + 1, dropped: j.dropped + 1, ..j }),
{
    lemma_least_exists(j.buffer.dom());
    assert(j.buffer.len() > 0) by {
        if j.buffer.dom().len() == 0 {
            assert(j.buffer.dom() =~= Set::empty());
        }
    }
    assert(is_least(j.buffer.dom(), least(j.buffer.dom())));
    assert(j.buffer.contains_key(least(j.buffer.dom())));
    assert(least(j.buffer.dom()) == old);
}

/// What is asked for is the packet that is due and no other; then the one with
/// the next number is due, which behind 65535 is 0.
pub proof fn law_due_packet(j: JitterView, n: u16)
    requires
        j.wf(),
        j.next == Some(n),
    ensures
        match front(j) {
            Some(p) => j.buffer.contains_key(n) && p == j.buffer[n] && p.sequence_number == n,
            None => !j.buffer.contains_key(n),
        },
        popped(j).next == Some(((n + 1) % 0x1_0000) as u16),
        forall|k: u16| k != n ==> (#[trigger] popped(j).buffer.contains_key(k)
            <==> j.buffer.contains_key(k)),
        !popped(j).buffer.contains_key(n),
        popped(j).dropped == j.dropped && popped(j).received == j.received,
{
}

// ---------------------------------------------------------------------------
// Playing
// ---------------------------------------------------------------------------

/// What goes into the buffer of the loudspeaker, in half steps. Between one and
/// three frames of backlog a frame goes in as it is. Above, the two samples in its
/// middle become one, halfway between them; below, the one in its middle comes
/// twice. The others keep their order and their values.
pub proof fn law_drift_corrected(level: nat, frame: Seq<i16>, per_frame: nat, i: int)
    requires
        frame.len() > 2,
    ensures
        ({
            let out = corrected(level, frame, per_frame);
            let mid = frame.len() as int / 2;
            &&& per_frame <= level <= 3 * per_frame ==> out.len() == frame.len() && (0 <= i
                < frame.len() ==> out[i] == 2 * frame[i])
            &&& level > 3 * per_frame ==> {
                &&& out.len() == frame.len() - 1
                &&& 0 <= i < mid ==> out[i] == 2 * frame[i]
                &&& out[mid] == frame[mid] + frame[mid + 1]
                &&& mid < i < out.len() ==> out[i] == 2 * frame[i + 1]
            }
            &&& level < per_frame ==> {
                &&& out.len() == frame.len() + 1
                &&& 0 <= i <= mid ==> out[i] == 2 * frame[i]
                &&& mid < i < out.len() ==> out[i] == 2 * frame[i - 1]
            }
        }),
{
}

/// Up to four frames wait as they are; of more, the two frames that came last are
/// kept.
pub proof fn law_backlog_cut(s: Seq<i32>, per_frame: nat, i: int)
    ensures
        s.len() <= 4 * per_frame ==> capped(s, per_frame) == s,
        s.len() > 4 * per_frame ==> {
            &&& capped(s, per_frame).len() == 2 * per_frame
            &&& 0 <= i < 2 * per_frame ==> capped(s, per_frame)[i] == s[s.len() - 2 * per_frame
                + i]
        },
{
}

// ---------------------------------------------------------------------------
// WAV files
// ---------------------------------------------------------------------------

/// A WAV file, in bytes: the name of the format and the length of what follows,
/// the chunk with the rate, the channels and the width of a sample, and the chunk
/// with the samples. Numbers have their less significant bytes first.
pub proof fn law_wav_layout(samples: Seq<i16>, h: WavHeader, i: int)
    requires
        h.bits_per_sample == 16,
        36 + 2 * samples.len() < 0x1_0000_0000,
        h.sample_rate * h.channels * 2 < 0x1_0000_0000,
        h.channels * 2 < 0x1_0000,
    ensures
        ({
            let d = wav_bytes(samples, h);
            &&& d.len() == 44 + 2 * samples.len()
            &&& d[0] == 'R' as u8 && d[1] == 'I' as u8 && d[2] == 'F' as u8 && d[3] == 'F' as u8
            &&& d[4] + d[5] * 0x100 + d[6] * 0x1_0000 + d[7] * 0x100_0000 == d.len() - 8
            &&& d[8] == 'W' as u8 && d[9] == 'A' as u8 && d[10] == 'V' as u8 && d[11]
                == 'E' as u8
            &&& d[12] == 'f' as u8 && d[13] == 'm' as u8 && d[14] == 't' as u8 && d[15]
                == ' ' as u8
            &&& d[16] + d[17] * 0x100 + d[18] * 0x1_0000 + d[19] * 0x100_0000 == 16
            &&& d[20] + d[21] * 0x100 == 1
            &&& d[22] + d[23] * 0x100 == h.channels
            &&& d[24] + d[25] * 0x100 + d[26] * 0x1_0000 + d[27] * 0x100_0000 == h.sample_rate
            &&& d[28] + d[29] * 0x100 + d[30] * 0x1_0000 + d[31] * 0x100_0000 == 2
                * h.sample_rate * h.channels
            &&& d[32] + d[33] * 0x100 == 2 * h.channels
            &&& d[34] + d[35] * 0x100 == 16
            &&& d[36] == 'd' as u8 && d[37] == 'a' as u8 && d[38] == 't' as u8 && d[39]
                == 'a' as u8
            &&& d[40] + d[41] * 0x100 + d[42] * 0x1_0000 + d[43] * 0x100_0000 == 2
                * samples.len()
            &&& 0 <= i < samples.len() ==> d[44 + 2 * i] + 0x100 * d[45 + 2 * i] == (if samples[i]
                < 0 {
                samples[i] + 0x1_0000
            } else {
                samples[i] as int
            })
        }),
{
    let n = samples.len() as int;
    let d = wav_bytes(samples, h);
    let b = samples_bytes(samples);
    let rate = byte_rate(h);
    assert(h.bits_per_sample / 8 == 2);
    assert(rate == 2 * h.sample_rate * h.channels) by (nonlinear_arith)
        requires
            rate == h.sample_rate * h.channels * 2,
    ;
    assert(rate == h.sample_rate * h.channels * 2);
    assert(0 <= rate) by (nonlinear_arith)
        requires
            rate == h.sample_rate * h.channels * 2,
    ;
    lemma_le_len((36 + 2 * n) % 0x1_0000_0000);
    lemma_le_len(16);
    lemma_le_len(1);
    lemma_le_len(h.channels as int);
    lemma_le_len(h.sample_rate as int);
    lemma_le_len(rate);
    lemma_le_len(block_align(h));
    lemma_le_len(2 * n);
    lemma_samples_bytes_len(samples);
    let r = riff_head(n);
    let f = fmt_chunk(h);
    let t = data_head(n);
    assert(r.len() == 12 && f.len() == 24 && t.len() == 8);
    assert(d.subrange(0, 12) =~= r);
    assert(d.subrange(12, 36) =~= f);
    assert(d.subrange(36, 44) =~= t);
    assert(d.subrange(0, 4) =~= riff_tag());
    assert(d.subrange(8, 12) =~= wave_tag());
    assert(d.subrange(12, 16) =~= fmt_tag());
    assert(d.subrange(36, 40) =~= data_tag());
    lemma_tag_bytes(d, 0, riff_tag());
    lemma_tag_bytes(d, 8, wave_tag());
    lemma_tag_bytes(d, 12, fmt_tag());
    lemma_tag_bytes(d, 36, data_tag());
    assert(d.subrange(4, 8) =~= le32(36 + 2 * n));
    lemma_le32_reads_back(d, 4, 36 + 2 * n);
    assert(d.subrange(16, 20) =~= le32(16));
    lemma_le32_reads_back(d, 16, 16);
    assert(d.subrange(20, 22) =~= le16(1));
    lemma_le16_reads_back(d, 20, 1);
    assert(d.subrange(22, 24) =~= le16(h.channels as int));
    lemma_le16_reads_back(d, 22, h.channels as int);
    assert(d.subrange(24, 28) =~= le32(h.sample_rate as int));
    lemma_le32_reads_back(d, 24, h.sample_rate as int);
    assert(d.subrange(28, 32) =~= le32(rate));
    lemma_le32_reads_back(d, 28, rate);
    assert(d.subrange(32, 34) =~= le16(block_align(h)));
    lemma_le16_reads_back(d, 32, block_align(h));
    assert(d.subrange(34, 36) =~= le16(16));
    lemma_le16_reads_back(d, 34, 16);
    assert(d.subrange(40, 44) =~= le32(2 * n));
    lemma_le32_reads_back(d, 40, 2 * n);
    law_raw_samples(samples, b, i);
    if 0 <= i < n {
        assert(d[44 + 2 * i] == b[2 * i] && d[45 + 2 * i] == b[2 * i + 1]);
    }
}

/// The bytes of a name in a file.
proof fn lemma_tag_bytes(d: Seq<u8>, k: int, tag: Seq<u8>)
    requires
        0 <= k,
        k + 4 <= d.len(),
        d.subrange(k, k + 4) == tag,
    ensures
        d[k] == tag[0] && d[k + 1] == tag[1] && d[k + 2] == tag[2] && d[k + 3] == tag[3],
{
    let s = d.subrange(k, k + 4);
    assert(s[0] == d[k] && s[1] == d[k + 1] && s[2] == d[k + 2] && s[3] == d[k + 3]);
}

/// A WAV file is read by what stands in it: the rate, the channels, and the samples
/// of the chunk that is named for them, which follows the chunk with the format,
/// or one more chunk behind that. A chunk of odd length is followed by a byte that
/// fills it up. Samples that are announced and not there are left out.
pub proof fn law_wav_read(d: Seq<u8>, q: int, i: int)
    requires
        44 <= d.len() <= usize::MAX,
        d[0] == 'R' as u8 && d[1] == 'I' as u8 && d[2] == 'F' as u8 && d[3] == 'F' as u8,
        d[8] == 'W' as u8 && d[9] == 'A' as u8 && d[10] == 'V' as u8 && d[11] == 'E' as u8,
        d[12] == 'f' as u8 && d[13] == 'm' as u8 && d[14] == 't' as u8 && d[15] == ' ' as u8,
        d[20] + d[21] * 0x100 == 1,
        d[34] + d[35] * 0x100 == 16,
        ({
            let size = d[16] + d[17] * 0x100 + d[18] * 0x1_0000 + d[19] * 0x100_0000;
            let p = 20 + size + size % 2;
            let more = d[p + 4] + d[p + 5] * 0x100 + d[p + 6] * 0x1_0000 + d[p + 7]
                * 0x100_0000;
            q == p || (p + 8 <= d.len() && d[p] != 'd' as u8 && q == p + 8 + more + more % 2)
        }),
        q + 8 <= d.len(),
        d[q] == 'd' as u8 && d[q + 1] == 'a' as u8 && d[q + 2] == 't' as u8 && d[q + 3]
            == 'a' as u8,
    ensures
        parse_wav(d) matches Ok((h, samples)) && {
            let size = d[q + 4] + d[q + 5] * 0x100 + d[q + 6] * 0x1_0000 + d[q + 7]
                * 0x100_0000;
            let there = d.len() - q - 8;
            &&& h.sample_rate == d[24] + d[25] * 0x100 + d[26] * 0x1_0000 + d[27] * 0x100_0000
            &&& h.channels == d[22] + d[23] * 0x100
            &&& h.bits_per_sample == 16
            &&& h.num_samples == samples.len()
            &&& samples.len() == (if size < there {
                size / 2
            } else {
                there / 2
            })
            &&& 0 <= i < samples.len() ==> d[q + 8 + 2 * i] + 0x100 * d[q + 9 + 2 * i] == (
            if samples[i] < 0 {
                samples[i] + 0x1_0000
            } else {
                samples[i] as int
            })
        },
{
    assert(d.subrange(0, 4) =~= riff_tag());
    assert(d.subrange(8, 12) =~= wave_tag());
    assert(d.subrange(12, 16) =~= fmt_tag());
    assert(d.subrange(q, q + 4) =~= data_tag());
    assert(!tag_at(d, 12, data_tag())) by {
        assert(fmt_tag()[0] != data_tag()[0]);
    }
    let size = d[16] + d[17] * 0x100 + d[18] * 0x1_0000 + d[19] * 0x100_0000;
    let p = 20 + size + size % 2;
    if q != p {
        assert(!tag_at(d, p, data_tag())) by {
            assert(d.subrange(p, p + 4)[0] == d[p]);
        }
    }
    reveal_with_fuel(data_chunk, 4);
    assert(data_chunk(d, 12) == Some(q));
    let n = le32_at(d, q + 4);
    let there = d.len() - q - 8;
    let m = if n < there {
        n
    } else {
        there
    };
    let b = d.subrange(q + 8, q + 8 + m);
    law_raw_samples(seq![], b, i);
    if 0 <= i < m / 2 {
        assert(b[2 * i] == d[q + 8 + 2 * i] && b[2 * i + 1] == d[q + 9 + 2 * i]);
    }
}

// ---------------------------------------------------------------------------
// Devices
// ---------------------------------------------------------------------------

/// Each sample is played once on each channel, in order.
pub proof fn law_each_channel(samples: Seq<i16>, channels: nat, i: int, k: int)
    requires
        0 <= i < samples.len(),
        0 <= k < channels,
    ensures
        spread(samples, channels).len() == samples.len() * channels,
        spread(samples, channels)[i * channels + k] == samples[i],
    decreases samples.len(),
{
    let init = samples.drop_last();
    let n = samples.len() as int;
    lemma_spread_len(samples, channels);
    lemma_spread_len(init, channels);
    assert(i * channels + k < (i + 1) * channels) by (nonlinear_arith)
        requires
            k < channels,
    ;
    assert(0 <= i * channels) by (nonlinear_arith)
        requires
            0 <= i,
    ;
    if i < n - 1 {
        assert((i + 1) * channels <= (n - 1) * channels) by (nonlinear_arith)
            requires
                i + 1 <= n - 1,
        ;
        law_each_channel(init, channels, i, k);
        assert(init[i] == samples[i]);
    } else {
        assert(i * channels == init.len() * channels) by (nonlinear_arith)
            requires
                i == init.len(),
        ;
    }
}

proof fn lemma_spread_len(samples: Seq<i16>, channels: nat)
    ensures
        spread(samples, channels).len() == samples.len() * channels,
    decreases samples.len(),
{
    if samples.len() > 0 {
        lemma_spread_len(samples.drop_last(), channels);
        let n = samples.len() as int;
        assert((n - 1) * channels + channels == n * channels) by (nonlinear_arith);
    } else {
        assert(samples.len() * channels == 0) by (nonlinear_arith)
            requires
                samples.len() == 0,
        ;
    }
}

/// A device plays at the wanted rate wherever it can, and on the wanted channels
/// wherever it can at that rate. It records at the wanted rate wherever it can on
/// the wanted channels.
pub proof fn law_wanted_setting(cfgs: Seq<ConfigRange>, rate: u32, channels: u16, i: int)
    requires
        0 <= i < cfgs.len(),
        cfgs[i].min_rate <= rate <= cfgs[i].max_rate,
    ensures
        output_setting(cfgs, rate, channels) matches Some((r, c)) && r == rate && (
        cfgs[i].channels == channels ==> c == channels),
        cfgs[i].channels == channels ==> input_setting(cfgs, rate, channels) == Some(rate),
{
    assert(cfgs[i].has_rate(rate));
}

/// Where the wanted rate is not there, the others are tried in turn, first on the
/// wanted channels: 44100, 48000, 16000, 8000 and 96000.
pub proof fn law_other_settings(cfgs: Seq<ConfigRange>, rate: u32, channels: u16, k: int)
    requires
        forall|i: int|
            0 <= i < cfgs.len() ==> !((#[trigger] cfgs[i]).min_rate <= rate <= cfgs[i].max_rate),
        0 <= k < 5,
    ensures
        ({
            let rates = seq![44100u32, 48000, 16000, 8000, 96000];
            let on = |j: int|
                exists|i: int|
                    0 <= i < cfgs.len() && (#[trigger] cfgs[i]).channels == channels
                        && cfgs[i].min_rate <= rates[j] <= cfgs[i].max_rate;
            on(k) && (forall|j: int| 0 <= j < k ==> !#[trigger] on(j)) ==> {
                &&& output_setting(cfgs, rate, channels) == Some((rates[k], channels))
                &&& input_setting(cfgs, rate, channels) == Some(rates[k])
            }
        }),
{
    let rates = seq![44100u32, 48000, 16000, 8000, 96000];
    let on = |j: int|
        exists|i: int|
            0 <= i < cfgs.len() && (#[trigger] cfgs[i]).channels == channels && cfgs[i].min_rate
                <= rates[j] <= cfgs[i].max_rate;
    assert(standard_rates() =~= rates);
    assert(!supports_rate(cfgs, rate));
    assert(!supports(cfgs, rate, channels));
    assert forall|j: int| 0 <= j < 5 implies #[trigger] on(j) == supports(
        cfgs,
        rates[j],
        channels,
    ) by {
        if on(j) {
            let i = choose|i: int|
                0 <= i < cfgs.len() && (#[trigger] cfgs[i]).channels == channels
                    && cfgs[i].min_rate <= rates[j] <= cfgs[i].max_rate;
            assert(cfgs[i].has_rate(rates[j]));
        }
    }
    if on(k) && (forall|j: int| 0 <= j < k ==> !#[trigger] on(j)) {
        reveal_with_fuel(pick_rate, 6);
        assert(k > 0 ==> !on(0));
        assert(k > 1 ==> !on(1));
        assert(k > 2 ==> !on(2));
        assert(k > 3 ==> !on(3));
        let r1 = rates.skip(1);
        let r2 = r1.skip(1);
        let r3 = r2.skip(1);
        let r4 = r3.skip(1);
        assert(r1[0] == 48000 && r2[0] == 16000 && r3[0] == 8000 && r4[0] == 96000);
        assert(pick_rate(cfgs, standard_rates(), channels) == Some(rates[k]));
    }
}

/// Packets are played once a quarter of the room is filled, or one where that is
/// less, from the least number among them; not before.
pub proof fn law_playing_begins(j: JitterView, p: PacketView)
    requires
        j.wf(),
        j.next is None,
        j.buffer.len() < j.capacity,
    ensures
        ({
            let after = inserted(j, p);
            let quarter = if j.capacity < 8 {
                1nat
            } else {
                j.capacity / 4
            };
            &&& after.buffer == j.buffer.insert(p.sequence_number, p)
            &&& after.next is Some <==> after.buffer.len() >= quarter
            &&& after.next matches Some(n) ==> after.buffer.contains_key(n) && forall|k: u16|
                #[trigger] after.buffer.contains_key(k) ==> n <= k
        }),
{
    let b = j.buffer.insert(p.sequence_number, p);
    assert(b.contains_key(p.sequence_number));
    lemma_least_exists(b.dom());
    assert(is_least(b.dom(), least(b.dom())));
    assert forall|k: u16| #[trigger] b.contains_key(k) implies least(b.dom()) <= k by {
        assert(b.dom().contains(k));
    }
}

/// A packet of audio bears the number and the time that are due, the session's own
/// source and the codec's number, and no mark. Then the number goes up by one and the
/// time by the samples of a frame.
pub proof fn law_audio_packet(s: SessionView, payload: Seq<u8>)
    ensures
        ({
            let p = audio_view(s, payload);
            &&& p.version == 2 && !p.padding && !p.extension && p.csrc_count == 0 && p.csrc.len()
                == 0
            &&& !p.marker
            &&& p.payload_type == (match s.codec {
                CodecType::Pcmu => 0u8,
                CodecType::Pcma => 8u8,
                CodecType::Opus => 111u8,
            })
            &&& p.sequence_number == s.seq
            &&& p.timestamp == s.ts
            &&& p.ssrc == s.ssrc
            &&& p.payload == payload
        }),
        after_audio(s).seq == (s.seq + 1) % 0x1_0000,
        after_audio(s).ts == (s.ts + (match s.codec {
            CodecType::Opus => 960int,
            _ => 160int,
        })) % 0x1_0000_0000,
        after_audio(s) == (SessionView { seq: after_audio(s).seq, ts: after_audio(s).ts, ..s }),
{
}

/// Keys wait in the order in which they are typed, in upper case and for 800 samples
/// each; blanks are passed over. The first character that is no key is an error, and
/// nothing behind it waits.
pub proof fn law_typed_keys(c: char, rest: Seq<char>)
    ensures
        keys_of(Seq::empty()).len() == 0,
        bad_key(Seq::empty()) is None,
        c == ' ' || c == '\t' ==> keys_of(seq![c] + rest) == keys_of(rest) && bad_key(
            seq![c] + rest,
        ) == bad_key(rest),
        '0' <= c <= '9' || c == '*' || c == '#' || 'A' <= c <= 'D' ==> keys_of(seq![c] + rest)
            == seq![QueuedDtmf { digit: c, duration_samples: 800 }] + keys_of(rest) && bad_key(
            seq![c] + rest,
        ) == bad_key(rest),
        'a' <= c <= 'd' ==> keys_of(seq![c] + rest) == seq![
            QueuedDtmf { digit: (c as u32 - 32) as char, duration_samples: 800 },
        ] + keys_of(rest) && bad_key(seq![c] + rest) == bad_key(rest),
        '!' <= c <= '~' && !('0' <= c <= '9' || c == '*' || c == '#' || 'A' <= c <= 'D' || 'a' <= c
            <= 'd') ==> keys_of(seq![c] + rest).len() == 0 && bad_key(seq![c] + rest) == Some(c),
{
    assert((seq![c] + rest).skip(1) =~= rest);
    assert((seq![c] + rest)[0] == c);
}

/// A device is chosen by the word for the default one, by a number, or by a part of
/// its name.
pub proof fn law_device_choice(arg: Seq<char>, n: nat)
    ensures
        ascii_lowered(arg) == "default"@ ==> SelectorView::of_arg(arg) == SelectorView::Default,
        ascii_lowered(arg) != "default"@ && uint_of(arg, usize::MAX as nat) is Some
            ==> SelectorView::of_arg(arg) == SelectorView::ByIndex(
            uint_of(arg, usize::MAX as nat)->0,
        ),
        ascii_lowered(arg) != "default"@ && uint_of(arg, usize::MAX as nat) is None
            ==> SelectorView::of_arg(arg) == SelectorView::ByName(arg),
        SelectorView::Default.text() == "default"@,
        SelectorView::ByName(arg).text() == "\""@ + arg + "\""@,
        SelectorView::ByIndex(n).text() == "#"@ + dec(n),
{
}

/// A device is listed with its name, whether it is the default one, which way it
/// goes, and the rates and channels that it takes.
pub proof fn law_device_listed(name: Seq<char>, rates: Seq<u32>, channels: Seq<u16>, r: u32, c: u16)
    ensures
        device_text(name, true, DeviceType::Input, rates, channels) == name + " (default)"@ + " ["@
            + "input"@ + "] rates=["@ + rates_text(rates) + "] channels=["@ + channels_text(
            channels,
        ) + "]"@,
        device_text(name, false, DeviceType::Output, rates, channels) == name + ""@ + " ["@
            + "output"@ + "] rates=["@ + rates_text(rates) + "] channels=["@ + channels_text(
            channels,
        ) + "]"@,
        rates_text(seq![r]) == dec(r as nat) + "Hz"@,
        rates.len() > 0 ==> rates_text(rates.push(r)) == rates_text(rates) + ", "@ + dec(r as nat)
            + "Hz"@,
        channels_text(seq![c]) == dec(c as nat),
        channels.len() > 0 ==> channels_text(channels.push(c)) == channels_text(channels) + ", "@
            + dec(c as nat),
{
    assert(rates.push(r).drop_last() =~= rates);
    assert(channels.push(c).drop_last() =~= channels);
}

/// Of the usual rates those are listed that some setting takes, in their order.
pub proof fn law_rates_listed(cfgs: Seq<ConfigRange>, rates: Seq<u32>, r: u32)
    ensures
        listed_rates(cfgs, Seq::empty()).len() == 0,
        (exists|i: int|
            0 <= i < cfgs.len() && (#[trigger] cfgs[i]).min_rate <= r <= cfgs[i].max_rate)
            ==> listed_rates(cfgs, rates.push(r)) == listed_rates(cfgs, rates).push(r),
        (forall|i: int|
            0 <= i < cfgs.len() ==> !((#[trigger] cfgs[i]).min_rate <= r <= cfgs[i].max_rate))
            ==> listed_rates(cfgs, rates.push(r)) == listed_rates(cfgs, rates),
        usual_rates() == seq![8000u32, 16000, 44100, 48000],
        standard_rates() == seq![44100u32, 48000, 16000, 8000, 96000],
{
    assert(rates.push(r).drop_last() =~= rates);
    if exists|i: int|
        0 <= i < cfgs.len() && (#[trigger] cfgs[i]).min_rate <= r <= cfgs[i].max_rate {
        let i = choose|i: int|
            0 <= i < cfgs.len() && (#[trigger] cfgs[i]).min_rate <= r <= cfgs[i].max_rate;
        assert(cfgs[i].has_rate(r));
    }
}

/// The payload of a packet lies behind its header and the extension that the header
/// announces, where that is whole, and before the padding that the last byte counts;
/// where these leave no room there is none.
pub proof fn law_payload_bounds(d: Seq<u8>)
    requires
        parse_packet(d) is Ok,
    ensures
        ({
            let h = 12 + 4 * (d[0] % 16);
            let start = if (d[0] / 16) % 2 == 1 && d.len() >= h + 4 {
                h + 4 + 4 * (d[h + 2] * 0x100 + d[h + 3])
            } else {
                h
            };
            let end = if (d[0] / 32) % 2 == 1 {
                if d.last() <= d.len() {
                    d.len() - d.last()
                } else {
                    0
                }
            } else {
                d.len() as int
            };
            &&& start < end ==> (parse_packet(d)->Ok_0).payload == d.subrange(start, end)
            &&& start >= end ==> (parse_packet(d)->Ok_0).payload.len() == 0
        }),
{
}

/// What the codecs make of a frame: the companded laws always their own bytes, and
/// Opus what its encoder gave, or the samples as they are where there is none.
pub proof fn law_payload_chosen(samples: Seq<i16>, opus: OpusFrameView, e: Seq<char>, b: Seq<u8>)
    ensures
        payload_of(CodecType::Pcmu, samples, opus) == Ok::<Seq<u8>, CodecErrorView>(
            encoded(CodecType::Pcmu, samples),
        ),
        payload_of(CodecType::Pcma, samples, opus) == Ok::<Seq<u8>, CodecErrorView>(
            encoded(CodecType::Pcma, samples),
        ),
        payload_of(CodecType::Opus, samples, OpusFrameView::Encoded(b)) == Ok::<
            Seq<u8>,
            CodecErrorView,
        >(b),
        payload_of(CodecType::Opus, samples, OpusFrameView::Absent) == Ok::<
            Seq<u8>,
            CodecErrorView,
        >(samples_bytes(samples)),
        payload_of(CodecType::Opus, samples, OpusFrameView::Failed(e)) == Err::<
            Seq<u8>,
            CodecErrorView,
        >(CodecErrorView::EncodingError("opus encode: "@ + e)),
{
}

/// What the codecs make of a payload, in the same way.
pub proof fn law_samples_chosen(
    data: Seq<u8>,
    opus: OpusSamplesView,
    e: Seq<char>,
    s: Seq<i16>,
)
    ensures
        samples_of(CodecType::Pcmu, data, opus) == decoded(CodecType::Pcmu, data),
        samples_of(CodecType::Pcma, data, opus) == decoded(CodecType::Pcma, data),
        samples_of(CodecType::Opus, data, OpusSamplesView::Decoded(s)) == Ok::<
            Seq<i16>,
            CodecErrorView,
        >(s),
        samples_of(CodecType::Opus, data, OpusSamplesView::Failed(e)) == Err::<
            Seq<i16>,
            CodecErrorView,
        >(CodecErrorView::DecodingError("opus decode: "@ + e)),
{
}

/// A frame of silence is 160 bytes of the code for zero, or for Opus 960 samples of
/// zero.
pub proof fn law_silence(i: int)
    ensures
        silence(CodecType::Pcmu).len() == 160,
        silence(CodecType::Pcma).len() == 160,
        silence(CodecType::Opus).len() == 1920,
        0 <= i < 160 ==> silence(CodecType::Pcmu)[i] == 0xff && silence(CodecType::Pcma)[i]
            == 0xd5,
        0 <= i < 1920 ==> silence(CodecType::Opus)[i] == 0,
{
}

/// What is no recording: the first thing that is wrong with it is the error.
pub proof fn law_wav_refused(d: Seq<u8>)
    ensures
        d.len() < 44 ==> parse_wav(d) == Err::<(WavHeader, Seq<i16>), WavErrorView>(
            WavErrorView::InvalidHeader("too short"@),
        ),
        d.len() >= 44 && d.subrange(0, 4) != seq!['R' as u8, 'I' as u8, 'F' as u8, 'F' as u8]
            ==> parse_wav(d) == Err::<(WavHeader, Seq<i16>), WavErrorView>(
            WavErrorView::InvalidHeader("missing RIFF"@),
        ),
        parse_wav(d) is Ok ==> {
            &&& d.subrange(0, 4) == seq!['R' as u8, 'I' as u8, 'F' as u8, 'F' as u8]
            &&& d.subrange(8, 12) == seq!['W' as u8, 'A' as u8, 'V' as u8, 'E' as u8]
            &&& d.subrange(12, 16) == seq!['f' as u8, 'm' as u8, 't' as u8, ' ' as u8]
            &&& d[20] + 0x100 * d[21] == 1
            &&& d[34] + 0x100 * d[35] == 16
        },
{
    assert(riff_tag() =~= seq!['R' as u8, 'I' as u8, 'F' as u8, 'F' as u8]);
    assert(wave_tag() =~= seq!['W' as u8, 'A' as u8, 'V' as u8, 'E' as u8]);
    assert(fmt_tag() =~= seq!['f' as u8, 'm' as u8, 't' as u8, ' ' as u8]);
}

} // verus!
