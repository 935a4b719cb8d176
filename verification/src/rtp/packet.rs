//! RTP packets (RFC 3550).
use crate::number::{dec, push_dec};
use vstd::prelude::*;
use vstd::slice::{slice_subrange, slice_to_vec};

verus! {

/// An RTP packet.
///
/// ```text
///  0                   1                   2                   3
///  0 1 2 3 4 5 6 7 8 9 0 1 2 3 4 5 6 7 8 9 0 1 2 3 4 5 6 7 8 9 0 1
/// +-+-+-+-+-+-+-+-+-+-+-+-+-+-+-+-+-+-+-+-+-+-+-+-+-+-+-+-+-+-+-+-+
/// |V=2|P|X|  CC   |M|     PT      |       sequence number         |
/// +-+-+-+-+-+-+-+-+-+-+-+-+-+-+-+-+-+-+-+-+-+-+-+-+-+-+-+-+-+-+-+-+
/// |                           timestamp                           |
/// +-+-+-+-+-+-+-+-+-+-+-+-+-+-+-+-+-+-+-+-+-+-+-+-+-+-+-+-+-+-+-+-+
/// |           synchronization source (SSRC) identifier            |
/// +-+-+-+-+-+-+-+-+-+-+-+-+-+-+-+-+-+-+-+-+-+-+-+-+-+-+-+-+-+-+-+-+
/// ```
#[derive(Debug, PartialEq, Eq)]
pub struct RtpPacket {
    pub version: u8,
    pub padding: bool,
    pub extension: bool,
    pub csrc_count: u8,
    pub marker: bool,
    pub payload_type: u8,
    pub sequence_number: u16,
    pub timestamp: u32,
    pub ssrc: u32,
    pub csrc: Vec<u32>,
    pub payload: Vec<u8>,
}

/// What an `RtpPacket` holds.
pub struct PacketView {
    pub version: u8,
    pub padding: bool,
    pub extension: bool,
    pub csrc_count: u8,
    pub marker: bool,
    pub payload_type: u8,
    pub sequence_number: u16,
    pub timestamp: u32,
    pub ssrc: u32,
    pub csrc: Seq<u32>,
    pub payload: Seq<u8>,
}

impl View for RtpPacket {
    type V = PacketView;

    open spec fn view(&self) -> PacketView {
        PacketView {
            version: self.version,
            padding: self.padding,
            extension: self.extension,
            csrc_count: self.csrc_count,
            marker: self.marker,
            payload_type: self.payload_type,
            sequence_number: self.sequence_number,
            timestamp: self.timestamp,
            ssrc: self.ssrc,
            csrc: self.csrc@,
            payload: self.payload@,
        }
    }
}

impl Clone for RtpPacket {
    fn clone(&self) -> (r: Self)
        ensures
            r@ == self@,
    {
        RtpPacket {
            version: self.version,
            padding: self.padding,
            extension: self.extension,
            csrc_count: self.csrc_count,
            marker: self.marker,
            payload_type: self.payload_type,
            sequence_number: self.sequence_number,
            timestamp: self.timestamp,
            ssrc: self.ssrc,
            csrc: slice_to_vec(self.csrc.as_slice()),
            payload: slice_to_vec(self.payload.as_slice()),
        }
    }
}

/// Why bytes are no RTP packet.
#[derive(Debug, Clone, Copy, PartialEq, Eq, Structural)]
pub enum RtpError {
    TooShort(usize),
    InvalidVersion(u8),
    BufferTooSmall,
}

impl RtpError {
    /// The error in words.
    pub open spec fn message(self) -> Seq<char> {
        match self {
            RtpError::TooShort(n) => "packet too short: "@ + dec(n as nat) + " bytes"@,
            RtpError::InvalidVersion(v) => "invalid RTP version: "@ + dec(v as nat),
            RtpError::BufferTooSmall => "buffer too small"@,
        }
    }

    /// The error in words.
    pub fn to_string(&self) -> (r: String)
        ensures
            r@ == self.message(),
    {
        match self {
            RtpError::TooShort(n) => {
                let mut s = "packet too short: ".to_owned();
                push_dec(&mut s, *n as u64);
                s.append(" bytes");
                s
            },
            RtpError::InvalidVersion(v) => {
                let mut s = "invalid RTP version: ".to_owned();
                push_dec(&mut s, *v as u64);
                s
            },
            RtpError::BufferTooSmall => "buffer too small".to_owned(),
        }
    }
}

// ---------------------------------------------------------------------------
// Numbers in network order
// ---------------------------------------------------------------------------

/// The two bytes of `x`, the most significant first.
pub open spec fn be16(x: u16) -> Seq<u8> {
    seq![(x / 256) as u8, (x % 256) as u8]
}

/// The four bytes of `x`, the most significant first.
pub open spec fn be32(x: u32) -> Seq<u8> {
    seq![
        (x / 16777216) as u8,
        ((x / 65536) % 256) as u8,
        ((x / 256) % 256) as u8,
        (x % 256) as u8,
    ]
}

/// The number whose two bytes stand at position `i`.
pub open spec fn u16_at(d: Seq<u8>, i: int) -> u16 {
    (d[i] * 256 + d[i + 1]) as u16
}

/// The number whose four bytes stand at position `i`.
pub open spec fn u32_at(d: Seq<u8>, i: int) -> u32 {
    (d[i] * 16777216 + d[i + 1] * 65536 + d[i + 2] * 256 + d[i + 3]) as u32
}

pub fn push_be16(buf: &mut Vec<u8>, x: u16)
    ensures
        final(buf)@ == old(buf)@ + be16(x),
{
    buf.push((x / 256) as u8);
    buf.push((x % 256) as u8);
    assert(buf@ =~= old(buf)@ + be16(x));
}

pub fn push_be32(buf: &mut Vec<u8>, x: u32)
    ensures
        final(buf)@ == old(buf)@ + be32(x),
{
    buf.push((x / 16777216) as u8);
    buf.push(((x / 65536) % 256) as u8);
    buf.push(((x / 256) % 256) as u8);
    buf.push((x % 256) as u8);
    assert(buf@ =~= old(buf)@ + be32(x));
}

pub fn read_be16(d: &[u8], i: usize) -> (r: u16)
    requires
        i + 2 <= d.len(),
    ensures
        r == u16_at(d@, i as int),
{
    d[i] as u16 * 256 + d[i + 1] as u16
}

pub fn read_be32(d: &[u8], i: usize) -> (r: u32)
    requires
        i + 4 <= d.len(),
    ensures
        r == u32_at(d@, i as int),
{
    d[i] as u32 * 16777216 + d[i + 1] as u32 * 65536 + d[i + 2] as u32 * 256 + d[i + 3] as u32
}

/// Appends a slice of bytes.
pub fn push_bytes(buf: &mut Vec<u8>, bytes: &[u8])
    ensures
        final(buf)@ == old(buf)@ + bytes@,
{
    let n: usize = bytes.len();
    let mut i: usize = 0;
    assert(buf@ =~= old(buf)@ + bytes@.take(0));
    while i < n
        invariant
            n == bytes@.len(),
            i <= n,
            buf@ == old(buf)@ + bytes@.take(i as int),
        decreases n - i,
    {
        buf.push(bytes[i]);
        i = i + 1;
        assert(buf@ =~= old(buf)@ + bytes@.take(i as int));
    }
    assert(bytes@.take(n as int) =~= bytes@);
}

// ---------------------------------------------------------------------------
// Writing
// ---------------------------------------------------------------------------

/// The number that stands for a flag.
pub open spec fn bit(b: bool) -> int {
    if b {
        1
    } else {
        0
    }
}

/// The identifiers of the contributing sources, in network order.
pub open spec fn csrc_bytes(ids: Seq<u32>) -> Seq<u8>
    decreases ids.len(),
{
    if ids.len() == 0 {
        seq![]
    } else {
        csrc_bytes(ids.drop_last()) + be32(ids.last())
    }
}

/// The first byte of a packet.
pub open spec fn byte0(p: PacketView) -> u8 {
    ((p.version % 4) * 64 + bit(p.padding) * 32 + bit(p.extension) * 16 + p.csrc.len() % 16) as u8
}

/// The second byte of a packet.
pub open spec fn byte1(p: PacketView) -> u8 {
    (bit(p.marker) * 128 + p.payload_type % 128) as u8
}

/// A packet as it is sent.
pub open spec fn packet_bytes(p: PacketView) -> Seq<u8> {
    seq![byte0(p), byte1(p)] + be16(p.sequence_number) + be32(p.timestamp) + be32(p.ssrc)
        + csrc_bytes(p.csrc) + p.payload
}

// ---------------------------------------------------------------------------
// Reading
// ---------------------------------------------------------------------------

/// The length of the header without an extension, in a packet with `cc`
/// contributing sources.
pub open spec fn header_len(cc: int) -> int {
    12 + 4 * cc
}

/// The identifiers of the `cc` contributing sources.
pub open spec fn csrc_of(d: Seq<u8>, cc: nat) -> Seq<u32> {
    Seq::new(cc, |i: int| u32_at(d, 12 + 4 * i))
}

/// Where the payload begins: behind the header, and behind an extension where
/// there is room for its head.
pub open spec fn payload_start(d: Seq<u8>) -> int {
    let h = header_len((d[0] % 16) as int);
    if (d[0] / 16) % 2 == 1 && d.len() >= h + 4 {
        h + 4 + 4 * u16_at(d, h + 2)
    } else {
        h
    }
}

/// Where the payload ends: before the padding, whose length is in the last
/// byte, if there is any.
pub open spec fn payload_end(d: Seq<u8>) -> int {
    if (d[0] / 32) % 2 == 1 {
        let n = d.len() - d.last();
        if n < 0 {
            0
        } else {
            n
        }
    } else {
        d.len() as int
    }
}

/// The payload of a packet.
pub open spec fn payload_of(d: Seq<u8>) -> Seq<u8> {
    if payload_start(d) <= payload_end(d) {
        d.subrange(payload_start(d), payload_end(d))
    } else {
        seq![]
    }
}

/// The packet that bytes denote.
pub open spec fn parse_packet(d: Seq<u8>) -> Result<PacketView, RtpError> {
    if d.len() < 12 {
        Err(RtpError::TooShort(d.len() as usize))
    } else if d[0] / 64 != 2 {
        Err(RtpError::InvalidVersion(d[0] / 64))
    } else if d.len() < header_len((d[0] % 16) as int) {
        Err(RtpError::TooShort(d.len() as usize))
    } else {
        Ok(
            PacketView {
                version: 2,
                padding: (d[0] / 32) % 2 == 1,
                extension: (d[0] / 16) % 2 == 1,
                csrc_count: d[0] % 16,
                marker: d[1] >= 128,
                payload_type: d[1] % 128,
                sequence_number: u16_at(d, 2),
                timestamp: u32_at(d, 4),
                ssrc: u32_at(d, 8),
                csrc: csrc_of(d, (d[0] % 16) as nat),
                payload: payload_of(d),
            },
        )
    }
}

impl RtpPacket {
    /// The length of a header without contributing sources and extension.
    pub const MIN_HEADER_SIZE: usize = 12;

    /// A packet without payload.
    pub fn new(payload_type: u8, sequence_number: u16, timestamp: u32, ssrc: u32) -> (r: Self)
        ensures
            r@ == (PacketView {
                version: 2,
                padding: false,
                extension: false,
                csrc_count: 0,
                marker: false,
                payload_type,
                sequence_number,
                timestamp,
                ssrc,
                csrc: seq![],
                payload: seq![],
            }),
    {
        let r = RtpPacket {
            version: 2,
            padding: false,
            extension: false,
            csrc_count: 0,
            marker: false,
            payload_type,
            sequence_number,
            timestamp,
            ssrc,
            csrc: Vec::new(),
            payload: Vec::new(),
        };
        assert(r@.csrc =~= seq![]);
        assert(r@.payload =~= seq![]);
        r
    }

    /// The packet with another payload.
    pub fn with_payload(self, payload: Vec<u8>) -> (r: Self)
        ensures
            r@ == (PacketView { payload: payload@, ..self@ }),
    {
        let mut p = self;
        p.payload = payload;
        p
    }

    /// The packet with or without the marker.
    pub fn with_marker(self, marker: bool) -> (r: Self)
        ensures
            r@ == (PacketView { marker, ..self@ }),
    {
        let mut p = self;
        p.marker = marker;
        p
    }

    /// Reads a packet.
    pub fn parse(data: &[u8]) -> (r: Result<Self, RtpError>)
        ensures
            match r {
                Ok(p) => parse_packet(data@) == Ok::<PacketView, RtpError>(p@),
                Err(e) => parse_packet(data@) == Err::<PacketView, RtpError>(e),
            },
    {
        let n: usize = data.len();
        if n < RtpPacket::MIN_HEADER_SIZE {
            return Err(RtpError::TooShort(n));
        }
        let b0: u8 = data[0];
        let b1: u8 = data[1];
        let version: u8 = b0 / 64;
        if version != 2 {
            return Err(RtpError::InvalidVersion(version));
        }
        let padding = (b0 / 32) % 2 == 1;
        let extension = (b0 / 16) % 2 == 1;
        let csrc_count: u8 = b0 % 16;
        let header_size: usize = 12 + csrc_count as usize * 4;
        if n < header_size {
            return Err(RtpError::TooShort(n));
        }
        let mut csrc: Vec<u32> = Vec::new();
        let mut i: usize = 0;
        while i < csrc_count as usize
            invariant
                n == data@.len(),
                i <= csrc_count < 16,
                n >= 12 + 4 * csrc_count,
                csrc@ =~= csrc_of(data@, i as nat),
            decreases csrc_count - i,
        {
            csrc.push(read_be32(data, 12 + i * 4));
            i = i + 1;
        }
        let mut start: usize = header_size;
        if extension && n - header_size >= 4 {
            let words: usize = read_be16(data, header_size + 2) as usize;
            start = header_size + 4 + words * 4;
        }
        let end: usize = if padding {
            let pad: usize = data[n - 1] as usize;
            if pad > n {
                0
            } else {
                n - pad
            }
        } else {
            n
        };
        let payload: Vec<u8> = if start <= end {
            slice_to_vec(slice_subrange(data, start, end))
        } else {
            Vec::new()
        };
        assert(start == payload_start(data@));
        assert(end == payload_end(data@));
        assert(payload@ =~= payload_of(data@));
        Ok(
            RtpPacket {
                version,
                padding,
                extension,
                csrc_count,
                marker: b1 >= 128,
                payload_type: b1 % 128,
                sequence_number: read_be16(data, 2),
                timestamp: read_be32(data, 4),
                ssrc: read_be32(data, 8),
                csrc,
                payload,
            },
        )
    }

    /// The packet as it is sent.
    pub fn serialize(&self) -> (r: Vec<u8>)
        ensures
            r@ == packet_bytes(self@),
    {
        let mut buf: Vec<u8> = Vec::new();
        let n: usize = self.csrc.len();
        let p: u8 = if self.padding { 32 } else { 0 };
        let x: u8 = if self.extension { 16 } else { 0 };
        let m: u8 = if self.marker { 128 } else { 0 };
        buf.push((self.version % 4) * 64 + p + x + (n % 16) as u8);
        buf.push(m + self.payload_type % 128);
        assert(buf@ =~= seq![byte0(self@), byte1(self@)]);
        push_be16(&mut buf, self.sequence_number);
        push_be32(&mut buf, self.timestamp);
        push_be32(&mut buf, self.ssrc);
        let ghost head = buf@;
        let mut i: usize = 0;
        assert(buf@ =~= head + csrc_bytes(self.csrc@.take(0)));
        while i < n
            invariant
                n == self.csrc@.len(),
                i <= n,
                buf@ == head + csrc_bytes(self.csrc@.take(i as int)),
            decreases n - i,
        {
            proof {
                assert(self.csrc@.take(i + 1).drop_last() =~= self.csrc@.take(i as int));
                assert(self.csrc@.take(i + 1).last() == self.csrc@[i as int]);
            }
            push_be32(&mut buf, self.csrc[i]);
            assert(buf@ =~= head + csrc_bytes(self.csrc@.take(i + 1)));
            i = i + 1;
        }
        assert(self.csrc@.take(n as int) =~= self.csrc@);
        push_bytes(&mut buf, self.payload.as_slice());
        buf
    }

    /// The length of the packet as it is sent.
    pub fn size(&self) -> (r: usize)
        requires
            12 + 4 * self.csrc@.len() + self.payload@.len() <= usize::MAX,
        ensures
            r == packet_bytes(self@).len(),
    {
        proof {
            lemma_csrc_len(self.csrc@);
        }
        12 + self.csrc.len() * 4 + self.payload.len()
    }
}

// ---------------------------------------------------------------------------
// Laws
// ---------------------------------------------------------------------------

pub proof fn lemma_csrc_len(ids: Seq<u32>)
    ensures
        csrc_bytes(ids).len() == 4 * ids.len(),
    decreases ids.len(),
{
    if ids.len() > 0 {
        lemma_csrc_len(ids.drop_last());
    }
}

/// A number in network order reads back.
pub proof fn lemma_be32_reads_back(d: Seq<u8>, i: int, x: u32)
    requires
        0 <= i,
        i + 4 <= d.len(),
        d.subrange(i, i + 4) == be32(x),
    ensures
        u32_at(d, i) == x,
{
    let s = d.subrange(i, i + 4);
    assert(s[0] == d[i] && s[1] == d[i + 1] && s[2] == d[i + 2] && s[3] == d[i + 3]);
    assert(x == (x / 16777216) * 16777216 + ((x / 65536) % 256) * 65536 + ((x / 256) % 256) * 256
        + x % 256);
}

pub proof fn lemma_csrc_reads_back(ids: Seq<u32>, j: int)
    requires
        0 <= j < ids.len(),
    ensures
        csrc_bytes(ids).len() == 4 * ids.len(),
        csrc_bytes(ids).subrange(4 * j, 4 * j + 4) == be32(ids[j]),
    decreases ids.len(),
{
    lemma_csrc_len(ids);
    lemma_csrc_len(ids.drop_last());
    let b = csrc_bytes(ids);
    let f = csrc_bytes(ids.drop_last());
    if j < ids.len() - 1 {
        lemma_csrc_reads_back(ids.drop_last(), j);
        assert(b.subrange(4 * j, 4 * j + 4) =~= f.subrange(4 * j, 4 * j + 4));
    } else {
        assert(b.subrange(4 * j, 4 * j + 4) =~= be32(ids[j]));
    }
}

/// A packet that says what it holds: version 2, as many contributing sources
/// as it counts, a payload type of seven bits, and neither padding nor an
/// extension.
pub open spec fn plain_packet(p: PacketView) -> bool {
    &&& p.version == 2
    &&& p.csrc_count == p.csrc.len()
    &&& p.csrc.len() < 16
    &&& p.payload_type < 128
    &&& !p.padding
    &&& !p.extension
}

/// A packet that is sent and received is the packet that was sent.
pub proof fn law_packet_reads_back(p: PacketView)
    requires
        plain_packet(p),
    ensures
        parse_packet(packet_bytes(p)) == Ok::<PacketView, RtpError>(p),
{
    let d = packet_bytes(p);
    lemma_csrc_len(p.csrc);
    let n = p.csrc.len() as int;
    assert(d.len() == 12 + 4 * n + p.payload.len());
    assert(d[0] == byte0(p));
    assert(d[1] == byte1(p));
    assert(d[0] / 64 == 2 && d[0] % 16 == n && (d[0] / 32) % 2 == 0 && (d[0] / 16) % 2 == 0);
    assert(d[2] == (p.sequence_number / 256) as u8);
    assert(d[3] == (p.sequence_number % 256) as u8);
    assert(u16_at(d, 2) == p.sequence_number);
    assert(d.subrange(4, 8) =~= be32(p.timestamp));
    lemma_be32_reads_back(d, 4, p.timestamp);
    assert(d.subrange(8, 12) =~= be32(p.ssrc));
    lemma_be32_reads_back(d, 8, p.ssrc);
    assert forall|i: int| 0 <= i < n implies csrc_of(d, n as nat)[i] == p.csrc[i] by {
        lemma_csrc_reads_back(p.csrc, i);
        assert(d.subrange(12 + 4 * i, 12 + 4 * i + 4) =~= csrc_bytes(p.csrc).subrange(
            4 * i,
            4 * i + 4,
        ));
        lemma_be32_reads_back(d, 12 + 4 * i, p.csrc[i]);
    }
    assert(csrc_of(d, n as nat) =~= p.csrc);
    assert(payload_of(d) =~= p.payload);
}

} // verus!
