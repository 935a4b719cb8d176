//! WAV files: sixteen-bit samples and the header that describes them.
use super::codec::{
    bytes_samples, law_samples_read_back, lemma_samples_bytes_len, push_samples, samples_bytes,
    samples_of_bytes,
};
use super::packet::push_bytes;
use crate::number::{dec, push_dec};
use vstd::prelude::*;
use vstd::slice::{slice_subrange, slice_to_vec};

verus! {

/// Why bytes are no WAV file that the library can read.
#[derive(Debug)]
pub enum WavError {
    InvalidHeader(String),
    UnsupportedFormat(String),
}

pub enum WavErrorView {
    InvalidHeader(Seq<char>),
    UnsupportedFormat(Seq<char>),
}

impl View for WavError {
    type V = WavErrorView;

    open spec fn view(&self) -> WavErrorView {
        match *self {
            WavError::InvalidHeader(s) => WavErrorView::InvalidHeader(s@),
            WavError::UnsupportedFormat(s) => WavErrorView::UnsupportedFormat(s@),
        }
    }
}

impl WavErrorView {
    /// The error in words.
    pub open spec fn message(self) -> Seq<char> {
        match self {
            WavErrorView::InvalidHeader(s) => "invalid WAV header: "@ + s,
            WavErrorView::UnsupportedFormat(s) => "unsupported format: "@ + s,
        }
    }
}

impl WavError {
    /// The error in words.
    pub fn to_string(&self) -> (r: String)
        ensures
            r@ == self@.message(),
    {
        match self {
            WavError::InvalidHeader(s) => {
                let mut m = "invalid WAV header: ".to_owned();
                m.append(s.as_str());
                m
            },
            WavError::UnsupportedFormat(s) => {
                let mut m = "unsupported format: ".to_owned();
                m.append(s.as_str());
                m
            },
        }
    }
}

/// What a WAV header says.
#[derive(Debug, Clone, Copy)]
pub struct WavHeader {
    pub sample_rate: u32,
    pub channels: u16,
    pub bits_per_sample: u16,
    pub num_samples: usize,
}

impl WavHeader {
    /// The header of telephone audio: one channel at 8000 samples a second.
    pub fn telephony() -> (r: Self)
        ensures
            r == (WavHeader {
                sample_rate: 8000,
                channels: 1,
                bits_per_sample: 16,
                num_samples: 0,
            }),
    {
        WavHeader { sample_rate: 8000, channels: 1, bits_per_sample: 16, num_samples: 0 }
    }

    /// The header of one channel at that rate.
    pub fn mono(sample_rate: u32) -> (r: Self)
        ensures
            r == (WavHeader { sample_rate, channels: 1, bits_per_sample: 16, num_samples: 0 }),
    {
        WavHeader { sample_rate, channels: 1, bits_per_sample: 16, num_samples: 0 }
    }
}

/// The two bytes of `x`, the less significant first.
#[verifier::opaque]
pub open spec fn le16(x: int) -> Seq<u8> {
    seq![(x % 256) as u8, ((x / 256) % 256) as u8]
}

/// The four bytes of `x`, the least significant first.
#[verifier::opaque]
pub open spec fn le32(x: int) -> Seq<u8> {
    seq![
        (x % 256) as u8,
        ((x / 256) % 256) as u8,
        ((x / 65536) % 256) as u8,
        ((x / 16777216) % 256) as u8,
    ]
}

fn push_le16(buf: &mut Vec<u8>, x: u16)
    ensures
        final(buf)@ == old(buf)@ + le16(x as int),
{
    proof {
        reveal(le16);
    }
    buf.push((x % 256) as u8);
    buf.push(((x / 256) % 256) as u8);
    assert(buf@ =~= old(buf)@ + le16(x as int));
}

fn push_le32(buf: &mut Vec<u8>, x: u32)
    ensures
        final(buf)@ == old(buf)@ + le32(x as int),
{
    proof {
        reveal(le32);
    }
    buf.push((x % 256) as u8);
    buf.push(((x / 256) % 256) as u8);
    buf.push(((x / 65536) % 256) as u8);
    buf.push(((x / 16777216) % 256) as u8);
    assert(buf@ =~= old(buf)@ + le32(x as int));
}

/// The number whose two bytes stand at position `i`.
pub open spec fn le16_at(d: Seq<u8>, i: int) -> int {
    d[i] + d[i + 1] * 256
}

/// The number whose four bytes stand at position `i`.
pub open spec fn le32_at(d: Seq<u8>, i: int) -> int {
    d[i] + d[i + 1] * 256 + d[i + 2] * 65536 + d[i + 3] * 16777216
}

fn read_le16(d: &[u8], i: usize) -> (r: u16)
    requires
        i + 2 <= d.len(),
    ensures
        r == le16_at(d@, i as int),
{
    d[i] as u16 + d[i + 1] as u16 * 256
}

fn read_le32(d: &[u8], i: usize) -> (r: u32)
    requires
        i + 4 <= d.len(),
    ensures
        r == le32_at(d@, i as int),
{
    d[i] as u32 + d[i + 1] as u32 * 256 + d[i + 2] as u32 * 65536 + d[i + 3] as u32 * 16777216
}

/// The names of the parts of a WAV file.
pub open spec fn riff_tag() -> Seq<u8> {
    seq![0x52, 0x49, 0x46, 0x46]
}

pub open spec fn wave_tag() -> Seq<u8> {
    seq![0x57, 0x41, 0x56, 0x45]
}

pub open spec fn fmt_tag() -> Seq<u8> {
    seq![0x66, 0x6d, 0x74, 0x20]
}

pub open spec fn data_tag() -> Seq<u8> {
    seq![0x64, 0x61, 0x74, 0x61]
}

fn push_tag(buf: &mut Vec<u8>, a: u8, b: u8, c: u8, d: u8)
    ensures
        final(buf)@ == old(buf)@ + seq![a, b, c, d],
{
    buf.push(a);
    buf.push(b);
    buf.push(c);
    buf.push(d);
    assert(buf@ =~= old(buf)@ + seq![a, b, c, d]);
}

/// Whether a tag stands at position `i`.
pub open spec fn tag_at(d: Seq<u8>, i: int, tag: Seq<u8>) -> bool {
    d.subrange(i, i + 4) == tag
}

fn has_tag(data: &[u8], i: usize, a: u8, b: u8, c: u8, d: u8) -> (r: bool)
    requires
        i + 4 <= data.len(),
    ensures
        r == tag_at(data@, i as int, seq![a, b, c, d]),
{
    let r = data[i] == a && data[i + 1] == b && data[i + 2] == c && data[i + 3] == d;
    proof {
        let s = data@.subrange(i as int, i + 4);
        let t = seq![a, b, c, d];
        assert(s[0] == data@[i as int] && s[1] == data@[i + 1] && s[2] == data@[i + 2] && s[3]
            == data@[i + 3]);
        if r {
            assert(s =~= t);
        } else {
            assert(t[0] == a && t[1] == b && t[2] == c && t[3] == d);
        }
    }
    r
}

// ---------------------------------------------------------------------------
// Writing
// ---------------------------------------------------------------------------

/// The bytes of a second of audio.
pub open spec fn byte_rate(h: WavHeader) -> int {
    h.sample_rate * h.channels * (h.bits_per_sample / 8)
}

/// The bytes of one sample of each channel.
pub open spec fn block_align(h: WavHeader) -> int {
    h.channels * (h.bits_per_sample / 8)
}

/// The twelve bytes that begin a file with `n` samples. The length in it wraps
/// around at `2^32`.
pub open spec fn riff_head(n: int) -> Seq<u8> {
    riff_tag() + le32((36 + 2 * n) % 0x1_0000_0000) + wave_tag()
}

/// The twenty-four bytes that say what the samples are.
pub open spec fn fmt_chunk(h: WavHeader) -> Seq<u8> {
    fmt_tag() + le32(16) + le16(1) + le16(h.channels as int) + le32(h.sample_rate as int) + le32(
        byte_rate(h),
    ) + le16(block_align(h)) + le16(h.bits_per_sample as int)
}

/// The eight bytes before `n` samples. The length in it wraps around at `2^32`.
pub open spec fn data_head(n: int) -> Seq<u8> {
    data_tag() + le32((2 * n) % 0x1_0000_0000)
}

/// A WAV file.
pub open spec fn wav_bytes(samples: Seq<i16>, h: WavHeader) -> Seq<u8> {
    riff_head(samples.len() as int) + fmt_chunk(h) + data_head(samples.len() as int)
        + samples_bytes(samples)
}

fn push_fmt_chunk(buf: &mut Vec<u8>, header: &WavHeader)
    requires
        byte_rate(*header) <= u32::MAX,
        block_align(*header) <= u16::MAX,
        header.sample_rate * header.channels <= u32::MAX,
    ensures
        final(buf)@ == old(buf)@ + fmt_chunk(*header),
{
    let width: u16 = header.bits_per_sample / 8;
    let rate: u32 = header.sample_rate * header.channels as u32 * width as u32;
    let align: u16 = header.channels * width;
    let mut part: Vec<u8> = Vec::new();
    push_tag(&mut part, 0x66, 0x6d, 0x74, 0x20);
    assert(part@ =~= fmt_tag());
    push_le32(&mut part, 16);
    push_le16(&mut part, 1);
    push_le16(&mut part, header.channels);
    push_le32(&mut part, header.sample_rate);
    push_le32(&mut part, rate);
    push_le16(&mut part, align);
    push_le16(&mut part, header.bits_per_sample);
    push_bytes(buf, part.as_slice());
}

/// The bytes of a WAV file with the samples.
pub fn encode_wav(samples: &[i16], header: &WavHeader) -> (r: Vec<u8>)
    requires
        byte_rate(*header) <= u32::MAX,
        block_align(*header) <= u16::MAX,
        header.sample_rate * header.channels <= u32::MAX,
    ensures
        r@ == wav_bytes(samples@, *header),
{
    let n: usize = samples.len();
    let data_size: u32 = 2 * ((n % 0x8000_0000) as u32);
    let riff_size: u32 = data_size.wrapping_add(36);
    assert(data_size == (2 * n) % 0x1_0000_0000);
    assert(riff_size == (36 + 2 * n) % 0x1_0000_0000);
    let mut buf: Vec<u8> = Vec::new();
    push_tag(&mut buf, 0x52, 0x49, 0x46, 0x46);
    assert(buf@ =~= riff_tag());
    push_le32(&mut buf, riff_size);
    push_tag(&mut buf, 0x57, 0x41, 0x56, 0x45);
    assert(buf@ == riff_head(n as int));
    push_fmt_chunk(&mut buf, header);
    let ghost before = buf@;
    push_tag(&mut buf, 0x64, 0x61, 0x74, 0x61);
    push_le32(&mut buf, data_size);
    assert(buf@ =~= before + data_head(n as int));
    push_samples(&mut buf, samples);
    buf
}

// ---------------------------------------------------------------------------
// Reading
// ---------------------------------------------------------------------------

/// Where the data chunk begins, looking from position `pos` on: each chunk has
/// a name and a length, and ends at an even position.
pub open spec fn data_chunk(d: Seq<u8>, pos: int) -> Option<int>
    decreases d.len() - pos,
{
    if pos < 0 || pos + 8 > d.len() {
        None
    } else if tag_at(d, pos, data_tag()) {
        Some(pos)
    } else {
        let size = le32_at(d, pos + 4);
        let next = pos + 8 + size + size % 2;
        if next <= d.len() {
            data_chunk(d, next)
        } else {
            None
        }
    }
}

/// The samples of the data chunk at position `pos`, as far as they are there.
pub open spec fn chunk_samples(d: Seq<u8>, pos: int) -> Seq<i16> {
    let size = le32_at(d, pos + 4);
    let there = d.len() - pos - 8;
    let n = if size < there {
        size
    } else {
        there
    };
    bytes_samples(d.subrange(pos + 8, pos + 8 + n))
}

/// What bytes that are to be a WAV file denote.
pub open spec fn parse_wav(d: Seq<u8>) -> Result<(WavHeader, Seq<i16>), WavErrorView> {
    if d.len() < 44 {
        Err(WavErrorView::InvalidHeader("too short"@))
    } else if !tag_at(d, 0, riff_tag()) {
        Err(WavErrorView::InvalidHeader("missing RIFF"@))
    } else if !tag_at(d, 8, wave_tag()) {
        Err(WavErrorView::InvalidHeader("missing WAVE"@))
    } else if !tag_at(d, 12, fmt_tag()) {
        Err(WavErrorView::InvalidHeader("missing fmt chunk"@))
    } else if le16_at(d, 20) != 1 {
        Err(
            WavErrorView::UnsupportedFormat(
                "not PCM (format="@ + dec(le16_at(d, 20) as nat) + ")"@,
            ),
        )
    } else if le16_at(d, 34) != 16 {
        Err(
            WavErrorView::UnsupportedFormat(
                "not 16-bit (bits="@ + dec(le16_at(d, 34) as nat) + ")"@,
            ),
        )
    } else {
        match data_chunk(d, 12) {
            None => Err(WavErrorView::InvalidHeader("missing data chunk"@)),
            Some(pos) => Ok(
                (
                    WavHeader {
                        sample_rate: le32_at(d, 24) as u32,
                        channels: le16_at(d, 22) as u16,
                        bits_per_sample: 16,
                        num_samples: chunk_samples(d, pos).len() as usize,
                    },
                    chunk_samples(d, pos),
                ),
            ),
        }
    }
}

fn header_error(s: &str) -> (e: WavError)
    ensures
        e@ == WavErrorView::InvalidHeader(s@),
{
    WavError::InvalidHeader(s.to_owned())
}

fn format_error(s: &str, n: u16) -> (e: WavError)
    ensures
        e@ == WavErrorView::UnsupportedFormat(s@ + dec(n as nat) + ")"@),
{
    let mut m = s.to_owned();
    push_dec(&mut m, n as u64);
    m.append(")");
    WavError::UnsupportedFormat(m)
}

/// The samples of the bytes of a WAV file, and what its header says.
pub fn decode_wav(data: &[u8]) -> (r: Result<(WavHeader, Vec<i16>), WavError>)
    ensures
        match r {
            Ok((h, v)) => parse_wav(data@) == Ok::<(WavHeader, Seq<i16>), WavErrorView>((h, v@)),
            Err(e) => parse_wav(data@) == Err::<(WavHeader, Seq<i16>), WavErrorView>(e@),
        },
{
    let len: usize = data.len();
    if len < 44 {
        return Err(header_error("too short"));
    }
    if !has_tag(data, 0, 0x52, 0x49, 0x46, 0x46) {
        return Err(header_error("missing RIFF"));
    }
    if !has_tag(data, 8, 0x57, 0x41, 0x56, 0x45) {
        return Err(header_error("missing WAVE"));
    }
    if !has_tag(data, 12, 0x66, 0x6d, 0x74, 0x20) {
        return Err(header_error("missing fmt chunk"));
    }
    let format: u16 = read_le16(data, 20);
    if format != 1 {
        return Err(format_error("not PCM (format=", format));
    }
    let channels: u16 = read_le16(data, 22);
    let sample_rate: u32 = read_le32(data, 24);
    let bits_per_sample: u16 = read_le16(data, 34);
    if bits_per_sample != 16 {
        return Err(format_error("not 16-bit (bits=", bits_per_sample));
    }
    let mut pos: usize = 12;
    loop
        invariant
            len == data@.len(),
            len >= 44,
            pos <= len,
            tag_at(data@, 0, riff_tag()),
            tag_at(data@, 8, wave_tag()),
            tag_at(data@, 12, fmt_tag()),
            le16_at(data@, 20) == 1,
            le16_at(data@, 34) == 16,
            bits_per_sample == 16,
            channels == le16_at(data@, 22),
            sample_rate == le32_at(data@, 24),
            data_chunk(data@, 12) == data_chunk(data@, pos as int),
        decreases len - pos,
    {
        if len - pos < 8 {
            return Err(header_error("missing data chunk"));
        }
        let size: u32 = read_le32(data, pos + 4);
        let there: usize = len - pos - 8;
        if has_tag(data, pos, 0x64, 0x61, 0x74, 0x61) {
            let n: usize = if (size as u64) < there as u64 {
                size as usize
            } else {
                there
            };
            let samples = samples_of_bytes(slice_subrange(data, pos + 8, pos + 8 + n));
            let header = WavHeader {
                sample_rate,
                channels,
                bits_per_sample,
                num_samples: samples.len(),
            };
            return Ok((header, samples));
        }
        let step: u64 = size as u64 + (size % 2) as u64;
        if step > there as u64 {
            return Err(header_error("missing data chunk"));
        }
        pos = pos + 8 + step as usize;
    }
}

// ---------------------------------------------------------------------------
// Recording
// ---------------------------------------------------------------------------

/// Collects samples.
#[derive(Debug)]
pub struct AudioRecorder {
    samples: Vec<i16>,
    sample_rate: u32,
}

impl AudioRecorder {
    pub closed spec fn spec_samples(&self) -> Seq<i16> {
        self.samples@
    }

    pub closed spec fn spec_rate(&self) -> u32 {
        self.sample_rate
    }

    pub fn new(sample_rate: u32) -> (r: Self)
        ensures
            r.spec_samples() == Seq::<i16>::empty(),
            r.spec_rate() == sample_rate,
    {
        AudioRecorder { samples: Vec::new(), sample_rate }
    }

    /// Adds samples at the end.
    pub fn record_frame(&mut self, frame: &[i16])
        ensures
            final(self).spec_samples() == old(self).spec_samples() + frame@,
            final(self).spec_rate() == old(self).spec_rate(),
    {
        let n: usize = frame.len();
        let mut i: usize = 0;
        assert(self.samples@ =~= old(self).samples@ + frame@.take(0));
        while i < n
            invariant
                n == frame@.len(),
                i <= n,
                self.samples@ == old(self).samples@ + frame@.take(i as int),
                self.sample_rate == old(self).sample_rate,
            decreases n - i,
        {
            self.samples.push(frame[i]);
            i = i + 1;
            assert(self.samples@ =~= old(self).samples@ + frame@.take(i as int));
        }
        assert(frame@.take(n as int) =~= frame@);
    }

    pub fn samples(&self) -> (r: &[i16])
        ensures
            r@ == self.spec_samples(),
    {
        self.samples.as_slice()
    }

    /// The time that the samples last, in milliseconds.
    pub fn duration_ms(&self) -> (r: u64)
        requires
            self.spec_rate() > 0,
            self.spec_samples().len() * 1000 <= u64::MAX,
        ensures
            r == self.spec_samples().len() * 1000 / self.spec_rate() as nat,
    {
        (self.samples.len() as u64 * 1000) / self.sample_rate as u64
    }

    /// The number of whole frames of twenty milliseconds.
    pub fn frame_count(&self) -> (r: usize)
        ensures
            r == ({
                let per_frame = self.spec_rate() as nat * 20 / 1000;
                if per_frame == 0 {
                    0
                } else {
                    self.spec_samples().len() / per_frame
                }
            }),
    {
        let per_frame: usize = ((self.sample_rate as u64 * 20) / 1000) as usize;
        if per_frame == 0 {
            return 0;
        }
        self.samples.len() / per_frame
    }

    /// The samples as a WAV file.
    pub fn to_wav(&self) -> (r: Vec<u8>)
        requires
            2 * self.spec_rate() <= u32::MAX,
        ensures
            r@ == wav_bytes(
                self.spec_samples(),
                WavHeader {
                    sample_rate: self.spec_rate(),
                    channels: 1,
                    bits_per_sample: 16,
                    num_samples: self.spec_samples().len() as usize,
                },
            ),
    {
        let header = WavHeader {
            sample_rate: self.sample_rate,
            channels: 1,
            bits_per_sample: 16,
            num_samples: self.samples.len(),
        };
        assert(byte_rate(header) == self.sample_rate * 1 * 2);
        encode_wav(self.samples.as_slice(), &header)
    }

    /// Forgets the samples.
    pub fn clear(&mut self)
        ensures
            final(self).spec_samples() == Seq::<i16>::empty(),
            final(self).spec_rate() == old(self).spec_rate(),
    {
        self.samples.clear();
    }

    pub fn is_empty(&self) -> (r: bool)
        ensures
            r == (self.spec_samples().len() == 0),
    {
        self.samples.len() == 0
    }

    pub fn len(&self) -> (r: usize)
        ensures
            r == self.spec_samples().len(),
    {
        self.samples.len()
    }
}

impl Clone for AudioRecorder {
    fn clone(&self) -> (r: Self)
        ensures
            r.spec_samples() == self.spec_samples(),
            r.spec_rate() == self.spec_rate(),
    {
        AudioRecorder {
            samples: slice_to_vec(self.samples.as_slice()),
            sample_rate: self.sample_rate,
        }
    }
}

/// The distance of two samples.
pub open spec fn distance(a: i16, b: i16) -> int {
    if a < b {
        b - a
    } else {
        a - b
    }
}

/// The length of the shorter of two sequences.
pub open spec fn common_len(a: Seq<i16>, b: Seq<i16>) -> int {
    if a.len() < b.len() {
        a.len() as int
    } else {
        b.len() as int
    }
}

/// The greatest distance of two samples at the same position; 0 where there is
/// no position that both have.
pub fn max_sample_error(original: &[i16], received: &[i16]) -> (r: i32)
    ensures
        forall|i: int|
            0 <= i < common_len(original@, received@) ==> #[trigger] distance(
                original@[i],
                received@[i],
            ) <= r,
        r == 0 || exists|i: int|
            0 <= i < common_len(original@, received@) && r == #[trigger] distance(
                original@[i],
                received@[i],
            ),
        r >= 0,
{
    let n: usize = if original.len() < received.len() {
        original.len()
    } else {
        received.len()
    };
    let mut max: i32 = 0;
    let mut i: usize = 0;
    while i < n
        invariant
            n == common_len(original@, received@),
            i <= n,
            0 <= max <= 65535,
            forall|j: int|
                0 <= j < i ==> #[trigger] distance(original@[j], received@[j]) <= max,
            max == 0 || exists|j: int|
                0 <= j < i && max == #[trigger] distance(original@[j], received@[j]),
        decreases n - i,
    {
        let a: i32 = original[i] as i32;
        let b: i32 = received[i] as i32;
        let d: i32 = if a < b {
            b - a
        } else {
            a - b
        };
        assert(d == distance(original@[i as int], received@[i as int]));
        if d > max {
            max = d;
        }
        i = i + 1;
    }
    max
}

// ---------------------------------------------------------------------------
// Laws
// ---------------------------------------------------------------------------

pub proof fn lemma_le32_reads_back(d: Seq<u8>, i: int, x: int)
    requires
        0 <= i,
        i + 4 <= d.len(),
        0 <= x < 0x1_0000_0000,
        d.subrange(i, i + 4) == le32(x),
    ensures
        le32_at(d, i) == x,
{
    reveal(le32);
    let s = d.subrange(i, i + 4);
    assert(s[0] == d[i] && s[1] == d[i + 1] && s[2] == d[i + 2] && s[3] == d[i + 3]);
}

pub proof fn lemma_le16_reads_back(d: Seq<u8>, i: int, x: int)
    requires
        0 <= i,
        i + 2 <= d.len(),
        0 <= x < 0x1_0000,
        d.subrange(i, i + 2) == le16(x),
    ensures
        le16_at(d, i) == x,
{
    reveal(le16);
    let s = d.subrange(i, i + 2);
    assert(s[0] == d[i] && s[1] == d[i + 1]);
}

pub proof fn lemma_le_len(x: int)
    ensures
        le16(x).len() == 2,
        le32(x).len() == 4,
{
    reveal(le16);
    reveal(le32);
}

proof fn lemma_fmt_chunk(h: WavHeader)
    requires
        h.bits_per_sample == 16,
    ensures
        ({
            let f = fmt_chunk(h);
            &&& f.len() == 24
            &&& f.subrange(0, 4) == fmt_tag()
            &&& le32_at(f, 4) == 16
            &&& le16_at(f, 8) == 1
            &&& le16_at(f, 10) == h.channels
            &&& le32_at(f, 12) == h.sample_rate
            &&& le16_at(f, 22) == 16
        }),
{
    let f = fmt_chunk(h);
    lemma_le_len(16);
    lemma_le_len(1);
    lemma_le_len(h.channels as int);
    lemma_le_len(h.sample_rate as int);
    lemma_le_len(byte_rate(h));
    lemma_le_len(block_align(h));
    assert(f.subrange(0, 4) =~= fmt_tag());
    assert(f.subrange(4, 8) =~= le32(16));
    lemma_le32_reads_back(f, 4, 16);
    assert(f.subrange(8, 10) =~= le16(1));
    lemma_le16_reads_back(f, 8, 1);
    assert(f.subrange(10, 12) =~= le16(h.channels as int));
    lemma_le16_reads_back(f, 10, h.channels as int);
    assert(f.subrange(12, 16) =~= le32(h.sample_rate as int));
    lemma_le32_reads_back(f, 12, h.sample_rate as int);
    assert(f.subrange(22, 24) =~= le16(16));
    lemma_le16_reads_back(f, 22, 16);
}

/// Samples that are written to a WAV file read back, with the rate and the
/// channels of the header, where they fit into the length that a header can
/// give.
pub proof fn law_wav_reads_back(samples: Seq<i16>, h: WavHeader)
    requires
        h.bits_per_sample == 16,
        2 * samples.len() < 0x1_0000_0000,
        samples.len() <= usize::MAX,
    ensures
        parse_wav(wav_bytes(samples, h)) == Ok::<(WavHeader, Seq<i16>), WavErrorView>(
            (
                WavHeader {
                    sample_rate: h.sample_rate,
                    channels: h.channels,
                    bits_per_sample: 16,
                    num_samples: samples.len() as usize,
                },
                samples,
            ),
        ),
{
    let n = samples.len() as int;
    let r = riff_head(n);
    let f = fmt_chunk(h);
    let t = data_head(n);
    let b = samples_bytes(samples);
    let d = wav_bytes(samples, h);
    lemma_samples_bytes_len(samples);
    lemma_fmt_chunk(h);
    lemma_le_len((36 + 2 * n) % 0x1_0000_0000);
    lemma_le_len(2 * n);
    assert(r.len() == 12 && t.len() == 8);
    assert(d.len() == 44 + 2 * n);
    assert(d.subrange(0, 4) =~= riff_tag());
    assert(d.subrange(8, 12) =~= wave_tag());
    assert(d.subrange(12, 36) =~= f);
    assert forall|i: int| 0 <= i < 24 implies d[12 + i] == f[i] by {
        assert(d.subrange(12, 36)[i] == d[12 + i]);
    }
    assert(d.subrange(12, 16) =~= f.subrange(0, 4));
    assert(le32_at(d, 16) == le32_at(f, 4));
    assert(le16_at(d, 20) == le16_at(f, 8));
    assert(le16_at(d, 22) == le16_at(f, 10));
    assert(le32_at(d, 24) == le32_at(f, 12));
    assert(le16_at(d, 34) == le16_at(f, 22));
    assert(d.subrange(36, 40) =~= data_tag());
    assert(d.subrange(40, 44) =~= le32(2 * n));
    lemma_le32_reads_back(d, 40, 2 * n);
    assert(!tag_at(d, 12, data_tag())) by {
        assert(fmt_tag()[0] != data_tag()[0]);
    }
    reveal_with_fuel(data_chunk, 3);
    assert(data_chunk(d, 12) == Some(36int));
    assert(d.subrange(44, 44 + 2 * n) =~= b);
    law_samples_read_back(samples);
}

} // verus!
