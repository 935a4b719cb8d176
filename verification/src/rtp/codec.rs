//! Audio codecs: G.711 in both laws, and plain samples in place of Opus.
use vstd::prelude::*;

verus! {

#[derive(Debug, Clone, Copy, PartialEq, Eq, Structural)]
pub enum CodecType {
    /// G.711 mu-law, payload type 0.
    Pcmu,
    /// G.711 A-law, payload type 8.
    Pcma,
    /// Opus, payload type 111.
    Opus,
}

impl CodecType {
    pub open spec fn spec_payload_type(self) -> u8 {
        match self {
            CodecType::Pcmu => 0,
            CodecType::Pcma => 8,
            CodecType::Opus => 111,
        }
    }

    pub open spec fn spec_clock_rate(self) -> u32 {
        match self {
            CodecType::Pcmu => 8000,
            CodecType::Pcma => 8000,
            CodecType::Opus => 48000,
        }
    }

    /// The number of samples in a frame of twenty milliseconds.
    pub open spec fn frame_len(self) -> nat {
        self.spec_clock_rate() as nat / 50
    }

    pub open spec fn text(self) -> Seq<char> {
        match self {
            CodecType::Pcmu => "PCMU (G.711 mu-law)"@,
            CodecType::Pcma => "PCMA (G.711 A-law)"@,
            CodecType::Opus => "Opus"@,
        }
    }

    pub fn payload_type(&self) -> (r: u8)
        ensures
            r == self.spec_payload_type(),
    {
        match self {
            CodecType::Pcmu => 0,
            CodecType::Pcma => 8,
            CodecType::Opus => 111,
        }
    }

    pub fn clock_rate(&self) -> (r: u32)
        ensures
            r == self.spec_clock_rate(),
    {
        match self {
            CodecType::Pcmu => 8000,
            CodecType::Pcma => 8000,
            CodecType::Opus => 48000,
        }
    }

    /// The name of the codec in a session description.
    pub fn name(&self) -> (r: &'static str)
        ensures
            r@ == match *self {
                CodecType::Pcmu => "PCMU"@,
                CodecType::Pcma => "PCMA"@,
                CodecType::Opus => "opus"@,
            },
    {
        match self {
            CodecType::Pcmu => "PCMU",
            CodecType::Pcma => "PCMA",
            CodecType::Opus => "opus",
        }
    }

    /// The codec with that payload type.
    pub fn from_payload_type(pt: u8) -> (r: Option<Self>)
        ensures
            match r {
                Some(c) => c.spec_payload_type() == pt,
                None => forall|c: CodecType| (#[trigger] c.spec_payload_type()) != pt,
            },
    {
        match pt {
            0 => Some(CodecType::Pcmu),
            8 => Some(CodecType::Pcma),
            111 => Some(CodecType::Opus),
            _ => None,
        }
    }

    /// The number of samples in a frame of twenty milliseconds.
    pub fn samples_per_frame(&self) -> (r: usize)
        ensures
            r == self.frame_len(),
    {
        match self {
            CodecType::Pcmu => 160,
            CodecType::Pcma => 160,
            CodecType::Opus => 960,
        }
    }

    /// The codec for people to read.
    pub fn to_string(&self) -> (r: String)
        ensures
            r@ == self.text(),
    {
        match self {
            CodecType::Pcmu => "PCMU (G.711 mu-law)".to_owned(),
            CodecType::Pcma => "PCMA (G.711 A-law)".to_owned(),
            CodecType::Opus => "Opus".to_owned(),
        }
    }
}

/// A payload type stands for one codec at most.
pub proof fn law_payload_types_differ(a: CodecType, b: CodecType)
    requires
        a.spec_payload_type() == b.spec_payload_type(),
    ensures
        a == b,
{
}

/// Why samples could not be encoded or decoded.
#[derive(Debug)]
pub enum CodecError {
    EncodingError(String),
    DecodingError(String),
    Unsupported,
}

pub enum CodecErrorView {
    EncodingError(Seq<char>),
    DecodingError(Seq<char>),
    Unsupported,
}

impl View for CodecError {
    type V = CodecErrorView;

    open spec fn view(&self) -> CodecErrorView {
        match *self {
            CodecError::EncodingError(s) => CodecErrorView::EncodingError(s@),
            CodecError::DecodingError(s) => CodecErrorView::DecodingError(s@),
            CodecError::Unsupported => CodecErrorView::Unsupported,
        }
    }
}

impl CodecErrorView {
    /// The error in words.
    pub open spec fn message(self) -> Seq<char> {
        match self {
            CodecErrorView::EncodingError(s) => "encoding error: "@ + s,
            CodecErrorView::DecodingError(s) => "decoding error: "@ + s,
            CodecErrorView::Unsupported => "unsupported codec"@,
        }
    }
}

impl CodecError {
    /// The error in words.
    pub fn to_string(&self) -> (r: String)
        ensures
            r@ == self@.message(),
    {
        match self {
            CodecError::EncodingError(s) => {
                let mut m = "encoding error: ".to_owned();
                m.append(s.as_str());
                m
            },
            CodecError::DecodingError(s) => {
                let mut m = "decoding error: ".to_owned();
                m.append(s.as_str());
                m
            },
            CodecError::Unsupported => "unsupported codec".to_owned(),
        }
    }
}

// ---------------------------------------------------------------------------
// G.711
// ---------------------------------------------------------------------------

/// `2^e` for a segment number.
pub open spec fn segment(e: int) -> int {
    if e <= 0 {
        1
    } else if e == 1 {
        2
    } else if e == 2 {
        4
    } else if e == 3 {
        8
    } else if e == 4 {
        16
    } else if e == 5 {
        32
    } else if e == 6 {
        64
    } else {
        128
    }
}

fn segment_of(e: u8) -> (r: i32)
    ensures
        r == segment(e as int),
        1 <= r <= 128,
{
    if e == 0 {
        1
    } else if e == 1 {
        2
    } else if e == 2 {
        4
    } else if e == 3 {
        8
    } else if e == 4 {
        16
    } else if e == 5 {
        32
    } else if e == 6 {
        64
    } else {
        128
    }
}

/// The segment of a magnitude: segment `e > 0` begins at `128 * 2^e`, and
/// segment 0 lies below segment 1.
pub open spec fn exponent(v: int) -> int {
    if v < 256 {
        0
    } else if v < 512 {
        1
    } else if v < 1024 {
        2
    } else if v < 2048 {
        3
    } else if v < 4096 {
        4
    } else if v < 8192 {
        5
    } else if v < 16384 {
        6
    } else {
        7
    }
}

fn exponent_of(v: i32) -> (r: u8)
    ensures
        r == exponent(v as int),
        r <= 7,
{
    if v < 256 {
        0
    } else if v < 512 {
        1
    } else if v < 1024 {
        2
    } else if v < 2048 {
        3
    } else if v < 4096 {
        4
    } else if v < 8192 {
        5
    } else if v < 16384 {
        6
    } else {
        7
    }
}

/// The magnitude of a sample, up to `max`.
pub open spec fn magnitude(s: int, max: int) -> int {
    let v = if s < 0 {
        -s
    } else {
        s
    };
    if v > max {
        max
    } else {
        v
    }
}

fn magnitude_of(s: i16, max: i32) -> (r: i32)
    requires
        0 <= max,
    ensures
        r == magnitude(s as int, max as int),
        0 <= r <= max,
        r <= 32768,
{
    let v: i32 = s as i32;
    let v: i32 = if v < 0 {
        -v
    } else {
        v
    };
    if v > max {
        max
    } else {
        v
    }
}

/// A sample in mu-law: sign, segment and step within the segment of the
/// magnitude plus 132, all bits inverted.
pub open spec fn ulaw_of(s: i16) -> u8 {
    let v = magnitude(s as int, 32635) + 132;
    let e = exponent(v);
    let m = (v / (8 * segment(e))) % 16;
    let sign: int = if s < 0 {
        128
    } else {
        0
    };
    (255 - (sign + 16 * e + m)) as u8
}

/// The sample that a mu-law byte stands for: the middle of its step.
pub open spec fn ulaw_value(b: u8) -> i16 {
    let u = 255 - b;
    let e = (u / 16) % 8;
    let m = u % 16;
    let v = (2 * m + 33) * (4 * segment(e)) - 132;
    if u >= 128 {
        (-v) as i16
    } else {
        v as i16
    }
}

/// A sample in A-law: a sign, which is set where the sample is not negative, and
/// the segment and the step within it of the magnitude, every other bit inverted.
pub open spec fn alaw_of(s: i16) -> u8 {
    let v = magnitude(s as int, 32767);
    let e = exponent(v);
    let m = if e == 0 {
        v / 16
    } else {
        (v / (8 * segment(e))) % 16
    };
    let sign: int = if s < 0 {
        0
    } else {
        128
    };
    ((sign + 16 * e + m) as u8) ^ 0x55
}

/// The sample that an A-law byte stands for: the middle of its step.
pub open spec fn alaw_value(b: u8) -> i16 {
    let u = b ^ 0x55;
    let e = ((u / 16) % 8) as int;
    let m = (u % 16) as int;
    let v = if e == 0 {
        16 * m + 8
    } else {
        (2 * m + 33) * (4 * segment(e))
    };
    if u >= 128 {
        v as i16
    } else {
        (-v) as i16
    }
}

/// A sample in mu-law.
pub fn linear_to_ulaw(sample: i16) -> (r: u8)
    ensures
        r == ulaw_of(sample),
{
    let v: i32 = magnitude_of(sample, 32635) + 132;
    let e: u8 = exponent_of(v);
    let m: i32 = (v / (8 * segment_of(e))) % 16;
    let sign: u8 = if sample < 0 {
        128
    } else {
        0
    };
    255 - (sign + 16 * e + m as u8)
}

/// The sample that a mu-law byte stands for.
pub fn ulaw_to_linear(ulaw_byte: u8) -> (r: i16)
    ensures
        r == ulaw_value(ulaw_byte),
{
    let u: u8 = 255 - ulaw_byte;
    let e: u8 = (u / 16) % 8;
    let m: i32 = (u % 16) as i32;
    let g: i32 = segment_of(e);
    proof {
        assert((2 * m + 33) * (4 * g) <= 63 * 512) by (nonlinear_arith)
            requires
                0 <= m <= 15,
                1 <= g <= 128,
        ;
        assert((2 * m + 33) * (4 * g) >= 0) by (nonlinear_arith)
            requires
                0 <= m,
                1 <= g,
        ;
    }
    let v: i32 = (2 * m + 33) * (4 * g) - 132;
    if u >= 128 {
        (-v) as i16
    } else {
        v as i16
    }
}

/// A sample in A-law.
pub fn linear_to_alaw(sample: i16) -> (r: u8)
    ensures
        r == alaw_of(sample),
{
    let v: i32 = magnitude_of(sample, 32767);
    let e: u8 = exponent_of(v);
    let m: i32 = if e == 0 {
        v / 16
    } else {
        (v / (8 * segment_of(e))) % 16
    };
    let sign: u8 = if sample < 0 {
        0
    } else {
        128
    };
    (sign + 16 * e + m as u8) ^ 0x55
}

/// The sample that an A-law byte stands for.
pub fn alaw_to_linear(alaw_byte: u8) -> (r: i16)
    ensures
        r == alaw_value(alaw_byte),
{
    let u: u8 = alaw_byte ^ 0x55;
    let e: u8 = (u / 16) % 8;
    let m: i32 = (u % 16) as i32;
    let g: i32 = segment_of(e);
    proof {
        assert((2 * m + 33) * (4 * g) <= 63 * 512) by (nonlinear_arith)
            requires
                0 <= m <= 15,
                1 <= g <= 128,
        ;
        assert((2 * m + 33) * (4 * g) >= 0) by (nonlinear_arith)
            requires
                0 <= m,
                1 <= g,
        ;
    }
    let v: i32 = if e == 0 {
        16 * m + 8
    } else {
        (2 * m + 33) * (4 * g)
    };
    if u >= 128 {
        v as i16
    } else {
        (-v) as i16
    }
}

/// Within segment `g`, the middle of a step lies within half a step.
proof fn lemma_middle(w: int, g: int)
    requires
        g == 1 || g == 2 || g == 4 || g == 8 || g == 16 || g == 32 || g == 64 || g == 128,
        128 * g <= w < 256 * g,
    ensures
        ({
            let m = (w / (8 * g)) % 16;
            0 <= m < 16 && -4 * g <= (2 * m + 33) * (4 * g) - w <= 4 * g
        }),
{
    let m = (w / (8 * g)) % 16;
    if g == 1 {
        assert(w / (8 * g) == w / 8);
        assert((2 * m + 33) * (4 * g) == (2 * m + 33) * 4);
    } else if g == 2 {
        assert(w / (8 * g) == w / 16);
        assert((2 * m + 33) * (4 * g) == (2 * m + 33) * 8);
    } else if g == 4 {
        assert(w / (8 * g) == w / 32);
        assert((2 * m + 33) * (4 * g) == (2 * m + 33) * 16);
    } else if g == 8 {
        assert(w / (8 * g) == w / 64);
        assert((2 * m + 33) * (4 * g) == (2 * m + 33) * 32);
    } else if g == 16 {
        assert(w / (8 * g) == w / 128);
        assert((2 * m + 33) * (4 * g) == (2 * m + 33) * 64);
    } else if g == 32 {
        assert(w / (8 * g) == w / 256);
        assert((2 * m + 33) * (4 * g) == (2 * m + 33) * 128);
    } else if g == 64 {
        assert(w / (8 * g) == w / 512);
        assert((2 * m + 33) * (4 * g) == (2 * m + 33) * 256);
    } else if g == 128 {
        assert(w / (8 * g) == w / 1024);
        assert((2 * m + 33) * (4 * g) == (2 * m + 33) * 512);
    }
}

/// The middle of a step lies in that step.
proof fn lemma_middle_back(m: int, g: int)
    requires
        g == 1 || g == 2 || g == 4 || g == 8 || g == 16 || g == 32 || g == 64 || g == 128,
        0 <= m < 16,
    ensures
        ({
            let w = (2 * m + 33) * (4 * g);
            132 * g <= w <= 252 * g && (w / (8 * g)) % 16 == m
        }),
{
    let w = (2 * m + 33) * (4 * g);
    if g == 1 {
        assert(w == (2 * m + 33) * 4);
        assert(w / (8 * g) == w / 8);
    } else if g == 2 {
        assert(w == (2 * m + 33) * 8);
        assert(w / (8 * g) == w / 16);
    } else if g == 4 {
        assert(w == (2 * m + 33) * 16);
        assert(w / (8 * g) == w / 32);
    } else if g == 8 {
        assert(w == (2 * m + 33) * 32);
        assert(w / (8 * g) == w / 64);
    } else if g == 16 {
        assert(w == (2 * m + 33) * 64);
        assert(w / (8 * g) == w / 128);
    } else if g == 32 {
        assert(w == (2 * m + 33) * 128);
        assert(w / (8 * g) == w / 256);
    } else if g == 64 {
        assert(w == (2 * m + 33) * 256);
        assert(w / (8 * g) == w / 512);
    } else if g == 128 {
        assert(w == (2 * m + 33) * 512);
        assert(w / (8 * g) == w / 1024);
    }
}

/// What mu-law makes of a sample lies within half a step of the sample, where
/// the sample is not beyond the largest magnitude that mu-law knows.
pub proof fn law_ulaw_error(s: i16)
    requires
        -32635 <= s <= 32635,
    ensures
        ({
            let g = segment(exponent(magnitude(s as int, 32635) + 132));
            let d = ulaw_value(ulaw_of(s)) - s;
            -4 * g <= d <= 4 * g
        }),
{
    let v = magnitude(s as int, 32635) + 132;
    let e = exponent(v);
    let m = (v / (8 * segment(e))) % 16;
    let b = ulaw_of(s);
    let u = 255 - b;
    lemma_middle(v, segment(e));
    lemma_middle_back(m, segment(e));
    let sign: int = if s < 0 {
        128
    } else {
        0
    };
    assert(u == sign + 16 * e + m);
    assert((u / 16) % 8 == e && u % 16 == m);
    let w = (2 * m + 33) * (4 * segment(e));
    assert(ulaw_value(b) == if s < 0 {
        132 - w
    } else {
        w - 132
    });
}

/// A byte of mu-law stands for a sample that gives the same byte, except for
/// the second of the two bytes that stand for zero.
pub proof fn law_ulaw_stable(b: u8)
    requires
        b != 0x7f,
    ensures
        ulaw_of(ulaw_value(b)) == b,
{
    let u = 255 - b;
    let e = (u / 16) % 8;
    let m = u % 16;
    lemma_middle_back(m as int, segment(e as int));
    assert(u < 128 ==> u == 16 * e + m);
    assert(u >= 128 ==> u == 128 + 16 * e + m);
    let w = (2 * m + 33) * (4 * segment(e as int));
    let s = ulaw_value(b);
    assert(s == if u >= 128 {
        132 - w
    } else {
        w - 132
    });
    assert(magnitude(s as int, 32635) + 132 == w);
    assert(exponent(w) == e);
    if e == 0 {
        assert(w == (2 * m + 33) * 4);
    }
    assert(u >= 128 <==> s < 0);
    assert((w / (8 * segment(exponent(w)))) % 16 == m);
}

pub proof fn lemma_xor_twice(x: u8)
    ensures
        (x ^ 0x55) ^ 0x55 == x,
{
    assert((x ^ 0x55) ^ 0x55 == x) by (bit_vector);
}

/// What A-law makes of a sample lies within half a step of the sample; the
/// step is 16 in the first segment.
pub proof fn law_alaw_error(s: i16)
    ensures
        ({
            let e = exponent(magnitude(s as int, 32767));
            let half = if e == 0 {
                8
            } else {
                4 * segment(e)
            };
            let d = alaw_value(alaw_of(s)) - s;
            -half <= d <= half
        }),
{
    let v = magnitude(s as int, 32767);
    let e = exponent(v);
    let m = if e == 0 {
        v / 16
    } else {
        (v / (8 * segment(e))) % 16
    };
    let sign: int = if s < 0 {
        0
    } else {
        128
    };
    let x = (sign + 16 * e + m) as u8;
    lemma_xor_twice(x);
    if e > 0 {
        lemma_middle(v, segment(e));
        lemma_middle_back(m, segment(e));
    }
    if s == -32768 {
        assert(segment(e) == 128);
        assert(v / (8 * segment(e)) == 32767int / 1024);
        assert(m == 15);
        assert((2 * m + 33) * (4 * segment(e)) == 63 * 512);
    }
    assert(x == sign + 16 * e + m);
    assert((x / 16) % 8 == e && x % 16 == m);
    let w = if e == 0 {
        16 * m + 8
    } else {
        (2 * m + 33) * (4 * segment(e))
    };
    assert(alaw_value(alaw_of(s)) == if s < 0 {
        -w
    } else {
        w
    });
}

/// A byte of A-law stands for a sample that gives the same byte.
pub proof fn law_alaw_stable(b: u8)
    ensures
        alaw_of(alaw_value(b)) == b,
{
    let u = b ^ 0x55;
    lemma_xor_twice(b);
    let e = ((u / 16) % 8) as int;
    let m = (u % 16) as int;
    lemma_middle_back(m, segment(e));
    assert(u < 128 ==> u == 16 * e + m);
    assert(u >= 128 ==> u == 128 + 16 * e + m);
}

// ---------------------------------------------------------------------------
// Frames
// ---------------------------------------------------------------------------

/// The two bytes of a sample, the less significant first.
pub open spec fn sample_bytes(s: i16) -> Seq<u8> {
    let u = (s as int) % 65536;
    seq![(u % 256) as u8, (u / 256) as u8]
}

/// The sample whose two bytes are `a` and `b`, the less significant first.
pub open spec fn sample_of(a: u8, b: u8) -> i16 {
    let u = b * 256 + a;
    if u >= 32768 {
        (u - 65536) as i16
    } else {
        u as i16
    }
}

/// The samples as bytes.
pub open spec fn samples_bytes(samples: Seq<i16>) -> Seq<u8>
    decreases samples.len(),
{
    if samples.len() == 0 {
        seq![]
    } else {
        samples_bytes(samples.drop_last()) + sample_bytes(samples.last())
    }
}

/// The samples that bytes stand for; an odd byte at the end is left out.
pub open spec fn bytes_samples(data: Seq<u8>) -> Seq<i16> {
    Seq::new(data.len() / 2, |i: int| sample_of(data[2 * i], data[2 * i + 1]))
}

/// Appends the two bytes of a sample.
pub fn push_sample(out: &mut Vec<u8>, s: i16)
    ensures
        final(out)@ == old(out)@ + sample_bytes(s),
{
    let u: u32 = if s < 0 {
        (s as i32 + 65536) as u32
    } else {
        s as u32
    };
    out.push((u % 256) as u8);
    out.push((u / 256) as u8);
    assert(out@ =~= old(out)@ + sample_bytes(s));
}

/// Appends samples as bytes.
pub fn push_samples(out: &mut Vec<u8>, samples: &[i16])
    ensures
        final(out)@ == old(out)@ + samples_bytes(samples@),
{
    let n: usize = samples.len();
    let mut i: usize = 0;
    assert(out@ =~= old(out)@ + samples_bytes(samples@.take(0)));
    while i < n
        invariant
            n == samples@.len(),
            i <= n,
            out@ == old(out)@ + samples_bytes(samples@.take(i as int)),
        decreases n - i,
    {
        proof {
            assert(samples@.take(i + 1).drop_last() =~= samples@.take(i as int));
            assert(samples@.take(i + 1).last() == samples@[i as int]);
        }
        push_sample(out, samples[i]);
        assert(out@ =~= old(out)@ + samples_bytes(samples@.take(i + 1)));
        i = i + 1;
    }
    assert(samples@.take(n as int) =~= samples@);
}

/// The samples that bytes stand for.
pub fn samples_of_bytes(data: &[u8]) -> (r: Vec<i16>)
    ensures
        r@ == bytes_samples(data@),
{
    let mut out: Vec<i16> = Vec::new();
    let n: usize = data.len() / 2;
    let mut i: usize = 0;
    while i < n
        invariant
            n == data@.len() / 2,
            2 * n <= data.len(),
            i <= n,
            out@ == bytes_samples(data@).take(i as int),
        decreases n - i,
    {
        let u: i32 = data[2 * i + 1] as i32 * 256 + data[2 * i] as i32;
        let s: i16 = if u >= 32768 {
            (u - 65536) as i16
        } else {
            u as i16
        };
        out.push(s);
        i = i + 1;
        assert(out@ =~= bytes_samples(data@).take(i as int));
    }
    assert(out@ =~= bytes_samples(data@));
    out
}

pub proof fn lemma_samples_bytes(samples: Seq<i16>, i: int)
    requires
        0 <= i < samples.len(),
    ensures
        samples_bytes(samples).len() == 2 * samples.len(),
        samples_bytes(samples)[2 * i] == sample_bytes(samples[i])[0],
        samples_bytes(samples)[2 * i + 1] == sample_bytes(samples[i])[1],
    decreases samples.len(),
{
    reveal_with_fuel(samples_bytes, 2);
    let init = samples.drop_last();
    assert(samples_bytes(samples) =~= samples_bytes(init) + sample_bytes(samples.last()));
    if init.len() > 0 {
        lemma_samples_bytes(
            init,
            if i < init.len() {
                i
            } else {
                0
            },
        );
    }
}

/// The number of bytes is twice the number of samples.
pub proof fn lemma_samples_bytes_len(samples: Seq<i16>)
    ensures
        samples_bytes(samples).len() == 2 * samples.len(),
{
    if samples.len() > 0 {
        lemma_samples_bytes(samples, 0);
    }
}

/// Samples that are written as bytes read back.
pub proof fn law_samples_read_back(samples: Seq<i16>)
    ensures
        bytes_samples(samples_bytes(samples)) == samples,
{
    lemma_samples_bytes_len(samples);
    assert forall|i: int| 0 <= i < samples.len() implies bytes_samples(samples_bytes(samples))[i]
        == samples[i] by {
        lemma_samples_bytes(samples, i);
    }
    assert(bytes_samples(samples_bytes(samples)) =~= samples);
}

/// What a codec makes of samples.
pub open spec fn encoded(c: CodecType, samples: Seq<i16>) -> Seq<u8> {
    match c {
        CodecType::Pcmu => Seq::new(samples.len(), |i: int| ulaw_of(samples[i])),
        CodecType::Pcma => Seq::new(samples.len(), |i: int| alaw_of(samples[i])),
        CodecType::Opus => samples_bytes(samples),
    }
}

/// The samples that a codec makes of bytes.
pub open spec fn decoded(c: CodecType, data: Seq<u8>) -> Result<Seq<i16>, CodecErrorView> {
    match c {
        CodecType::Pcmu => Ok(Seq::new(data.len(), |i: int| ulaw_value(data[i]))),
        CodecType::Pcma => Ok(Seq::new(data.len(), |i: int| alaw_value(data[i]))),
        CodecType::Opus => if data.len() % 2 != 0 {
            Err(CodecErrorView::DecodingError("invalid opus stub data length"@))
        } else {
            Ok(bytes_samples(data))
        },
    }
}

/// The byte that stands for silence.
pub open spec fn silence_byte(c: CodecType) -> u8 {
    match c {
        CodecType::Pcmu => 0xff,
        CodecType::Pcma => 0xd5,
        CodecType::Opus => 0,
    }
}

/// A frame of silence.
pub open spec fn silence(c: CodecType) -> Seq<u8> {
    let n = match c {
        CodecType::Opus => 2 * c.frame_len(),
        _ => c.frame_len(),
    };
    Seq::new(n, |i: int| silence_byte(c))
}

/// What an Opus encoder made of a frame.
#[derive(Debug, Clone, PartialEq, Eq)]
pub enum OpusFrame {
    /// There is no encoder.
    Absent,
    Encoded(Vec<u8>),
    /// What the encoder says of its failure.
    Failed(String),
}

pub enum OpusFrameView {
    Absent,
    Encoded(Seq<u8>),
    Failed(Seq<char>),
}

impl View for OpusFrame {
    type V = OpusFrameView;

    open spec fn view(&self) -> OpusFrameView {
        match *self {
            OpusFrame::Absent => OpusFrameView::Absent,
            OpusFrame::Encoded(b) => OpusFrameView::Encoded(b@),
            OpusFrame::Failed(e) => OpusFrameView::Failed(e@),
        }
    }
}

/// What an Opus decoder made of a payload.
#[derive(Debug, Clone, PartialEq, Eq)]
pub enum OpusSamples {
    /// There is no decoder.
    Absent,
    Decoded(Vec<i16>),
    /// The payload is no packet.
    BadPacket(String),
    /// There is no room for the samples.
    BadSignals(String),
    /// What the decoder says of its failure.
    Failed(String),
}

pub enum OpusSamplesView {
    Absent,
    Decoded(Seq<i16>),
    BadPacket(Seq<char>),
    BadSignals(Seq<char>),
    Failed(Seq<char>),
}

impl View for OpusSamples {
    type V = OpusSamplesView;

    open spec fn view(&self) -> OpusSamplesView {
        match *self {
            OpusSamples::Absent => OpusSamplesView::Absent,
            OpusSamples::Decoded(s) => OpusSamplesView::Decoded(s@),
            OpusSamples::BadPacket(e) => OpusSamplesView::BadPacket(e@),
            OpusSamples::BadSignals(e) => OpusSamplesView::BadSignals(e@),
            OpusSamples::Failed(e) => OpusSamplesView::Failed(e@),
        }
    }
}

/// The payload for samples, where the codec is Opus with what its encoder made
/// of them.
pub open spec fn payload_of(c: CodecType, samples: Seq<i16>, opus: OpusFrameView) -> Result<
    Seq<u8>,
    CodecErrorView,
> {
    if c == CodecType::Opus {
        match opus {
            OpusFrameView::Absent => Ok(encoded(c, samples)),
            OpusFrameView::Encoded(b) => Ok(b),
            OpusFrameView::Failed(e) => Err(CodecErrorView::EncodingError("opus encode: "@ + e)),
        }
    } else {
        Ok(encoded(c, samples))
    }
}

/// The samples of a payload, where the codec is Opus with what its decoder
/// made of it.
pub open spec fn samples_of(c: CodecType, data: Seq<u8>, opus: OpusSamplesView) -> Result<
    Seq<i16>,
    CodecErrorView,
> {
    if c == CodecType::Opus {
        match opus {
            OpusSamplesView::Absent => decoded(c, data),
            OpusSamplesView::Decoded(s) => Ok(s),
            OpusSamplesView::BadPacket(e) => Err(
                CodecErrorView::DecodingError("opus packet: "@ + e),
            ),
            OpusSamplesView::BadSignals(e) => Err(
                CodecErrorView::DecodingError("opus signals: "@ + e),
            ),
            OpusSamplesView::Failed(e) => Err(CodecErrorView::DecodingError("opus decode: "@ + e)),
        }
    } else {
        decoded(c, data)
    }
}

/// A text after a prefix.
fn prefixed(prefix: &str, text: &str) -> (r: String)
    ensures
        r@ == prefix@ + text@,
{
    let mut s = prefix.to_owned();
    s.append(text);
    s
}

/// Encodes and decodes frames of samples. Opus is the caller's: without an
/// Opus library, samples go out as plain bytes where the codec is Opus.
pub struct CodecPipeline {
    codec: CodecType,
}

impl CodecPipeline {
    pub closed spec fn spec_codec(&self) -> CodecType {
        self.codec
    }

    pub fn new(codec: CodecType) -> (r: Self)
        ensures
            r.spec_codec() == codec,
    {
        CodecPipeline { codec }
    }

    pub fn codec_type(&self) -> (r: CodecType)
        ensures
            r == self.spec_codec(),
    {
        self.codec
    }

    /// Encodes samples of sixteen bits.
    pub fn encode(&mut self, pcm_samples: &[i16]) -> (r: Result<Vec<u8>, CodecError>)
        ensures
            final(self).spec_codec() == old(self).spec_codec(),
            r is Ok,
            (r->Ok_0)@ == encoded(old(self).spec_codec(), pcm_samples@),
    {
        let n: usize = pcm_samples.len();
        let mut out: Vec<u8> = Vec::new();
        let mut i: usize = 0;
        match self.codec {
            CodecType::Pcmu => {
                while i < n
                    invariant
                        n == pcm_samples@.len(),
                        i <= n,
                        out@ =~= encoded(CodecType::Pcmu, pcm_samples@).take(i as int),
                    decreases n - i,
                {
                    out.push(linear_to_ulaw(pcm_samples[i]));
                    i = i + 1;
                }
            },
            CodecType::Pcma => {
                while i < n
                    invariant
                        n == pcm_samples@.len(),
                        i <= n,
                        out@ =~= encoded(CodecType::Pcma, pcm_samples@).take(i as int),
                    decreases n - i,
                {
                    out.push(linear_to_alaw(pcm_samples[i]));
                    i = i + 1;
                }
            },
            CodecType::Opus => {
                push_samples(&mut out, pcm_samples);
            },
        }
        assert(out@ =~= encoded(self.codec, pcm_samples@));
        Ok(out)
    }

    /// Decodes bytes to samples of sixteen bits.
    pub fn decode(&mut self, data: &[u8]) -> (r: Result<Vec<i16>, CodecError>)
        ensures
            final(self).spec_codec() == old(self).spec_codec(),
            match r {
                Ok(v) => decoded(old(self).spec_codec(), data@) == Ok::<Seq<i16>, CodecErrorView>(
                    v@,
                ),
                Err(e) => decoded(old(self).spec_codec(), data@) == Err::<
                    Seq<i16>,
                    CodecErrorView,
                >(e@),
            },
    {
        let n: usize = data.len();
        let mut out: Vec<i16> = Vec::new();
        let mut i: usize = 0;
        match self.codec {
            CodecType::Pcmu => {
                while i < n
                    invariant
                        n == data@.len(),
                        i <= n,
                        out@ =~= Seq::new(i as nat, |j: int| ulaw_value(data@[j])),
                    decreases n - i,
                {
                    out.push(ulaw_to_linear(data[i]));
                    i = i + 1;
                }
                assert(out@ =~= Seq::new(data@.len(), |j: int| ulaw_value(data@[j])));
                Ok(out)
            },
            CodecType::Pcma => {
                while i < n
                    invariant
                        n == data@.len(),
                        i <= n,
                        out@ =~= Seq::new(i as nat, |j: int| alaw_value(data@[j])),
                    decreases n - i,
                {
                    out.push(alaw_to_linear(data[i]));
                    i = i + 1;
                }
                assert(out@ =~= Seq::new(data@.len(), |j: int| alaw_value(data@[j])));
                Ok(out)
            },
            CodecType::Opus => {
                if n % 2 != 0 {
                    return Err(
                        CodecError::DecodingError("invalid opus stub data length".to_owned()),
                    );
                }
                Ok(samples_of_bytes(data))
            },
        }
    }

    /// Encodes samples, where the codec is Opus with what its encoder made of
    /// them.
    pub fn encode_with(&mut self, pcm_samples: &[i16], opus: OpusFrame) -> (r: Result<
        Vec<u8>,
        CodecError,
    >)
        ensures
            final(self).spec_codec() == old(self).spec_codec(),
            match r {
                Ok(v) => payload_of(old(self).spec_codec(), pcm_samples@, opus@) == Ok::<
                    Seq<u8>,
                    CodecErrorView,
                >(v@),
                Err(e) => payload_of(old(self).spec_codec(), pcm_samples@, opus@) == Err::<
                    Seq<u8>,
                    CodecErrorView,
                >(e@),
            },
    {
        match self.codec {
            CodecType::Opus => match opus {
                OpusFrame::Absent => self.encode(pcm_samples),
                OpusFrame::Encoded(b) => Ok(b),
                OpusFrame::Failed(e) => Err(
                    CodecError::EncodingError(prefixed("opus encode: ", e.as_str())),
                ),
            },
            _ => self.encode(pcm_samples),
        }
    }

    /// Decodes bytes, where the codec is Opus with what its decoder made of
    /// them.
    pub fn decode_with(&mut self, data: &[u8], opus: OpusSamples) -> (r: Result<
        Vec<i16>,
        CodecError,
    >)
        ensures
            final(self).spec_codec() == old(self).spec_codec(),
            match r {
                Ok(v) => samples_of(old(self).spec_codec(), data@, opus@) == Ok::<
                    Seq<i16>,
                    CodecErrorView,
                >(v@),
                Err(e) => samples_of(old(self).spec_codec(), data@, opus@) == Err::<
                    Seq<i16>,
                    CodecErrorView,
                >(e@),
            },
    {
        match self.codec {
            CodecType::Opus => match opus {
                OpusSamples::Absent => self.decode(data),
                OpusSamples::Decoded(s) => Ok(s),
                OpusSamples::BadPacket(e) => Err(
                    CodecError::DecodingError(prefixed("opus packet: ", e.as_str())),
                ),
                OpusSamples::BadSignals(e) => Err(
                    CodecError::DecodingError(prefixed("opus signals: ", e.as_str())),
                ),
                OpusSamples::Failed(e) => Err(
                    CodecError::DecodingError(prefixed("opus decode: ", e.as_str())),
                ),
            },
            _ => self.decode(data),
        }
    }

    /// A frame of silence.
    pub fn silence_frame(&self) -> (r: Vec<u8>)
        ensures
            r@ == silence(self.spec_codec()),
    {
        let (b, n): (u8, usize) = match self.codec {
            CodecType::Pcmu => (0xff, 160),
            CodecType::Pcma => (0xd5, 160),
            CodecType::Opus => (0, 1920),
        };
        let mut out: Vec<u8> = Vec::new();
        let mut i: usize = 0;
        while i < n
            invariant
                i <= n,
                out@ =~= Seq::new(i as nat, |j: int| b),
            decreases n - i,
        {
            out.push(b);
            i = i + 1;
        }
        assert(out@ =~= silence(self.codec));
        out
    }
}

/// What is encoded decodes to as many samples as there were.
pub proof fn law_roundtrip_len(c: CodecType, samples: Seq<i16>)
    ensures
        decoded(c, encoded(c, samples)) is Ok,
        (decoded(c, encoded(c, samples))->Ok_0).len() == samples.len(),
        c == CodecType::Opus ==> decoded(c, encoded(c, samples)) == Ok::<
            Seq<i16>,
            CodecErrorView,
        >(samples),
{
    law_samples_read_back(samples);
    lemma_samples_bytes_len(samples);
}

/// The silence of both laws of G.711 decodes to samples of magnitude at most 8.
pub proof fn law_silence_is_quiet(c: CodecType, i: int)
    requires
        0 <= i < silence(c).len(),
        c != CodecType::Opus,
    ensures
        decoded(c, silence(c)) is Ok,
        -8 <= (decoded(c, silence(c))->Ok_0)[i] <= 8,
{
    assert(0xd5u8 ^ 0x55 == 0x80) by (bit_vector);
}

/// A frame of silence is what a frame of zeros is encoded to.
pub proof fn law_silence_is_encoded_zeros(c: CodecType)
    ensures
        encoded(c, Seq::new(c.frame_len(), |i: int| 0i16)) == silence(c),
{
    let zeros = Seq::new(c.frame_len(), |i: int| 0i16);
    assert(0x80u8 ^ 0x55 == 0xd5) by (bit_vector);
    assert(alaw_of(0) == 0xd5);
    assert(ulaw_of(0) == 0xff) by {
        assert(132int / (8 * segment(0)) == 132int / 8);
    }
    if c == CodecType::Opus {
        lemma_samples_bytes_len(zeros);
        assert forall|i: int| 0 <= i < silence(c).len() implies samples_bytes(zeros)[i]
            == silence(c)[i] by {
            lemma_samples_bytes(zeros, i / 2);
            assert(i == 2 * (i / 2) || i == 2 * (i / 2) + 1);
        }
    }
    assert(encoded(c, zeros) =~= silence(c));
}

} // verus!
