//! Session descriptions (SDP): what media a call has, and where they go.
use super::message::{clone_opt, opt_text};
use crate::case::{ascii_lower_text, ascii_lowered};
use crate::number::{dec, dec_string, parse_uint, push_dec, uint_of};
use crate::random::random_u32;
use crate::text::{
    chars_of, cut, is_text, lines, lines_of, same_text, split, split_on, split_once, splitn,
    splitn_on, string_of, texts, trim, trimmed,
};
use vstd::prelude::*;
use vstd::slice::slice_subrange;

verus! {

#[derive(Debug, PartialEq, Eq)]
pub enum MediaType {
    Audio,
    Video,
    Other(String),
}

pub enum MediaTypeView {
    Audio,
    Video,
    Other(Seq<char>),
}

impl View for MediaType {
    type V = MediaTypeView;

    open spec fn view(&self) -> MediaTypeView {
        match *self {
            MediaType::Audio => MediaTypeView::Audio,
            MediaType::Video => MediaTypeView::Video,
            MediaType::Other(s) => MediaTypeView::Other(s@),
        }
    }
}

impl MediaTypeView {
    pub open spec fn text(self) -> Seq<char> {
        match self {
            MediaTypeView::Audio => "audio"@,
            MediaTypeView::Video => "video"@,
            MediaTypeView::Other(s) => s,
        }
    }

    pub open spec fn parse(s: Seq<char>) -> MediaTypeView {
        if s == "audio"@ {
            MediaTypeView::Audio
        } else if s == "video"@ {
            MediaTypeView::Video
        } else {
            MediaTypeView::Other(s)
        }
    }
}

impl Clone for MediaType {
    fn clone(&self) -> (r: Self)
        ensures
            r@ == self@,
    {
        match self {
            MediaType::Audio => MediaType::Audio,
            MediaType::Video => MediaType::Video,
            MediaType::Other(s) => MediaType::Other(s.clone()),
        }
    }
}

impl MediaType {
    fn of(cs: &[char]) -> (r: Self)
        ensures
            r@ == MediaTypeView::parse(cs@),
    {
        if is_text(cs, "audio") {
            MediaType::Audio
        } else if is_text(cs, "video") {
            MediaType::Video
        } else {
            MediaType::Other(string_of(cs))
        }
    }

    fn as_str(&self) -> (r: &str)
        ensures
            r@ == self@.text(),
    {
        match self {
            MediaType::Audio => "audio",
            MediaType::Video => "video",
            MediaType::Other(s) => s.as_str(),
        }
    }

    /// The type as it is written in a media line.
    pub fn to_string(&self) -> (r: String)
        ensures
            r@ == self@.text(),
    {
        self.as_str().to_owned()
    }
}

#[derive(Debug, PartialEq, Eq)]
pub enum TransportProtocol {
    RtpAvp,
    RtpSavp,
    Other(String),
}

pub enum ProtocolView {
    RtpAvp,
    RtpSavp,
    Other(Seq<char>),
}

impl View for TransportProtocol {
    type V = ProtocolView;

    open spec fn view(&self) -> ProtocolView {
        match *self {
            TransportProtocol::RtpAvp => ProtocolView::RtpAvp,
            TransportProtocol::RtpSavp => ProtocolView::RtpSavp,
            TransportProtocol::Other(s) => ProtocolView::Other(s@),
        }
    }
}

impl ProtocolView {
    pub open spec fn text(self) -> Seq<char> {
        match self {
            ProtocolView::RtpAvp => "RTP/AVP"@,
            ProtocolView::RtpSavp => "RTP/SAVP"@,
            ProtocolView::Other(s) => s,
        }
    }

    pub open spec fn parse(s: Seq<char>) -> ProtocolView {
        if s == "RTP/AVP"@ {
            ProtocolView::RtpAvp
        } else if s == "RTP/SAVP"@ {
            ProtocolView::RtpSavp
        } else {
            ProtocolView::Other(s)
        }
    }
}

impl Clone for TransportProtocol {
    fn clone(&self) -> (r: Self)
        ensures
            r@ == self@,
    {
        match self {
            TransportProtocol::RtpAvp => TransportProtocol::RtpAvp,
            TransportProtocol::RtpSavp => TransportProtocol::RtpSavp,
            TransportProtocol::Other(s) => TransportProtocol::Other(s.clone()),
        }
    }
}

impl TransportProtocol {
    fn of(cs: &[char]) -> (r: Self)
        ensures
            r@ == ProtocolView::parse(cs@),
    {
        if is_text(cs, "RTP/AVP") {
            TransportProtocol::RtpAvp
        } else if is_text(cs, "RTP/SAVP") {
            TransportProtocol::RtpSavp
        } else {
            TransportProtocol::Other(string_of(cs))
        }
    }

    fn as_str(&self) -> (r: &str)
        ensures
            r@ == self@.text(),
    {
        match self {
            TransportProtocol::RtpAvp => "RTP/AVP",
            TransportProtocol::RtpSavp => "RTP/SAVP",
            TransportProtocol::Other(s) => s.as_str(),
        }
    }

    /// The protocol as it is written in a media line.
    pub fn to_string(&self) -> (r: String)
        ensures
            r@ == self@.text(),
    {
        self.as_str().to_owned()
    }
}

/// What a payload type stands for.
#[derive(Debug, PartialEq, Eq)]
pub struct RtpMap {
    pub payload_type: u8,
    pub encoding_name: String,
    pub clock_rate: u32,
    pub channels: Option<u32>,
}

pub struct RtpMapView {
    pub payload_type: u8,
    pub encoding_name: Seq<char>,
    pub clock_rate: u32,
    pub channels: Option<u32>,
}

impl View for RtpMap {
    type V = RtpMapView;

    open spec fn view(&self) -> RtpMapView {
        RtpMapView {
            payload_type: self.payload_type,
            encoding_name: self.encoding_name@,
            clock_rate: self.clock_rate,
            channels: self.channels,
        }
    }
}

impl Clone for RtpMap {
    fn clone(&self) -> (r: Self)
        ensures
            r@ == self@,
    {
        RtpMap {
            payload_type: self.payload_type,
            encoding_name: self.encoding_name.clone(),
            clock_rate: self.clock_rate,
            channels: self.channels,
        }
    }
}

/// The value of an `rtpmap` attribute.
pub open spec fn rtpmap_text(m: RtpMapView) -> Seq<char> {
    let base = dec(m.payload_type as nat) + " "@ + m.encoding_name + "/"@ + dec(
        m.clock_rate as nat,
    );
    match m.channels {
        Some(c) => base + "/"@ + dec(c as nat),
        None => base,
    }
}

impl RtpMap {
    /// The value of the `rtpmap` attribute.
    pub fn to_string(&self) -> (r: String)
        ensures
            r@ == rtpmap_text(self@),
    {
        let mut s = dec_string(self.payload_type as u64);
        s.append(" ");
        s.append(self.encoding_name.as_str());
        s.append("/");
        push_dec(&mut s, self.clock_rate as u64);
        if let Some(c) = self.channels {
            s.append("/");
            push_dec(&mut s, c as u64);
        }
        s
    }
}

/// What the value of an `rtpmap` attribute stands for: a payload type, a
/// space, and a name, a clock rate and perhaps a number of channels with
/// slashes between them.
pub open spec fn rtpmap_of(value: Seq<char>) -> Option<RtpMapView> {
    match cut(value, ' ') {
        None => None,
        Some((pt, rest)) => {
            let parts = split(rest, '/');
            let p = uint_of(pt, u8::MAX as nat);
            if p is None || parts.len() < 2 {
                None
            } else {
                let rate = uint_of(parts[1], u32::MAX as nat);
                if rate is None {
                    None
                } else {
                    Some(
                        RtpMapView {
                            payload_type: p->0 as u8,
                            encoding_name: parts[0],
                            clock_rate: rate->0 as u32,
                            channels: if parts.len() > 2 {
                                match uint_of(parts[2], u32::MAX as nat) {
                                    Some(c) => Some(c as u32),
                                    None => None,
                                }
                            } else {
                                None
                            },
                        },
                    )
                }
            }
        },
    }
}

fn rtpmap_of_chars(value: &[char]) -> (r: Option<RtpMap>)
    ensures
        match r {
            Some(m) => rtpmap_of(value@) == Some(m@),
            None => rtpmap_of(value@) is None,
        },
{
    let (pt, rest) = match split_once(value, ' ') {
        Some(p) => p,
        None => {
            return None;
        },
    };
    let payload_type: u8 = match parse_uint(pt, 255) {
        Some(n) => n as u8,
        None => {
            return None;
        },
    };
    let parts = split_on(rest, '/');
    let ghost ps = texts(parts@);
    if parts.len() < 2 {
        return None;
    }
    assert(parts@[0]@ == ps[0]);
    assert(parts@[1]@ == ps[1]);
    let clock_rate: u32 = match parse_uint(parts[1], 4294967295) {
        Some(n) => n as u32,
        None => {
            return None;
        },
    };
    let channels: Option<u32> = if parts.len() > 2 {
        assert(parts@[2]@ == ps[2]);
        match parse_uint(parts[2], 4294967295) {
            Some(n) => Some(n as u32),
            None => None,
        }
    } else {
        None
    };
    Some(RtpMap { payload_type, encoding_name: string_of(parts[0]), clock_rate, channels })
}

/// Reads the value of an `rtpmap` attribute, such as `111 opus/48000/2`.
pub fn parse_rtpmap(value: &str) -> (r: Option<RtpMap>)
    ensures
        match r {
            Some(m) => rtpmap_of(value@) == Some(m@),
            None => rtpmap_of(value@) is None,
        },
{
    let cs = chars_of(value);
    rtpmap_of_chars(cs.as_slice())
}

// ---------------------------------------------------------------------------
// Media and sessions
// ---------------------------------------------------------------------------

/// An attribute: its name, and its value if it has one.
pub type AttrView = (Seq<char>, Option<Seq<char>>);

/// What an attribute stands for.
pub open spec fn attr_view(a: (String, Option<String>)) -> AttrView {
    (a.0@, opt_text(a.1))
}

/// What a list of attributes stands for.
pub open spec fn attrs_view(v: Seq<(String, Option<String>)>) -> Seq<AttrView> {
    Seq::new(v.len(), |i: int| attr_view(v[i]))
}

/// What a list of payload type descriptions stands for.
pub open spec fn maps_view(v: Seq<RtpMap>) -> Seq<RtpMapView> {
    Seq::new(v.len(), |i: int| v[i]@)
}

/// One stream of media.
#[derive(Debug)]
pub struct MediaDescription {
    pub media_type: MediaType,
    pub port: u16,
    pub protocol: TransportProtocol,
    pub formats: Vec<u8>,
    pub rtpmaps: Vec<RtpMap>,
    pub attributes: Vec<(String, Option<String>)>,
}

pub struct MediaView {
    pub media_type: MediaTypeView,
    pub port: u16,
    pub protocol: ProtocolView,
    pub formats: Seq<u8>,
    pub rtpmaps: Seq<RtpMapView>,
    pub attributes: Seq<AttrView>,
}

impl View for MediaDescription {
    type V = MediaView;

    open spec fn view(&self) -> MediaView {
        MediaView {
            media_type: self.media_type@,
            port: self.port,
            protocol: self.protocol@,
            formats: self.formats@,
            rtpmaps: maps_view(self.rtpmaps@),
            attributes: attrs_view(self.attributes@),
        }
    }
}

/// An audio stream without formats.
pub open spec fn plain_audio(port: u16) -> MediaView {
    MediaView {
        media_type: MediaTypeView::Audio,
        port,
        protocol: ProtocolView::RtpAvp,
        formats: seq![],
        rtpmaps: seq![],
        attributes: seq![],
    }
}

impl MediaView {
    /// The stream with one more format.
    pub open spec fn with_codec(self, m: RtpMapView) -> MediaView {
        MediaView {
            formats: self.formats.push(m.payload_type),
            rtpmaps: self.rtpmaps.push(m),
            ..self
        }
    }

    /// The stream with one more attribute.
    pub open spec fn with_attr(self, a: AttrView) -> MediaView {
        MediaView { attributes: self.attributes.push(a), ..self }
    }
}

/// A payload type with its name, clock rate and channels.
pub open spec fn rtp_map(pt: u8, name: Seq<char>, rate: u32, channels: Option<u32>) -> RtpMapView {
    RtpMapView { payload_type: pt, encoding_name: name, clock_rate: rate, channels }
}

/// The audio stream that the library offers, with a direction.
pub open spec fn offered_audio(port: u16, direction: Seq<char>) -> MediaView {
    plain_audio(port).with_codec(rtp_map(0, "PCMU"@, 8000, None)).with_codec(
        rtp_map(8, "PCMA"@, 8000, None),
    ).with_codec(rtp_map(101, "telephone-event"@, 8000, None)).with_attr(
        ("fmtp"@, Some("101 0-15"@)),
    ).with_codec(rtp_map(111, "opus"@, 48000, Some(2))).with_attr((direction, None))
}

fn clone_attrs(v: &Vec<(String, Option<String>)>) -> (r: Vec<(String, Option<String>)>)
    ensures
        attrs_view(r@) == attrs_view(v@),
{
    let mut out: Vec<(String, Option<String>)> = Vec::new();
    let n: usize = v.len();
    let mut i: usize = 0;
    while i < n
        invariant
            n == v@.len(),
            i <= n,
            attrs_view(out@) == attrs_view(v@).take(i as int),
        decreases n - i,
    {
        let ghost before = attrs_view(out@);
        out.push((v[i].0.clone(), clone_opt(&v[i].1)));
        assert(attrs_view(out@) =~= before.push(attrs_view(v@)[i as int]));
        i = i + 1;
        assert(attrs_view(out@) =~= attrs_view(v@).take(i as int));
    }
    assert(attrs_view(out@) =~= attrs_view(v@));
    out
}

impl Clone for MediaDescription {
    fn clone(&self) -> (r: Self)
        ensures
            r@ == self@,
    {
        let mut rtpmaps: Vec<RtpMap> = Vec::new();
        let n: usize = self.rtpmaps.len();
        let mut i: usize = 0;
        while i < n
            invariant
                n == self.rtpmaps@.len(),
                i <= n,
                maps_view(rtpmaps@) == maps_view(self.rtpmaps@).take(i as int),
            decreases n - i,
        {
            let ghost before = maps_view(rtpmaps@);
            rtpmaps.push(self.rtpmaps[i].clone());
            assert(maps_view(rtpmaps@) =~= before.push(maps_view(self.rtpmaps@)[i as int]));
            i = i + 1;
            assert(maps_view(rtpmaps@) =~= maps_view(self.rtpmaps@).take(i as int));
        }
        assert(maps_view(rtpmaps@) =~= maps_view(self.rtpmaps@));
        let formats = vstd::slice::slice_to_vec(self.formats.as_slice());
        MediaDescription {
            media_type: self.media_type.clone(),
            port: self.port,
            protocol: self.protocol.clone(),
            formats,
            rtpmaps,
            attributes: clone_attrs(&self.attributes),
        }
    }
}

impl MediaDescription {
    /// An audio stream without formats.
    pub fn new_audio(port: u16) -> (r: Self)
        ensures
            r@ == plain_audio(port),
    {
        let r = MediaDescription {
            media_type: MediaType::Audio,
            port,
            protocol: TransportProtocol::RtpAvp,
            formats: Vec::new(),
            rtpmaps: Vec::new(),
            attributes: Vec::new(),
        };
        assert(r@.rtpmaps =~= seq![]);
        assert(r@.attributes =~= seq![]);
        assert(r@.formats =~= seq![]);
        r
    }

    /// Adds a format and what it stands for.
    pub fn add_codec(
        &mut self,
        payload_type: u8,
        name: &str,
        clock_rate: u32,
        channels: Option<u32>,
    )
        ensures
            final(self)@ == old(self)@.with_codec(
                rtp_map(payload_type, name@, clock_rate, channels),
            ),
    {
        self.formats.push(payload_type);
        self.rtpmaps.push(
            RtpMap { payload_type, encoding_name: name.to_owned(), clock_rate, channels },
        );
        assert(self@.rtpmaps =~= old(self)@.rtpmaps.push(
            rtp_map(payload_type, name@, clock_rate, channels),
        ));
    }

    /// Adds an attribute.
    pub fn add_attribute(&mut self, name: &str, value: Option<&str>)
        ensures
            final(self)@ == old(self)@.with_attr(
                (
                    name@,
                    match value {
                        Some(v) => Some(v@),
                        None => None,
                    },
                ),
            ),
    {
        let v: Option<String> = match value {
            Some(v) => Some(v.to_owned()),
            None => None,
        };
        self.push_attr(name.to_owned(), v);
    }

    fn push_attr(&mut self, name: String, value: Option<String>)
        ensures
            final(self)@ == old(self)@.with_attr((name@, opt_text(value))),
    {
        self.attributes.push((name, value));
        assert(self@.attributes =~= old(self)@.attributes.push((name@, opt_text(value))));
    }

    fn push_map(&mut self, m: RtpMap)
        ensures
            final(self)@ == (MediaView { rtpmaps: old(self)@.rtpmaps.push(m@), ..old(self)@ }),
    {
        self.rtpmaps.push(m);
        assert(self@.rtpmaps =~= old(self)@.rtpmaps.push(m@));
    }

    fn offered(port: u16, direction: &str) -> (r: Self)
        ensures
            r@ == offered_audio(port, direction@),
    {
        let mut media = MediaDescription::new_audio(port);
        media.add_codec(0, "PCMU", 8000, None);
        media.add_codec(8, "PCMA", 8000, None);
        media.add_codec(101, "telephone-event", 8000, None);
        media.add_attribute("fmtp", Some("101 0-15"));
        media.add_codec(111, "opus", 48000, Some(2));
        media.add_attribute(direction, None);
        media
    }
}

/// A session description.
#[derive(Debug)]
pub struct SdpSession {
    pub version: u32,
    pub origin_username: String,
    pub session_id: String,
    pub session_version: String,
    pub origin_address: String,
    pub session_name: String,
    pub connection_address: Option<String>,
    pub media_descriptions: Vec<MediaDescription>,
    pub attributes: Vec<(String, Option<String>)>,
}

pub struct SdpView {
    pub version: u32,
    pub origin_username: Seq<char>,
    pub session_id: Seq<char>,
    pub session_version: Seq<char>,
    pub origin_address: Seq<char>,
    pub session_name: Seq<char>,
    pub connection_address: Option<Seq<char>>,
    pub media: Seq<MediaView>,
    pub attributes: Seq<AttrView>,
}

/// What a list of streams stands for.
pub open spec fn media_view(v: Seq<MediaDescription>) -> Seq<MediaView> {
    Seq::new(v.len(), |i: int| v[i]@)
}

impl View for SdpSession {
    type V = SdpView;

    open spec fn view(&self) -> SdpView {
        SdpView {
            version: self.version,
            origin_username: self.origin_username@,
            session_id: self.session_id@,
            session_version: self.session_version@,
            origin_address: self.origin_address@,
            session_name: self.session_name@,
            connection_address: opt_text(self.connection_address),
            media: media_view(self.media_descriptions@),
            attributes: attrs_view(self.attributes@),
        }
    }
}

impl Clone for SdpSession {
    fn clone(&self) -> (r: Self)
        ensures
            r@ == self@,
    {
        let mut media: Vec<MediaDescription> = Vec::new();
        let n: usize = self.media_descriptions.len();
        let mut i: usize = 0;
        while i < n
            invariant
                n == self.media_descriptions@.len(),
                i <= n,
                media_view(media@) == self@.media.take(i as int),
            decreases n - i,
        {
            let ghost before = media_view(media@);
            media.push(self.media_descriptions[i].clone());
            assert(media_view(media@) =~= before.push(self@.media[i as int]));
            i = i + 1;
            assert(media_view(media@) =~= self@.media.take(i as int));
        }
        assert(media_view(media@) =~= self@.media);
        SdpSession {
            version: self.version,
            origin_username: self.origin_username.clone(),
            session_id: self.session_id.clone(),
            session_version: self.session_version.clone(),
            origin_address: self.origin_address.clone(),
            session_name: self.session_name.clone(),
            connection_address: clone_opt(&self.connection_address),
            media_descriptions: media,
            attributes: clone_attrs(&self.attributes),
        }
    }
}

/// Why a text is no session description.
#[derive(Debug)]
pub enum SdpError {
    MissingField(String),
    InvalidLine(String),
    InvalidMedia(String),
}

pub enum SdpErrorView {
    MissingField(Seq<char>),
    InvalidLine(Seq<char>),
    InvalidMedia(Seq<char>),
}

impl View for SdpError {
    type V = SdpErrorView;

    open spec fn view(&self) -> SdpErrorView {
        match *self {
            SdpError::MissingField(s) => SdpErrorView::MissingField(s@),
            SdpError::InvalidLine(s) => SdpErrorView::InvalidLine(s@),
            SdpError::InvalidMedia(s) => SdpErrorView::InvalidMedia(s@),
        }
    }
}

impl SdpError {
    /// The error in words.
    pub fn to_string(&self) -> (r: String)
        ensures
            r@ == match self@ {
                SdpErrorView::MissingField(s) => "missing required field: "@ + s,
                SdpErrorView::InvalidLine(s) => "invalid SDP line: "@ + s,
                SdpErrorView::InvalidMedia(s) => "invalid media line: "@ + s,
            },
    {
        match self {
            SdpError::MissingField(s) => {
                let mut m = "missing required field: ".to_owned();
                m.append(s.as_str());
                m
            },
            SdpError::InvalidLine(s) => {
                let mut m = "invalid SDP line: ".to_owned();
                m.append(s.as_str());
                m
            },
            SdpError::InvalidMedia(s) => {
                let mut m = "invalid media line: ".to_owned();
                m.append(s.as_str());
                m
            },
        }
    }
}

// ---------------------------------------------------------------------------
// Reading
// ---------------------------------------------------------------------------

/// The payload types among the parts: those that are numbers up to 255.
pub open spec fn formats_of(parts: Seq<Seq<char>>) -> Seq<u8>
    decreases parts.len(),
{
    if parts.len() == 0 {
        seq![]
    } else {
        match uint_of(parts.last(), u8::MAX as nat) {
            Some(n) => formats_of(parts.drop_last()).push(n as u8),
            None => formats_of(parts.drop_last()),
        }
    }
}

/// The stream that a media line begins.
pub open spec fn media_of(parts: Seq<Seq<char>>) -> MediaView {
    MediaView {
        media_type: MediaTypeView::parse(parts[0]),
        port: match uint_of(parts[1], u16::MAX as nat) {
            Some(n) => n as u16,
            None => 0,
        },
        protocol: ProtocolView::parse(parts[2]),
        formats: formats_of(parts.skip(3)),
        rtpmaps: seq![],
        attributes: seq![],
    }
}

/// The attribute that an attribute line holds.
pub open spec fn attr_of(value: Seq<char>) -> AttrView {
    match cut(value, ':') {
        Some((n, v)) => (n, Some(v)),
        None => (value, None),
    }
}

/// A stream with one more attribute; an `rtpmap` says what a payload type
/// stands for.
pub open spec fn media_with_attr(m: MediaView, a: AttrView) -> MediaView {
    let maps = if a.0 == "rtpmap"@ && a.1 is Some && rtpmap_of(a.1->0) is Some {
        m.rtpmaps.push(rtpmap_of(a.1->0)->0)
    } else {
        m.rtpmaps
    };
    MediaView { rtpmaps: maps, attributes: m.attributes.push(a), ..m }
}

/// A session description with one more attribute, which belongs to the last
/// stream if there is one.
pub open spec fn with_attribute(s: SdpView, a: AttrView) -> SdpView {
    if s.media.len() > 0 {
        SdpView { media: s.media.drop_last().push(media_with_attr(s.media.last(), a)), ..s }
    } else {
        SdpView { attributes: s.attributes.push(a), ..s }
    }
}

/// What is known once one more line has been read.
pub open spec fn read_line(s: SdpView, line: Seq<char>) -> Result<SdpView, SdpErrorView> {
    let l = trimmed(line);
    if l.len() < 2 || l[1] != '=' {
        Ok(s)
    } else {
        let value = l.skip(2);
        if l[0] == 'v' {
            Ok(
                SdpView {
                    version: match uint_of(value, u32::MAX as nat) {
                        Some(n) => n as u32,
                        None => 0,
                    },
                    ..s
                },
            )
        } else if l[0] == 'o' {
            let parts = splitn(value, 6, ' ');
            if parts.len() >= 6 {
                Ok(
                    SdpView {
                        origin_username: parts[0],
                        session_id: parts[1],
                        session_version: parts[2],
                        origin_address: parts[5],
                        ..s
                    },
                )
            } else {
                Ok(s)
            }
        } else if l[0] == 's' {
            Ok(SdpView { session_name: value, ..s })
        } else if l[0] == 'c' {
            let parts = split(value, ' ');
            if parts.len() >= 3 {
                Ok(SdpView { connection_address: Some(parts[2]), ..s })
            } else {
                Ok(s)
            }
        } else if l[0] == 'm' {
            let parts = split(value, ' ');
            if parts.len() < 3 {
                Err(SdpErrorView::InvalidMedia(value))
            } else {
                Ok(SdpView { media: s.media.push(media_of(parts)), ..s })
            }
        } else if l[0] == 'a' {
            Ok(with_attribute(s, attr_of(value)))
        } else {
            Ok(s)
        }
    }
}

/// What is known before the first line.
pub open spec fn blank_session() -> SdpView {
    SdpView {
        version: 0,
        origin_username: "-"@,
        session_id: seq![],
        session_version: seq![],
        origin_address: seq![],
        session_name: seq![],
        connection_address: None,
        media: seq![],
        attributes: seq![],
    }
}

/// What is known once the lines have been read; the first media line with too
/// few parts is an error.
pub open spec fn read_lines(start: SdpView, ls: Seq<Seq<char>>) -> Result<SdpView, SdpErrorView>
    decreases ls.len(),
{
    if ls.len() == 0 {
        Ok(start)
    } else {
        match read_lines(start, ls.drop_last()) {
            Ok(s) => read_line(s, ls.last()),
            Err(e) => Err(e),
        }
    }
}

/// The session description that a text denotes.
pub open spec fn parse_sdp(input: Seq<char>) -> Result<SdpView, SdpErrorView> {
    read_lines(blank_session(), lines(input))
}

/// An error in one line is the error of the whole.
proof fn lemma_error_stays(start: SdpView, ls: Seq<Seq<char>>, i: int, e: SdpErrorView)
    requires
        0 <= i <= ls.len(),
        read_lines(start, ls.take(i)) == Err::<SdpView, SdpErrorView>(e),
    ensures
        read_lines(start, ls) == Err::<SdpView, SdpErrorView>(e),
    decreases ls.len(),
{
    if i < ls.len() {
        assert(ls.drop_last().take(i) =~= ls.take(i));
        lemma_error_stays(start, ls.drop_last(), i, e);
    } else {
        assert(ls.take(i) =~= ls);
    }
}

fn formats_of_parts(parts: &[&[char]]) -> (r: Vec<u8>)
    ensures
        r@ == formats_of(texts(parts@)),
{
    let mut out: Vec<u8> = Vec::new();
    let n: usize = parts.len();
    let mut i: usize = 0;
    let ghost all = texts(parts@);
    while i < n
        invariant
            n == parts@.len(),
            all == texts(parts@),
            i <= n,
            out@ == formats_of(all.take(i as int)),
        decreases n - i,
    {
        proof {
            assert(all.take(i + 1).drop_last() =~= all.take(i as int));
            assert(all.take(i + 1).last() == parts@[i as int]@);
        }
        if let Some(f) = parse_uint(parts[i], 255) {
            out.push(f as u8);
        }
        i = i + 1;
    }
    assert(all.take(n as int) =~= all);
    out
}

impl SdpSession {
    fn read_media(&mut self, value: &[char]) -> (r: Result<(), SdpError>)
        ensures
            ({
                let parts = split(value@, ' ');
                match r {
                    Ok(_) => parts.len() >= 3 && final(self)@ == (SdpView {
                        media: old(self)@.media.push(media_of(parts)),
                        ..old(self)@
                    }),
                    Err(e) => parts.len() < 3 && e@ == SdpErrorView::InvalidMedia(value@),
                }
            }),
    {
        let parts = split_on(value, ' ');
        let ghost ps = texts(parts@);
        if parts.len() < 3 {
            return Err(SdpError::InvalidMedia(string_of(value)));
        }
        assert(parts@[0]@ == ps[0]);
        assert(parts@[1]@ == ps[1]);
        assert(parts@[2]@ == ps[2]);
        let port: u16 = match parse_uint(parts[1], 65535) {
            Some(n) => n as u16,
            None => 0,
        };
        let rest = slice_subrange(parts.as_slice(), 3, parts.len());
        assert(texts(rest@) =~= ps.skip(3));
        let m = MediaDescription {
            media_type: MediaType::of(parts[0]),
            port,
            protocol: TransportProtocol::of(parts[2]),
            formats: formats_of_parts(rest),
            rtpmaps: Vec::new(),
            attributes: Vec::new(),
        };
        assert(m@.rtpmaps =~= seq![]);
        assert(m@.attributes =~= seq![]);
        self.media_descriptions.push(m);
        assert(self@.media =~= old(self)@.media.push(media_of(ps)));
        Ok(())
    }

    fn read_attribute(&mut self, value: &[char])
        ensures
            final(self)@ == with_attribute(old(self)@, attr_of(value@)),
    {
        let (name, val) = match split_once(value, ':') {
            Some((n, v)) => (string_of(n), Some(string_of(v))),
            None => (string_of(value), None),
        };
        let k: usize = self.media_descriptions.len();
        if k > 0 {
            let ghost last = old(self)@.media.last();
            let mut m = self.media_descriptions[k - 1].clone();
            if same_text(name.as_str(), "rtpmap") {
                if let Some(v) = &val {
                    if let Some(map) = parse_rtpmap(v.as_str()) {
                        m.push_map(map);
                    }
                }
            }
            m.push_attr(name, val);
            self.media_descriptions[k - 1] = m;
            assert(self@.media =~= old(self)@.media.drop_last().push(
                media_with_attr(last, attr_of(value@)),
            ));
        } else {
            self.attributes.push((name, val));
            assert(self@.attributes =~= old(self)@.attributes.push(attr_of(value@)));
            assert(self@.media =~= old(self)@.media);
        }
    }

    fn read_line(&mut self, line: &[char]) -> (r: Result<(), SdpError>)
        ensures
            match r {
                Ok(_) => read_line(old(self)@, line@) == Ok::<SdpView, SdpErrorView>(final(self)@),
                Err(e) => read_line(old(self)@, line@) == Err::<SdpView, SdpErrorView>(e@),
            },
    {
        let l = trim(line);
        if l.len() < 2 || l[1] != '=' {
            return Ok(());
        }
        let value = slice_subrange(l, 2, l.len());
        assert(value@ =~= trimmed(line@).skip(2));
        let c = l[0];
        if c == 'v' {
            self.version = match parse_uint(value, 4294967295) {
                Some(n) => n as u32,
                None => 0,
            };
        } else if c == 'o' {
            let parts = splitn_on(value, 6, ' ');
            let ghost ps = texts(parts@);
            if parts.len() >= 6 {
                assert(parts@[0]@ == ps[0]);
                assert(parts@[1]@ == ps[1]);
                assert(parts@[2]@ == ps[2]);
                assert(parts@[5]@ == ps[5]);
                self.origin_username = string_of(parts[0]);
                self.session_id = string_of(parts[1]);
                self.session_version = string_of(parts[2]);
                self.origin_address = string_of(parts[5]);
            }
        } else if c == 's' {
            self.session_name = string_of(value);
        } else if c == 'c' {
            let parts = split_on(value, ' ');
            let ghost ps = texts(parts@);
            if parts.len() >= 3 {
                assert(parts@[2]@ == ps[2]);
                self.connection_address = Some(string_of(parts[2]));
            }
        } else if c == 'm' {
            return self.read_media(value);
        } else if c == 'a' {
            self.read_attribute(value);
        }
        Ok(())
    }

    /// Reads a session description.
    pub fn parse(input: &str) -> (r: Result<Self, SdpError>)
        ensures
            match r {
                Ok(s) => parse_sdp(input@) == Ok::<SdpView, SdpErrorView>(s@),
                Err(e) => parse_sdp(input@) == Err::<SdpView, SdpErrorView>(e@),
            },
    {
        let cs = chars_of(input);
        let ls = lines_of(cs.as_slice());
        let n: usize = ls.len();
        let ghost all = texts(ls@);
        let mut s = SdpSession {
            version: 0,
            origin_username: "-".to_owned(),
            session_id: String::new(),
            session_version: String::new(),
            origin_address: String::new(),
            session_name: String::new(),
            connection_address: None,
            media_descriptions: Vec::new(),
            attributes: Vec::new(),
        };
        assert(s@.media =~= seq![]);
        assert(s@.attributes =~= seq![]);
        assert(s@.session_id =~= seq![]);
        assert(s@.session_version =~= seq![]);
        assert(s@.origin_address =~= seq![]);
        assert(s@.session_name =~= seq![]);
        let mut i: usize = 0;
        while i < n
            invariant
                n == ls@.len(),
                all == texts(ls@),
                all == lines(input@),
                i <= n,
                read_lines(blank_session(), all.take(i as int)) == Ok::<SdpView, SdpErrorView>(s@),
            decreases n - i,
        {
            proof {
                assert(all.take(i + 1).drop_last() =~= all.take(i as int));
                assert(all.take(i + 1).last() == ls@[i as int]@);
            }
            match s.read_line(ls[i]) {
                Ok(_) => {},
                Err(e) => {
                    proof {
                        lemma_error_stays(blank_session(), all, i + 1, e@);
                    }
                    return Err(e);
                },
            }
            i = i + 1;
        }
        assert(all.take(n as int) =~= all);
        Ok(s)
    }
}

// ---------------------------------------------------------------------------
// Writing
// ---------------------------------------------------------------------------

/// An attribute line.
pub open spec fn attr_line(a: AttrView) -> Seq<char> {
    match a.1 {
        Some(v) => "a="@ + a.0 + ":"@ + v,
        None => "a="@ + a.0,
    }
}

/// Attribute lines, each with its line feed.
pub open spec fn attr_lines(attrs: Seq<AttrView>) -> Seq<char>
    decreases attrs.len(),
{
    if attrs.len() == 0 {
        seq![]
    } else {
        attr_lines(attrs.drop_last()) + attr_line(attrs.last()) + "\n"@
    }
}

/// The attributes of a stream other than `rtpmap`.
pub open spec fn other_attrs(attrs: Seq<AttrView>) -> Seq<AttrView>
    decreases attrs.len(),
{
    if attrs.len() == 0 {
        seq![]
    } else if attrs.last().0 == "rtpmap"@ {
        other_attrs(attrs.drop_last())
    } else {
        other_attrs(attrs.drop_last()).push(attrs.last())
    }
}

/// What the payload types stand for, one to a line.
pub open spec fn map_lines(maps: Seq<RtpMapView>) -> Seq<char>
    decreases maps.len(),
{
    if maps.len() == 0 {
        seq![]
    } else {
        map_lines(maps.drop_last()) + "a=rtpmap:"@ + rtpmap_text(maps.last()) + "\n"@
    }
}

/// The payload types, with a space before each.
pub open spec fn formats_text(fs: Seq<u8>) -> Seq<char>
    decreases fs.len(),
{
    if fs.len() == 0 {
        seq![]
    } else {
        formats_text(fs.drop_last()) + " "@ + dec(fs.last() as nat)
    }
}

/// A media line. A space stands behind the protocol even where there are no
/// formats.
pub open spec fn media_line(m: MediaView) -> Seq<char> {
    "m="@ + m.media_type.text() + " "@ + dec(m.port as nat) + " "@ + m.protocol.text() + (
    if m.formats.len() == 0 {
        " "@
    } else {
        formats_text(m.formats)
    })
}

/// A stream as it is written in a session description.
pub open spec fn media_text(m: MediaView) -> Seq<char> {
    media_line(m) + "\n"@ + map_lines(m.rtpmaps) + attr_lines(other_attrs(m.attributes))
}

/// Streams as they are written in a session description.
pub open spec fn medias_text(ms: Seq<MediaView>) -> Seq<char>
    decreases ms.len(),
{
    if ms.len() == 0 {
        seq![]
    } else {
        medias_text(ms.drop_last()) + media_text(ms.last())
    }
}

/// The origin line.
pub open spec fn origin_line(s: SdpView) -> Seq<char> {
    "o="@ + s.origin_username + " "@ + s.session_id + " "@ + s.session_version + " IN IP4 "@
        + s.origin_address
}

/// The connection line, if there is an address for it.
pub open spec fn connection_text(s: SdpView) -> Seq<char> {
    match s.connection_address {
        Some(a) => "c=IN IP4 "@ + a + "\n"@,
        None => seq![],
    }
}

/// A session description as it is sent.
pub open spec fn sdp_text(s: SdpView) -> Seq<char> {
    "v="@ + dec(s.version as nat) + "\n"@ + origin_line(s) + "\n"@ + "s="@ + s.session_name
        + "\n"@ + connection_text(s) + "t=0 0\n"@ + attr_lines(s.attributes) + medias_text(s.media)
}

fn push_attr_line(s: &mut String, a: &(String, Option<String>))
    ensures
        final(s)@ == old(s)@ + attr_line(attr_view(*a)) + "\n"@,
{
    s.append("a=");
    s.append(a.0.as_str());
    if let Some(v) = &a.1 {
        s.append(":");
        s.append(v.as_str());
    }
    s.append("\n");
    assert(s@ =~= old(s)@ + attr_line(attr_view(*a)) + "\n"@);
}

fn push_attrs(s: &mut String, attrs: &Vec<(String, Option<String>)>)
    ensures
        final(s)@ == old(s)@ + attr_lines(attrs_view(attrs@)),
{
    let n: usize = attrs.len();
    let mut i: usize = 0;
    let ghost all = attrs_view(attrs@);
    assert(s@ =~= old(s)@ + attr_lines(all.take(0)));
    while i < n
        invariant
            n == attrs@.len(),
            all == attrs_view(attrs@),
            i <= n,
            s@ == old(s)@ + attr_lines(all.take(i as int)),
        decreases n - i,
    {
        proof {
            assert(all.take(i + 1).drop_last() =~= all.take(i as int));
            assert(all.take(i + 1).last() == all[i as int]);
        }
        push_attr_line(s, &attrs[i]);
        assert(s@ =~= old(s)@ + attr_lines(all.take(i + 1)));
        i = i + 1;
    }
    assert(all.take(n as int) =~= all);
}

fn push_other_attrs(s: &mut String, attrs: &Vec<(String, Option<String>)>)
    ensures
        final(s)@ == old(s)@ + attr_lines(other_attrs(attrs_view(attrs@))),
{
    let n: usize = attrs.len();
    let mut i: usize = 0;
    let ghost all = attrs_view(attrs@);
    assert(s@ =~= old(s)@ + attr_lines(other_attrs(all.take(0))));
    while i < n
        invariant
            n == attrs@.len(),
            all == attrs_view(attrs@),
            i <= n,
            s@ == old(s)@ + attr_lines(other_attrs(all.take(i as int))),
        decreases n - i,
    {
        proof {
            assert(all.take(i + 1).drop_last() =~= all.take(i as int));
            assert(all.take(i + 1).last() == all[i as int]);
        }
        if !same_text(attrs[i].0.as_str(), "rtpmap") {
            push_attr_line(s, &attrs[i]);
            proof {
                let o = other_attrs(all.take(i as int));
                assert(o.push(all[i as int]).drop_last() =~= o);
            }
            assert(s@ =~= old(s)@ + attr_lines(other_attrs(all.take(i + 1))));
        }
        i = i + 1;
    }
    assert(all.take(n as int) =~= all);
}

fn push_maps(s: &mut String, maps: &Vec<RtpMap>)
    ensures
        final(s)@ == old(s)@ + map_lines(maps_view(maps@)),
{
    let n: usize = maps.len();
    let mut i: usize = 0;
    let ghost all = maps_view(maps@);
    assert(s@ =~= old(s)@ + map_lines(all.take(0)));
    while i < n
        invariant
            n == maps@.len(),
            all == maps_view(maps@),
            i <= n,
            s@ == old(s)@ + map_lines(all.take(i as int)),
        decreases n - i,
    {
        proof {
            assert(all.take(i + 1).drop_last() =~= all.take(i as int));
            assert(all.take(i + 1).last() == all[i as int]);
        }
        s.append("a=rtpmap:");
        let m = maps[i].to_string();
        s.append(m.as_str());
        s.append("\n");
        assert(s@ =~= old(s)@ + map_lines(all.take(i + 1)));
        i = i + 1;
    }
    assert(all.take(n as int) =~= all);
}

fn push_formats(s: &mut String, fs: &Vec<u8>)
    ensures
        final(s)@ == old(s)@ + formats_text(fs@),
{
    let n: usize = fs.len();
    let mut i: usize = 0;
    assert(s@ =~= old(s)@ + formats_text(fs@.take(0)));
    while i < n
        invariant
            n == fs@.len(),
            i <= n,
            s@ == old(s)@ + formats_text(fs@.take(i as int)),
        decreases n - i,
    {
        proof {
            assert(fs@.take(i + 1).drop_last() =~= fs@.take(i as int));
            assert(fs@.take(i + 1).last() == fs@[i as int]);
        }
        s.append(" ");
        push_dec(s, fs[i] as u64);
        assert(s@ =~= old(s)@ + formats_text(fs@.take(i + 1)));
        i = i + 1;
    }
    assert(fs@.take(n as int) =~= fs@);
}

fn push_media(s: &mut String, m: &MediaDescription)
    ensures
        final(s)@ == old(s)@ + media_text(m@),
{
    s.append("m=");
    s.append(m.media_type.as_str());
    s.append(" ");
    push_dec(s, m.port as u64);
    s.append(" ");
    s.append(m.protocol.as_str());
    if m.formats.len() == 0 {
        s.append(" ");
    } else {
        push_formats(s, &m.formats);
    }
    assert(s@ =~= old(s)@ + media_line(m@));
    s.append("\n");
    push_maps(s, &m.rtpmaps);
    push_other_attrs(s, &m.attributes);
    assert(s@ =~= old(s)@ + media_text(m@));
}

// ---------------------------------------------------------------------------
// Making and asking
// ---------------------------------------------------------------------------

/// The index of the first audio stream, or the number of streams.
pub open spec fn audio_index(ms: Seq<MediaView>) -> int
    decreases ms.len(),
{
    if ms.len() == 0 {
        0
    } else if ms[0].media_type == MediaTypeView::Audio {
        0
    } else {
        1 + audio_index(ms.skip(1))
    }
}

/// The first audio stream.
pub open spec fn audio_of(ms: Seq<MediaView>) -> Option<MediaView> {
    if 0 <= audio_index(ms) < ms.len() {
        Some(ms[audio_index(ms)])
    } else {
        None
    }
}

/// Whether an attribute name is a direction.
pub open spec fn is_direction(name: Seq<char>) -> bool {
    name == "sendrecv"@ || name == "sendonly"@ || name == "recvonly"@ || name == "inactive"@
}

/// The name of the first attribute that is a direction.
pub open spec fn direction_of(attrs: Seq<AttrView>) -> Option<Seq<char>>
    decreases attrs.len(),
{
    if attrs.len() == 0 {
        None
    } else if is_direction(attrs[0].0) {
        Some(attrs[0].0)
    } else {
        direction_of(attrs.skip(1))
    }
}

/// The first payload type for telephone events.
pub open spec fn dtmf_type_of(maps: Seq<RtpMapView>) -> Option<u8>
    decreases maps.len(),
{
    if maps.len() == 0 {
        None
    } else if ascii_lowered(maps[0].encoding_name) == "telephone-event"@ {
        Some(maps[0].payload_type)
    } else {
        dtmf_type_of(maps.skip(1))
    }
}

/// A session description without streams, from and for an address.
pub open spec fn fresh_session(address: Seq<char>, id: u32) -> SdpView {
    SdpView {
        version: 0,
        origin_username: "-"@,
        session_id: dec(id as nat),
        session_version: dec(id as nat),
        origin_address: address,
        session_name: "sip-rs"@,
        connection_address: Some(address),
        media: seq![],
        attributes: seq![],
    }
}

impl SdpSession {
    /// A session description without streams, with the identifier `id`.
    pub fn new_with_id(address: &str, id: u32) -> (r: Self)
        ensures
            r@ == fresh_session(address@, id),
    {
        let id_text = dec_string(id as u64);
        let r = SdpSession {
            version: 0,
            origin_username: "-".to_owned(),
            session_id: id_text.clone(),
            session_version: id_text,
            origin_address: address.to_owned(),
            session_name: "sip-rs".to_owned(),
            connection_address: Some(address.to_owned()),
            media_descriptions: Vec::new(),
            attributes: Vec::new(),
        };
        assert(r@.media =~= seq![]);
        assert(r@.attributes =~= seq![]);
        r
    }

    /// A session description without streams, with a random identifier.
    pub fn new(address: &str) -> (r: Self)
        ensures
            exists|id: u32| r@ == #[trigger] fresh_session(address@, id),
    {
        SdpSession::new_with_id(address, random_u32())
    }

    /// Adds an audio stream that is sent and received.
    pub fn add_audio_media(&mut self, port: u16) -> (r: &mut MediaDescription)
        ensures
            r@ == offered_audio(port, "sendrecv"@),
            final(self)@ == (SdpView { media: old(self)@.media.push(final(r)@), ..old(self)@ }),
    {
        self.add_audio_media_directed(port, "sendrecv")
    }

    /// Adds an audio stream with a direction.
    pub fn add_audio_media_directed(&mut self, port: u16, direction: &str) -> (r:
        &mut MediaDescription)
        ensures
            r@ == offered_audio(port, direction@),
            final(self)@ == (SdpView { media: old(self)@.media.push(final(r)@), ..old(self)@ }),
    {
        let m = MediaDescription::offered(port, direction);
        let k: usize = self.media_descriptions.len();
        let ghost prior = media_view(self.media_descriptions@);
        self.media_descriptions.push(m);
        let ghost all = self.media_descriptions@;
        let r = &mut self.media_descriptions[k];
        assert(media_view(all.update(k as int, *final(r))) =~= prior.push(final(r)@));
        r
    }

    /// The session description as it is sent.
    pub fn to_string(&self) -> (r: String)
        ensures
            r@ == sdp_text(self@),
    {
        let mut s = "v=".to_owned();
        push_dec(&mut s, self.version as u64);
        s.append("\n");
        let ghost before = s@;
        s.append("o=");
        s.append(self.origin_username.as_str());
        s.append(" ");
        s.append(self.session_id.as_str());
        s.append(" ");
        s.append(self.session_version.as_str());
        s.append(" IN IP4 ");
        s.append(self.origin_address.as_str());
        assert(s@ =~= before + origin_line(self@));
        s.append("\n");
        s.append("s=");
        s.append(self.session_name.as_str());
        s.append("\n");
        let ghost before = s@;
        if let Some(a) = &self.connection_address {
            s.append("c=IN IP4 ");
            s.append(a.as_str());
            s.append("\n");
        }
        assert(s@ =~= before + connection_text(self@));
        s.append("t=0 0\n");
        push_attrs(&mut s, &self.attributes);
        let ghost head = s@;
        let n: usize = self.media_descriptions.len();
        let mut i: usize = 0;
        let ghost all = self@.media;
        assert(s@ =~= head + medias_text(all.take(0)));
        while i < n
            invariant
                n == self.media_descriptions@.len(),
                all == self@.media,
                i <= n,
                s@ == head + medias_text(all.take(i as int)),
            decreases n - i,
        {
            proof {
                assert(all.take(i + 1).drop_last() =~= all.take(i as int));
                assert(all.take(i + 1).last() == self.media_descriptions@[i as int]@);
            }
            push_media(&mut s, &self.media_descriptions[i]);
            assert(s@ =~= head + medias_text(all.take(i + 1)));
            i = i + 1;
        }
        assert(all.take(n as int) =~= all);
        s
    }

    fn audio(&self) -> (r: Option<&MediaDescription>)
        ensures
            match r {
                Some(m) => audio_of(self@.media) == Some(m@),
                None => audio_of(self@.media) is None,
            },
    {
        let n: usize = self.media_descriptions.len();
        let mut i: usize = 0;
        let ghost all = self@.media;
        assert(all.skip(0) =~= all);
        while i < n
            invariant
                n == self.media_descriptions@.len(),
                all == self@.media,
                i <= n,
                audio_index(all) == i + audio_index(all.skip(i as int)),
            decreases n - i,
        {
            proof {
                assert(all.skip(i as int)[0] == all[i as int]);
                assert(all.skip(i as int).skip(1) =~= all.skip(i + 1));
            }
            if let MediaType::Audio = self.media_descriptions[i].media_type {
                return Some(&self.media_descriptions[i]);
            }
            i = i + 1;
        }
        assert(all.skip(n as int).len() == 0);
        None
    }

    /// The port of the first audio stream.
    pub fn get_audio_port(&self) -> (r: Option<u16>)
        ensures
            r == match audio_of(self@.media) {
                Some(m) => Some(m.port),
                None => None,
            },
    {
        match self.audio() {
            Some(m) => Some(m.port),
            None => None,
        }
    }

    /// The address to which media are sent.
    pub fn get_connection_address(&self) -> (r: Option<&str>)
        ensures
            match r {
                Some(a) => self@.connection_address == Some(a@),
                None => self@.connection_address is None,
            },
    {
        match &self.connection_address {
            Some(a) => Some(a.as_str()),
            None => None,
        }
    }

    /// The direction of the first audio stream.
    pub fn get_audio_direction(&self) -> (r: Option<&str>)
        ensures
            ({
                let d = match audio_of(self@.media) {
                    Some(m) => direction_of(m.attributes),
                    None => None,
                };
                match r {
                    Some(t) => d == Some(t@),
                    None => d is None,
                }
            }),
    {
        let audio = match self.audio() {
            Some(m) => m,
            None => {
                return None;
            },
        };
        let n: usize = audio.attributes.len();
        let mut i: usize = 0;
        let ghost all = audio@.attributes;
        assert(all.skip(0) =~= all);
        while i < n
            invariant
                n == audio.attributes@.len(),
                all == audio@.attributes,
                audio_of(self@.media) == Some(audio@),
                i <= n,
                direction_of(all) == direction_of(all.skip(i as int)),
            decreases n - i,
        {
            proof {
                assert(all.skip(i as int)[0] == all[i as int]);
                assert(all.skip(i as int).skip(1) =~= all.skip(i + 1));
            }
            let name = audio.attributes[i].0.as_str();
            if same_text(name, "sendrecv") || same_text(name, "sendonly") || same_text(
                name,
                "recvonly",
            ) || same_text(name, "inactive") {
                return Some(name);
            }
            i = i + 1;
        }
        None
    }

    /// The payload type for telephone events in the first audio stream.
    pub fn get_audio_dtmf_payload_type(&self) -> (r: Option<u8>)
        ensures
            r == match audio_of(self@.media) {
                Some(m) => dtmf_type_of(m.rtpmaps),
                None => None,
            },
    {
        let audio = match self.audio() {
            Some(m) => m,
            None => {
                return None;
            },
        };
        let n: usize = audio.rtpmaps.len();
        let mut i: usize = 0;
        let ghost all = audio@.rtpmaps;
        assert(all.skip(0) =~= all);
        while i < n
            invariant
                n == audio.rtpmaps@.len(),
                all == audio@.rtpmaps,
                audio_of(self@.media) == Some(audio@),
                i <= n,
                dtmf_type_of(all) == dtmf_type_of(all.skip(i as int)),
            decreases n - i,
        {
            proof {
                assert(all.skip(i as int)[0] == all[i as int]);
                assert(all.skip(i as int).skip(1) =~= all.skip(i + 1));
            }
            let low = ascii_lower_text(audio.rtpmaps[i].encoding_name.as_str());
            if same_text(low.as_str(), "telephone-event") {
                return Some(audio.rtpmaps[i].payload_type);
            }
            i = i + 1;
        }
        None
    }
}

} // verus!
