//! SIP requests and responses: reading, writing and building them.
use super::header::{
    header_text, lookup, lookup_all, with_field, HeaderList, HeaderName, Headers, NameView,
};
use crate::case::{upper, upper_text};
use crate::number::{dec, dec_string, dec_usize, parse_uint, push_dec, uint_of};
use crate::text::{
    begins_with, chars_of, cut, join, join_texts, lines, lines_of, same_text, split_once, splitn,
    splitn_on, starts_with, string_of, texts, trim, trimmed,
};
use vstd::prelude::*;
use vstd::slice::slice_subrange;
use vstd::utf8::encode_utf8;

verus! {

// ---------------------------------------------------------------------------
// Methods
// ---------------------------------------------------------------------------

/// The method of a request.
#[derive(Debug, PartialEq, Eq, Hash)]
pub enum SipMethod {
    Register,
    Invite,
    Ack,
    Bye,
    Cancel,
    Options,
    Info,
    Prack,
    Refer,
    Notify,
    Other(String),
}

/// What a `SipMethod` stands for.
pub enum MethodView {
    Register,
    Invite,
    Ack,
    Bye,
    Cancel,
    Options,
    Info,
    Prack,
    Refer,
    Notify,
    Other(Seq<char>),
}

impl View for SipMethod {
    type V = MethodView;

    open spec fn view(&self) -> MethodView {
        match *self {
            SipMethod::Register => MethodView::Register,
            SipMethod::Invite => MethodView::Invite,
            SipMethod::Ack => MethodView::Ack,
            SipMethod::Bye => MethodView::Bye,
            SipMethod::Cancel => MethodView::Cancel,
            SipMethod::Options => MethodView::Options,
            SipMethod::Info => MethodView::Info,
            SipMethod::Prack => MethodView::Prack,
            SipMethod::Refer => MethodView::Refer,
            SipMethod::Notify => MethodView::Notify,
            SipMethod::Other(s) => MethodView::Other(s@),
        }
    }
}

impl MethodView {
    /// The method as it is written in a message.
    pub open spec fn text(self) -> Seq<char> {
        match self {
            MethodView::Register => "REGISTER"@,
            MethodView::Invite => "INVITE"@,
            MethodView::Ack => "ACK"@,
            MethodView::Bye => "BYE"@,
            MethodView::Cancel => "CANCEL"@,
            MethodView::Options => "OPTIONS"@,
            MethodView::Info => "INFO"@,
            MethodView::Prack => "PRACK"@,
            MethodView::Refer => "REFER"@,
            MethodView::Notify => "NOTIFY"@,
            MethodView::Other(s) => s,
        }
    }

    /// The method that an upper-case text denotes.
    pub open spec fn of_upper(s: Seq<char>) -> MethodView {
        if s == "REGISTER"@ {
            MethodView::Register
        } else if s == "INVITE"@ {
            MethodView::Invite
        } else if s == "ACK"@ {
            MethodView::Ack
        } else if s == "BYE"@ {
            MethodView::Bye
        } else if s == "CANCEL"@ {
            MethodView::Cancel
        } else if s == "OPTIONS"@ {
            MethodView::Options
        } else if s == "INFO"@ {
            MethodView::Info
        } else if s == "PRACK"@ {
            MethodView::Prack
        } else if s == "REFER"@ {
            MethodView::Refer
        } else if s == "NOTIFY"@ {
            MethodView::Notify
        } else {
            MethodView::Other(s)
        }
    }

    /// The method that `s` denotes; upper and lower case are not told apart.
    pub open spec fn parse(s: Seq<char>) -> MethodView {
        MethodView::of_upper(upper(s))
    }

    /// A number for each variant.
    pub open spec fn rank(self) -> int {
        match self {
            MethodView::Register => 0,
            MethodView::Invite => 1,
            MethodView::Ack => 2,
            MethodView::Bye => 3,
            MethodView::Cancel => 4,
            MethodView::Options => 5,
            MethodView::Info => 6,
            MethodView::Prack => 7,
            MethodView::Refer => 8,
            MethodView::Notify => 9,
            MethodView::Other(_) => 10,
        }
    }
}

impl Clone for SipMethod {
    fn clone(&self) -> (r: Self)
        ensures
            r@ == self@,
    {
        match self {
            SipMethod::Register => SipMethod::Register,
            SipMethod::Invite => SipMethod::Invite,
            SipMethod::Ack => SipMethod::Ack,
            SipMethod::Bye => SipMethod::Bye,
            SipMethod::Cancel => SipMethod::Cancel,
            SipMethod::Options => SipMethod::Options,
            SipMethod::Info => SipMethod::Info,
            SipMethod::Prack => SipMethod::Prack,
            SipMethod::Refer => SipMethod::Refer,
            SipMethod::Notify => SipMethod::Notify,
            SipMethod::Other(s) => SipMethod::Other(s.clone()),
        }
    }
}

impl SipMethod {
    /// The method that `s` denotes; upper and lower case are not told apart.
    pub fn from_str(s: &str) -> (r: Self)
        ensures
            r@ == MethodView::parse(s@),
    {
        let up = upper_text(s);
        SipMethod::from_upper(up.as_str())
    }

    /// The method that a text in upper case denotes.
    pub fn from_upper(s: &str) -> (r: Self)
        ensures
            r@ == MethodView::of_upper(s@),
    {
        if same_text(s, "REGISTER") {
            SipMethod::Register
        } else if same_text(s, "INVITE") {
            SipMethod::Invite
        } else if same_text(s, "ACK") {
            SipMethod::Ack
        } else if same_text(s, "BYE") {
            SipMethod::Bye
        } else if same_text(s, "CANCEL") {
            SipMethod::Cancel
        } else if same_text(s, "OPTIONS") {
            SipMethod::Options
        } else if same_text(s, "INFO") {
            SipMethod::Info
        } else if same_text(s, "PRACK") {
            SipMethod::Prack
        } else if same_text(s, "REFER") {
            SipMethod::Refer
        } else if same_text(s, "NOTIFY") {
            SipMethod::Notify
        } else {
            SipMethod::Other(s.to_owned())
        }
    }

    /// The method as it is written in a message.
    pub fn as_str(&self) -> (r: &str)
        ensures
            r@ == self@.text(),
    {
        match self {
            SipMethod::Register => "REGISTER",
            SipMethod::Invite => "INVITE",
            SipMethod::Ack => "ACK",
            SipMethod::Bye => "BYE",
            SipMethod::Cancel => "CANCEL",
            SipMethod::Options => "OPTIONS",
            SipMethod::Info => "INFO",
            SipMethod::Prack => "PRACK",
            SipMethod::Refer => "REFER",
            SipMethod::Notify => "NOTIFY",
            SipMethod::Other(s) => s.as_str(),
        }
    }

    /// The method as it is written in a message.
    pub fn to_string(&self) -> (r: String)
        ensures
            r@ == self@.text(),
    {
        self.as_str().to_owned()
    }

    fn rank(&self) -> (r: u8)
        ensures
            r as int == self@.rank(),
    {
        match self {
            SipMethod::Register => 0,
            SipMethod::Invite => 1,
            SipMethod::Ack => 2,
            SipMethod::Bye => 3,
            SipMethod::Cancel => 4,
            SipMethod::Options => 5,
            SipMethod::Info => 6,
            SipMethod::Prack => 7,
            SipMethod::Refer => 8,
            SipMethod::Notify => 9,
            SipMethod::Other(_) => 10,
        }
    }

    /// Whether the two are the same method.
    pub fn same(&self, other: &SipMethod) -> (r: bool)
        ensures
            r == (self@ == other@),
    {
        if let (SipMethod::Other(a), SipMethod::Other(b)) = (self, other) {
            return *a == *b;
        }
        self.rank() == other.rank()
    }
}

// ---------------------------------------------------------------------------
// Status codes
// ---------------------------------------------------------------------------

/// The status code of a response.
#[derive(Debug, Clone, Copy, PartialEq, Eq, Structural)]
pub struct StatusCode(pub u16);

/// The reason phrase of a status code.
pub open spec fn reason_of(code: u16) -> Seq<char> {
    if code == 100 {
        "Trying"@
    } else if code == 180 {
        "Ringing"@
    } else if code == 183 {
        "Session Progress"@
    } else if code == 200 {
        "OK"@
    } else if code == 400 {
        "Bad Request"@
    } else if code == 401 {
        "Unauthorized"@
    } else if code == 403 {
        "Forbidden"@
    } else if code == 404 {
        "Not Found"@
    } else if code == 408 {
        "Request Timeout"@
    } else if code == 486 {
        "Busy Here"@
    } else if code == 500 {
        "Server Internal Error"@
    } else {
        "Unknown"@
    }
}

impl StatusCode {
    pub const TRYING: u16 = 100;

    pub const RINGING: u16 = 180;

    pub const SESSION_PROGRESS: u16 = 183;

    pub const OK: u16 = 200;

    pub const ACCEPTED: u16 = 202;

    pub const BAD_REQUEST: u16 = 400;

    pub const UNAUTHORIZED: u16 = 401;

    pub const FORBIDDEN: u16 = 403;

    pub const NOT_FOUND: u16 = 404;

    pub const PROXY_AUTH_REQUIRED: u16 = 407;

    pub const REQUEST_TIMEOUT: u16 = 408;

    pub const BUSY_HERE: u16 = 486;

    pub const SERVER_ERROR: u16 = 500;

    /// The reason phrase that goes with the code.
    pub fn reason_phrase(&self) -> (r: &'static str)
        ensures
            r@ == reason_of(self.0),
    {
        match self.0 {
            100 => "Trying",
            180 => "Ringing",
            183 => "Session Progress",
            200 => "OK",
            400 => "Bad Request",
            401 => "Unauthorized",
            403 => "Forbidden",
            404 => "Not Found",
            408 => "Request Timeout",
            486 => "Busy Here",
            500 => "Server Internal Error",
            _ => "Unknown",
        }
    }

    pub fn is_provisional(&self) -> (r: bool)
        ensures
            r == (100 <= self.0 < 200),
    {
        self.0 >= 100 && self.0 < 200
    }

    pub fn is_success(&self) -> (r: bool)
        ensures
            r == (200 <= self.0 < 300),
    {
        self.0 >= 200 && self.0 < 300
    }

    pub fn is_redirect(&self) -> (r: bool)
        ensures
            r == (300 <= self.0 < 400),
    {
        self.0 >= 300 && self.0 < 400
    }

    pub fn is_error(&self) -> (r: bool)
        ensures
            r == (400 <= self.0),
    {
        self.0 >= 400
    }

    /// The code in decimal.
    pub fn to_string(&self) -> (r: String)
        ensures
            r@ == dec(self.0 as nat),
    {
        dec_string(self.0 as u64)
    }
}

// ---------------------------------------------------------------------------
// Messages
// ---------------------------------------------------------------------------

#[derive(Debug)]
pub struct SipRequest {
    pub method: SipMethod,
    pub uri: String,
    pub version: String,
    pub headers: Headers,
    pub body: Option<String>,
}

#[derive(Debug)]
pub struct SipResponse {
    pub version: String,
    pub status: StatusCode,
    pub reason: String,
    pub headers: Headers,
    pub body: Option<String>,
}

#[derive(Debug)]
pub enum SipMessage {
    Request(SipRequest),
    Response(SipResponse),
}

pub struct RequestView {
    pub method: MethodView,
    pub uri: Seq<char>,
    pub version: Seq<char>,
    pub headers: HeaderList,
    pub body: Option<Seq<char>>,
}

pub struct ResponseView {
    pub version: Seq<char>,
    pub status: u16,
    pub reason: Seq<char>,
    pub headers: HeaderList,
    pub body: Option<Seq<char>>,
}

pub enum MessageView {
    Request(RequestView),
    Response(ResponseView),
}

/// The characters of an optional string.
pub open spec fn opt_text(s: Option<String>) -> Option<Seq<char>> {
    match s {
        Some(t) => Some(t@),
        None => None,
    }
}

pub(crate) fn clone_opt(s: &Option<String>) -> (r: Option<String>)
    ensures
        opt_text(r) == opt_text(*s),
{
    match s {
        Some(t) => Some(t.clone()),
        None => None,
    }
}

impl View for SipRequest {
    type V = RequestView;

    open spec fn view(&self) -> RequestView {
        RequestView {
            method: self.method@,
            uri: self.uri@,
            version: self.version@,
            headers: self.headers@,
            body: opt_text(self.body),
        }
    }
}

impl View for SipResponse {
    type V = ResponseView;

    open spec fn view(&self) -> ResponseView {
        ResponseView {
            version: self.version@,
            status: self.status.0,
            reason: self.reason@,
            headers: self.headers@,
            body: opt_text(self.body),
        }
    }
}

impl View for SipMessage {
    type V = MessageView;

    open spec fn view(&self) -> MessageView {
        match *self {
            SipMessage::Request(r) => MessageView::Request(r@),
            SipMessage::Response(r) => MessageView::Response(r@),
        }
    }
}

impl MessageView {
    pub open spec fn headers(self) -> HeaderList {
        match self {
            MessageView::Request(r) => r.headers,
            MessageView::Response(r) => r.headers,
        }
    }

    pub open spec fn body(self) -> Option<Seq<char>> {
        match self {
            MessageView::Request(r) => r.body,
            MessageView::Response(r) => r.body,
        }
    }

    /// The message with another list of header fields.
    pub open spec fn with_headers(self, hs: HeaderList) -> MessageView {
        match self {
            MessageView::Request(r) => MessageView::Request(RequestView { headers: hs, ..r }),
            MessageView::Response(r) => MessageView::Response(ResponseView { headers: hs, ..r }),
        }
    }

    /// The message with another body.
    pub open spec fn with_body(self, b: Option<Seq<char>>) -> MessageView {
        match self {
            MessageView::Request(r) => MessageView::Request(RequestView { body: b, ..r }),
            MessageView::Response(r) => MessageView::Response(ResponseView { body: b, ..r }),
        }
    }

    /// The call that the message belongs to.
    pub open spec fn call_id(self) -> Option<Seq<char>> {
        lookup(self.headers(), NameView::CallId)
    }

    /// The number and the method of the CSeq field.
    pub open spec fn cseq(self) -> Option<(u32, MethodView)> {
        match lookup(self.headers(), NameView::CSeq) {
            Some(v) => cseq_of(v),
            None => None,
        }
    }
}

/// The number and the method that a CSeq value denotes.
pub open spec fn cseq_of(value: Seq<char>) -> Option<(u32, MethodView)> {
    let parts = splitn(value, 2, ' ');
    if parts.len() == 2 {
        match uint_of(parts[0], u32::MAX as nat) {
            Some(n) => Some((n as u32, MethodView::parse(parts[1]))),
            None => None,
        }
    } else {
        None
    }
}

impl Clone for SipRequest {
    fn clone(&self) -> (r: Self)
        ensures
            r@ == self@,
    {
        SipRequest {
            method: self.method.clone(),
            uri: self.uri.clone(),
            version: self.version.clone(),
            headers: self.headers.clone(),
            body: clone_opt(&self.body),
        }
    }
}

impl Clone for SipResponse {
    fn clone(&self) -> (r: Self)
        ensures
            r@ == self@,
    {
        SipResponse {
            version: self.version.clone(),
            status: self.status,
            reason: self.reason.clone(),
            headers: self.headers.clone(),
            body: clone_opt(&self.body),
        }
    }
}

impl Clone for SipMessage {
    fn clone(&self) -> (r: Self)
        ensures
            r@ == self@,
    {
        match self {
            SipMessage::Request(r) => SipMessage::Request(r.clone()),
            SipMessage::Response(r) => SipMessage::Response(r.clone()),
        }
    }
}

// ---------------------------------------------------------------------------
// Reading
// ---------------------------------------------------------------------------

/// Why a text is no SIP message.
#[derive(Debug)]
pub enum ParseError {
    InvalidStartLine(String),
    InvalidHeader(String),
    InvalidStatusCode(String),
    Incomplete,
}

pub enum ParseErrorView {
    InvalidStartLine(Seq<char>),
    InvalidHeader(Seq<char>),
    InvalidStatusCode(Seq<char>),
    Incomplete,
}

impl View for ParseError {
    type V = ParseErrorView;

    open spec fn view(&self) -> ParseErrorView {
        match *self {
            ParseError::InvalidStartLine(s) => ParseErrorView::InvalidStartLine(s@),
            ParseError::InvalidHeader(s) => ParseErrorView::InvalidHeader(s@),
            ParseError::InvalidStatusCode(s) => ParseErrorView::InvalidStatusCode(s@),
            ParseError::Incomplete => ParseErrorView::Incomplete,
        }
    }
}

impl ParseErrorView {
    /// The error in words.
    pub open spec fn message(self) -> Seq<char> {
        match self {
            ParseErrorView::InvalidStartLine(s) => "invalid start line: "@ + s,
            ParseErrorView::InvalidHeader(s) => "invalid header: "@ + s,
            ParseErrorView::InvalidStatusCode(s) => "invalid status code: "@ + s,
            ParseErrorView::Incomplete => "incomplete message"@,
        }
    }
}

impl ParseError {
    /// The error in words.
    pub fn to_string(&self) -> (r: String)
        ensures
            r@ == self@.message(),
    {
        match self {
            ParseError::InvalidStartLine(s) => {
                let mut m = "invalid start line: ".to_owned();
                m.append(s.as_str());
                m
            },
            ParseError::InvalidHeader(s) => {
                let mut m = "invalid header: ".to_owned();
                m.append(s.as_str());
                m
            },
            ParseError::InvalidStatusCode(s) => {
                let mut m = "invalid status code: ".to_owned();
                m.append(s.as_str());
                m
            },
            ParseError::Incomplete => "incomplete message".to_owned(),
        }
    }
}

/// Whether a line holds nothing but white space.
pub open spec fn blank(line: Seq<char>) -> bool {
    trimmed(line).len() == 0
}

/// Whether a line continues the one before it.
pub open spec fn folded(line: Seq<char>) -> bool {
    line.len() > 0 && (line[0] == ' ' || line[0] == '\t')
}

/// The index of the first blank line, or the number of lines.
pub open spec fn blank_index(ls: Seq<Seq<char>>) -> int
    decreases ls.len(),
{
    if ls.len() == 0 {
        0
    } else if blank(ls[0]) {
        0
    } else {
        1 + blank_index(ls.skip(1))
    }
}

/// The first line that is neither a field nor a continuation.
pub open spec fn bad_line(ls: Seq<Seq<char>>) -> Option<Seq<char>>
    decreases ls.len(),
{
    if ls.len() == 0 {
        None
    } else if !folded(ls[0]) && cut(ls[0], ':') is None {
        Some(ls[0])
    } else {
        bad_line(ls.skip(1))
    }
}

/// The field that a line holds.
pub open spec fn field_of(line: Seq<char>) -> (NameView, Seq<char>) {
    let parts = cut(line, ':')->0;
    (NameView::parse(trimmed(parts.0)), trimmed(parts.1))
}

/// The fields of a header section; continuation lines are left out.
pub open spec fn fields_of(ls: Seq<Seq<char>>) -> HeaderList
    decreases ls.len(),
{
    if ls.len() == 0 {
        seq![]
    } else if folded(ls.last()) {
        fields_of(ls.drop_last())
    } else {
        fields_of(ls.drop_last()).push(field_of(ls.last()))
    }
}

/// The body that the lines behind the blank line make up.
pub open spec fn body_of(ls: Seq<Seq<char>>) -> Option<Seq<char>> {
    let b = join(ls, "\r\n"@);
    if ls.len() == 0 || trimmed(b).len() == 0 {
        None
    } else {
        Some(b)
    }
}

/// The fields and the body of the lines behind the start line.
pub open spec fn parse_rest(ls: Seq<Seq<char>>) -> Result<
    (HeaderList, Option<Seq<char>>),
    ParseErrorView,
> {
    let b = blank_index(ls);
    match bad_line(ls.take(b)) {
        Some(l) => Err(ParseErrorView::InvalidHeader(l)),
        None => Ok(
            (
                fields_of(ls.take(b)),
                if b < ls.len() {
                    body_of(ls.skip(b + 1))
                } else {
                    None
                },
            ),
        ),
    }
}

/// The request that a start line and the lines behind it denote.
pub open spec fn parse_request(start: Seq<char>, rest: Seq<Seq<char>>) -> Result<
    MessageView,
    ParseErrorView,
> {
    let parts = splitn(start, 3, ' ');
    if parts.len() != 3 {
        Err(ParseErrorView::InvalidStartLine(start))
    } else {
        match parse_rest(rest) {
            Err(e) => Err(e),
            Ok((headers, body)) => Ok(
                MessageView::Request(
                    RequestView {
                        method: MethodView::parse(parts[0]),
                        uri: parts[1],
                        version: parts[2],
                        headers,
                        body,
                    },
                ),
            ),
        }
    }
}

/// The response that a start line and the lines behind it denote.
pub open spec fn parse_response(start: Seq<char>, rest: Seq<Seq<char>>) -> Result<
    MessageView,
    ParseErrorView,
> {
    let parts = splitn(start, 3, ' ');
    if parts.len() < 2 {
        Err(ParseErrorView::InvalidStartLine(start))
    } else {
        match uint_of(parts[1], u16::MAX as nat) {
            None => Err(ParseErrorView::InvalidStatusCode(parts[1])),
            Some(code) => match parse_rest(rest) {
                Err(e) => Err(e),
                Ok((headers, body)) => Ok(
                    MessageView::Response(
                        ResponseView {
                            version: parts[0],
                            status: code as u16,
                            reason: if parts.len() > 2 {
                                parts[2]
                            } else {
                                reason_of(code as u16)
                            },
                            headers,
                            body,
                        },
                    ),
                ),
            },
        }
    }
}

/// The message that a text denotes.
pub open spec fn parse_message(input: Seq<char>) -> Result<MessageView, ParseErrorView> {
    let ls = lines(input);
    if ls.len() == 0 {
        Err(ParseErrorView::Incomplete)
    } else {
        let start = trimmed(ls[0]);
        if begins_with(start, "SIP/"@) {
            parse_response(start, ls.skip(1))
        } else {
            parse_request(start, ls.skip(1))
        }
    }
}

/// How a result of reading a message relates to what the text denotes.
pub open spec fn reads_as(
    r: Result<SipMessage, ParseError>,
    m: Result<MessageView, ParseErrorView>,
) -> bool {
    match r {
        Ok(v) => m == Ok::<MessageView, ParseErrorView>(v@),
        Err(e) => m == Err::<MessageView, ParseErrorView>(e@),
    }
}

fn parse_headers_and_body(ls: &[&[char]]) -> (r: Result<(Headers, Option<String>), ParseError>)
    ensures
        match r {
            Ok((h, b)) => parse_rest(texts(ls@)) == Ok::<
                (HeaderList, Option<Seq<char>>),
                ParseErrorView,
            >((h@, opt_text(b))),
            Err(e) => parse_rest(texts(ls@)) == Err::<
                (HeaderList, Option<Seq<char>>),
                ParseErrorView,
            >(e@),
        },
{
    let mut headers = Headers::new();
    let n: usize = ls.len();
    let ghost all = texts(ls@);
    let mut i: usize = 0;
    assert(all.skip(0) =~= all);
    while i < n
        invariant_except_break
            n == ls@.len(),
            all == texts(ls@),
            i <= n,
            blank_index(all) == i + blank_index(all.skip(i as int)),
            headers@ == fields_of(all.take(i as int)),
            bad_line(all.take(blank_index(all))) == bad_line(all.subrange(i as int, blank_index(all))),
        ensures
            n == ls@.len(),
            i <= n,
            blank_index(all) == i,
            headers@ == fields_of(all.take(i as int)),
            bad_line(all.take(i as int)) is None,
        decreases n - i,
    {
        let line = ls[i];
        proof {
            assert(all.skip(i as int)[0] == line@);
            assert(all.skip(i as int).skip(1) =~= all.skip(i + 1));
            lemma_blank_index(all);
        }
        let t = trim(line);
        if t.len() == 0 {
            proof {
                assert(all.subrange(i as int, i as int) =~= seq![]);
            }
            break;
        }
        let ghost b = blank_index(all);
        proof {
            lemma_blank_index(all.skip(i as int));
            lemma_blank_index(all.skip(i + 1));
            assert(all.subrange(i as int, b)[0] == line@);
            assert(all.subrange(i as int, b).skip(1) =~= all.subrange(i + 1, b));
            assert(all.take(i + 1).drop_last() =~= all.take(i as int));
            assert(all.take(i + 1).last() == line@);
        }
        if line.len() > 0 && (line[0] == ' ' || line[0] == '\t') {
            i = i + 1;
            continue;
        }
        match split_once(line, ':') {
            Some((name, value)) => {
                let name_text = string_of(trim(name));
                let value_text = string_of(trim(value));
                headers.add(HeaderName::from_str(name_text.as_str()), value_text.as_str());
            },
            None => {
                return Err(ParseError::InvalidHeader(string_of(line)));
            },
        }
        i = i + 1;
        if i == n {
            proof {
                assert(all.skip(n as int).len() == 0);
                assert(all.subrange(n as int, b) =~= seq![]);
            }
        }
    }
    if i < n {
        let rest = slice_subrange(ls, i + 1, n);
        assert(texts(rest@) =~= all.skip(i + 1));
        if rest.len() == 0 {
            return Ok((headers, None));
        }
        let b = join_texts(rest, "\r\n");
        let bc = chars_of(b.as_str());
        let t = trim(bc.as_slice());
        if t.len() == 0 {
            Ok((headers, None))
        } else {
            Ok((headers, Some(b)))
        }
    } else {
        Ok((headers, None))
    }
}

/// `blank_index` stays within the list.
pub proof fn lemma_blank_index(ls: Seq<Seq<char>>)
    ensures
        0 <= blank_index(ls) <= ls.len(),
        forall|j: int| 0 <= j < blank_index(ls) ==> !blank(#[trigger] ls[j]),
        blank_index(ls) < ls.len() ==> blank(ls[blank_index(ls)]),
    decreases ls.len(),
{
    if ls.len() > 0 && !blank(ls[0]) {
        lemma_blank_index(ls.skip(1));
        let k = blank_index(ls.skip(1));
        assert forall|j: int| 0 <= j < 1 + k implies !blank(#[trigger] ls[j]) by {
            if j > 0 {
                assert(ls[j] == ls.skip(1)[j - 1]);
            }
        }
        if k < ls.len() - 1 {
            assert(ls[1 + k] == ls.skip(1)[k]);
        }
    }
}

fn read_request(start: &[char], rest: &[&[char]]) -> (r: Result<SipMessage, ParseError>)
    ensures
        reads_as(r, parse_request(start@, texts(rest@))),
{
    let parts = splitn_on(start, 3, ' ');
    let ghost ps = texts(parts@);
    if parts.len() != 3 {
        return Err(ParseError::InvalidStartLine(string_of(start)));
    }
    assert(parts@[0]@ == ps[0]);
    assert(parts@[1]@ == ps[1]);
    assert(parts@[2]@ == ps[2]);
    let name = string_of(parts[0]);
    match parse_headers_and_body(rest) {
        Err(e) => Err(e),
        Ok((headers, body)) => Ok(
            SipMessage::Request(
                SipRequest {
                    method: SipMethod::from_str(name.as_str()),
                    uri: string_of(parts[1]),
                    version: string_of(parts[2]),
                    headers,
                    body,
                },
            ),
        ),
    }
}

fn read_response(start: &[char], rest: &[&[char]]) -> (r: Result<SipMessage, ParseError>)
    ensures
        reads_as(r, parse_response(start@, texts(rest@))),
{
    let parts = splitn_on(start, 3, ' ');
    let ghost ps = texts(parts@);
    if parts.len() < 2 {
        return Err(ParseError::InvalidStartLine(string_of(start)));
    }
    assert(parts@[0]@ == ps[0]);
    assert(parts@[1]@ == ps[1]);
    let code: u16 = match parse_uint(parts[1], 65535) {
        Some(n) => n as u16,
        None => {
            return Err(ParseError::InvalidStatusCode(string_of(parts[1])));
        },
    };
    let reason = if parts.len() > 2 {
        assert(parts@[2]@ == ps[2]);
        string_of(parts[2])
    } else {
        StatusCode(code).reason_phrase().to_owned()
    };
    match parse_headers_and_body(rest) {
        Err(e) => Err(e),
        Ok((headers, body)) => Ok(
            SipMessage::Response(
                SipResponse {
                    version: string_of(parts[0]),
                    status: StatusCode(code),
                    reason,
                    headers,
                    body,
                },
            ),
        ),
    }
}

// ---------------------------------------------------------------------------
// Writing
// ---------------------------------------------------------------------------

/// Header fields as they are written in a message, each with its line ending.
pub open spec fn header_section(hs: HeaderList) -> Seq<char>
    decreases hs.len(),
{
    if hs.len() == 0 {
        seq![]
    } else {
        header_section(hs.drop_last()) + header_text(hs.last()) + "\r\n"@
    }
}

/// The first line of a message.
pub open spec fn start_line(m: MessageView) -> Seq<char> {
    match m {
        MessageView::Request(r) => r.method.text() + " "@ + r.uri + " "@ + r.version,
        MessageView::Response(r) => r.version + " "@ + dec(r.status as nat) + " "@ + r.reason,
    }
}

/// An optional body as it is written in a message.
pub open spec fn body_text(b: Option<Seq<char>>) -> Seq<char> {
    match b {
        Some(t) => t,
        None => seq![],
    }
}

/// A message as it is sent.
pub open spec fn message_text(m: MessageView) -> Seq<char> {
    start_line(m) + "\r\n"@ + header_section(m.headers()) + "\r\n"@ + body_text(m.body())
}

fn push_headers(s: &mut String, headers: &Headers)
    ensures
        final(s)@ == old(s)@ + header_section(headers@),
{
    let hs = headers.iter();
    let n: usize = hs.len();
    let mut i: usize = 0;
    assert(s@ =~= old(s)@ + header_section(headers@.take(0)));
    while i < n
        invariant
            n == hs@.len(),
            n == headers@.len(),
            forall|j: int| 0 <= j < n ==> (#[trigger] hs@[j])@ == headers@[j],
            i <= n,
            s@ == old(s)@ + header_section(headers@.take(i as int)),
        decreases n - i,
    {
        proof {
            assert(headers@.take(i + 1).drop_last() =~= headers@.take(i as int));
            assert(headers@.take(i + 1).last() == hs@[i as int]@);
        }
        let h = hs[i].to_string();
        s.append(h.as_str());
        s.append("\r\n");
        assert(s@ =~= old(s)@ + header_section(headers@.take(i + 1)));
        i = i + 1;
    }
    assert(headers@.take(n as int) =~= headers@);
}

impl SipMessage {
    /// Reads a message.
    pub fn parse(input: &str) -> (r: Result<Self, ParseError>)
        ensures
            reads_as(r, parse_message(input@)),
    {
        let cs = chars_of(input);
        let ls = lines_of(cs.as_slice());
        if ls.len() == 0 {
            return Err(ParseError::Incomplete);
        }
        let start = trim(ls[0]);
        assert(texts(ls@)[0] == ls@[0]@);
        let rest = slice_subrange(ls.as_slice(), 1, ls.len());
        assert(texts(rest@) =~= texts(ls@).skip(1));
        if starts_with(start, "SIP/") {
            read_response(start, rest)
        } else {
            read_request(start, rest)
        }
    }

    /// The message as it is sent.
    pub fn to_string(&self) -> (r: String)
        ensures
            r@ == message_text(self@),
    {
        let mut s;
        let body;
        match self {
            SipMessage::Request(req) => {
                s = req.method.as_str().to_owned();
                s.append(" ");
                s.append(req.uri.as_str());
                s.append(" ");
                s.append(req.version.as_str());
                s.append("\r\n");
                push_headers(&mut s, &req.headers);
                body = &req.body;
            },
            SipMessage::Response(res) => {
                s = res.version.clone();
                s.append(" ");
                push_dec(&mut s, res.status.0 as u64);
                s.append(" ");
                s.append(res.reason.as_str());
                s.append("\r\n");
                push_headers(&mut s, &res.headers);
                body = &res.body;
            },
        }
        s.append("\r\n");
        match body {
            Some(b) => {
                s.append(b.as_str());
            },
            None => {
                assert(s@ =~= message_text(self@));
            },
        }
        s
    }

    /// The message as it is sent, in UTF-8.
    pub fn to_bytes(&self) -> (r: Vec<u8>)
        ensures
            r@ == encode_utf8(message_text(self@)),
    {
        let s = self.to_string();
        s.as_str().as_bytes_vec()
    }

    pub fn headers(&self) -> (r: &Headers)
        ensures
            r@ == self@.headers(),
    {
        match self {
            SipMessage::Request(req) => &req.headers,
            SipMessage::Response(res) => &res.headers,
        }
    }

    pub fn headers_mut(&mut self) -> (r: &mut Headers)
        ensures
            r@ == old(self)@.headers(),
            final(self)@ == old(self)@.with_headers(final(r)@),
    {
        match self {
            SipMessage::Request(req) => &mut req.headers,
            SipMessage::Response(res) => &mut res.headers,
        }
    }

    pub fn body(&self) -> (r: Option<&str>)
        ensures
            match r {
                Some(b) => self@.body() == Some(b@),
                None => self@.body() is None,
            },
    {
        let body = match self {
            SipMessage::Request(req) => &req.body,
            SipMessage::Response(res) => &res.body,
        };
        match body {
            Some(b) => Some(b.as_str()),
            None => None,
        }
    }

    /// The value of the Call-ID field.
    pub fn call_id(&self) -> (r: Option<String>)
        ensures
            opt_text(r) == self@.call_id(),
    {
        match self.headers().get(&HeaderName::CallId) {
            Some(v) => Some(v.as_str().to_owned()),
            None => None,
        }
    }

    /// The number and the method of the CSeq field.
    pub fn cseq(&self) -> (r: Option<(u32, SipMethod)>)
        ensures
            match r {
                Some((n, m)) => self@.cseq() == Some((n, m@)),
                None => self@.cseq() is None,
            },
    {
        let value = match self.headers().get(&HeaderName::CSeq) {
            Some(v) => v,
            None => {
                return None;
            },
        };
        let cs = chars_of(value.as_str());
        let parts = splitn_on(cs.as_slice(), 2, ' ');
        let ghost ps = texts(parts@);
        if parts.len() != 2 {
            return None;
        }
        assert(parts@[0]@ == ps[0]);
        assert(parts@[1]@ == ps[1]);
        match parse_uint(parts[0], 4294967295) {
            Some(n) => {
                let m = string_of(parts[1]);
                Some((n as u32, SipMethod::from_str(m.as_str())))
            },
            None => None,
        }
    }

    pub fn is_request(&self) -> (r: bool)
        ensures
            r == (self@ is Request),
    {
        match self {
            SipMessage::Request(_) => true,
            SipMessage::Response(_) => false,
        }
    }

    pub fn is_response(&self) -> (r: bool)
        ensures
            r == (self@ is Response),
    {
        match self {
            SipMessage::Request(_) => false,
            SipMessage::Response(_) => true,
        }
    }

    /// The method of a request.
    pub fn method(&self) -> (r: Option<&SipMethod>)
        ensures
            match r {
                Some(m) => self@ is Request && m@ == self@->Request_0.method,
                None => self@ is Response,
            },
    {
        match self {
            SipMessage::Request(req) => Some(&req.method),
            SipMessage::Response(_) => None,
        }
    }

    /// The status of a response.
    pub fn status(&self) -> (r: Option<&StatusCode>)
        ensures
            match r {
                Some(c) => self@ is Response && c.0 == self@->Response_0.status,
                None => self@ is Request,
            },
    {
        match self {
            SipMessage::Response(res) => Some(&res.status),
            SipMessage::Request(_) => None,
        }
    }
}

// ---------------------------------------------------------------------------
// Building
// ---------------------------------------------------------------------------

/// The length of an optional body in bytes, in decimal.
pub open spec fn content_length(b: Option<Seq<char>>) -> Seq<char> {
    dec(encode_utf8(body_text(b)).len())
}

fn content_length_of(b: &Option<String>) -> (r: String)
    ensures
        r@ == content_length(opt_text(*b)),
{
    let n: usize = match b {
        Some(t) => t.as_str().as_bytes().len(),
        None => 0,
    };
    dec_usize(n)
}

/// A request in the making.
pub struct RequestBuilder {
    method: SipMethod,
    uri: String,
    headers: Headers,
    body: Option<String>,
}

/// What a `RequestBuilder` holds.
pub struct RequestDraft {
    pub method: MethodView,
    pub uri: Seq<char>,
    pub headers: HeaderList,
    pub body: Option<Seq<char>>,
}

impl View for RequestBuilder {
    type V = RequestDraft;

    closed spec fn view(&self) -> RequestDraft {
        RequestDraft {
            method: self.method@,
            uri: self.uri@,
            headers: self.headers@,
            body: opt_text(self.body),
        }
    }
}

/// The request that a draft gives: version 2.0, with the length of its body.
pub open spec fn built_request(d: RequestDraft) -> MessageView {
    MessageView::Request(
        RequestView {
            method: d.method,
            uri: d.uri,
            version: "SIP/2.0"@,
            headers: with_field(d.headers, NameView::ContentLength, content_length(d.body)),
            body: d.body,
        },
    )
}

impl RequestBuilder {
    pub fn new(method: SipMethod, uri: &str) -> (r: Self)
        ensures
            r@ == (RequestDraft {
                method: method@,
                uri: uri@,
                headers: HeaderList::empty(),
                body: None,
            }),
    {
        RequestBuilder { method, uri: uri.to_owned(), headers: Headers::new(), body: None }
    }

    /// Adds a field at the end.
    pub fn header(self, name: HeaderName, value: &str) -> (r: Self)
        ensures
            r@ == (RequestDraft { headers: self@.headers.push((name@, value@)), ..self@ }),
    {
        let mut b = self;
        b.headers.add(name, value);
        b
    }

    pub fn body(self, body: &str) -> (r: Self)
        ensures
            r@ == (RequestDraft { body: Some(body@), ..self@ }),
    {
        let mut b = self;
        b.body = Some(body.to_owned());
        b
    }

    /// The request, with its Content-Length set.
    pub fn build(self) -> (r: SipMessage)
        ensures
            r@ == built_request(self@),
    {
        let mut b = self;
        let n = content_length_of(&b.body);
        b.headers.set(HeaderName::ContentLength, n.as_str());
        SipMessage::Request(
            SipRequest {
                method: b.method,
                uri: b.uri,
                version: "SIP/2.0".to_owned(),
                headers: b.headers,
                body: b.body,
            },
        )
    }
}

/// A response in the making.
pub struct ResponseBuilder {
    status: StatusCode,
    headers: Headers,
    body: Option<String>,
}

/// What a `ResponseBuilder` holds.
pub struct ResponseDraft {
    pub status: u16,
    pub headers: HeaderList,
    pub body: Option<Seq<char>>,
}

impl View for ResponseBuilder {
    type V = ResponseDraft;

    closed spec fn view(&self) -> ResponseDraft {
        ResponseDraft {
            status: self.status.0,
            headers: self.headers@,
            body: opt_text(self.body),
        }
    }
}

/// The response that a draft gives: version 2.0, with the reason phrase of its
/// status and the length of its body.
pub open spec fn built_response(d: ResponseDraft) -> MessageView {
    MessageView::Response(
        ResponseView {
            version: "SIP/2.0"@,
            status: d.status,
            reason: reason_of(d.status),
            headers: with_field(d.headers, NameView::ContentLength, content_length(d.body)),
            body: d.body,
        },
    )
}

/// The list that holds one field, if there is a value for it.
pub open spec fn one_field(k: NameView, v: Option<Seq<char>>) -> HeaderList {
    match v {
        Some(t) => seq![(k, t)],
        None => seq![],
    }
}

/// The fields that a response takes over from its request: every Via, then
/// From, To, Call-ID and CSeq.
pub open spec fn reply_fields(hs: HeaderList) -> HeaderList {
    let vias = lookup_all(hs, NameView::Via);
    Seq::new(vias.len(), |i: int| (NameView::Via, vias[i])) + one_field(
        NameView::From,
        lookup(hs, NameView::From),
    ) + one_field(NameView::To, lookup(hs, NameView::To)) + one_field(
        NameView::CallId,
        lookup(hs, NameView::CallId),
    ) + one_field(NameView::CSeq, lookup(hs, NameView::CSeq))
}

fn copy_field(to: &mut Headers, from: &Headers, name: HeaderName)
    ensures
        final(to)@ == old(to)@ + one_field(name@, lookup(from@, name@)),
{
    match from.get(&name) {
        Some(v) => {
            to.add(name, v.as_str());
            assert(to@ =~= old(to)@ + one_field(name@, lookup(from@, name@)));
        },
        None => {
            assert(to@ =~= old(to)@ + one_field(name@, lookup(from@, name@)));
        },
    }
}

impl ResponseBuilder {
    pub fn new(status: StatusCode) -> (r: Self)
        ensures
            r@ == (ResponseDraft {
                status: status.0,
                headers: HeaderList::empty(),
                body: None,
            }),
    {
        ResponseBuilder { status, headers: Headers::new(), body: None }
    }

    /// Sets a field, in place of the value that it may have.
    pub fn header(self, name: HeaderName, value: &str) -> (r: Self)
        ensures
            r@ == (ResponseDraft { headers: with_field(self@.headers, name@, value@), ..self@ }),
    {
        let mut b = self;
        b.headers.set(name, value);
        b
    }

    pub fn body(self, body: &str) -> (r: Self)
        ensures
            r@ == (ResponseDraft { body: Some(body@), ..self@ }),
    {
        let mut b = self;
        b.body = Some(body.to_owned());
        b
    }

    /// A response to `request`, with its Via, From, To, Call-ID and CSeq fields.
    pub fn from_request(request: &SipRequest, status: StatusCode) -> (r: Self)
        ensures
            r@ == (ResponseDraft {
                status: status.0,
                headers: reply_fields(request@.headers),
                body: None,
            }),
    {
        let mut headers = Headers::new();
        let vias = request.headers.get_all(&HeaderName::Via);
        let ghost vs = lookup_all(request.headers@, NameView::Via);
        let ghost all = Seq::new(vs.len(), |i: int| (NameView::Via, vs[i]));
        let n: usize = vias.len();
        let mut i: usize = 0;
        while i < n
            invariant
                n == vias@.len(),
                n == vs.len(),
                forall|j: int| 0 <= j < n ==> (#[trigger] vias@[j])@ == vs[j],
                all == Seq::new(vs.len(), |i: int| (NameView::Via, vs[i])),
                i <= n,
                headers@ == all.take(i as int),
            decreases n - i,
        {
            headers.add(HeaderName::Via, vias[i].as_str());
            i = i + 1;
            assert(headers@ =~= all.take(i as int));
        }
        assert(headers@ =~= all);
        copy_field(&mut headers, &request.headers, HeaderName::From);
        copy_field(&mut headers, &request.headers, HeaderName::To);
        copy_field(&mut headers, &request.headers, HeaderName::CallId);
        copy_field(&mut headers, &request.headers, HeaderName::CSeq);
        ResponseBuilder { status, headers, body: None }
    }

    /// The response, with its Content-Length set.
    pub fn build(self) -> (r: SipMessage)
        ensures
            r@ == built_response(self@),
    {
        let mut b = self;
        let n = content_length_of(&b.body);
        b.headers.set(HeaderName::ContentLength, n.as_str());
        SipMessage::Response(
            SipResponse {
                version: "SIP/2.0".to_owned(),
                status: b.status,
                reason: b.status.reason_phrase().to_owned(),
                headers: b.headers,
                body: b.body,
            },
        )
    }
}

} // verus!
