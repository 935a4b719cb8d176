//! SIP header fields.
use crate::case::{lower, lower_text};
use crate::number::{hex, push_hex};
use crate::random::random_u64;
use crate::text::{
    begins_with, chars_of, find_char, first_index, same_text, split, split_on,
    starts_with, string_of, strip_prefix, texts, trim, trimmed, without_prefix,
};
use vstd::prelude::*;
use vstd::slice::slice_subrange;

verus! {

/// The name of a header field.
#[derive(Debug, PartialEq, Eq, Hash)]
pub enum HeaderName {
    Via,
    From,
    To,
    CallId,
    CSeq,
    Contact,
    MaxForwards,
    ContentType,
    ContentLength,
    Authorization,
    WwwAuthenticate,
    ProxyAuthenticate,
    ProxyAuthorization,
    Expires,
    UserAgent,
    Allow,
    Supported,
    Require,
    RAck,
    RSeq,
    ReferTo,
    ReferredBy,
    Event,
    SubscriptionState,
    Other(String),
}

/// What a `HeaderName` stands for.
pub enum NameView {
    Via,
    From,
    To,
    CallId,
    CSeq,
    Contact,
    MaxForwards,
    ContentType,
    ContentLength,
    Authorization,
    WwwAuthenticate,
    ProxyAuthenticate,
    ProxyAuthorization,
    Expires,
    UserAgent,
    Allow,
    Supported,
    Require,
    RAck,
    RSeq,
    ReferTo,
    ReferredBy,
    Event,
    SubscriptionState,
    Other(Seq<char>),
}

impl View for HeaderName {
    type V = NameView;

    open spec fn view(&self) -> NameView {
        match *self {
            HeaderName::Via => NameView::Via,
            HeaderName::From => NameView::From,
            HeaderName::To => NameView::To,
            HeaderName::CallId => NameView::CallId,
            HeaderName::CSeq => NameView::CSeq,
            HeaderName::Contact => NameView::Contact,
            HeaderName::MaxForwards => NameView::MaxForwards,
            HeaderName::ContentType => NameView::ContentType,
            HeaderName::ContentLength => NameView::ContentLength,
            HeaderName::Authorization => NameView::Authorization,
            HeaderName::WwwAuthenticate => NameView::WwwAuthenticate,
            HeaderName::ProxyAuthenticate => NameView::ProxyAuthenticate,
            HeaderName::ProxyAuthorization => NameView::ProxyAuthorization,
            HeaderName::Expires => NameView::Expires,
            HeaderName::UserAgent => NameView::UserAgent,
            HeaderName::Allow => NameView::Allow,
            HeaderName::Supported => NameView::Supported,
            HeaderName::Require => NameView::Require,
            HeaderName::RAck => NameView::RAck,
            HeaderName::RSeq => NameView::RSeq,
            HeaderName::ReferTo => NameView::ReferTo,
            HeaderName::ReferredBy => NameView::ReferredBy,
            HeaderName::Event => NameView::Event,
            HeaderName::SubscriptionState => NameView::SubscriptionState,
            HeaderName::Other(s) => NameView::Other(s@),
        }
    }
}

impl NameView {
    /// The name as it is written in a message.
    pub open spec fn text(self) -> Seq<char> {
        match self {
            NameView::Via => "Via"@,
            NameView::From => "From"@,
            NameView::To => "To"@,
            NameView::CallId => "Call-ID"@,
            NameView::CSeq => "CSeq"@,
            NameView::Contact => "Contact"@,
            NameView::MaxForwards => "Max-Forwards"@,
            NameView::ContentType => "Content-Type"@,
            NameView::ContentLength => "Content-Length"@,
            NameView::Authorization => "Authorization"@,
            NameView::WwwAuthenticate => "WWW-Authenticate"@,
            NameView::ProxyAuthenticate => "Proxy-Authenticate"@,
            NameView::ProxyAuthorization => "Proxy-Authorization"@,
            NameView::Expires => "Expires"@,
            NameView::UserAgent => "User-Agent"@,
            NameView::Allow => "Allow"@,
            NameView::Supported => "Supported"@,
            NameView::Require => "Require"@,
            NameView::RAck => "RAck"@,
            NameView::RSeq => "RSeq"@,
            NameView::ReferTo => "Refer-To"@,
            NameView::ReferredBy => "Referred-By"@,
            NameView::Event => "Event"@,
            NameView::SubscriptionState => "Subscription-State"@,
            NameView::Other(s) => s,
        }
    }

    /// The name that a lower-case text denotes: a full name, a compact form, or
    /// a name that the library gives no variant of its own.
    pub open spec fn of_lower(s: Seq<char>) -> NameView {
        if s == "via"@ || s == "v"@ {
            NameView::Via
        } else if s == "from"@ || s == "f"@ {
            NameView::From
        } else if s == "to"@ || s == "t"@ {
            NameView::To
        } else if s == "call-id"@ || s == "i"@ {
            NameView::CallId
        } else if s == "cseq"@ {
            NameView::CSeq
        } else if s == "contact"@ || s == "m"@ {
            NameView::Contact
        } else if s == "max-forwards"@ {
            NameView::MaxForwards
        } else if s == "content-type"@ || s == "c"@ {
            NameView::ContentType
        } else if s == "content-length"@ || s == "l"@ {
            NameView::ContentLength
        } else if s == "authorization"@ {
            NameView::Authorization
        } else if s == "www-authenticate"@ {
            NameView::WwwAuthenticate
        } else if s == "proxy-authenticate"@ {
            NameView::ProxyAuthenticate
        } else if s == "proxy-authorization"@ {
            NameView::ProxyAuthorization
        } else if s == "expires"@ {
            NameView::Expires
        } else if s == "user-agent"@ {
            NameView::UserAgent
        } else if s == "allow"@ {
            NameView::Allow
        } else if s == "supported"@ || s == "k"@ {
            NameView::Supported
        } else if s == "require"@ {
            NameView::Require
        } else if s == "rack"@ {
            NameView::RAck
        } else if s == "rseq"@ {
            NameView::RSeq
        } else if s == "refer-to"@ || s == "r"@ {
            NameView::ReferTo
        } else if s == "referred-by"@ || s == "b"@ {
            NameView::ReferredBy
        } else if s == "event"@ || s == "o"@ {
            NameView::Event
        } else if s == "subscription-state"@ {
            NameView::SubscriptionState
        } else {
            NameView::Other(s)
        }
    }

    /// The name that `s` denotes; upper and lower case are not told apart.
    pub open spec fn parse(s: Seq<char>) -> NameView {
        NameView::of_lower(lower(s))
    }

    /// A number for each variant.
    pub open spec fn rank(self) -> int {
        match self {
            NameView::Via => 0,
            NameView::From => 1,
            NameView::To => 2,
            NameView::CallId => 3,
            NameView::CSeq => 4,
            NameView::Contact => 5,
            NameView::MaxForwards => 6,
            NameView::ContentType => 7,
            NameView::ContentLength => 8,
            NameView::Authorization => 9,
            NameView::WwwAuthenticate => 10,
            NameView::ProxyAuthenticate => 11,
            NameView::ProxyAuthorization => 12,
            NameView::Expires => 13,
            NameView::UserAgent => 14,
            NameView::Allow => 15,
            NameView::Supported => 16,
            NameView::Require => 17,
            NameView::RAck => 18,
            NameView::RSeq => 19,
            NameView::ReferTo => 20,
            NameView::ReferredBy => 21,
            NameView::Event => 22,
            NameView::SubscriptionState => 23,
            NameView::Other(_) => 24,
        }
    }
}

impl Clone for HeaderName {
    fn clone(&self) -> (r: Self)
        ensures
            r@ == self@,
    {
        match self {
            HeaderName::Via => HeaderName::Via,
            HeaderName::From => HeaderName::From,
            HeaderName::To => HeaderName::To,
            HeaderName::CallId => HeaderName::CallId,
            HeaderName::CSeq => HeaderName::CSeq,
            HeaderName::Contact => HeaderName::Contact,
            HeaderName::MaxForwards => HeaderName::MaxForwards,
            HeaderName::ContentType => HeaderName::ContentType,
            HeaderName::ContentLength => HeaderName::ContentLength,
            HeaderName::Authorization => HeaderName::Authorization,
            HeaderName::WwwAuthenticate => HeaderName::WwwAuthenticate,
            HeaderName::ProxyAuthenticate => HeaderName::ProxyAuthenticate,
            HeaderName::ProxyAuthorization => HeaderName::ProxyAuthorization,
            HeaderName::Expires => HeaderName::Expires,
            HeaderName::UserAgent => HeaderName::UserAgent,
            HeaderName::Allow => HeaderName::Allow,
            HeaderName::Supported => HeaderName::Supported,
            HeaderName::Require => HeaderName::Require,
            HeaderName::RAck => HeaderName::RAck,
            HeaderName::RSeq => HeaderName::RSeq,
            HeaderName::ReferTo => HeaderName::ReferTo,
            HeaderName::ReferredBy => HeaderName::ReferredBy,
            HeaderName::Event => HeaderName::Event,
            HeaderName::SubscriptionState => HeaderName::SubscriptionState,
            HeaderName::Other(s) => HeaderName::Other(s.clone()),
        }
    }
}

impl HeaderName {
    /// The name that `s` denotes, in full or in compact form; upper and lower
    /// case are not told apart.
    pub fn from_str(s: &str) -> (r: Self)
        ensures
            r@ == NameView::parse(s@),
    {
        let low = lower_text(s);
        HeaderName::from_lower(low.as_str())
    }

    /// The name that a text in lower case denotes.
    pub fn from_lower(s: &str) -> (r: Self)
        ensures
            r@ == NameView::of_lower(s@),
    {
        if same_text(s, "via") || same_text(s, "v") {
            HeaderName::Via
        } else if same_text(s, "from") || same_text(s, "f") {
            HeaderName::From
        } else if same_text(s, "to") || same_text(s, "t") {
            HeaderName::To
        } else if same_text(s, "call-id") || same_text(s, "i") {
            HeaderName::CallId
        } else if same_text(s, "cseq") {
            HeaderName::CSeq
        } else if same_text(s, "contact") || same_text(s, "m") {
            HeaderName::Contact
        } else if same_text(s, "max-forwards") {
            HeaderName::MaxForwards
        } else if same_text(s, "content-type") || same_text(s, "c") {
            HeaderName::ContentType
        } else if same_text(s, "content-length") || same_text(s, "l") {
            HeaderName::ContentLength
        } else if same_text(s, "authorization") {
            HeaderName::Authorization
        } else if same_text(s, "www-authenticate") {
            HeaderName::WwwAuthenticate
        } else if same_text(s, "proxy-authenticate") {
            HeaderName::ProxyAuthenticate
        } else if same_text(s, "proxy-authorization") {
            HeaderName::ProxyAuthorization
        } else if same_text(s, "expires") {
            HeaderName::Expires
        } else if same_text(s, "user-agent") {
            HeaderName::UserAgent
        } else if same_text(s, "allow") {
            HeaderName::Allow
        } else if same_text(s, "supported") || same_text(s, "k") {
            HeaderName::Supported
        } else if same_text(s, "require") {
            HeaderName::Require
        } else if same_text(s, "rack") {
            HeaderName::RAck
        } else if same_text(s, "rseq") {
            HeaderName::RSeq
        } else if same_text(s, "refer-to") || same_text(s, "r") {
            HeaderName::ReferTo
        } else if same_text(s, "referred-by") || same_text(s, "b") {
            HeaderName::ReferredBy
        } else if same_text(s, "event") || same_text(s, "o") {
            HeaderName::Event
        } else if same_text(s, "subscription-state") {
            HeaderName::SubscriptionState
        } else {
            HeaderName::Other(s.to_owned())
        }
    }

    /// The name as it is written in a message.
    pub fn as_str(&self) -> (r: &str)
        ensures
            r@ == self@.text(),
    {
        match self {
            HeaderName::Via => "Via",
            HeaderName::From => "From",
            HeaderName::To => "To",
            HeaderName::CallId => "Call-ID",
            HeaderName::CSeq => "CSeq",
            HeaderName::Contact => "Contact",
            HeaderName::MaxForwards => "Max-Forwards",
            HeaderName::ContentType => "Content-Type",
            HeaderName::ContentLength => "Content-Length",
            HeaderName::Authorization => "Authorization",
            HeaderName::WwwAuthenticate => "WWW-Authenticate",
            HeaderName::ProxyAuthenticate => "Proxy-Authenticate",
            HeaderName::ProxyAuthorization => "Proxy-Authorization",
            HeaderName::Expires => "Expires",
            HeaderName::UserAgent => "User-Agent",
            HeaderName::Allow => "Allow",
            HeaderName::Supported => "Supported",
            HeaderName::Require => "Require",
            HeaderName::RAck => "RAck",
            HeaderName::RSeq => "RSeq",
            HeaderName::ReferTo => "Refer-To",
            HeaderName::ReferredBy => "Referred-By",
            HeaderName::Event => "Event",
            HeaderName::SubscriptionState => "Subscription-State",
            HeaderName::Other(s) => s.as_str(),
        }
    }

    fn rank(&self) -> (r: u8)
        ensures
            r as int == self@.rank(),
    {
        match self {
            HeaderName::Via => 0,
            HeaderName::From => 1,
            HeaderName::To => 2,
            HeaderName::CallId => 3,
            HeaderName::CSeq => 4,
            HeaderName::Contact => 5,
            HeaderName::MaxForwards => 6,
            HeaderName::ContentType => 7,
            HeaderName::ContentLength => 8,
            HeaderName::Authorization => 9,
            HeaderName::WwwAuthenticate => 10,
            HeaderName::ProxyAuthenticate => 11,
            HeaderName::ProxyAuthorization => 12,
            HeaderName::Expires => 13,
            HeaderName::UserAgent => 14,
            HeaderName::Allow => 15,
            HeaderName::Supported => 16,
            HeaderName::Require => 17,
            HeaderName::RAck => 18,
            HeaderName::RSeq => 19,
            HeaderName::ReferTo => 20,
            HeaderName::ReferredBy => 21,
            HeaderName::Event => 22,
            HeaderName::SubscriptionState => 23,
            HeaderName::Other(_) => 24,
        }
    }

    /// Whether the two are the same name.
    pub fn same(&self, other: &HeaderName) -> (r: bool)
        ensures
            r == (self@ == other@),
    {
        if let (HeaderName::Other(a), HeaderName::Other(b)) = (self, other) {
            return *a == *b;
        }
        self.rank() == other.rank()
    }
}

/// The value of a header field.
#[derive(Debug, PartialEq, Eq)]
pub struct HeaderValue(pub String);

impl View for HeaderValue {
    type V = Seq<char>;

    open spec fn view(&self) -> Seq<char> {
        self.0@
    }
}

impl Clone for HeaderValue {
    fn clone(&self) -> (r: Self)
        ensures
            r@ == self@,
    {
        HeaderValue(self.0.clone())
    }
}

impl HeaderValue {
    pub fn new(s: &str) -> (r: Self)
        ensures
            r@ == s@,
    {
        HeaderValue(s.to_owned())
    }

    pub fn as_str(&self) -> (r: &str)
        ensures
            r@ == self@,
    {
        self.0.as_str()
    }
}

/// A header field.
#[derive(Debug, PartialEq, Eq)]
pub struct Header {
    pub name: HeaderName,
    pub value: HeaderValue,
}

impl View for Header {
    type V = (NameView, Seq<char>);

    open spec fn view(&self) -> (NameView, Seq<char>) {
        (self.name@, self.value@)
    }
}

impl Clone for Header {
    fn clone(&self) -> (r: Self)
        ensures
            r@ == self@,
    {
        Header { name: self.name.clone(), value: self.value.clone() }
    }
}

/// A header field as it is written in a message, without the end of the line.
pub open spec fn header_text(h: (NameView, Seq<char>)) -> Seq<char> {
    h.0.text() + ": "@ + h.1
}

impl Header {
    pub fn new(name: HeaderName, value: &str) -> (r: Self)
        ensures
            r@ == (name@, value@),
    {
        Header { name, value: HeaderValue::new(value) }
    }

    /// The field as it is written in a message, without the end of the line.
    pub fn to_string(&self) -> (r: String)
        ensures
            r@ == header_text(self@),
    {
        let mut s = self.name.as_str().to_owned();
        s.append(": ");
        s.append(self.value.as_str());
        s
    }
}

// ---------------------------------------------------------------------------
// The list of header fields
// ---------------------------------------------------------------------------

/// A list of header fields, in order.
pub type HeaderList = Seq<(NameView, Seq<char>)>;

/// The position of the first field named `k`, or the length of the list.
pub open spec fn position(hs: HeaderList, k: NameView) -> int
    decreases hs.len(),
{
    if hs.len() == 0 {
        0
    } else if hs[0].0 == k {
        0
    } else {
        1 + position(hs.skip(1), k)
    }
}

/// The value of the first field named `k`.
pub open spec fn lookup(hs: HeaderList, k: NameView) -> Option<Seq<char>> {
    if position(hs, k) < hs.len() {
        Some(hs[position(hs, k)].1)
    } else {
        None
    }
}

/// The values of all fields named `k`, in order.
pub open spec fn lookup_all(hs: HeaderList, k: NameView) -> Seq<Seq<char>>
    decreases hs.len(),
{
    if hs.len() == 0 {
        seq![]
    } else if hs.last().0 == k {
        lookup_all(hs.drop_last(), k).push(hs.last().1)
    } else {
        lookup_all(hs.drop_last(), k)
    }
}

/// The list in which the first field named `k` has the value `v`: that field
/// is changed where it stands, or added at the end.
pub open spec fn with_field(hs: HeaderList, k: NameView, v: Seq<char>) -> HeaderList {
    if position(hs, k) < hs.len() {
        hs.update(position(hs, k), (k, v))
    } else {
        hs.push((k, v))
    }
}

/// The list without the fields named `k`.
pub open spec fn without(hs: HeaderList, k: NameView) -> HeaderList
    decreases hs.len(),
{
    if hs.len() == 0 {
        seq![]
    } else if hs.last().0 == k {
        without(hs.drop_last(), k)
    } else {
        without(hs.drop_last(), k).push(hs.last())
    }
}

/// `position` is the one index before which no field is named `k` and at
/// which, if it is in the list, one is.
pub proof fn lemma_position(hs: HeaderList, k: NameView)
    ensures
        0 <= position(hs, k) <= hs.len(),
        forall|j: int| 0 <= j < position(hs, k) ==> (#[trigger] hs[j]).0 != k,
        position(hs, k) < hs.len() ==> hs[position(hs, k)].0 == k,
    decreases hs.len(),
{
    if hs.len() > 0 && hs[0].0 != k {
        lemma_position(hs.skip(1), k);
        let p = position(hs.skip(1), k);
        assert forall|j: int| 0 <= j < 1 + p implies (#[trigger] hs[j]).0 != k by {
            if j > 0 {
                assert(hs[j] == hs.skip(1)[j - 1]);
            }
        }
        if p < hs.len() - 1 {
            assert(hs[1 + p] == hs.skip(1)[p]);
        }
    }
}

/// An index with the properties of `position` is `position`.
pub proof fn lemma_position_is(hs: HeaderList, k: NameView, p: int)
    requires
        0 <= p <= hs.len(),
        forall|j: int| 0 <= j < p ==> (#[trigger] hs[j]).0 != k,
        p < hs.len() ==> hs[p].0 == k,
    ensures
        position(hs, k) == p,
{
    lemma_position(hs, k);
    let m = position(hs, k);
    if m < p {
        assert(hs[m].0 != k);
    } else if p < m {
        assert(hs[p].0 != k);
    }
}

/// Adding a field at the end does not hide a field that is there.
pub proof fn lemma_lookup_push(hs: HeaderList, k: NameView, h: (NameView, Seq<char>))
    ensures
        lookup(hs, k) is Some ==> lookup(hs.push(h), k) == lookup(hs, k),
        lookup(hs, k) is None && h.0 == k ==> lookup(hs.push(h), k) == Some(h.1),
        lookup(hs, k) is None && h.0 != k ==> lookup(hs.push(h), k) is None,
{
    lemma_position(hs, k);
    let p = position(hs, k);
    let t = hs.push(h);
    assert forall|j: int| 0 <= j < p implies (#[trigger] t[j]).0 != k by {
        assert(t[j] == hs[j]);
    }
    if p < hs.len() || h.0 == k {
        lemma_position_is(t, k, p);
    } else {
        lemma_position_is(t, k, t.len() as int);
    }
}

/// After a field is set, it reads back as the value that was given.
pub proof fn law_set_get(hs: HeaderList, k: NameView, v: Seq<char>)
    ensures
        lookup(with_field(hs, k, v), k) == Some(v),
{
    lemma_position(hs, k);
    let p = position(hs, k);
    let t = with_field(hs, k, v);
    assert forall|j: int| 0 <= j < p implies (#[trigger] t[j]).0 != k by {
        assert(t[j] == hs[j]);
    }
    lemma_position_is(t, k, p);
}

/// Setting a field leaves every other field as it was.
pub proof fn law_set_get_other(hs: HeaderList, k: NameView, v: Seq<char>, other: NameView)
    requires
        other != k,
    ensures
        lookup(with_field(hs, k, v), other) == lookup(hs, other),
{
    lemma_position(hs, k);
    lemma_position(hs, other);
    let t = with_field(hs, k, v);
    let p = position(hs, other);
    assert forall|j: int| 0 <= j < p implies (#[trigger] t[j]).0 != other by {
        assert(hs[j].0 != other);
    }
    if p < hs.len() {
        assert(t[p] == hs[p]);
        lemma_position_is(t, other, p);
    } else {
        lemma_position_is(t, other, t.len() as int);
    }
}

/// After a field is removed, none of that name is left, and the fields of
/// other names are those that were there.
pub proof fn law_remove(hs: HeaderList, k: NameView, other: NameView)
    ensures
        lookup(without(hs, k), k) is None,
        other != k ==> lookup_all(without(hs, k), other) == lookup_all(hs, other),
        lookup_all(without(hs, k), k) == Seq::<Seq<char>>::empty(),
    decreases hs.len(),
{
    if hs.len() > 0 {
        law_remove(hs.drop_last(), k, other);
        let t = without(hs.drop_last(), k);
        if hs.last().0 != k {
            lemma_lookup_push(t, k, hs.last());
            assert(t.push(hs.last()).drop_last() =~= t);
        }
    }
}

/// The first of all the values of a name is the value that it reads as.
pub proof fn law_get_is_first(hs: HeaderList, k: NameView)
    ensures
        lookup(hs, k) is Some <==> lookup_all(hs, k).len() > 0,
        lookup_all(hs, k).len() > 0 ==> lookup(hs, k) == Some(lookup_all(hs, k)[0]),
    decreases hs.len(),
{
    if hs.len() > 0 {
        law_get_is_first(hs.drop_last(), k);
        lemma_lookup_push(hs.drop_last(), k, hs.last());
        assert(hs.drop_last().push(hs.last()) =~= hs);
    }
}

/// The header fields of a message, in the order in which they are written.
#[derive(Debug)]
pub struct Headers {
    headers: Vec<Header>,
}

impl View for Headers {
    type V = HeaderList;

    closed spec fn view(&self) -> HeaderList {
        Seq::new(self.headers@.len(), |i: int| self.headers@[i]@)
    }
}

impl Clone for Headers {
    fn clone(&self) -> (r: Self)
        ensures
            r@ == self@,
    {
        let mut out = Headers::new();
        let n: usize = self.headers.len();
        let mut i: usize = 0;
        while i < n
            invariant
                n == self.headers@.len(),
                i <= n,
                out@ == self@.take(i as int),
            decreases n - i,
        {
            let ghost before = out@;
            out.headers.push(self.headers[i].clone());
            assert(out@ =~= before.push(self@[i as int]));
            i = i + 1;
            assert(out@ =~= self@.take(i as int));
        }
        assert(self@.take(n as int) =~= self@);
        out
    }
}

impl Default for Headers {
    fn default() -> (r: Self)
        ensures
            r@ == HeaderList::empty(),
    {
        Headers::new()
    }
}

/// The fields of the list, one to a line.
pub open spec fn headers_text(hs: HeaderList) -> Seq<char>
    decreases hs.len(),
{
    if hs.len() == 0 {
        seq![]
    } else {
        headers_text(hs.drop_last()) + header_text(hs.last()) + "\n"@
    }
}

impl Headers {
    pub fn new() -> (r: Self)
        ensures
            r@ == HeaderList::empty(),
    {
        let r = Headers { headers: Vec::new() };
        assert(r@ =~= HeaderList::empty());
        r
    }

    /// Adds a field at the end.
    pub fn add(&mut self, name: HeaderName, value: &str)
        ensures
            final(self)@ == old(self)@.push((name@, value@)),
    {
        self.headers.push(Header::new(name, value));
        assert(self@ =~= old(self)@.push((name@, value@)));
    }

    fn find(&self, name: &HeaderName) -> (p: usize)
        ensures
            p == position(self@, name@),
            p <= self.headers@.len(),
            self@.len() == self.headers@.len(),
    {
        let n: usize = self.headers.len();
        let mut i: usize = 0;
        while i < n
            invariant
                n == self.headers@.len(),
                i <= n,
                forall|j: int| 0 <= j < i ==> (#[trigger] self@[j]).0 != name@,
            decreases n - i,
        {
            if self.headers[i].name.same(name) {
                proof {
                    lemma_position_is(self@, name@, i as int);
                }
                return i;
            }
            i = i + 1;
        }
        proof {
            lemma_position_is(self@, name@, n as int);
        }
        n
    }

    /// The value of the first field of that name.
    pub fn get(&self, name: &HeaderName) -> (r: Option<&HeaderValue>)
        ensures
            match r {
                Some(v) => lookup(self@, name@) == Some(v@),
                None => lookup(self@, name@) is None,
            },
    {
        let p: usize = self.find(name);
        if p < self.headers.len() {
            Some(&self.headers[p].value)
        } else {
            None
        }
    }

    /// The values of all fields of that name, in order.
    pub fn get_all(&self, name: &HeaderName) -> (r: Vec<&HeaderValue>)
        ensures
            r@.len() == lookup_all(self@, name@).len(),
            forall|i: int| 0 <= i < r@.len() ==> (#[trigger] r@[i])@ == lookup_all(self@, name@)[i],
    {
        let mut out: Vec<&HeaderValue> = Vec::new();
        let n: usize = self.headers.len();
        let mut i: usize = 0;
        while i < n
            invariant
                n == self.headers@.len(),
                i <= n,
                out@.len() == lookup_all(self@.take(i as int), name@).len(),
                forall|j: int|
                    0 <= j < out@.len() ==> (#[trigger] out@[j])@ == lookup_all(
                        self@.take(i as int),
                        name@,
                    )[j],
            decreases n - i,
        {
            proof {
                assert(self@.take(i + 1).drop_last() =~= self@.take(i as int));
                assert(self@.take(i + 1).last() == self@[i as int]);
            }
            if self.headers[i].name.same(name) {
                out.push(&self.headers[i].value);
            }
            i = i + 1;
        }
        assert(self@.take(n as int) =~= self@);
        out
    }

    /// Gives the first field of that name the value, or adds the field.
    pub fn set(&mut self, name: HeaderName, value: &str)
        ensures
            final(self)@ == with_field(old(self)@, name@, value@),
    {
        let p: usize = self.find(&name);
        proof {
            lemma_position(self@, name@);
        }
        if p < self.headers.len() {
            self.headers[p].value = HeaderValue::new(value);
            assert(self@ =~= old(self)@.update(p as int, (name@, value@)));
        } else {
            self.add(name, value);
        }
    }

    /// Removes all fields of that name.
    pub fn remove(&mut self, name: &HeaderName)
        ensures
            final(self)@ == without(old(self)@, name@),
    {
        let mut kept = Headers::new();
        let n: usize = self.headers.len();
        let mut i: usize = 0;
        let ghost all = self@;
        while i < n
            invariant
                n == self.headers@.len(),
                all == self@,
                all == old(self)@,
                i <= n,
                kept@ == without(all.take(i as int), name@),
            decreases n - i,
        {
            proof {
                assert(all.take(i + 1).drop_last() =~= all.take(i as int));
                assert(all.take(i + 1).last() == all[i as int]);
            }
            let ghost before = kept@;
            if !self.headers[i].name.same(name) {
                kept.headers.push(self.headers[i].clone());
                assert(kept@ =~= before.push(all[i as int]));
            }
            i = i + 1;
        }
        assert(all.take(n as int) =~= all);
        *self = kept;
    }

    /// The fields, in order.
    pub fn iter(&self) -> (r: &[Header])
        ensures
            r@.len() == self@.len(),
            forall|i: int| 0 <= i < r@.len() ==> (#[trigger] r@[i])@ == self@[i],
    {
        self.headers.as_slice()
    }

    pub fn is_empty(&self) -> (r: bool)
        ensures
            r == (self@.len() == 0),
    {
        self.headers.len() == 0
    }

    pub fn len(&self) -> (r: usize)
        ensures
            r == self@.len(),
    {
        self.headers.len()
    }

    /// The fields, one to a line.
    pub fn to_string(&self) -> (r: String)
        ensures
            r@ == headers_text(self@),
    {
        let mut s = String::new();
        let n: usize = self.headers.len();
        let mut i: usize = 0;
        while i < n
            invariant
                n == self.headers@.len(),
                i <= n,
                s@ == headers_text(self@.take(i as int)),
            decreases n - i,
        {
            proof {
                assert(self@.take(i + 1).drop_last() =~= self@.take(i as int));
                assert(self@.take(i + 1).last() == self@[i as int]);
            }
            let h = self.headers[i].to_string();
            s.append(h.as_str());
            s.append("\n");
            i = i + 1;
        }
        assert(self@.take(n as int) =~= self@);
        s
    }
}

// ---------------------------------------------------------------------------
// Parameters and addresses within a value
// ---------------------------------------------------------------------------

/// What follows `name` in the first of the parameters that begins with it.
pub open spec fn param_in(params: Seq<Seq<char>>, name: Seq<char>) -> Option<Seq<char>>
    decreases params.len(),
{
    if params.len() == 0 {
        None
    } else {
        match without_prefix(trimmed(params[0]), name) {
            Some(t) => Some(t),
            None => param_in(params.skip(1), name),
        }
    }
}

/// What follows `name` in the first of the parameters of a value that begins
/// with it; semicolons stand between the parameters.
pub open spec fn param_of(value: Seq<char>, name: Seq<char>) -> Option<Seq<char>> {
    param_in(split(value, ';'), name)
}

/// The tag of a From or To value.
pub open spec fn tag_of(value: Seq<char>) -> Option<Seq<char>> {
    param_of(value, "tag="@)
}

/// What follows `name` in the first of the parameters of a value that begins
/// with it.
pub fn extract_param(value: &str, name: &str) -> (r: Option<String>)
    ensures
        match r {
            Some(t) => param_of(value@, name@) == Some(t@),
            None => param_of(value@, name@) is None,
        },
{
    let cs = chars_of(value);
    let params = split_on(cs.as_slice(), ';');
    let n: usize = params.len();
    let ghost all = texts(params@);
    let mut i: usize = 0;
    assert(all.skip(0) =~= all);
    while i < n
        invariant
            n == params@.len(),
            all == texts(params@),
            i <= n,
            param_in(all.skip(i as int), name@) == param_of(value@, name@),
        decreases n - i,
    {
        proof {
            assert(all.skip(i as int)[0] == all[i as int]);
            assert(all.skip(i as int).skip(1) =~= all.skip(i + 1));
        }
        let p = trim(params[i]);
        if let Some(t) = strip_prefix(p, name) {
            return Some(string_of(t));
        }
        i = i + 1;
    }
    None
}

/// The tag of a From or To value, such as `xyz` in `<sip:a@b>;tag=xyz`.
pub fn extract_tag(header_value: &str) -> (r: Option<String>)
    ensures
        match r {
            Some(t) => tag_of(header_value@) == Some(t@),
            None => tag_of(header_value@) is None,
        },
{
    extract_param(header_value, "tag=")
}

/// Whether the first `<` stands before the first `>`, where both occur.
pub open spec fn brackets_ordered(value: Seq<char>) -> bool {
    let open = first_index(value, '<');
    let close = first_index(value, '>');
    open < value.len() && close < value.len() ==> open < close
}

/// The URI of a value: what stands in angle brackets, or else what stands
/// before the first parameter, if that is a SIP URI.
pub open spec fn uri_of(value: Seq<char>) -> Option<Seq<char>> {
    let open = first_index(value, '<');
    let close = first_index(value, '>');
    let bare = trimmed(split(value, ';')[0]);
    if open < value.len() && close < value.len() {
        Some(value.subrange(open + 1, close))
    } else if begins_with(bare, "sip:"@) || begins_with(bare, "sips:"@) {
        Some(bare)
    } else {
        None
    }
}

/// Whether the first `<` stands before the first `>`, where both occur.
pub fn has_ordered_brackets(header_value: &str) -> (r: bool)
    ensures
        r == brackets_ordered(header_value@),
{
    let cs = chars_of(header_value);
    let open: usize = find_char(cs.as_slice(), '<');
    let close: usize = find_char(cs.as_slice(), '>');
    !(open < cs.len() && close < cs.len()) || open < close
}

/// The URI of a value such as `"Alice" <sip:alice@example.com>;tag=xyz`.
pub fn extract_uri(header_value: &str) -> (r: Option<String>)
    requires
        brackets_ordered(header_value@),
    ensures
        match r {
            Some(u) => uri_of(header_value@) == Some(u@),
            None => uri_of(header_value@) is None,
        },
{
    let chars = chars_of(header_value);
    let cs = chars.as_slice();
    let open: usize = find_char(cs, '<');
    if open < cs.len() {
        let close: usize = find_char(cs, '>');
        if close < cs.len() {
            return Some(string_of(slice_subrange(cs, open + 1, close)));
        }
    }
    let params = split_on(cs, ';');
    let uri = trim(params[0]);
    assert(uri@ == trimmed(texts(params@)[0]));
    if starts_with(uri, "sip:") || starts_with(uri, "sips:") {
        Some(string_of(uri))
    } else {
        None
    }
}

/// A tag that is the number `n` in hexadecimal.
pub fn tag_from(n: u64) -> (r: String)
    ensures
        r@ == hex(n as nat),
{
    let mut s = String::new();
    push_hex(&mut s, n);
    assert(s@ =~= hex(n as nat));
    s
}

/// A branch parameter: the magic cookie and the number `n` in hexadecimal.
pub fn branch_from(n: u64) -> (r: String)
    ensures
        r@ == "z9hG4bK"@ + hex(n as nat),
{
    let mut s = "z9hG4bK".to_owned();
    push_hex(&mut s, n);
    s
}

/// A random tag for the From and To fields.
pub fn generate_tag() -> (r: String)
    ensures
        exists|n: u64| r@ == #[trigger] hex(n as nat),
{
    tag_from(random_u64())
}

/// A random branch parameter for the Via field.
pub fn generate_branch() -> (r: String)
    ensures
        exists|n: u64| r@ == "z9hG4bK"@ + #[trigger] hex(n as nat),
{
    branch_from(random_u64())
}

} // verus!
