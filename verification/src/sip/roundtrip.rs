//! What is written reads back: the laws that tie the text of a message to the
//! message.
use super::header::{header_text, HeaderList, NameView};
use super::message::{
    bad_line, blank, blank_index, body_of, body_text, field_of, fields_of, folded, header_section,
    lemma_blank_index, message_text, parse_message, parse_rest, start_line, MessageView,
    MethodView, ParseErrorView,
};
use crate::case::{ascii_lowered, ascii_uppered};
use crate::number::{dec, is_digit, lemma_dec_digits, lemma_dec_reads_back};
use crate::text::{
    begins_with, cut, first_index, is_space, lemma_first_index_is, lemma_trimmed_id, lines,
    splitn, trim_back, trim_front, trimmed, without_cr,
};
use vstd::prelude::*;
use vstd::utf8::is_ascii_chars;

verus! {

/// A line and its line ending, in front of any text, is the first line of it.
pub proof fn lemma_lines_cons(l: Seq<char>, rest: Seq<char>)
    requires
        !l.contains('\n'),
    ensures
        lines(l + "\r\n"@ + rest) == seq![l] + lines(rest),
{
    reveal_strlit("\r\n");
    let s = l + "\r\n"@ + rest;
    let k: int = l.len() as int + 1;
    assert(s[k] == '\n');
    assert forall|j: int| 0 <= j < k implies s[j] != '\n' by {
        if j < l.len() {
            assert(s[j] == l[j]);
            assert(l.contains(l[j]));
        }
    }
    lemma_first_index_is(s, '\n', k);
    assert(s.take(k) =~= l.push('\r'));
    assert(without_cr(l.push('\r')) =~= l);
    assert(s.skip(k + 1) =~= rest);
}

/// A text with a character other than white space does not trim to nothing.
pub proof fn lemma_not_blank(s: Seq<char>, i: int)
    requires
        0 <= i < s.len(),
        !is_space(s[i]),
    ensures
        trimmed(s).len() > 0,
{
    lemma_trim_front_keeps(s, i);
    let t = trim_front(s);
    let j = choose|j: int| 0 <= j < t.len() && t[j] == s[i];
    lemma_trim_back_keeps(t, j);
}

proof fn lemma_trim_front_keeps(s: Seq<char>, i: int)
    requires
        0 <= i < s.len(),
        !is_space(s[i]),
    ensures
        exists|j: int| 0 <= j < trim_front(s).len() && trim_front(s)[j] == s[i],
    decreases s.len(),
{
    if is_space(s[0]) {
        assert(s.skip(1)[i - 1] == s[i]);
        lemma_trim_front_keeps(s.skip(1), i - 1);
        let t = trim_front(s.skip(1));
        let j = choose|j: int| 0 <= j < t.len() && t[j] == s.skip(1)[i - 1];
        assert(trim_front(s)[j] == s[i]);
    } else {
        assert(trim_front(s)[i] == s[i]);
    }
}

proof fn lemma_trim_back_keeps(s: Seq<char>, i: int)
    requires
        0 <= i < s.len(),
        !is_space(s[i]),
    ensures
        trim_back(s).len() > 0,
    decreases s.len(),
{
    if is_space(s.last()) {
        lemma_trim_back_keeps(s.drop_last(), i);
    }
}

/// White space in front of a text is trimmed away.
pub proof fn lemma_trimmed_space(c: char, s: Seq<char>)
    requires
        is_space(c),
    ensures
        trimmed(seq![c] + s) == trimmed(s),
{
    assert((seq![c] + s).skip(1) =~= s);
}

/// A text without the character is cut at the character that follows it.
pub proof fn lemma_cut(a: Seq<char>, c: char, b: Seq<char>)
    requires
        !a.contains(c),
    ensures
        cut(a + seq![c] + b, c) == Some((a, b)),
        first_index(a + seq![c] + b, c) == a.len(),
{
    let s = a + seq![c] + b;
    assert forall|j: int| 0 <= j < a.len() implies s[j] != c by {
        assert(s[j] == a[j]);
        assert(a.contains(a[j]));
    }
    lemma_first_index_is(s, c, a.len() as int);
    assert(s.take(a.len() as int) =~= a);
    assert(s.skip(a.len() as int + 1) =~= b);
}

/// Whether a name reads back as itself where it is written in a header line.
pub open spec fn sendable_name(k: NameView) -> bool {
    &&& !k.text().contains(':')
    &&& !k.text().contains('\n')
    &&& trimmed(k.text()) == k.text()
    &&& NameView::parse(k.text()) == k
}

/// Whether a value stays as it is where it is written in a header line.
pub open spec fn sendable_value(v: Seq<char>) -> bool {
    !v.contains('\n') && trimmed(v) == v
}

/// Whether each field of the list can be written in a header line.
pub open spec fn sendable_fields(hs: HeaderList) -> bool {
    forall|i: int|
        0 <= i < hs.len() ==> sendable_name((#[trigger] hs[i]).0) && sendable_value(hs[i].1)
}

/// Whether the start line of a message reads back as its parts.
pub open spec fn sendable_start(m: MessageView) -> bool {
    &&& !start_line(m).contains('\n')
    &&& trimmed(start_line(m)) == start_line(m)
    &&& match m {
        MessageView::Request(r) => {
            &&& !begins_with(start_line(m), "SIP/"@)
            &&& !r.method.text().contains(' ')
            &&& !r.uri.contains(' ')
            &&& MethodView::parse(r.method.text()) == r.method
        },
        MessageView::Response(r) => begins_with(start_line(m), "SIP/"@) && !r.version.contains(' '),
    }
}

/// Whether a message can be sent: its start line and its fields hold no line
/// feed, no character that would end a part early, and no white space at an
/// end of a part.
pub open spec fn sendable(m: MessageView) -> bool {
    sendable_start(m) && sendable_fields(m.headers())
}

proof fn lemma_header_line(h: (NameView, Seq<char>))
    requires
        sendable_name(h.0),
        sendable_value(h.1),
    ensures
        !header_text(h).contains('\n'),
        !blank(header_text(h)),
        !folded(header_text(h)),
        cut(header_text(h), ':') is Some,
        field_of(header_text(h)) == h,
{
    reveal_strlit(": ");
    let n = h.0.text();
    let l = header_text(h);
    assert(l =~= n + seq![':'] + (seq![' '] + h.1));
    lemma_cut(n, ':', seq![' '] + h.1);
    lemma_trimmed_space(' ', h.1);
    assert(l[n.len() as int] == ':');
    lemma_not_blank(l, n.len() as int);
    assert forall|j: int| 0 <= j < l.len() implies l[j] != '\n' by {
        if j < n.len() {
            assert(l[j] == n[j]);
            assert(n.contains(n[j]));
        } else if j >= n.len() + 2 {
            assert(l[j] == h.1[j - n.len() - 2]);
            assert(h.1.contains(h.1[j - n.len() - 2]));
        }
    }
    if folded(l) {
        if n.len() > 0 {
            assert(l[0] == n[0]);
            lemma_trimmed_front(n);
        } else {
            assert(l[0] == ':');
        }
    }
}

/// A text that is trimmed does not begin with white space.
proof fn lemma_trimmed_front(s: Seq<char>)
    requires
        trimmed(s) == s,
        s.len() > 0,
    ensures
        !is_space(s[0]),
{
    if is_space(s[0]) {
        lemma_trim_front_len(s.skip(1));
        lemma_trim_back_len(trim_front(s));
    }
}

proof fn lemma_trim_front_len(s: Seq<char>)
    ensures
        trim_front(s).len() <= s.len(),
    decreases s.len(),
{
    if s.len() > 0 && is_space(s[0]) {
        lemma_trim_front_len(s.skip(1));
    }
}

proof fn lemma_trim_back_len(s: Seq<char>)
    ensures
        trim_back(s).len() <= s.len(),
    decreases s.len(),
{
    if s.len() > 0 && is_space(s.last()) {
        lemma_trim_back_len(s.drop_last());
    }
}

/// The lines of a header section.
pub open spec fn header_lines(hs: HeaderList) -> Seq<Seq<char>> {
    Seq::new(hs.len(), |i: int| header_text(hs[i]))
}

proof fn lemma_section_lines(hs: HeaderList, rest: Seq<char>)
    requires
        sendable_fields(hs),
    ensures
        lines(header_section(hs) + rest) == header_lines(hs) + lines(rest),
    decreases hs.len(),
{
    if hs.len() == 0 {
        assert(header_section(hs) + rest =~= rest);
        assert(header_lines(hs) + lines(rest) =~= lines(rest));
    } else {
        let h = hs.last();
        let init = hs.drop_last();
        assert(sendable_name(hs[hs.len() - 1].0));
        assert(sendable_fields(init)) by {
            assert forall|i: int| 0 <= i < init.len() implies sendable_name((#[trigger] init[i]).0)
                && sendable_value(init[i].1) by {
                assert(init[i] == hs[i]);
            }
        }
        lemma_header_line(h);
        let tail = header_text(h) + "\r\n"@ + rest;
        assert(header_section(hs) + rest =~= header_section(init) + tail);
        lemma_section_lines(init, tail);
        lemma_lines_cons(header_text(h), rest);
        assert(header_lines(hs) + lines(rest) =~= header_lines(init) + (seq![header_text(h)]
            + lines(rest)));
    }
}

proof fn lemma_fields_read_back(hs: HeaderList)
    requires
        sendable_fields(hs),
    ensures
        fields_of(header_lines(hs)) == hs,
    decreases hs.len(),
{
    if hs.len() > 0 {
        let init = hs.drop_last();
        assert(sendable_name(hs[hs.len() - 1].0));
        assert(sendable_fields(init)) by {
            assert forall|i: int| 0 <= i < init.len() implies sendable_name((#[trigger] init[i]).0)
                && sendable_value(init[i].1) by {
                assert(init[i] == hs[i]);
            }
        }
        lemma_fields_read_back(init);
        lemma_header_line(hs.last());
        assert(header_lines(hs).drop_last() =~= header_lines(init));
        assert(header_lines(hs).last() == header_text(hs.last()));
        assert(init.push(hs.last()) =~= hs);
    } else {
        assert(fields_of(header_lines(hs)) =~= hs);
    }
}

proof fn lemma_no_bad_line(ls: Seq<Seq<char>>)
    requires
        forall|i: int| 0 <= i < ls.len() ==> cut(#[trigger] ls[i], ':') is Some,
    ensures
        bad_line(ls) is None,
    decreases ls.len(),
{
    if ls.len() > 0 {
        assert(cut(ls[0], ':') is Some);
        assert forall|i: int| 0 <= i < ls.skip(1).len() implies cut(
            #[trigger] ls.skip(1)[i],
            ':',
        ) is Some by {
            assert(ls.skip(1)[i] == ls[i + 1]);
        }
        lemma_no_bad_line(ls.skip(1));
    }
}

proof fn lemma_blank_index_is(ls: Seq<Seq<char>>, k: int)
    requires
        0 <= k < ls.len(),
        forall|j: int| 0 <= j < k ==> !blank(#[trigger] ls[j]),
        blank(ls[k]),
    ensures
        blank_index(ls) == k,
{
    lemma_blank_index(ls);
    let m = blank_index(ls);
    if m < k {
        assert(!blank(ls[m]));
    } else if k < m {
        assert(!blank(ls[k]));
    }
}

/// The lines behind the start line of a message read back as its fields and
/// its body.
pub proof fn lemma_rest_reads_back(hs: HeaderList, body: Seq<char>)
    requires
        sendable_fields(hs),
    ensures
        parse_rest(lines(header_section(hs) + "\r\n"@ + body)) == Ok::<
            (HeaderList, Option<Seq<char>>),
            ParseErrorView,
        >((hs, body_of(lines(body)))),
{
    let empty = Seq::<char>::empty();
    let tail = empty + "\r\n"@ + body;
    assert(header_section(hs) + "\r\n"@ + body =~= header_section(hs) + tail);
    lemma_section_lines(hs, tail);
    lemma_lines_cons(empty, body);
    let ls = header_lines(hs) + (seq![empty] + lines(body));
    let n = hs.len() as int;
    assert forall|j: int| 0 <= j < n implies !blank(#[trigger] ls[j]) by {
        assert(sendable_name(hs[j].0));
        lemma_header_line(hs[j]);
        assert(ls[j] == header_text(hs[j]));
    }
    assert(ls[n] == empty);
    lemma_blank_index_is(ls, n);
    assert(ls.take(n) =~= header_lines(hs));
    assert(ls.skip(n + 1) =~= lines(body));
    lemma_fields_read_back(hs);
    assert forall|i: int| 0 <= i < n implies cut(
        #[trigger] header_lines(hs)[i],
        ':',
    ) is Some by {
        assert(sendable_name(hs[i].0));
        lemma_header_line(hs[i]);
    }
    lemma_no_bad_line(header_lines(hs));
}

/// Three parts with a space between each two are split into the parts.
pub proof fn lemma_splitn_three(a: Seq<char>, b: Seq<char>, c: Seq<char>)
    requires
        !a.contains(' '),
        !b.contains(' '),
    ensures
        splitn(a + " "@ + b + " "@ + c, 3, ' ') == seq![a, b, c],
{
    reveal_strlit(" ");
    reveal_with_fuel(splitn, 4);
    let t = b + seq![' '] + c;
    let s = a + " "@ + b + " "@ + c;
    assert(s =~= a + seq![' '] + t);
    lemma_cut(a, ' ', t);
    lemma_cut(b, ' ', c);
    assert(splitn(t, 2, ' ') =~= seq![b] + splitn(c, 1, ' '));
    assert(splitn(s, 3, ' ') =~= seq![a] + splitn(t, 2, ' '));
    assert(splitn(s, 3, ' ') =~= seq![a, b, c]);
}

/// A message that is written and read is the message that was written; its
/// body comes back as its lines, joined by carriage return and line feed.
pub proof fn law_message_reads_back(m: MessageView)
    requires
        sendable(m),
    ensures
        parse_message(message_text(m)) == Ok::<MessageView, ParseErrorView>(
            m.with_body(body_of(lines(body_text(m.body())))),
        ),
{
    let rest = header_section(m.headers()) + "\r\n"@ + body_text(m.body());
    let text = message_text(m);
    let start = start_line(m);
    assert(text =~= start + "\r\n"@ + rest);
    lemma_lines_cons(start, rest);
    assert(lines(text)[0] == start);
    assert(lines(text).skip(1) =~= lines(rest));
    lemma_rest_reads_back(m.headers(), body_text(m.body()));
    match m {
        MessageView::Request(r) => {
            lemma_splitn_three(r.method.text(), r.uri, r.version);
        },
        MessageView::Response(r) => {
            let d = dec(r.status as nat);
            lemma_dec_digits(r.status as nat);
            assert(!d.contains(' ')) by {
                if d.contains(' ') {
                    let i = choose|i: int| 0 <= i < d.len() && d[i] == ' ';
                    assert(is_digit(d[i]));
                }
            }
            lemma_splitn_three(r.version, d, r.reason);
            lemma_dec_reads_back(r.status as nat, u16::MAX as nat);
        },
    }
}

/// Where the characters of a text are known, so is what trimming and case make
/// of it.
proof fn lemma_plain_name(k: NameView, t: Seq<char>, low: Seq<char>)
    requires
        k.text() == t,
        t.len() > 0,
        low == ascii_lowered(t),
        NameView::of_lower(low) == k,
        forall|i: int| 0 <= i < t.len() ==> plain(#[trigger] t[i]),
    ensures
        sendable_name(k),
{
    assert(is_ascii_chars(t));
    assert(plain(t[0]));
    assert(plain(t[t.len() - 1]));
    lemma_trimmed_id(t);
    if t.contains(':') {
        let i = choose|i: int| 0 <= i < t.len() && t[i] == ':';
        assert(plain(t[i]));
    }
    if t.contains('\n') {
        let i = choose|i: int| 0 <= i < t.len() && t[i] == '\n';
        assert(plain(t[i]));
    }
}

/// A letter or a hyphen.
pub open spec fn plain(c: char) -> bool {
    'a' <= c <= 'z' || 'A' <= c <= 'Z' || c == '-'
}

/// Each header name that has a variant of its own reads back as itself.
#[verifier::rlimit(50)]
pub proof fn law_known_name_sendable(k: NameView)
    requires
        !(k is Other),
    ensures
        sendable_name(k),
{
    reveal_strlit("Via");
    reveal_strlit("via");
    reveal_strlit("v");
    reveal_strlit("From");
    reveal_strlit("from");
    reveal_strlit("f");
    reveal_strlit("To");
    reveal_strlit("to");
    reveal_strlit("t");
    reveal_strlit("Call-ID");
    reveal_strlit("call-id");
    reveal_strlit("i");
    reveal_strlit("CSeq");
    reveal_strlit("cseq");
    reveal_strlit("Contact");
    reveal_strlit("contact");
    reveal_strlit("m");
    reveal_strlit("Max-Forwards");
    reveal_strlit("max-forwards");
    reveal_strlit("Content-Type");
    reveal_strlit("content-type");
    reveal_strlit("c");
    reveal_strlit("Content-Length");
    reveal_strlit("content-length");
    reveal_strlit("l");
    reveal_strlit("Authorization");
    reveal_strlit("authorization");
    reveal_strlit("WWW-Authenticate");
    reveal_strlit("www-authenticate");
    reveal_strlit("Proxy-Authenticate");
    reveal_strlit("proxy-authenticate");
    reveal_strlit("Proxy-Authorization");
    reveal_strlit("proxy-authorization");
    reveal_strlit("Expires");
    reveal_strlit("expires");
    reveal_strlit("User-Agent");
    reveal_strlit("user-agent");
    reveal_strlit("Allow");
    reveal_strlit("allow");
    reveal_strlit("Supported");
    reveal_strlit("supported");
    reveal_strlit("k");
    reveal_strlit("Require");
    reveal_strlit("require");
    reveal_strlit("RAck");
    reveal_strlit("rack");
    reveal_strlit("RSeq");
    reveal_strlit("rseq");
    reveal_strlit("Refer-To");
    reveal_strlit("refer-to");
    reveal_strlit("r");
    reveal_strlit("Referred-By");
    reveal_strlit("referred-by");
    reveal_strlit("b");
    reveal_strlit("Event");
    reveal_strlit("event");
    reveal_strlit("o");
    reveal_strlit("Subscription-State");
    reveal_strlit("subscription-state");
    match k {
        NameView::Via => {
            assert("via"@ =~= ascii_lowered("Via"@));
            lemma_plain_name(k, "Via"@, "via"@);
        },
        NameView::From => {
            assert("from"@ =~= ascii_lowered("From"@));
            lemma_plain_name(k, "From"@, "from"@);
        },
        NameView::To => {
            assert("to"@ =~= ascii_lowered("To"@));
            lemma_plain_name(k, "To"@, "to"@);
        },
        NameView::CallId => {
            assert("call-id"@ =~= ascii_lowered("Call-ID"@));
            lemma_plain_name(k, "Call-ID"@, "call-id"@);
        },
        NameView::CSeq => {
            assert("cseq"@ =~= ascii_lowered("CSeq"@));
            assert("cseq"@[0] != "from"@[0]);
            lemma_plain_name(k, "CSeq"@, "cseq"@);
        },
        NameView::Contact => {
            assert("contact"@ =~= ascii_lowered("Contact"@));
            assert("contact"@[1] != "call-id"@[1]);
            lemma_plain_name(k, "Contact"@, "contact"@);
        },
        NameView::MaxForwards => {
            assert("max-forwards"@ =~= ascii_lowered("Max-Forwards"@));
            lemma_plain_name(k, "Max-Forwards"@, "max-forwards"@);
        },
        NameView::ContentType => {
            assert("content-type"@ =~= ascii_lowered("Content-Type"@));
            assert("content-type"@[0] != "max-forwards"@[0]);
            lemma_plain_name(k, "Content-Type"@, "content-type"@);
        },
        NameView::ContentLength => {
            assert("content-length"@ =~= ascii_lowered("Content-Length"@));
            lemma_plain_name(k, "Content-Length"@, "content-length"@);
        },
        NameView::Authorization => {
            assert("authorization"@ =~= ascii_lowered("Authorization"@));
            lemma_plain_name(k, "Authorization"@, "authorization"@);
        },
        NameView::WwwAuthenticate => {
            assert("www-authenticate"@ =~= ascii_lowered("WWW-Authenticate"@));
            lemma_plain_name(k, "WWW-Authenticate"@, "www-authenticate"@);
        },
        NameView::ProxyAuthenticate => {
            assert("proxy-authenticate"@ =~= ascii_lowered("Proxy-Authenticate"@));
            lemma_plain_name(k, "Proxy-Authenticate"@, "proxy-authenticate"@);
        },
        NameView::ProxyAuthorization => {
            assert("proxy-authorization"@ =~= ascii_lowered("Proxy-Authorization"@));
            lemma_plain_name(k, "Proxy-Authorization"@, "proxy-authorization"@);
        },
        NameView::Expires => {
            assert("expires"@ =~= ascii_lowered("Expires"@));
            assert("expires"@[0] != "call-id"@[0]);
            assert("expires"@[0] != "contact"@[0]);
            lemma_plain_name(k, "Expires"@, "expires"@);
        },
        NameView::UserAgent => {
            assert("user-agent"@ =~= ascii_lowered("User-Agent"@));
            lemma_plain_name(k, "User-Agent"@, "user-agent"@);
        },
        NameView::Allow => {
            assert("allow"@ =~= ascii_lowered("Allow"@));
            lemma_plain_name(k, "Allow"@, "allow"@);
        },
        NameView::Supported => {
            assert("supported"@ =~= ascii_lowered("Supported"@));
            lemma_plain_name(k, "Supported"@, "supported"@);
        },
        NameView::Require => {
            assert("require"@ =~= ascii_lowered("Require"@));
            assert("require"@[0] != "call-id"@[0]);
            assert("require"@[0] != "contact"@[0]);
            assert("require"@[0] != "expires"@[0]);
            lemma_plain_name(k, "Require"@, "require"@);
        },
        NameView::RAck => {
            assert("rack"@ =~= ascii_lowered("RAck"@));
            assert("rack"@[0] != "from"@[0]);
            assert("rack"@[0] != "cseq"@[0]);
            lemma_plain_name(k, "RAck"@, "rack"@);
        },
        NameView::RSeq => {
            assert("rseq"@ =~= ascii_lowered("RSeq"@));
            assert("rseq"@[0] != "from"@[0]);
            assert("rseq"@[0] != "cseq"@[0]);
            assert("rseq"@[1] != "rack"@[1]);
            lemma_plain_name(k, "RSeq"@, "rseq"@);
        },
        NameView::ReferTo => {
            assert("refer-to"@ =~= ascii_lowered("Refer-To"@));
            lemma_plain_name(k, "Refer-To"@, "refer-to"@);
        },
        NameView::ReferredBy => {
            assert("referred-by"@ =~= ascii_lowered("Referred-By"@));
            lemma_plain_name(k, "Referred-By"@, "referred-by"@);
        },
        NameView::Event => {
            assert("event"@ =~= ascii_lowered("Event"@));
            assert("event"@[0] != "allow"@[0]);
            lemma_plain_name(k, "Event"@, "event"@);
        },
        NameView::SubscriptionState => {
            assert("subscription-state"@ =~= ascii_lowered("Subscription-State"@));
            assert("subscription-state"@[0] != "proxy-authenticate"@[0]);
            lemma_plain_name(k, "Subscription-State"@, "subscription-state"@);
        },
        NameView::Other(_) => {},
    }
}

/// Each method that has a variant of its own reads back as itself, and has no
/// space in it.
pub proof fn law_known_method_reads_back(k: MethodView)
    requires
        !(k is Other),
    ensures
        MethodView::parse(k.text()) == k,
        forall|i: int| 0 <= i < k.text().len() ==> 'A' <= (#[trigger] k.text()[i]) <= 'Z',
        k.text().len() > 0,
{
    reveal_strlit("REGISTER");
    reveal_strlit("INVITE");
    reveal_strlit("ACK");
    reveal_strlit("BYE");
    reveal_strlit("CANCEL");
    reveal_strlit("OPTIONS");
    reveal_strlit("INFO");
    reveal_strlit("PRACK");
    reveal_strlit("REFER");
    reveal_strlit("NOTIFY");
    let t = k.text();
    match k {
        MethodView::Register => {
        },
        MethodView::Invite => {
        },
        MethodView::Ack => {
        },
        MethodView::Bye => {
            assert("BYE"@[0] != "ACK"@[0]);
        },
        MethodView::Cancel => {
            assert("CANCEL"@[0] != "INVITE"@[0]);
        },
        MethodView::Options => {
        },
        MethodView::Info => {
        },
        MethodView::Prack => {
        },
        MethodView::Refer => {
            assert("REFER"@[0] != "PRACK"@[0]);
        },
        MethodView::Notify => {
            assert("NOTIFY"@[0] != "INVITE"@[0]);
            assert("NOTIFY"@[0] != "CANCEL"@[0]);
        },
        MethodView::Other(_) => {},
    }
    assert(is_ascii_chars(t));
    assert(ascii_uppered(t) =~= t);
}

} // verus!
