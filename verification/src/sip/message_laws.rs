//! What holds of header fields, messages, dialogs and transactions, stated in the
//! texts and numbers that go over the network.
use crate::case::{lower, upper};
use crate::net::EndpointView;
use crate::number::{dec, uint_of};
use crate::phone::call::lemma_reply_finds;
use crate::phone::laws::{lemma_param_append, lemma_split_append};
use crate::sip::dialog::{after_response, belongs, dialog_of_invite, DialogState, DialogView};
use crate::sip::header::{
    headers_text, law_get_is_first, law_set_get, lemma_position, lemma_position_is, lookup,
    lookup_all, param_in, param_of, uri_of, with_field, HeaderList, NameView,
};
use crate::sip::message::{
    bad_line, blank_index, built_request, built_response, cseq_of, fields_of, header_section,
    message_text, parse_message, parse_rest, reason_of, reply_fields, MessageView, MethodView,
    ParseErrorView, RequestDraft, RequestView, ResponseDraft, ResponseView,
};
use crate::sip::transaction::{
    client_step, doubled, in_transaction, interval, retransmits, server_step, timed_out,
    transaction_of, TransactionAction, TransactionKind, TransactionState, TransactionView,
};
use crate::sip::transport::{host_port, sip_host_port};
use crate::text::{
    after_last, begins_with, first_index, join, law_prefix, law_separated, law_trimmed, lemma_first_index,
    lemma_first_index_is, lemma_trimmed_id, lines, split, splitn, trimmed,
};
use vstd::prelude::*;
use vstd::utf8::encode_utf8;

verus! {

// ---------------------------------------------------------------------------
// Header fields
// ---------------------------------------------------------------------------

/// The names of the header fields as they are written.
pub proof fn law_field_names()
    ensures
        NameView::Via.text() == "Via"@,
        NameView::From.text() == "From"@,
        NameView::To.text() == "To"@,
        NameView::CallId.text() == "Call-ID"@,
        NameView::CSeq.text() == "CSeq"@,
        NameView::Contact.text() == "Contact"@,
        NameView::MaxForwards.text() == "Max-Forwards"@,
        NameView::ContentType.text() == "Content-Type"@,
        NameView::ContentLength.text() == "Content-Length"@,
        NameView::Authorization.text() == "Authorization"@,
        NameView::WwwAuthenticate.text() == "WWW-Authenticate"@,
        NameView::ProxyAuthenticate.text() == "Proxy-Authenticate"@,
        NameView::ProxyAuthorization.text() == "Proxy-Authorization"@,
        NameView::Expires.text() == "Expires"@,
        NameView::UserAgent.text() == "User-Agent"@,
        NameView::Allow.text() == "Allow"@,
        NameView::Supported.text() == "Supported"@,
        NameView::Require.text() == "Require"@,
        NameView::RAck.text() == "RAck"@,
        NameView::RSeq.text() == "RSeq"@,
        NameView::ReferTo.text() == "Refer-To"@,
        NameView::ReferredBy.text() == "Referred-By"@,
        NameView::Event.text() == "Event"@,
        NameView::SubscriptionState.text() == "Subscription-State"@,
{
}

/// The names of the header fields as they are read: in any case, and in their short
/// form where there is one.
pub proof fn law_field_names_read(s: Seq<char>)
    ensures
        lower(s) == "via"@ || lower(s) == "v"@ ==> NameView::parse(s) == NameView::Via,
        lower(s) == "from"@ || lower(s) == "f"@ ==> NameView::parse(s) == NameView::From,
        lower(s) == "to"@ || lower(s) == "t"@ ==> NameView::parse(s) == NameView::To,
        lower(s) == "call-id"@ || lower(s) == "i"@ ==> NameView::parse(s) == NameView::CallId,
        lower(s) == "cseq"@ ==> NameView::parse(s) == NameView::CSeq,
        lower(s) == "contact"@ || lower(s) == "m"@ ==> NameView::parse(s) == NameView::Contact,
        lower(s) == "max-forwards"@ ==> NameView::parse(s) == NameView::MaxForwards,
        lower(s) == "content-type"@ || lower(s) == "c"@ ==> NameView::parse(s) == NameView::ContentType,
        lower(s) == "content-length"@ || lower(s) == "l"@ ==> NameView::parse(s) == NameView::ContentLength,
        lower(s) == "authorization"@ ==> NameView::parse(s) == NameView::Authorization,
        lower(s) == "www-authenticate"@ ==> NameView::parse(s) == NameView::WwwAuthenticate,
        lower(s) == "proxy-authenticate"@ ==> NameView::parse(s) == NameView::ProxyAuthenticate,
        lower(s) == "proxy-authorization"@ ==> NameView::parse(s) == NameView::ProxyAuthorization,
        lower(s) == "expires"@ ==> NameView::parse(s) == NameView::Expires,
        lower(s) == "user-agent"@ ==> NameView::parse(s) == NameView::UserAgent,
        lower(s) == "allow"@ ==> NameView::parse(s) == NameView::Allow,
        lower(s) == "supported"@ || lower(s) == "k"@ ==> NameView::parse(s) == NameView::Supported,
        lower(s) == "require"@ ==> NameView::parse(s) == NameView::Require,
        lower(s) == "rack"@ ==> NameView::parse(s) == NameView::RAck,
        lower(s) == "rseq"@ ==> NameView::parse(s) == NameView::RSeq,
        lower(s) == "refer-to"@ || lower(s) == "r"@ ==> NameView::parse(s) == NameView::ReferTo,
        lower(s) == "referred-by"@ || lower(s) == "b"@ ==> NameView::parse(s) == NameView::ReferredBy,
        lower(s) == "event"@ || lower(s) == "o"@ ==> NameView::parse(s) == NameView::Event,
        lower(s) == "subscription-state"@ ==> NameView::parse(s) == NameView::SubscriptionState,
{
    reveal_strlit("allow");
    reveal_strlit("authorization");
    reveal_strlit("b");
    reveal_strlit("c");
    reveal_strlit("call-id");
    reveal_strlit("contact");
    reveal_strlit("content-length");
    reveal_strlit("content-type");
    reveal_strlit("cseq");
    reveal_strlit("event");
    reveal_strlit("expires");
    reveal_strlit("f");
    reveal_strlit("from");
    reveal_strlit("i");
    reveal_strlit("k");
    reveal_strlit("l");
    reveal_strlit("m");
    reveal_strlit("max-forwards");
    reveal_strlit("o");
    reveal_strlit("proxy-authenticate");
    reveal_strlit("proxy-authorization");
    reveal_strlit("r");
    reveal_strlit("rack");
    reveal_strlit("refer-to");
    reveal_strlit("referred-by");
    reveal_strlit("require");
    reveal_strlit("rseq");
    reveal_strlit("subscription-state");
    reveal_strlit("supported");
    reveal_strlit("t");
    reveal_strlit("to");
    reveal_strlit("user-agent");
    reveal_strlit("v");
    reveal_strlit("via");
    reveal_strlit("www-authenticate");
    assert("allow"@.len() == 5 && "allow"@[0] == 'a' && "allow"@[2] == 'l' && "allow"@[4] == 'w');
    assert("authorization"@.len() == 13 && "authorization"@[0] == 'a' && "authorization"@[6] == 'i' && "authorization"@[12] == 'n');
    assert("b"@.len() == 1 && "b"@[0] == 'b');
    assert("c"@.len() == 1 && "c"@[0] == 'c');
    assert("call-id"@.len() == 7 && "call-id"@[0] == 'c' && "call-id"@[3] == 'l' && "call-id"@[6] == 'd');
    assert("contact"@.len() == 7 && "contact"@[0] == 'c' && "contact"@[3] == 't' && "contact"@[6] == 't');
    assert("content-length"@.len() == 14 && "content-length"@[0] == 'c' && "content-length"@[7] == '-' && "content-length"@[13] == 'h');
    assert("content-type"@.len() == 12 && "content-type"@[0] == 'c' && "content-type"@[6] == 't' && "content-type"@[11] == 'e');
    assert("cseq"@.len() == 4 && "cseq"@[0] == 'c' && "cseq"@[2] == 'e' && "cseq"@[3] == 'q');
    assert("event"@.len() == 5 && "event"@[0] == 'e' && "event"@[2] == 'e' && "event"@[4] == 't');
    assert("expires"@.len() == 7 && "expires"@[0] == 'e' && "expires"@[3] == 'i' && "expires"@[6] == 's');
    assert("f"@.len() == 1 && "f"@[0] == 'f');
    assert("from"@.len() == 4 && "from"@[0] == 'f' && "from"@[2] == 'o' && "from"@[3] == 'm');
    assert("i"@.len() == 1 && "i"@[0] == 'i');
    assert("k"@.len() == 1 && "k"@[0] == 'k');
    assert("l"@.len() == 1 && "l"@[0] == 'l');
    assert("m"@.len() == 1 && "m"@[0] == 'm');
    assert("max-forwards"@.len() == 12 && "max-forwards"@[0] == 'm' && "max-forwards"@[6] == 'r' && "max-forwards"@[11] == 's');
    assert("o"@.len() == 1 && "o"@[0] == 'o');
    assert("proxy-authenticate"@.len() == 18 && "proxy-authenticate"@[0] == 'p' && "proxy-authenticate"@[9] == 'h' && "proxy-authenticate"@[17] == 'e');
    assert("proxy-authorization"@.len() == 19 && "proxy-authorization"@[0] == 'p' && "proxy-authorization"@[9] == 'h' && "proxy-authorization"@[18] == 'n');
    assert("r"@.len() == 1 && "r"@[0] == 'r');
    assert("rack"@.len() == 4 && "rack"@[0] == 'r' && "rack"@[2] == 'c' && "rack"@[3] == 'k');
    assert("refer-to"@.len() == 8 && "refer-to"@[0] == 'r' && "refer-to"@[4] == 'r' && "refer-to"@[7] == 'o');
    assert("referred-by"@.len() == 11 && "referred-by"@[0] == 'r' && "referred-by"@[5] == 'r' && "referred-by"@[10] == 'y');
    assert("require"@.len() == 7 && "require"@[0] == 'r' && "require"@[3] == 'u' && "require"@[6] == 'e');
    assert("rseq"@.len() == 4 && "rseq"@[0] == 'r' && "rseq"@[2] == 'e' && "rseq"@[3] == 'q');
    assert("subscription-state"@.len() == 18 && "subscription-state"@[0] == 's' && "subscription-state"@[9] == 'i' && "subscription-state"@[17] == 'e');
    assert("supported"@.len() == 9 && "supported"@[0] == 's' && "supported"@[4] == 'o' && "supported"@[8] == 'd');
    assert("t"@.len() == 1 && "t"@[0] == 't');
    assert("to"@.len() == 2 && "to"@[0] == 't' && "to"@[1] == 'o');
    assert("user-agent"@.len() == 10 && "user-agent"@[0] == 'u' && "user-agent"@[5] == 'a' && "user-agent"@[9] == 't');
    assert("v"@.len() == 1 && "v"@[0] == 'v');
    assert("via"@.len() == 3 && "via"@[0] == 'v' && "via"@[1] == 'i' && "via"@[2] == 'a');
    assert("www-authenticate"@.len() == 16 && "www-authenticate"@[0] == 'w' && "www-authenticate"@[8] == 'e' && "www-authenticate"@[15] == 'e');
}

/// The names of the methods as they are written, and as they are read, in any case.
pub proof fn law_method_names(s: Seq<char>)
    ensures
        MethodView::Register.text() == "REGISTER"@,
        MethodView::Invite.text() == "INVITE"@,
        MethodView::Ack.text() == "ACK"@,
        MethodView::Bye.text() == "BYE"@,
        MethodView::Cancel.text() == "CANCEL"@,
        MethodView::Options.text() == "OPTIONS"@,
        MethodView::Info.text() == "INFO"@,
        MethodView::Prack.text() == "PRACK"@,
        MethodView::Refer.text() == "REFER"@,
        MethodView::Notify.text() == "NOTIFY"@,
        upper(s) == "REGISTER"@ ==> MethodView::parse(s) == MethodView::Register,
        upper(s) == "INVITE"@ ==> MethodView::parse(s) == MethodView::Invite,
        upper(s) == "ACK"@ ==> MethodView::parse(s) == MethodView::Ack,
        upper(s) == "BYE"@ ==> MethodView::parse(s) == MethodView::Bye,
        upper(s) == "CANCEL"@ ==> MethodView::parse(s) == MethodView::Cancel,
        upper(s) == "OPTIONS"@ ==> MethodView::parse(s) == MethodView::Options,
        upper(s) == "INFO"@ ==> MethodView::parse(s) == MethodView::Info,
        upper(s) == "PRACK"@ ==> MethodView::parse(s) == MethodView::Prack,
        upper(s) == "REFER"@ ==> MethodView::parse(s) == MethodView::Refer,
        upper(s) == "NOTIFY"@ ==> MethodView::parse(s) == MethodView::Notify,
{
    reveal_strlit("REGISTER");
    reveal_strlit("INVITE");
    reveal_strlit("ACK");
    reveal_strlit("BYE");
    reveal_strlit("CANCEL");
    reveal_strlit("OPTIONS");
    reveal_strlit("INFO");
    reveal_strlit("PRACK");
    reveal_strlit("REFER");
    reveal_strlit("NOTIFY");
    assert("REGISTER"@.len() == 8 && "REGISTER"@[0] == 'R' && "REGISTER"@[4] == 'S' && "REGISTER"@[7] == 'R');
    assert("INVITE"@.len() == 6 && "INVITE"@[0] == 'I' && "INVITE"@[3] == 'I' && "INVITE"@[5] == 'E');
    assert("ACK"@.len() == 3 && "ACK"@[0] == 'A' && "ACK"@[1] == 'C' && "ACK"@[2] == 'K');
    assert("BYE"@.len() == 3 && "BYE"@[0] == 'B' && "BYE"@[1] == 'Y' && "BYE"@[2] == 'E');
    assert("CANCEL"@.len() == 6 && "CANCEL"@[0] == 'C' && "CANCEL"@[3] == 'C' && "CANCEL"@[5] == 'L');
    assert("OPTIONS"@.len() == 7 && "OPTIONS"@[0] == 'O' && "OPTIONS"@[3] == 'I' && "OPTIONS"@[6] == 'S');
    assert("INFO"@.len() == 4 && "INFO"@[0] == 'I' && "INFO"@[2] == 'F' && "INFO"@[3] == 'O');
    assert("PRACK"@.len() == 5 && "PRACK"@[0] == 'P' && "PRACK"@[2] == 'A' && "PRACK"@[4] == 'K');
    assert("REFER"@.len() == 5 && "REFER"@[0] == 'R' && "REFER"@[2] == 'F' && "REFER"@[4] == 'R');
    assert("NOTIFY"@.len() == 6 && "NOTIFY"@[0] == 'N' && "NOTIFY"@[3] == 'I' && "NOTIFY"@[5] == 'Y');
}

/// The names of the status codes.
pub proof fn law_reasons(code: u16)
    ensures
        code == 100 ==> reason_of(code) == "Trying"@,
        code == 180 ==> reason_of(code) == "Ringing"@,
        code == 183 ==> reason_of(code) == "Session Progress"@,
        code == 200 ==> reason_of(code) == "OK"@,
        code == 400 ==> reason_of(code) == "Bad Request"@,
        code == 401 ==> reason_of(code) == "Unauthorized"@,
        code == 403 ==> reason_of(code) == "Forbidden"@,
        code == 404 ==> reason_of(code) == "Not Found"@,
        code == 408 ==> reason_of(code) == "Request Timeout"@,
        code == 486 ==> reason_of(code) == "Busy Here"@,
        code == 500 ==> reason_of(code) == "Server Internal Error"@,
        code != 100 && code != 180 && code != 183 && code != 200 && code != 400 && code != 401 && code != 403 && code != 404 && code != 408 && code != 486 && code != 500 ==> reason_of(code) == "Unknown"@,
{
}

/// A field is written with its name, a colon, a blank and its value; fields are
/// written in their order, each on a line that ends in both line ends.
pub proof fn law_fields_written(hs: HeaderList, name: NameView, value: Seq<char>)
    ensures
        header_section(Seq::empty()).len() == 0,
        header_section(hs.push((name, value))) == header_section(hs) + (name.text() + ": "@
            + value) + "\r\n"@,
        headers_text(hs.push((name, value))) == headers_text(hs) + (name.text() + ": "@ + value)
            + "\n"@,
{
    assert(hs.push((name, value)).drop_last() =~= hs);
}

/// A field that is set takes the place of the first of its name, and else comes last;
/// the number of fields grows by no more than that one.
pub proof fn law_field_set(hs: HeaderList, name: NameView, value: Seq<char>, p: int)
    requires
        0 <= p <= hs.len(),
        forall|j: int| 0 <= j < p ==> (#[trigger] hs[j]).0 != name,
        p < hs.len() ==> hs[p].0 == name,
    ensures
        p < hs.len() ==> lookup(hs, name) == Some(hs[p].1),
        p == hs.len() ==> lookup(hs, name) is None,
        p < hs.len() ==> with_field(hs, name, value) == hs.update(p, (name, value)),
        p == hs.len() ==> with_field(hs, name, value) == hs.push((name, value)),
{
    lemma_position_is(hs, name, p);
}

/// All values of a name are found, in the order of their fields.
pub proof fn law_all_values(hs: HeaderList, name: NameView, h: (NameView, Seq<char>))
    ensures
        lookup_all(Seq::empty(), name).len() == 0,
        h.0 == name ==> lookup_all(hs.push(h), name) == lookup_all(hs, name).push(h.1),
        h.0 != name ==> lookup_all(hs.push(h), name) == lookup_all(hs, name),
{
    assert(hs.push(h).drop_last() =~= hs);
}

/// The address of a value stands between its first angle brackets.
pub proof fn law_angled_address(a: Seq<char>, uri: Seq<char>, rest: Seq<char>)
    requires
        !a.contains('<'),
        !a.contains('>'),
        !uri.contains('>'),
    ensures
        uri_of(a + seq!['<'] + uri + seq!['>'] + rest) == Some(uri),
{
    let v = a + seq!['<'] + uri + seq!['>'] + rest;
    let o = a.len() as int;
    let k = o + 1 + uri.len();
    assert forall|j: int| 0 <= j < o implies v[j] != '<' && v[j] != '>' by {
        assert(v[j] == a[j]);
        assert(a.contains(a[j]));
    }
    assert forall|j: int| 0 <= j < k implies v[j] != '>' by {
        if j > o {
            assert(v[j] == uri[j - o - 1]);
            assert(uri.contains(uri[j - o - 1]));
        }
    }
    lemma_first_index_is(v, '<', o);
    lemma_first_index_is(v, '>', k);
    assert(v.subrange(o + 1, k) =~= uri);
}

/// A value without angle brackets is an address up to its first semicolon, if it
/// begins with a scheme, and else it has none.
pub proof fn law_bare_address(a: Seq<char>, rest: Seq<char>)
    requires
        !a.contains('<'),
        !rest.contains('<'),
        !a.contains(';'),
        a.len() > 0,
        '!' <= a[0] <= '~',
        '!' <= a.last() <= '~',
    ensures
        ({
            let scheme = (a.len() >= 4 && a.subrange(0, 4) == "sip:"@) || (a.len() >= 5
                && a.subrange(0, 5) == "sips:"@);
            &&& scheme ==> uri_of(a) == Some(a) && uri_of(a + seq![';'] + rest) == Some(a)
            &&& !scheme ==> uri_of(a) is None && uri_of(a + seq![';'] + rest) is None
        }),
{
    reveal_strlit("sip:");
    reveal_strlit("sips:");
    let v = a + seq![';'] + rest;
    assert forall|j: int| 0 <= j < v.len() implies v[j] != '<' by {
        if j < a.len() {
            assert(v[j] == a[j]);
            assert(a.contains(a[j]));
        } else if j > a.len() {
            assert(v[j] == rest[j - a.len() - 1]);
            assert(rest.contains(rest[j - a.len() - 1]));
        }
    }
    assert forall|j: int| 0 <= j < a.len() implies a[j] != '<' by {
        assert(a.contains(a[j]));
    }
    lemma_first_index_is(v, '<', v.len() as int);
    lemma_first_index_is(a, '<', a.len() as int);
    law_separated(a, ';', rest, 2);
    lemma_trimmed_id(a);
    if a.len() >= 4 {
        assert(a.take(4) =~= a.subrange(0, 4));
    }
    if a.len() >= 5 {
        assert(a.take(5) =~= a.subrange(0, 5));
    }
}

/// A parameter of a value is what follows its name, up to the next semicolon,
/// wherever among the parameters it stands; of two with one name the first counts.
pub proof fn law_param_found(a: Seq<char>, name: Seq<char>, v: Seq<char>, rest: Seq<char>)
    requires
        param_of(a, name) is None,
        name.len() > 0,
        !name.contains(';'),
        !v.contains(';'),
        '!' <= name[0] <= '~',
        '!' <= name.last() <= '~',
        v.len() > 0 ==> '!' <= v.last() <= '~',
    ensures
        param_of(a + seq![';'] + (name + v), name) == Some(v),
        param_of(a + seq![';'] + (name + v + seq![';'] + rest), name) == Some(v),
{
    let p = name + v;
    assert(!p.contains(';')) by {
        assert forall|j: int| 0 <= j < p.len() implies p[j] != ';' by {
            if j < name.len() {
                assert(name.contains(name[j]));
            } else {
                assert(v.contains(v[j - name.len()]));
            }
        }
    }
    assert(p.last() == if v.len() > 0 {
        v.last()
    } else {
        name.last()
    });
    lemma_trimmed_id(p);
    law_prefix(name, v, p);
    law_separated(p, ';', rest, 2);
    lemma_split_append(a, p, ';');
    lemma_split_append(a, p + seq![';'] + rest, ';');
    let s1 = split(a, ';');
    lemma_param_append(s1, split(p, ';'), name);
    lemma_param_append(s1, split(p + seq![';'] + rest, ';'), name);
    assert(split(p, ';')[0] == p);
    assert(split(p + seq![';'] + rest, ';')[0] == p);
    assert(param_in(split(p, ';'), name) == Some(v));
    assert(param_in(split(p + seq![';'] + rest, ';'), name) == Some(v));
}

/// Blanks around a parameter are none of it.
pub proof fn law_param_spaced(a: Seq<char>, name: Seq<char>, v: Seq<char>)
    requires
        param_of(a, name) is None,
        name.len() > 0,
        !name.contains(';'),
        !v.contains(';'),
        '!' <= name[0] <= '~',
        '!' <= name.last() <= '~',
        v.len() > 0 ==> '!' <= v.last() <= '~',
    ensures
        param_of(a + seq![';'] + (seq![' '] + (name + v) + seq![' ']), name) == Some(v),
{
    let p = name + v;
    let s = seq![' '] + p + seq![' '];
    assert(p.last() == if v.len() > 0 {
        v.last()
    } else {
        name.last()
    });
    law_trimmed(seq![' '], p, seq![' ']);
    assert(!s.contains(';')) by {
        assert forall|j: int| 0 <= j < s.len() implies s[j] != ';' by {
            if 1 <= j <= name.len() {
                assert(s[j] == name[j - 1]);
                assert(name.contains(name[j - 1]));
            } else if name.len() < j <= p.len() {
                assert(s[j] == v[j - 1 - name.len()]);
                assert(v.contains(v[j - 1 - name.len()]));
            }
        }
    }
    law_prefix(name, v, p);
    law_separated(s, ';', s, 2);
    lemma_split_append(a, s, ';');
    lemma_param_append(split(a, ';'), split(s, ';'), name);
    assert(split(s, ';')[0] == s);
    assert(param_in(split(s, ';'), name) == Some(v));
}

// ---------------------------------------------------------------------------
// Messages
// ---------------------------------------------------------------------------

/// A message is written with its first line, its fields, an empty line and its body.
pub proof fn law_message_written(req: RequestView, res: ResponseView)
    ensures
        req.body is Some ==> message_text(MessageView::Request(req)) == req.method.text() + " "@
            + req.uri + " "@ + req.version + "\r\n"@ + header_section(req.headers) + "\r\n"@
            + req.body->0,
        req.body is None ==> message_text(MessageView::Request(req)) == req.method.text() + " "@
            + req.uri + " "@ + req.version + "\r\n"@ + header_section(req.headers) + "\r\n"@,
        res.body is Some ==> message_text(MessageView::Response(res)) == res.version + " "@ + dec(
            res.status as nat,
        ) + " "@ + res.reason + "\r\n"@ + header_section(res.headers) + "\r\n"@ + res.body->0,
        res.body is None ==> message_text(MessageView::Response(res)) == res.version + " "@ + dec(
            res.status as nat,
        ) + " "@ + res.reason + "\r\n"@ + header_section(res.headers) + "\r\n"@,
{
    let none = Seq::<char>::empty();
    let q = req.method.text() + " "@ + req.uri + " "@ + req.version + "\r\n"@ + header_section(
        req.headers,
    ) + "\r\n"@;
    let s = res.version + " "@ + dec(res.status as nat) + " "@ + res.reason + "\r\n"@
        + header_section(res.headers) + "\r\n"@;
    assert(q + none =~= q);
    assert(s + none =~= s);
}

/// A message that is built says how many bytes its body has: in its one field for
/// it, which comes last where it was not among the fields.
pub proof fn law_body_length(req: RequestDraft, res: ResponseDraft)
    ensures
        ({
            let m = built_request(req);
            let n = match req.body {
                Some(b) => encode_utf8(b).len(),
                None => 0,
            };
            &&& m->Request_0.method == req.method
            &&& m->Request_0.uri == req.uri
            &&& m->Request_0.version == "SIP/2.0"@
            &&& m.body() == req.body
            &&& lookup(m.headers(), NameView::ContentLength) == Some(dec(n))
            &&& lookup(req.headers, NameView::ContentLength) is None ==> m.headers()
                == req.headers.push((NameView::ContentLength, dec(n)))
        }),
        ({
            let m = built_response(res);
            let n = match res.body {
                Some(b) => encode_utf8(b).len(),
                None => 0,
            };
            &&& m->Response_0.status == res.status
            &&& m->Response_0.version == "SIP/2.0"@
            &&& m->Response_0.reason == reason_of(res.status)
            &&& m.body() == res.body
            &&& lookup(m.headers(), NameView::ContentLength) == Some(dec(n))
            &&& lookup(res.headers, NameView::ContentLength) is None ==> m.headers()
                == res.headers.push((NameView::ContentLength, dec(n)))
        }),
{
    let none = Seq::<char>::empty();
    assert(encode_utf8(none).len() == 0) by {
        reveal_with_fuel(encode_utf8, 2);
    }
    let n1 = match req.body {
        Some(b) => encode_utf8(b).len(),
        None => 0,
    };
    let n2 = match res.body {
        Some(b) => encode_utf8(b).len(),
        None => 0,
    };
    law_set_get(req.headers, NameView::ContentLength, dec(n1));
    law_set_get(res.headers, NameView::ContentLength, dec(n2));
    lemma_position(req.headers, NameView::ContentLength);
    lemma_position(res.headers, NameView::ContentLength);
}

/// A response takes over every Via field of the request in its order, and the first
/// of each field that names the two ends, the call and the request.
pub proof fn law_reply_fields(hs: HeaderList)
    ensures
        lookup_all(reply_fields(hs), NameView::Via) == lookup_all(hs, NameView::Via),
        lookup(reply_fields(hs), NameView::Via) == lookup(hs, NameView::Via),
        lookup(reply_fields(hs), NameView::From) == lookup(hs, NameView::From),
        lookup(reply_fields(hs), NameView::To) == lookup(hs, NameView::To),
        lookup(reply_fields(hs), NameView::CallId) == lookup(hs, NameView::CallId),
        lookup(reply_fields(hs), NameView::CSeq) == lookup(hs, NameView::CSeq),
        forall|i: int|
            0 <= i < reply_fields(hs).len() ==> ({
                let name = (#[trigger] reply_fields(hs)[i]).0;
                name is Via || name is From || name is To || name is CallId || name is CSeq
            }),
{
    let vias = lookup_all(hs, NameView::Via);
    let front = Seq::new(vias.len(), |i: int| (NameView::Via, vias[i]));
    let all = reply_fields(hs);
    let rest = all.skip(vias.len() as int);
    assert(all =~= front + rest);
    assert forall|i: int| 0 <= i < rest.len() implies !((#[trigger] rest[i]).0 is Via) by {}
    lemma_values_of(front, vias, rest);
    lemma_reply_finds(hs, NameView::From);
    lemma_reply_finds(hs, NameView::To);
    lemma_reply_finds(hs, NameView::CallId);
    lemma_reply_finds(hs, NameView::CSeq);
    law_get_is_first(hs, NameView::Via);
    law_get_is_first(all, NameView::Via);
}

proof fn lemma_values_of(front: HeaderList, vias: Seq<Seq<char>>, rest: HeaderList)
    requires
        front == Seq::new(vias.len(), |i: int| (NameView::Via, vias[i])),
        forall|i: int| 0 <= i < rest.len() ==> !((#[trigger] rest[i]).0 is Via),
    ensures
        lookup_all(front + rest, NameView::Via) == vias,
    decreases vias.len() + rest.len(),
{
    let all = front + rest;
    if rest.len() > 0 {
        let fewer = rest.drop_last();
        assert(all.drop_last() =~= front + fewer);
        assert(all.last() == rest[rest.len() - 1]);
        assert forall|i: int| 0 <= i < fewer.len() implies !((#[trigger] fewer[i]).0 is Via) by {
            assert(fewer[i] == rest[i]);
        }
        lemma_values_of(front, vias, fewer);
    } else if vias.len() > 0 {
        let fewer = vias.drop_last();
        let f = Seq::new(fewer.len(), |i: int| (NameView::Via, fewer[i]));
        assert(all.drop_last() =~= f + rest);
        lemma_values_of(f, fewer, rest);
        assert(fewer.push(vias.last()) =~= vias);
    } else {
        assert(all =~= Seq::empty());
        assert(vias =~= Seq::empty());
    }
}

/// A field line is read up to its first colon, with what surrounds the name and the
/// value trimmed away; a line that goes on with the one before it adds no field.
pub proof fn law_field_line(
    ls: Seq<Seq<char>>,
    name: Seq<char>,
    value: Seq<char>,
    more: Seq<char>,
)
    requires
        !name.contains(':'),
        name.len() > 0 ==> name[0] != ' ' && name[0] != '\t',
        more.len() > 0,
        more[0] == ' ' || more[0] == '\t',
    ensures
        fields_of(Seq::empty()).len() == 0,
        fields_of(ls.push(name + seq![':'] + value)) == fields_of(ls).push(
            (NameView::parse(trimmed(name)), trimmed(value)),
        ),
        fields_of(ls.push(more)) == fields_of(ls),
{
    let l = name + seq![':'] + value;
    law_separated(name, ':', value, 2);
    assert(ls.push(l).drop_last() =~= ls);
    assert(ls.push(more).drop_last() =~= ls);
    assert(l[0] == if name.len() > 0 {
        name[0]
    } else {
        ':'
    });
}

/// The fields of a message end at its first blank line. What stands behind it is the
/// body, if that is more than white space. A line before it that is no field and no
/// continuation is an error.
pub proof fn law_fields_and_body(ls: Seq<Seq<char>>, b: int)
    requires
        0 <= b <= ls.len(),
        forall|i: int| 0 <= i < b ==> trimmed(#[trigger] ls[i]).len() > 0,
        b < ls.len() ==> trimmed(ls[b]).len() == 0,
    ensures
        ({
            let head = ls.take(b);
            let text = join(ls.skip(b + 1), "\r\n"@);
            &&& parse_rest(ls) is Err <==> exists|i: int|
                0 <= i < b && !(#[trigger] head[i]).contains(':') && (head[i].len() > 0
                    ==> head[i][0] != ' ' && head[i][0] != '\t')
            &&& parse_rest(ls) is Ok ==> (parse_rest(ls)->Ok_0).0 == fields_of(head)
            &&& parse_rest(ls) is Ok ==> (parse_rest(ls)->Ok_0).1 == (if b + 1 < ls.len()
                && trimmed(text).len() > 0 {
                Some(text)
            } else {
                None
            })
        }),
{
    lemma_blank_index_is(ls, b);
    lemma_bad_line(ls.take(b));
}

proof fn lemma_blank_index_is(ls: Seq<Seq<char>>, b: int)
    requires
        0 <= b <= ls.len(),
        forall|i: int| 0 <= i < b ==> trimmed(#[trigger] ls[i]).len() > 0,
        b < ls.len() ==> trimmed(ls[b]).len() == 0,
    ensures
        blank_index(ls) == b,
    decreases b,
{
    if b > 0 {
        let rest = ls.skip(1);
        assert(trimmed(ls[0]).len() > 0);
        assert forall|i: int| 0 <= i < b - 1 implies trimmed(#[trigger] rest[i]).len() > 0 by {
            assert(rest[i] == ls[i + 1]);
        }
        lemma_blank_index_is(rest, b - 1);
    }
}

proof fn lemma_bad_line(head: Seq<Seq<char>>)
    ensures
        bad_line(head) is Some <==> exists|i: int|
            0 <= i < head.len() && !(#[trigger] head[i]).contains(':') && (head[i].len() > 0
                ==> head[i][0] != ' ' && head[i][0] != '\t'),
    decreases head.len(),
{
    if head.len() > 0 {
        let rest = head.skip(1);
        lemma_bad_line(rest);
        lemma_first_index(head[0], ':');
        let first = head[0];
        assert(first.contains(':') <==> first_index(first, ':') < first.len()) by {
            if first.contains(':') {
                let j = choose|j: int| 0 <= j < first.len() && first[j] == ':';
                assert(first[j] == ':');
            }
        }
        if bad_line(head) is Some {
            if bad_line(rest) is Some {
                let i = choose|i: int|
                    0 <= i < rest.len() && !(#[trigger] rest[i]).contains(':') && (rest[i].len()
                        > 0 ==> rest[i][0] != ' ' && rest[i][0] != '\t');
                assert(head[i + 1] == rest[i]);
            } else {
                assert(!head[0].contains(':'));
            }
        } else {
            assert forall|i: int| 0 <= i < head.len() implies (#[trigger] head[i]).contains(':')
                || (head[i].len() > 0 && (head[i][0] == ' ' || head[i][0] == '\t')) by {
                if i > 0 {
                    assert(head[i] == rest[i - 1]);
                }
            }
        }
    }
}

/// The first line of a request: a method, an address and a version, one blank
/// between each two. With fewer parts the message cannot be read.
pub proof fn law_request_line(
    ls: Seq<Seq<char>>,
    method: Seq<char>,
    uri: Seq<char>,
    version: Seq<char>,
    input: Seq<char>,
)
    requires
        lines(input) == seq![method + seq![' '] + (uri + seq![' '] + version)] + ls,
        !method.contains(' '),
        !uri.contains(' '),
        method.len() > 0,
        version.len() > 0,
        '!' <= method[0] <= '~',
        '!' <= version.last() <= '~',
        !begins_with(method + seq![' '] + (uri + seq![' '] + version), "SIP/"@),
        parse_rest(ls) is Ok,
    ensures
        parse_message(input) == Ok::<MessageView, ParseErrorView>(
            MessageView::Request(
                RequestView {
                    method: MethodView::parse(method),
                    uri,
                    version,
                    headers: (parse_rest(ls)->Ok_0).0,
                    body: (parse_rest(ls)->Ok_0).1,
                },
            ),
        ),
{
    let start = method + seq![' '] + (uri + seq![' '] + version);
    assert(lines(input)[0] == start);
    assert(lines(input).skip(1) =~= ls);
    assert(start.last() == version.last());
    lemma_trimmed_id(start);
    law_separated(method, ' ', uri + seq![' '] + version, 3);
    law_separated(uri, ' ', version, 2);
    assert(splitn(start, 3, ' ') =~= seq![method, uri, version]);
}

/// The first line of a response: a version, a code and a reason, one blank between
/// each two.
pub proof fn law_status_line(
    ls: Seq<Seq<char>>,
    version: Seq<char>,
    code: Seq<char>,
    reason: Seq<char>,
    input: Seq<char>,
)
    requires
        lines(input) == seq![version + seq![' '] + (code + seq![' '] + reason)] + ls,
        !version.contains(' '),
        !code.contains(' '),
        begins_with(version, "SIP/"@),
        reason.len() > 0,
        '!' <= reason.last() <= '~',
        parse_rest(ls) is Ok,
    ensures
        uint_of(code, 0xffff) is Some ==> parse_message(input) == Ok::<
            MessageView,
            ParseErrorView,
        >(
            MessageView::Response(
                ResponseView {
                    version,
                    status: uint_of(code, 0xffff)->0 as u16,
                    reason,
                    headers: (parse_rest(ls)->Ok_0).0,
                    body: (parse_rest(ls)->Ok_0).1,
                },
            ),
        ),
        uint_of(code, 0xffff) is None ==> parse_message(input) == Err::<
            MessageView,
            ParseErrorView,
        >(ParseErrorView::InvalidStatusCode(code)),
{
    let start = version + seq![' '] + (code + seq![' '] + reason);
    reveal_strlit("SIP/");
    assert(lines(input)[0] == start);
    assert(lines(input).skip(1) =~= ls);
    assert(start.last() == reason.last());
    assert(start[0] == version[0]);
    assert(version[0] == version.take(4)[0]);
    lemma_trimmed_id(start);
    assert(start.take(4) =~= version.take(4));
    law_separated(version, ' ', code + seq![' '] + reason, 3);
    law_separated(code, ' ', reason, 2);
    assert(splitn(start, 3, ' ') =~= seq![version, code, reason]);
}

/// A response without a reason has the one that goes with its code; a first line with
/// too few parts, or none at all, is an error.
pub proof fn law_short_first_lines(
    ls: Seq<Seq<char>>,
    version: Seq<char>,
    code: Seq<char>,
    word: Seq<char>,
    input: Seq<char>,
    other: Seq<char>,
)
    requires
        lines(input) == seq![version + seq![' '] + code] + ls,
        !version.contains(' '),
        !code.contains(' '),
        begins_with(version, "SIP/"@),
        code.len() > 0,
        '!' <= code.last() <= '~',
        parse_rest(ls) is Ok,
        lines(other) == seq![word] + ls,
        word.len() > 0,
        '!' <= word[0] <= '~',
        '!' <= word.last() <= '~',
        !word.contains(' '),
        !begins_with(word, "SIP/"@),
    ensures
        uint_of(code, 0xffff) is Some ==> parse_message(input) == Ok::<
            MessageView,
            ParseErrorView,
        >(
            MessageView::Response(
                ResponseView {
                    version,
                    status: uint_of(code, 0xffff)->0 as u16,
                    reason: reason_of(uint_of(code, 0xffff)->0 as u16),
                    headers: (parse_rest(ls)->Ok_0).0,
                    body: (parse_rest(ls)->Ok_0).1,
                },
            ),
        ),
        parse_message(other) == Err::<MessageView, ParseErrorView>(
            ParseErrorView::InvalidStartLine(word),
        ),
        parse_message(Seq::empty()) == Err::<MessageView, ParseErrorView>(
            ParseErrorView::Incomplete,
        ),
{
    reveal_strlit("SIP/");
    let start = version + seq![' '] + code;
    assert(lines(input)[0] == start);
    assert(lines(input).skip(1) =~= ls);
    assert(start.last() == code.last());
    assert(start[0] == version[0]);
    assert(version[0] == version.take(4)[0]);
    lemma_trimmed_id(start);
    assert(start.take(4) =~= version.take(4));
    law_separated(version, ' ', code, 3);
    law_separated(code, ' ', code, 2);
    assert(splitn(start, 3, ' ') =~= seq![version, code]);
    assert(lines(other)[0] == word);
    lemma_trimmed_id(word);
    law_separated(word, ' ', code, 3);
    assert(splitn(word, 3, ' ') =~= seq![word]);
    assert(lines(Seq::<char>::empty()).len() == 0);
}

/// The number and the method of a request are read up to and behind the first blank.
pub proof fn law_cseq_read(n: Seq<char>, method: Seq<char>)
    requires
        !n.contains(' '),
    ensures
        uint_of(n, 0xffff_ffff) is Some ==> cseq_of(n + seq![' '] + method) == Some(
            (uint_of(n, 0xffff_ffff)->0 as u32, MethodView::parse(method)),
        ),
        uint_of(n, 0xffff_ffff) is None ==> cseq_of(n + seq![' '] + method) is None,
        cseq_of(n) is None,
{
    law_separated(n, ' ', method, 2);
    assert(splitn(n + seq![' '] + method, 2, ' ') =~= seq![n, method]);
}

// ---------------------------------------------------------------------------
// Dialogs
// ---------------------------------------------------------------------------

/// An invitation begins a dialog seen from the end that it is for: the caller's tag
/// and address are the remote ones, the address that was called is the local one, and
/// messages go to the caller's contact. One without the fields for that begins none.
pub proof fn law_invited(m: MessageView, tag: Seq<char>)
    requires
        m is Request,
    ensures
        ({
            let hs = m.headers();
            let call = lookup(hs, NameView::CallId);
            let from = lookup(hs, NameView::From);
            let to = lookup(hs, NameView::To);
            let contact = lookup(hs, NameView::Contact);
            let whole = m->Request_0.method is Invite && call is Some && from is Some && to is Some
                && param_of(from->0, "tag="@) is Some && uri_of(from->0) is Some && uri_of(
                to->0,
            ) is Some;
            &&& whole <==> dialog_of_invite(m, tag) is Some
            &&& dialog_of_invite(m, tag) matches Some(d) ==> {
                &&& Some(d.call_id) == call
                &&& d.local_tag == tag
                &&& d.remote_tag == param_of(from->0, "tag="@)
                &&& Some(d.local_uri) == uri_of(to->0)
                &&& Some(d.remote_uri) == uri_of(from->0)
                &&& contact is Some ==> d.remote_target == uri_of(contact->0)
                &&& contact is None ==> d.remote_target is None
                &&& d.local_cseq == 1
                &&& d.remote_cseq is None
                &&& d.state == DialogState::Early
            }
        }),
{
}

/// A response of the call gives the dialog the other end's tag and contact, where it
/// has them, and takes nothing away where it does not.
pub proof fn law_response_learnt(d: DialogView, res: ResponseView)
    requires
        lookup(res.headers, NameView::CallId) == Some(d.call_id),
    ensures
        ({
            let after = after_response(d, MessageView::Response(res));
            let to = lookup(res.headers, NameView::To);
            let contact = lookup(res.headers, NameView::Contact);
            let tag = param_of(to->0, "tag="@);
            &&& to is Some && tag is Some ==> after.remote_tag == tag
            &&& to is None || tag is None ==> after.remote_tag == d.remote_tag
            &&& contact is Some ==> after.remote_target == uri_of(contact->0)
            &&& contact is None ==> after.remote_target == d.remote_target
            &&& res.status < 200 ==> after.state == d.state
            &&& 200 <= res.status < 300 ==> after.state == DialogState::Confirmed
            &&& 300 <= res.status < 700 ==> after.state == DialogState::Terminated
        }),
{
}

/// Messages of another call do not belong to a dialog. Of its own call, a request
/// belongs to it whose tags are those of the two ends, as far as they are known, seen
/// from the other end; a response, whose tags are those of one of them.
pub proof fn law_belongs(d: DialogView, m: MessageView)
    ensures
        ({
            let hs = m.headers();
            let from = lookup(hs, NameView::From);
            let to = lookup(hs, NameView::To);
            let theirs = param_of(from->0, "tag="@);
            let ours = param_of(to->0, "tag="@);
            &&& lookup(hs, NameView::CallId) != Some(d.call_id) ==> !belongs(d, m)
            &&& lookup(hs, NameView::CallId) == Some(d.call_id) ==> {
                &&& from is None || to is None ==> belongs(d, m)
                &&& from is Some && to is Some && m is Request ==> (belongs(d, m) <==> ours == Some(
                    d.local_tag,
                ) && (d.remote_tag is None || theirs == d.remote_tag))
                &&& from is Some && to is Some && m is Response ==> (belongs(d, m)
                    <==> d.remote_tag is None || ours == d.remote_tag || theirs == Some(
                    d.local_tag,
                ))
            }
        }),
{
}

// ---------------------------------------------------------------------------
// Transactions
// ---------------------------------------------------------------------------

/// A request with a branch and a Call-ID opens a transaction of its own: it is named
/// by the branch and the method, and nothing was answered or sent again yet.
pub proof fn law_transaction_opened(
    m: MessageView,
    invite: TransactionKind,
    other: TransactionKind,
)
    ensures
        ({
            let via = lookup(m.headers(), NameView::Via);
            let branch = param_of(via->0, "branch="@);
            let call = lookup(m.headers(), NameView::CallId);
            &&& transaction_of(m, invite, other) is Some <==> m is Request && via is Some
                && branch is Some && call is Some
            &&& transaction_of(m, invite, other) matches Some(t) ==> {
                &&& t.id == branch->0 + ":"@ + m->Request_0.method.text()
                &&& t.kind == (if m->Request_0.method is Invite {
                    invite
                } else {
                    other
                })
                &&& t.state == TransactionState::Trying
                &&& t.method == m->Request_0.method
                &&& Some(t.branch) == branch
                &&& Some(t.call_id) == call
                &&& t.original_request == Some(m)
                &&& t.last_response is None
                &&& t.retransmit_count == 0
            }
        }),
{
}

/// A message belongs to the transaction whose branch its first Via field has, if it
/// is of the same method.
pub proof fn law_transaction_of_message(t: TransactionView, m: MessageView)
    ensures
        ({
            let via = lookup(m.headers(), NameView::Via);
            let cseq = lookup(m.headers(), NameView::CSeq);
            &&& via is None ==> !in_transaction(t, m)
            &&& via is Some && param_of(via->0, "branch="@) != Some(t.branch) ==> !in_transaction(
                t,
                m,
            )
            &&& via is Some && param_of(via->0, "branch="@) == Some(t.branch) ==> (
            in_transaction(t, m) <==> (cseq is Some && cseq_of(cseq->0) is Some ==> (cseq_of(
                cseq->0,
            )->0).1 == t.method))
        }),
{
}

/// A client's transaction ends with its final response. Of an invitation, a success
/// ends it at once and any other final response is acknowledged, whenever it comes
/// again; of any other request, the first final response completes it.
pub proof fn law_client_steps(s: TransactionState, code: u16)
    ensures
        ({
            let open = s == TransactionState::Trying || s == TransactionState::Proceeding;
            let (invite, does) = client_step(TransactionKind::ClientInvite, s, code);
            let (other, also) = client_step(TransactionKind::ClientNonInvite, s, code);
            &&& open && 100 <= code < 200 ==> {
                &&& invite == TransactionState::Proceeding && does == TransactionAction::PassToTU
                &&& other == TransactionState::Proceeding && also == TransactionAction::PassToTU
            }
            &&& open && 200 <= code < 300 ==> {
                &&& invite == TransactionState::Terminated && does == TransactionAction::PassToTU
                &&& other == TransactionState::Completed && also == TransactionAction::PassToTU
            }
            &&& open && (code < 100 || code >= 300) ==> {
                &&& invite == TransactionState::Completed && does == TransactionAction::SendAck
                &&& other == TransactionState::Completed && also == TransactionAction::PassToTU
            }
            &&& s == TransactionState::Completed ==> {
                &&& invite == s && does == TransactionAction::SendAck
                &&& other == s && also == TransactionAction::Nothing
            }
            &&& s == TransactionState::Confirmed || s == TransactionState::Terminated ==> {
                &&& invite == s && does == TransactionAction::Nothing
                &&& other == s && also == TransactionAction::Nothing
            }
        }),
        client_step(TransactionKind::ServerInvite, s, code) == (s, TransactionAction::Nothing),
        client_step(TransactionKind::ServerNonInvite, s, code) == (s, TransactionAction::Nothing),
{
}

/// A server's transaction sends each response that it is given. A provisional one
/// leaves it open; a final one completes it, but that a success ends an invitation.
pub proof fn law_server_steps(s: TransactionState, code: u16)
    ensures
        ({
            let (invite, does) = server_step(TransactionKind::ServerInvite, s, code);
            let (other, also) = server_step(TransactionKind::ServerNonInvite, s, code);
            &&& does == TransactionAction::SendResponse && also == TransactionAction::SendResponse
            &&& 100 <= code < 200 ==> invite == TransactionState::Proceeding && other
                == TransactionState::Proceeding
            &&& 200 <= code < 300 ==> invite == TransactionState::Terminated && other
                == TransactionState::Completed
            &&& code < 100 || code >= 300 ==> invite == TransactionState::Completed && other
                == TransactionState::Completed
        }),
        server_step(TransactionKind::ClientInvite, s, code) == (s, TransactionAction::Nothing),
        server_step(TransactionKind::ClientNonInvite, s, code) == (s, TransactionAction::Nothing),
{
}

/// A message is sent again after half a second, and then after twice the time each
/// time: up to four seconds from a client, and up to 64 times the first from a server.
pub proof fn law_intervals(kind: TransactionKind, count: u32)
    ensures
        interval(kind, 0) == 500,
        interval(kind, 1) == 1000,
        interval(kind, 2) == 2000,
        interval(kind, 3) == 4000,
        kind == TransactionKind::ClientInvite || kind == TransactionKind::ClientNonInvite ==> (
        count >= 3 ==> interval(kind, count) == 4000),
        kind == TransactionKind::ServerInvite || kind == TransactionKind::ServerNonInvite ==> {
            &&& 0 < count <= 6 ==> interval(kind, count) == 2 * interval(kind, (count - 1) as u32)
            &&& count >= 6 ==> interval(kind, count) == 32000
        },
{
    reveal_with_fuel(doubled, 8);
}

/// A transaction is given up after 32 seconds: a client's always, a server's once it
/// is complete.
pub proof fn law_given_up(t: TransactionView, nanos: int)
    ensures
        ({
            let client = t.kind == TransactionKind::ClientInvite || t.kind
                == TransactionKind::ClientNonInvite;
            &&& timed_out(t, nanos) <==> nanos > 32 * 1_000_000_000 && (client || t.state
                == TransactionState::Completed)
            &&& retransmits(t) <==> client && (t.state == TransactionState::Trying || (t.kind
                == TransactionKind::ClientInvite && t.state == TransactionState::Proceeding))
        }),
{
}

// ---------------------------------------------------------------------------
// Addresses
// ---------------------------------------------------------------------------

/// An address names a host behind its user, up to its parameters, and a port behind
/// a colon; without one the port is 5060.
pub proof fn law_host_and_port(
    user: Seq<char>,
    host: Seq<char>,
    port: Seq<char>,
    params: Seq<char>,
)
    requires
        !user.contains('@'),
        !user.contains(';'),
        !host.contains(':'),
        !host.contains('@'),
        !host.contains(';'),
        host.len() > 0,
        host[0] != '[',
        !port.contains(':'),
        !port.contains('@'),
        !port.contains(';'),
        !params.contains('@'),
    ensures
        ({
            let number = uint_of(port, 0xffff);
            let with_port = host + seq![':'] + port;
            &&& sip_host_port("sip:"@ + (user + seq!['@'] + host)) == Some((host, 5060nat))
            &&& sip_host_port("sips:"@ + (user + seq!['@'] + host)) == Some((host, 5060nat))
            &&& sip_host_port("sip:"@ + host) == Some((host, 5060nat))
            &&& sip_host_port("sip:"@ + (host + seq![';'] + params)) == Some((host, 5060nat))
            &&& number is Some ==> {
                &&& sip_host_port("sip:"@ + (user + seq!['@'] + with_port)) == Some(
                    (host, number->0),
                )
                &&& sip_host_port("sip:"@ + with_port) == Some((host, number->0))
                &&& sip_host_port("sip:"@ + (with_port + seq![';'] + params)) == Some(
                    (host, number->0),
                )
            }
            &&& number is None ==> sip_host_port("sip:"@ + with_port) is None
        }),
{
    let with_port = host + seq![':'] + port;
    lemma_without(host, ':', port, '@');
    lemma_without(host, ':', port, ';');
    lemma_without(host, ';', params, '@');
    lemma_without(with_port, ';', params, '@');
    law_prefix("sip:"@, user + seq!['@'] + host, host);
    law_prefix("sips:"@, user + seq!['@'] + host, host);
    law_prefix("sip:"@, host, host);
    law_prefix("sip:"@, host + seq![';'] + params, host);
    law_prefix("sip:"@, user + seq!['@'] + with_port, host);
    law_prefix("sip:"@, with_port, host);
    law_prefix("sip:"@, with_port + seq![';'] + params, host);
    lemma_not_sip(user + seq!['@'] + host);
    law_separated(user, '@', host, 2);
    law_separated(user, '@', with_port, 2);
    law_separated(host, '@', host, 2);
    law_separated(host + seq![';'] + params, '@', host, 2);
    law_separated(with_port, '@', host, 2);
    law_separated(with_port + seq![';'] + params, '@', host, 2);
    law_separated(host, ';', params, 2);
    law_separated(with_port, ';', params, 2);
    lemma_host_port(host, port);
}

/// What does not stand in the parts does not stand in the whole.
proof fn lemma_without(a: Seq<char>, c: char, b: Seq<char>, x: char)
    requires
        !a.contains(x),
        !b.contains(x),
        c != x,
    ensures
        !(a + seq![c] + b).contains(x),
{
    let s = a + seq![c] + b;
    assert forall|j: int| 0 <= j < s.len() implies s[j] != x by {
        if j < a.len() {
            assert(a.contains(a[j]));
        } else if j > a.len() {
            assert(b.contains(b[j - a.len() - 1]));
        }
    }
}

proof fn lemma_not_sip(s: Seq<char>)
    ensures
        !begins_with("sips:"@ + s, "sip:"@),
{
    reveal_strlit("sip:");
    reveal_strlit("sips:");
    let t = "sips:"@ + s;
    assert(t[3] == 's');
    assert(t.take(4)[3] == 's');
    assert("sip:"@[3] == ':');
}

proof fn lemma_host_port(host: Seq<char>, port: Seq<char>)
    requires
        !host.contains(':'),
        !port.contains(':'),
        host.len() > 0,
        host[0] != '[',
    ensures
        host_port(host) == Some((host, 5060nat)),
        uint_of(port, 0xffff) is Some ==> host_port(host + seq![':'] + port) == Some(
            (host, uint_of(port, 0xffff)->0),
        ),
        uint_of(port, 0xffff) is None ==> host_port(host + seq![':'] + port) is None,
{
    lemma_after_last(host, ':', port);
    let s = host + seq![':'] + port;
    assert(s[0] == host[0]);
    assert(s.take(host.len() as int) =~= host);
    assert(s.skip(host.len() as int + 1) =~= port);
}

/// Where the last of a character stands.
pub proof fn lemma_after_last(a: Seq<char>, c: char, b: Seq<char>)
    requires
        !b.contains(c),
    ensures
        after_last(a + seq![c] + b, c) == a.len() + 1,
        !a.contains(c) ==> after_last(a, c) == 0,
    decreases a.len() + b.len(),
{
    let s = a + seq![c] + b;
    if b.len() > 0 {
        let fewer = b.drop_last();
        assert(b.contains(b[b.len() - 1]));
        assert(s.last() == b[b.len() - 1]);
        assert(s.drop_last() =~= a + seq![c] + fewer);
        assert forall|j: int| 0 <= j < fewer.len() implies fewer[j] != c by {
            assert(b.contains(b[j]));
        }
        lemma_after_last(a, c, fewer);
    } else {
        assert(s.last() == c);
        if a.len() > 0 && !a.contains(c) {
            assert(a.contains(a[a.len() - 1]));
            let fewer = a.drop_last();
            assert forall|j: int| 0 <= j < fewer.len() implies fewer[j] != c by {
                assert(a.contains(a[j]));
            }
            lemma_after_last(fewer, c, b);
        }
    }
}

/// A host with several colons is an address without a port.
pub proof fn law_bare_ipv6(a: Seq<char>, b: Seq<char>)
    requires
        !b.contains(':'),
        a.contains(':'),
        !a.contains('@'),
        !b.contains('@'),
        !a.contains(';'),
        !b.contains(';'),
        a[0] != '[',
    ensures
        sip_host_port("sip:"@ + (a + seq![':'] + b)) == Some((a + seq![':'] + b, 5060nat)),
{
    let s = a + seq![':'] + b;
    assert(a.len() > 0);
    lemma_without(a, ':', b, '@');
    lemma_without(a, ':', b, ';');
    law_prefix("sip:"@, s, s);
    law_separated(s, '@', s, 2);
    law_separated(s, ';', s, 2);
    lemma_after_last(a, ':', b);
    assert(s.take(a.len() as int) =~= a);
    assert(s[0] == a[0]);
}

/// An address in brackets may have colons of its own; its port stands behind the
/// closing bracket.
pub proof fn law_bracketed_host(host: Seq<char>, port: Seq<char>)
    requires
        !host.contains(']'),
        !host.contains('@'),
        !host.contains(';'),
        !port.contains('@'),
        !port.contains(';'),
    ensures
        sip_host_port("sip:"@ + (seq!['['] + host + seq![']'])) == Some((host, 5060nat)),
        uint_of(port, 0xffff) is Some ==> sip_host_port(
            "sip:"@ + (seq!['['] + host + seq![']'] + (seq![':'] + port)),
        ) == Some((host, uint_of(port, 0xffff)->0)),
        uint_of(port, 0xffff) is None ==> sip_host_port(
            "sip:"@ + (seq!['['] + host + seq![']'] + (seq![':'] + port)),
        ) is None,
{
    let b = seq!['['] + host;
    let none = Seq::<char>::empty();
    let s = b + seq![']'];
    let p = seq![':'] + port;
    let t = b + seq![']'] + p;
    assert forall|x: char| x != '[' && !host.contains(x) implies !b.contains(x) by {
        assert forall|j: int| 0 <= j < b.len() implies b[j] != x by {
            if j > 0 {
                assert(host.contains(host[j - 1]));
            }
        }
    }
    assert forall|x: char| x != ':' && !port.contains(x) implies !p.contains(x) by {
        assert forall|j: int| 0 <= j < p.len() implies p[j] != x by {
            if j > 0 {
                assert(port.contains(port[j - 1]));
            }
        }
    }
    assert(s =~= b + seq![']'] + none);
    lemma_without(b, ']', none, '@');
    lemma_without(b, ']', none, ';');
    lemma_without(b, ']', p, '@');
    lemma_without(b, ']', p, ';');
    law_prefix("sip:"@, s, s);
    law_prefix("sip:"@, t, s);
    law_separated(s, '@', none, 2);
    law_separated(t, '@', none, 2);
    law_separated(s, ';', none, 2);
    law_separated(t, ';', none, 2);
    law_separated(b, ']', none, 2);
    law_separated(b, ']', p, 2);
    reveal_strlit(":");
    assert(":"@ =~= seq![':']);
    law_prefix(":"@, port, none);
    assert(b.skip(1) =~= host);
    assert(s[0] == '[' && t[0] == '[');
}

/// An address and a port are written with a colon between them, and the address in
/// brackets where it has colons of its own.
pub proof fn law_endpoint_text(e: EndpointView)
    ensures
        !e.ip.contains(':') ==> e.text() == e.ip + ":"@ + dec(e.port as nat),
        e.ip.contains(':') ==> e.text() == "["@ + e.ip + "]:"@ + dec(e.port as nat),
{
}

} // verus!
