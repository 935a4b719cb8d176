//! What is shown of the messages and the media of a call.
use super::ladder::{
    arrow_line, bar_row, column_of, endpoint_row, endpoints, label_line, label_of, ladder,
    plain_ladder, plain_rung, plain_rungs,
};
use super::sip_debug::{
    calls_output, captured_at, flow_of, flow_output, kind_count, law_media_by_call,
    law_messages_by_call, media_captured_at, media_total, passes, plain_line, request_count, CallFlowView, CapturedView, DebuggerView, MediaEventView,
    OutputView, Shown,
};
use super::term::{
    at_left, at_right, behind_date, bold, byte_len, centred, fg, repeated, reset, short_time, two_digits,
    Color,
};
use super::ui::{
    clock, line_end, media_line, media_phase, message_line, method_hue, painted, status_hue,
    status_sign, with_ends,
};
use crate::case::ascii_uppered;
use crate::net::EndpointView;
use crate::number::{dec, law_places};
use crate::sip::header::{lookup, NameView};
use crate::sip::message::{
    cseq_of, message_text, MessageView, MethodView, RequestView, ResponseView,
};
use crate::text::{law_contains_text, trim_back};
use vstd::prelude::*;
use vstd::utf8::encode_utf8;

verus! {

// ---------------------------------------------------------------------------
// Texts in columns and colours
// ---------------------------------------------------------------------------

/// A text that is shorter than its column is filled up with blanks: behind it, before
/// it, or on both sides with the odd one behind. One that is not stays as it is.
pub proof fn law_columns(s: Seq<char>, width: nat, fill: char, i: int)
    ensures
        s.len() >= width ==> at_left(s, width) == s && at_right(s, width, fill) == s && centred(
            s,
            width,
        ) == s,
        s.len() < width ==> ({
            let before = (width - s.len()) / 2;
            &&& at_left(s, width).len() == width && at_right(s, width, fill).len() == width
                && centred(s, width).len() == width
            &&& 0 <= i < s.len() ==> at_left(s, width)[i] == s[i]
            &&& s.len() <= i < width ==> at_left(s, width)[i] == ' '
            &&& 0 <= i < width - s.len() ==> at_right(s, width, fill)[i] == fill
            &&& width - s.len() <= i < width ==> at_right(s, width, fill)[i] == s[i - (width
                - s.len())]
            &&& before <= i < before + s.len() ==> centred(s, width)[i] == s[i - before]
            &&& (0 <= i < before || before + s.len() <= i < width) ==> centred(s, width)[i] == ' '
        }),
{
    if s.len() >= width {
        assert(at_left(s, width) =~= s);
        assert(at_right(s, width, fill) =~= s);
        assert(centred(s, width) =~= s);
    }
}

/// Colours are the terminal's own codes, and nothing where they are off.
pub proof fn law_colours(c: Color)
    ensures
        fg(false, c).len() == 0 && bold(false).len() == 0 && reset(false).len() == 0,
        fg(true, Color::Red) == "\x1b[31m"@,
        fg(true, Color::Green) == "\x1b[32m"@,
        fg(true, Color::Yellow) == "\x1b[33m"@,
        fg(true, Color::Blue) == "\x1b[34m"@,
        fg(true, Color::Magenta) == "\x1b[35m"@,
        fg(true, Color::Cyan) == "\x1b[36m"@,
        fg(true, Color::White) == "\x1b[37m"@,
        fg(true, Color::DarkGrey) == "\x1b[90m"@,
        fg(true, Color::DarkRed) == "\x1b[91m"@,
        bold(true) == "\x1b[1m"@,
        reset(true) == "\x1b[0m"@,
{
    reveal_strlit("");
}

/// What is painted stands between the code of its colour and the code that ends it.
pub proof fn law_painted(c: Color, text: Seq<char>)
    ensures
        painted(true, c, text) == fg(true, c) + text + "\x1b[0m"@,
        painted(false, c, text) == text,
{
    reveal_strlit("");
    assert(painted(false, c, text) =~= text);
}

/// A time is minutes and seconds, each with two digits where they are fewer.
pub proof fn law_clock(secs: nat)
    ensures
        clock(secs) == two_digits(secs / 60) + ":"@ + two_digits(secs % 60),
        forall|n: nat| n < 10 ==> #[trigger] two_digits(n) == seq!['0'] + dec(n),
        forall|n: nat| 10 <= n < 100 ==> #[trigger] two_digits(n) == dec(n),
{
    assert forall|n: nat| n < 10 implies #[trigger] two_digits(n) == seq!['0'] + dec(n) by {
        assert(dec(n).len() == 1);
        assert(two_digits(n) =~= seq!['0'] + dec(n));
    }
    assert forall|n: nat| 10 <= n < 100 implies #[trigger] two_digits(n) == dec(n) by {
        law_places(n / 10, n % 10);
        law_places(0, n / 10);
        assert(dec(n).len() == 2);
        assert(two_digits(n) =~= dec(n));
    }
}

/// In raw mode every line ends in both line ends, and otherwise in a line feed.
pub proof fn law_line_ends(s: Seq<char>, c: char)
    ensures
        line_end(true) == "\r\n"@,
        line_end(false) == "\n"@,
        with_ends(Seq::empty(), "\r\n"@).len() == 0,
        c != '\n' ==> with_ends(s.push(c), "\r\n"@) == with_ends(s, "\r\n"@).push(c),
        with_ends(s.push('\n'), "\r\n"@) == with_ends(s, "\r\n"@) + "\r\n"@,
{
    assert(s.push(c).drop_last() =~= s);
    assert(s.push('\n').drop_last() =~= s);
}

/// The colours of methods and codes, and the signs of codes.
pub proof fn law_hues(code: u16)
    ensures
        method_hue("INVITE"@) == Color::Cyan,
        100 <= code < 200 ==> status_hue(code) == Color::Yellow && status_sign(code) == "…"@,
        200 <= code < 300 ==> status_hue(code) == Color::Green && status_sign(code) == "✓"@,
        300 <= code < 400 ==> status_hue(code) == Color::Blue && status_sign(code) == "✗"@,
        400 <= code < 500 ==> status_hue(code) == Color::Red && status_sign(code) == "✗"@,
        500 <= code < 700 ==> status_hue(code) == Color::DarkRed && status_sign(code) == "✗"@,
{
}

// ---------------------------------------------------------------------------
// Lines of a trace
// ---------------------------------------------------------------------------

/// The line of a message: when, from where to where, what it is, and how many bytes.
pub proof fn law_message_line(
    stamp: Seq<char>,
    from: EndpointView,
    to: EndpointView,
    req: RequestView,
    res: ResponseView,
    size: nat,
)
    ensures
        ({
            let front = short_time(stamp) + " "@ + (from.text() + " → "@ + to.text()) + " "@;
            let back = " "@ + ("("@ + dec(size) + "B)"@);
            &&& message_line(false, stamp, from, to, MessageView::Request(req), size) == front + (
            "▶ "@ + req.method.text() + " "@ + req.uri) + back
            &&& message_line(false, stamp, from, to, MessageView::Response(res), size) == front + (
            status_sign(res.status) + " "@ + dec(res.status as nat) + " "@ + res.reason) + back
        }),
{
    reveal_strlit("");
    let route = from.text() + " → "@ + to.text();
    let front = short_time(stamp) + " "@ + route + " "@;
    let bytes = "("@ + dec(size) + "B)"@;
    let back = " "@ + bytes;
    let q = "▶ "@ + req.method.text() + " "@ + req.uri;
    let s = status_sign(res.status) + " "@ + dec(res.status as nat) + " "@ + res.reason;
    law_painted(Color::DarkGrey, short_time(stamp));
    law_painted(Color::DarkGrey, route);
    law_painted(Color::DarkGrey, bytes);
    law_painted(method_hue(req.method.text()), q);
    law_painted(status_hue(res.status), s);
    assert(bold(false) + q =~= q);
    assert(front + q + " "@ + bytes =~= front + q + back);
    assert(front + s + " "@ + bytes =~= front + s + back);
}

/// The plain line of a message: the whole time, from where to where in a column of
/// 42, what it is, and how many bytes.
pub proof fn law_plain_line(c: CapturedView)
    ensures
        ({
            let what = match c.message {
                MessageView::Request(req) => req.method.text() + " "@ + req.uri,
                MessageView::Response(res) => dec(res.status as nat) + " "@ + res.reason,
            };
            plain_line(c) == c.timestamp + " | "@ + at_left(
                c.source.text() + " → "@ + c.destination.text(),
                42,
            ) + " | "@ + what + " ("@ + dec(c.raw_size) + "B)"@
        }),
{
}

/// The badge of a flow of media says its phase: the first of early, connected,
/// received and sent that its label names, in any case.
pub proof fn law_media_badges(label: Seq<char>, a: Seq<char>, b: Seq<char>)
    ensures
        ascii_uppered(label) == a + "EARLY"@ + b ==> media_phase(label) == ("[EARLY]"@, Color::Yellow),
        ascii_uppered(label) == a + "CONNECTED"@ + b ==> media_phase(label).0 == "[CONNECTED]"@
            || media_phase(label).0 == "[EARLY]"@,
        ascii_uppered(label) == a + "RX"@ + b ==> media_phase(label).0 != "[TX]"@ && media_phase(
            label,
        ).0 != "[RTP]"@,
        ascii_uppered(label) == a + "TX"@ + b ==> media_phase(label).0 != "[RTP]"@,
{
    law_contains_text(a, "EARLY"@, b, a);
    law_contains_text(a, "CONNECTED"@, b, a);
    law_contains_text(a, "RX"@, b, a);
    law_contains_text(a, "TX"@, b, a);
    reveal_strlit("[EARLY]");
    reveal_strlit("[CONNECTED]");
    reveal_strlit("[RX]");
    reveal_strlit("[TX]");
    reveal_strlit("[RTP]");
    assert("[EARLY]"@.len() == 7 && "[CONNECTED]"@.len() == 11 && "[RTP]"@.len() == 5);
    assert("[RX]"@.len() == 4 && "[TX]"@.len() == 4 && "[RX]"@[1] == 'R' && "[TX]"@[1] == 'T');
}

/// The line of a flow of media: when, from where to where, its badge and its label.
pub proof fn law_media_line(
    stamp: Seq<char>,
    from: EndpointView,
    to: EndpointView,
    label: Seq<char>,
)
    ensures
        media_line(false, stamp, from, to, label) == short_time(stamp) + " "@ + (from.text()
            + " → "@ + to.text()) + " "@ + "[RTP]"@ + " "@ + media_phase(label).0 + " "@ + label,
{
    reveal_strlit("");
    let (phase, hue) = media_phase(label);
    let route = from.text() + " → "@ + to.text();
    law_painted(Color::DarkGrey, short_time(stamp));
    law_painted(Color::DarkGrey, route);
    law_painted(Color::Blue, "[RTP]"@);
    law_painted(hue, phase);
    law_painted(hue, label);
    let front = short_time(stamp) + " "@ + route + " "@;
    assert(front + bold(false) =~= front);
    let more = front + "[RTP]"@ + " "@;
    assert(more + bold(false) =~= more);
}

/// A filter lets through requests of its method and the responses to them; without
/// one everything passes.
pub proof fn law_filter(f: MethodView, req: RequestView, res: ResponseView, m: MessageView)
    ensures
        passes(None, m),
        passes(Some(f), MessageView::Request(req)) <==> req.method == f,
        ({
            let v = lookup(res.headers, NameView::CSeq);
            &&& v is Some && cseq_of(v->0) is Some ==> (passes(
                Some(f),
                MessageView::Response(res),
            ) <==> (cseq_of(v->0)->0).1 == f)
            &&& v is None || cseq_of(v->0) is None ==> passes(
                Some(f),
                MessageView::Response(res),
            )
        }),
{
}

/// While a trace is on, each message is noted once among all messages and in the flow
/// of its call, with its time, its ends and its bytes.
pub proof fn law_message_captured(
    before: DebuggerView,
    after: DebuggerView,
    r: Option<Shown>,
    stamp: Seq<char>,
    message: MessageView,
    from: EndpointView,
    to: EndpointView,
    color: bool,
)
    requires
        before.wf(),
        before.active,
        captured_at(before, after, r, stamp, message, from, to, color),
    ensures
        ({
            let m = CapturedView {
                timestamp: stamp,
                source: from,
                destination: to,
                message,
                raw_size: encode_utf8(message_text(message)).len(),
            };
            let id = lookup(message.headers(), NameView::CallId);
            &&& r is Some
            &&& r->0.line@ == message_line(color, stamp, from, to, message, m.raw_size)
            &&& r->0.block is Some <==> before.verbose
            &&& after.messages == before.messages.push(m)
            &&& id is Some ==> flow_of(after.calls, id->0).messages == flow_of(
                before.calls,
                id->0,
            ).messages.push(m)
            &&& id is None ==> after.calls == before.calls
            &&& after.verbose == before.verbose && after.active
        }),
{
    let m = CapturedView {
        timestamp: stamp,
        source: from,
        destination: to,
        message,
        raw_size: byte_len(message_text(message)),
    };
    if let Some(id) = lookup(message.headers(), NameView::CallId) {
        law_messages_by_call(before, m, id);
    }
}

/// A flow of media is noted in the flow of its call while a trace is on, and nowhere
/// while it is off.
pub proof fn law_media_captured(
    before: DebuggerView,
    after: DebuggerView,
    r: Option<String>,
    call_id: Seq<char>,
    e: MediaEventView,
    color: bool,
)
    requires
        media_captured_at(before, after, r, call_id, e, color),
    ensures
        r is Some <==> before.active,
        !before.active ==> after == before,
        before.active ==> flow_of(after.calls, call_id).media == flow_of(
            before.calls,
            call_id,
        ).media.push(e) && after.messages == before.messages,
        r matches Some(line) ==> line@ == media_line(
            color,
            e.timestamp,
            e.source,
            e.destination,
            e.label,
        ),
{
    if before.active {
        law_media_by_call(before, call_id, e, call_id);
    }
}

/// The counts of a trace: of the requests, of each kind of message, and of the flows
/// of media.
pub proof fn law_counts(
    ms: Seq<CapturedView>,
    m: CapturedView,
    kind: Seq<char>,
    fs: Seq<CallFlowView>,
    f: CallFlowView,
)
    ensures
        request_count(Seq::empty()) == 0 && kind_count(Seq::empty(), kind) == 0 && media_total(
            Seq::empty(),
        ) == 0,
        m.message is Request ==> request_count(ms.push(m)) == request_count(ms) + 1,
        m.message is Response ==> request_count(ms.push(m)) == request_count(ms),
        label_of(m.message) == kind ==> kind_count(ms.push(m), kind) == kind_count(ms, kind) + 1,
        label_of(m.message) != kind ==> kind_count(ms.push(m), kind) == kind_count(ms, kind),
        media_total(fs.push(f)) == media_total(fs) + f.media.len(),
{
    assert(ms.push(m).drop_last() =~= ms);
    assert(fs.push(f).drop_last() =~= fs);
}

// ---------------------------------------------------------------------------
// Ladders
// ---------------------------------------------------------------------------

/// A rung is labelled with the method, or with the code and its reason.
pub proof fn law_rung_labels(req: RequestView, res: ResponseView)
    ensures
        label_of(MessageView::Request(req)) == req.method.text(),
        label_of(MessageView::Response(res)) == dec(res.status as nat) + " "@ + res.reason,
{
}

/// Columns come in the order in which their ends first appear, the source of a
/// message before its destination.
pub proof fn law_column_order(ms: Seq<CapturedView>, m: CapturedView)
    ensures
        endpoints(Seq::empty()).len() == 0,
        ({
            let es = endpoints(ms);
            let known = es.contains(m.source);
            let first = if known {
                es
            } else {
                es.push(m.source)
            };
            &&& first.contains(m.destination) ==> endpoints(ms.push(m)) == first
            &&& !first.contains(m.destination) ==> endpoints(ms.push(m)) == first.push(
                m.destination,
            )
        }),
{
    assert(ms.push(m).drop_last() =~= ms);
}

/// A label stands in the middle between its two columns, of 24 characters each, with
/// the bars of the columns around it.
pub proof fn law_label_place(n: nat, a: nat, b: nat, label: Seq<char>, p: int)
    requires
        0 <= p < 24 * n,
    ensures
        ({
            let mid = (24 * a + 12 + 24 * b + 12) / 2;
            let half = encode_utf8(label).len() / 2;
            let start = if half <= mid {
                mid - half
            } else {
                0
            };
            &&& label_line(n, a, b, label).len() == 24 * n
            &&& start <= p < start + label.len() ==> label_line(n, a, b, label)[p] == label[p
                - start]
            &&& !(start <= p < start + label.len()) && p % 24 == 12 ==> label_line(
                n,
                a,
                b,
                label,
            )[p] == '│'
            &&& !(start <= p < start + label.len()) && p % 24 != 12 ==> label_line(
                n,
                a,
                b,
                label,
            )[p] == ' '
        }),
{
}

/// The shaft of an arrow fills the line between its two columns and nothing else;
/// elsewhere stand the bars of the columns.
pub proof fn law_arrow_shaft(n: nat, src: nat, dst: nat, p: int)
    requires
        src < n,
        dst < n,
        0 <= p < 24 * n,
    ensures
        ({
            let left = 24 * (if src < dst {
                src
            } else {
                dst
            }) + 12;
            let right = 24 * (if src < dst {
                dst
            } else {
                src
            }) + 12;
            let line = arrow_line(n, src, dst);
            &&& line.len() == 24 * n
            &&& left < p < right ==> line[p] == '─'
            &&& (p < left || right < p) && p % 24 == 12 ==> line[p] == '│'
            &&& (p < left || right < p) && p % 24 != 12 ==> line[p] == ' '
        }),
{
}

/// A ladder names its call, heads each column with its end, and has a rung for each
/// message in order: its time and label, and its arrow on the line below.
pub proof fn law_plain_ladder(call_id: Seq<char>, ms: Seq<CapturedView>, m: CapturedView)
    ensures
        plain_ladder(call_id, Seq::empty()) == "(no messages)"@,
        ms.len() > 0 ==> ({
            let es = endpoints(ms);
            plain_ladder(call_id, ms) == "Call-ID: "@ + call_id + "\n\n"@ + endpoint_row(es)
                + "\n"@ + bar_row(es.len()) + "\n"@ + plain_rungs(es, ms) + bar_row(es.len())
                + "\n"@
        }),
        ({
            let es = endpoints(ms);
            let src = column_of(es, m.source);
            let dst = column_of(es, m.destination);
            let time = behind_date(m.timestamp) + " "@;
            &&& plain_rungs(es, ms.push(m)) == plain_rungs(es, ms) + plain_rung(es, m)
            &&& plain_rung(es, m) == time + trim_back(
                label_line(es.len(), src, dst, label_of(m.message)),
            ) + "\n"@ + Seq::new(byte_len(time), |i: int| ' ') + trim_back(
                arrow_line(es.len(), src, dst),
            ) + "\n"@
        }),
{
    assert(ms.push(m).drop_last() =~= ms);
    let time = behind_date(m.timestamp) + " "@;
    assert(repeated(' ', byte_len(time)) =~= Seq::new(byte_len(time), |i: int| ' '));
}

/// The flows of a trace are shown call by call: a ladder of the messages, and behind
/// it each flow of media on a line of its own.
pub proof fn law_flows_shown(on: bool, fs: Seq<CallFlowView>, f: CallFlowView, i: int)
    ensures
        calls_output(on, Seq::empty()).len() == 0,
        calls_output(on, fs.push(f)) == calls_output(on, fs) + flow_output(on, f),
        f.messages.len() == 0 ==> flow_output(on, f)[0] == OutputView::Block(
            "\nCall-ID: "@ + f.call_id,
        ),
        f.messages.len() > 0 ==> flow_output(on, f)[0] == OutputView::Block(
            "\n"@ + ladder(on, f.call_id, f.messages),
        ),
        f.media.len() == 0 ==> flow_output(on, f).len() == 1,
        f.media.len() > 0 ==> flow_output(on, f).len() == 2 + f.media.len() && flow_output(
            on,
            f,
        )[1] == OutputView::Line("RTP/media flow:"@),
        0 <= i < f.media.len() ==> flow_output(on, f)[2 + i] == OutputView::Line(
            "  "@ + media_line(
                on,
                f.media[i].timestamp,
                f.media[i].source,
                f.media[i].destination,
                f.media[i].label,
            ),
        ),
{
    assert(fs.push(f).drop_last() =~= fs);
}

} // verus!
