//! What the phone shows on the terminal. `color` says whether colours are on.
use super::term::{
    ansi_bold, ansi_fg, ansi_reset, at_left, at_right, bold, can_shorten, eight_hex_digits,
    eight_hex_string, fg, pad_left, pad_right, reset, short_time, shorten_time, two_digit_string,
    two_digits, Color,
};
use crate::case::{ascii_upper_text, ascii_uppered};
use crate::net::{Endpoint, EndpointView};
use crate::number::{dec, dec_usize, push_dec};
use crate::rtp::session::SessionStats;
use crate::sip::header::{Header, HeaderList};
use crate::sip::message::{
    MessageView, RequestView, ResponseView, SipMessage, SipRequest, SipResponse,
};
use crate::text::{
    chars_of, contains_text, has_text, lines, lines_of, same_text, string_of, texts,
};
use vstd::prelude::*;

verus! {

// ---------------------------------------------------------------------------
// Lines
// ---------------------------------------------------------------------------

/// A text in a colour.
pub open spec fn painted(on: bool, color: Color, text: Seq<char>) -> Seq<char> {
    fg(on, color) + text + reset(on)
}

fn paint(on: bool, color: Color, text: &str) -> (r: String)
    ensures
        r@ == painted(on, color, text@),
{
    let mut s = ansi_fg(on, color).to_owned();
    s.append(text);
    s.append(ansi_reset(on));
    s
}

/// A text in a colour and in bold type.
pub open spec fn stressed(on: bool, color: Color, text: Seq<char>) -> Seq<char> {
    fg(on, color) + bold(on) + text + reset(on)
}

fn stress(on: bool, color: Color, text: &str) -> (r: String)
    ensures
        r@ == stressed(on, color, text@),
{
    let mut s = ansi_fg(on, color).to_owned();
    s.append(ansi_bold(on));
    s.append(text);
    s.append(ansi_reset(on));
    s
}

/// A text in bold type.
pub open spec fn bolded(on: bool, text: Seq<char>) -> Seq<char> {
    bold(on) + text + reset(on)
}

fn embolden(on: bool, text: &str) -> (r: String)
    ensures
        r@ == bolded(on, text@),
{
    let mut s = ansi_bold(on).to_owned();
    s.append(text);
    s.append(ansi_reset(on));
    s
}

fn join_two(a: &str, b: &str) -> (r: String)
    ensures
        r@ == a@ + b@,
{
    let mut s = a.to_owned();
    s.append(b);
    s
}

/// A line about how things stand.
pub fn status(color: bool, msg: &str) -> (r: String)
    ensures
        r@ == painted(color, Color::Green, msg@),
{
    paint(color, Color::Green, msg)
}

/// A line about something that succeeded.
pub fn success(color: bool, msg: &str) -> (r: String)
    ensures
        r@ == stressed(color, Color::Green, "✓ "@ + msg@),
{
    stress(color, Color::Green, join_two("✓ ", msg).as_str())
}

/// A line that warns.
pub fn warning(color: bool, msg: &str) -> (r: String)
    ensures
        r@ == painted(color, Color::Yellow, "⚠ "@ + msg@),
{
    paint(color, Color::Yellow, join_two("⚠ ", msg).as_str())
}

/// A line about something that failed.
pub fn error(color: bool, msg: &str) -> (r: String)
    ensures
        r@ == painted(color, Color::Red, "✗ "@ + msg@),
{
    paint(color, Color::Red, join_two("✗ ", msg).as_str())
}

/// A line that informs.
pub fn info(color: bool, msg: &str) -> (r: String)
    ensures
        r@ == painted(color, Color::DarkGrey, msg@),
{
    paint(color, Color::DarkGrey, msg)
}

/// A line about something that happened.
pub fn event(color: bool, msg: &str) -> (r: String)
    ensures
        r@ == stressed(color, Color::White, msg@),
{
    stress(color, Color::White, msg)
}

/// The prompt.
pub fn prompt(color: bool) -> (r: String)
    ensures
        r@ == stressed(color, Color::Blue, "sipr› "@),
{
    stress(color, Color::Blue, "sipr› ")
}

/// The end of a line: a terminal in raw mode does not go back to the first
/// column by itself.
pub open spec fn line_end(raw_mode: bool) -> Seq<char> {
    if raw_mode {
        "\r\n"@
    } else {
        "\n"@
    }
}

fn newline(raw_mode: bool) -> (r: &'static str)
    ensures
        r@ == line_end(raw_mode),
{
    if raw_mode {
        "\r\n"
    } else {
        "\n"
    }
}

/// A line as it is printed.
pub fn print_line(msg: &str, raw_mode: bool) -> (r: String)
    ensures
        r@ == msg@ + line_end(raw_mode),
{
    join_two(msg, newline(raw_mode))
}

/// A text with each line feed replaced by `end`.
pub open spec fn with_ends(s: Seq<char>, end: Seq<char>) -> Seq<char>
    decreases s.len(),
{
    if s.len() == 0 {
        s
    } else if s.last() == '\n' {
        with_ends(s.drop_last(), end) + end
    } else {
        with_ends(s.drop_last(), end).push(s.last())
    }
}

/// Lines as they are printed: each ends as the terminal needs it, and the last
/// one is ended where it was not.
pub fn print_block(msg: &str, raw_mode: bool) -> (r: String)
    ensures
        r@ == with_ends(msg@, line_end(raw_mode)) + (if msg@.len() > 0 && msg@.last() == '\n' {
            ""@
        } else {
            line_end(raw_mode)
        }),
{
    let cs = chars_of(msg);
    let end = newline(raw_mode);
    let n: usize = cs.len();
    let mut s = String::new();
    let mut i: usize = 0;
    assert(cs@.take(0).len() == 0);
    assert(s@ =~= cs@.take(0));
    while i < n
        invariant
            n == cs@.len(),
            i <= n,
            end@ == line_end(raw_mode),
            s@ == with_ends(cs@.take(i as int), end@),
        decreases n - i,
    {
        assert(cs@.take(i + 1).drop_last() =~= cs@.take(i as int));
        assert(cs@.take(i + 1).last() == cs@[i as int]);
        if cs[i] == '\n' {
            s.append(end);
        } else {
            s.push(cs[i]);
        }
        i = i + 1;
    }
    assert(cs@.take(n as int) =~= cs@);
    if n > 0 && cs[n - 1] == '\n' {
        s.append("");
    } else {
        s.append(end);
    }
    s
}

// ---------------------------------------------------------------------------
// Messages
// ---------------------------------------------------------------------------

/// The colour of a method.
pub open spec fn method_hue(method: Seq<char>) -> Color {
    if method == "INVITE"@ {
        Color::Cyan
    } else if method == "BYE"@ || method == "CANCEL"@ {
        Color::Red
    } else if method == "ACK"@ {
        Color::Green
    } else if method == "REGISTER"@ {
        Color::Blue
    } else if method == "REFER"@ || method == "NOTIFY"@ {
        Color::Magenta
    } else if method == "PRACK"@ || method == "UPDATE"@ {
        Color::Yellow
    } else {
        Color::White
    }
}

/// The colour of a method.
pub fn method_color(method: &str) -> (r: Color)
    ensures
        r == method_hue(method@),
{
    if same_text(method, "INVITE") {
        Color::Cyan
    } else if same_text(method, "BYE") || same_text(method, "CANCEL") {
        Color::Red
    } else if same_text(method, "ACK") {
        Color::Green
    } else if same_text(method, "REGISTER") {
        Color::Blue
    } else if same_text(method, "REFER") || same_text(method, "NOTIFY") {
        Color::Magenta
    } else if same_text(method, "PRACK") || same_text(method, "UPDATE") {
        Color::Yellow
    } else {
        Color::White
    }
}

/// The colour of a status.
pub open spec fn status_hue(code: u16) -> Color {
    if 100 <= code <= 199 {
        Color::Yellow
    } else if 200 <= code <= 299 {
        Color::Green
    } else if 300 <= code <= 399 {
        Color::Blue
    } else if 400 <= code <= 499 {
        Color::Red
    } else if 500 <= code <= 699 {
        Color::DarkRed
    } else {
        Color::White
    }
}

/// The colour of a status.
pub fn status_color(code: u16) -> (r: Color)
    ensures
        r == status_hue(code),
{
    if 100 <= code && code <= 199 {
        Color::Yellow
    } else if 200 <= code && code <= 299 {
        Color::Green
    } else if 300 <= code && code <= 399 {
        Color::Blue
    } else if 400 <= code && code <= 499 {
        Color::Red
    } else if 500 <= code && code <= 699 {
        Color::DarkRed
    } else {
        Color::White
    }
}

/// The sign for a status: whether it is a success, or progress, or neither.
pub open spec fn status_sign(code: u16) -> Seq<char> {
    if 200 <= code <= 299 {
        "✓"@
    } else if 100 <= code <= 199 {
        "…"@
    } else {
        "✗"@
    }
}

/// The sign for a status.
pub fn status_indicator(code: u16) -> (r: &'static str)
    ensures
        r@ == status_sign(code),
{
    if 200 <= code && code <= 299 {
        "✓"
    } else if 100 <= code && code <= 199 {
        "…"
    } else {
        "✗"
    }
}

/// From where to where something went.
pub open spec fn route(source: EndpointView, dest: EndpointView) -> Seq<char> {
    source.text() + " → "@ + dest.text()
}

pub(crate) fn route_text(source: &Endpoint, dest: &Endpoint) -> (r: String)
    ensures
        r@ == route(source@, dest@),
{
    let mut s = source.to_string();
    s.append(" → ");
    s.append(dest.to_string().as_str());
    s
}

/// When, from where and to where something went.
pub open spec fn when_and_where(
    on: bool,
    stamp: Seq<char>,
    source: EndpointView,
    dest: EndpointView,
) -> Seq<char> {
    painted(on, Color::DarkGrey, short_time(stamp)) + " "@ + painted(
        on,
        Color::DarkGrey,
        route(source, dest),
    ) + " "@
}

fn when_and_where_text(on: bool, stamp: &str, source: &Endpoint, dest: &Endpoint) -> (r: String)
    requires
        can_shorten(stamp@),
    ensures
        r@ == when_and_where(on, stamp@, source@, dest@),
{
    let mut s = paint(on, Color::DarkGrey, shorten_time(stamp));
    s.append(" ");
    s.append(paint(on, Color::DarkGrey, route_text(source, dest).as_str()).as_str());
    s.append(" ");
    s
}

/// A request in short.
pub open spec fn request_brief(on: bool, req: RequestView) -> Seq<char> {
    bold(on) + painted(
        on,
        method_hue(req.method.text()),
        "▶ "@ + req.method.text() + " "@ + req.uri,
    )
}

fn request_brief_text(on: bool, req: &SipRequest) -> (r: String)
    ensures
        r@ == request_brief(on, req@),
{
    let m = req.method.as_str();
    let mut t = "▶ ".to_owned();
    t.append(m);
    t.append(" ");
    t.append(req.uri.as_str());
    join_two(ansi_bold(on), paint(on, method_color(m), t.as_str()).as_str())
}

/// A response in short.
pub open spec fn response_brief(on: bool, res: ResponseView) -> Seq<char> {
    painted(
        on,
        status_hue(res.status),
        status_sign(res.status) + " "@ + dec(res.status as nat) + " "@ + res.reason,
    )
}

fn response_brief_text(on: bool, res: &SipResponse) -> (r: String)
    ensures
        r@ == response_brief(on, res@),
{
    let code: u16 = res.status.0;
    let mut t = status_indicator(code).to_owned();
    t.append(" ");
    push_dec(&mut t, code as u64);
    t.append(" ");
    t.append(res.reason.as_str());
    paint(on, status_color(code), t.as_str())
}

/// A message on one line: when and where it went, what it is, and its size.
pub open spec fn message_line(
    on: bool,
    stamp: Seq<char>,
    source: EndpointView,
    dest: EndpointView,
    m: MessageView,
    size: nat,
) -> Seq<char> {
    when_and_where(on, stamp, source, dest) + (match m {
        MessageView::Request(req) => request_brief(on, req),
        MessageView::Response(res) => response_brief(on, res),
    }) + " "@ + painted(on, Color::DarkGrey, "("@ + dec(size) + "B)"@)
}

/// A message on one line: when and where it went, what it is, and its size.
pub fn sip_summary(
    color: bool,
    timestamp: &str,
    source: &Endpoint,
    dest: &Endpoint,
    message: &SipMessage,
    raw_size: usize,
) -> (r: String)
    requires
        can_shorten(timestamp@),
    ensures
        r@ == message_line(color, timestamp@, source@, dest@, message@, raw_size as nat),
{
    let mut s = when_and_where_text(color, timestamp, source, dest);
    let what = match message {
        SipMessage::Request(req) => request_brief_text(color, req),
        SipMessage::Response(res) => response_brief_text(color, res),
    };
    s.append(what.as_str());
    s.append(" ");
    let mut size = "(".to_owned();
    push_dec(&mut size, raw_size as u64);
    size.append("B)");
    s.append(paint(color, Color::DarkGrey, size.as_str()).as_str());
    s
}

/// What a label says of media: its badge and its colour.
pub open spec fn media_phase(label: Seq<char>) -> (Seq<char>, Color) {
    let up = ascii_uppered(label);
    if contains_text(up, "EARLY"@) {
        ("[EARLY]"@, Color::Yellow)
    } else if contains_text(up, "CONNECTED"@) {
        ("[CONNECTED]"@, Color::Green)
    } else if contains_text(up, "RX"@) {
        ("[RX]"@, Color::Cyan)
    } else if contains_text(up, "TX"@) {
        ("[TX]"@, Color::Magenta)
    } else {
        ("[RTP]"@, Color::White)
    }
}

fn media_phase_of(label: &str) -> (r: (&'static str, Color))
    ensures
        (r.0@, r.1) == media_phase(label@),
{
    let upper = ascii_upper_text(label);
    let cs = chars_of(upper.as_str());
    let up = cs.as_slice();
    if has_text(up, "EARLY") {
        ("[EARLY]", Color::Yellow)
    } else if has_text(up, "CONNECTED") {
        ("[CONNECTED]", Color::Green)
    } else if has_text(up, "RX") {
        ("[RX]", Color::Cyan)
    } else if has_text(up, "TX") {
        ("[TX]", Color::Magenta)
    } else {
        ("[RTP]", Color::White)
    }
}

/// A flow of media on one line.
pub open spec fn media_line(
    on: bool,
    stamp: Seq<char>,
    source: EndpointView,
    dest: EndpointView,
    label: Seq<char>,
) -> Seq<char> {
    let (badge, hue) = media_phase(label);
    when_and_where(on, stamp, source, dest) + bold(on) + painted(on, Color::Blue, "[RTP]"@) + " "@
        + bold(on) + painted(on, hue, badge) + " "@ + painted(on, hue, label)
}

/// A flow of media on one line.
pub fn media_flow_summary(
    color: bool,
    timestamp: &str,
    source: &Endpoint,
    destination: &Endpoint,
    label: &str,
) -> (r: String)
    requires
        can_shorten(timestamp@),
    ensures
        r@ == media_line(color, timestamp@, source@, destination@, label@),
{
    let (badge, hue) = media_phase_of(label);
    let mut s = when_and_where_text(color, timestamp, source, destination);
    s.append(ansi_bold(color));
    s.append(paint(color, Color::Blue, "[RTP]").as_str());
    s.append(" ");
    s.append(ansi_bold(color));
    s.append(paint(color, hue, badge).as_str());
    s.append(" ");
    s.append(paint(color, hue, label).as_str());
    s
}

// ---------------------------------------------------------------------------
// Messages in full
// ---------------------------------------------------------------------------

/// A line of a frame.
pub open spec fn frame_line(on: bool, line: Seq<char>) -> Seq<char> {
    painted(on, Color::DarkGrey, line) + "\n"@
}

fn push_frame_line(out: &mut String, on: bool, line: &str)
    ensures
        final(out)@ == old(out)@ + frame_line(on, line@),
{
    let mut s = paint(on, Color::DarkGrey, line);
    s.append("\n");
    out.append(s.as_str());
}

/// A row inside a frame.
pub open spec fn frame_row(on: bool, text: Seq<char>) -> Seq<char> {
    painted(on, Color::DarkGrey, "║"@) + " "@ + text + "\n"@
}

fn push_frame_row(out: &mut String, on: bool, text: &str)
    ensures
        final(out)@ == old(out)@ + frame_row(on, text@),
{
    let mut s = paint(on, Color::DarkGrey, "║");
    s.append(" ");
    s.append(text);
    s.append("\n");
    out.append(s.as_str());
}

/// The lines of the frame: the top, the bottom, and those between its parts.
pub open spec fn top_line() -> Seq<char> {
    "╔══════════════════════════════════════════════════════════════╗"@
}

pub open spec fn middle_line() -> Seq<char> {
    "╠══════════════════════════════════════════════════════════════╣"@
}

pub open spec fn thin_line() -> Seq<char> {
    "╟──────────────────────────────────────────────────────────────╢"@
}

pub open spec fn bottom_line() -> Seq<char> {
    "╚══════════════════════════════════════════════════════════════╝"@
}

/// The first line of a message, as it is shown.
pub open spec fn first_row(on: bool, m: MessageView) -> Seq<char> {
    match m {
        MessageView::Request(req) => bold(on) + painted(
            on,
            method_hue(req.method.text()),
            "▶ "@ + req.method.text() + " "@ + req.uri + " "@ + req.version,
        ),
        MessageView::Response(res) => painted(
            on,
            status_hue(res.status),
            status_sign(res.status) + " "@ + res.version + " "@ + dec(res.status as nat) + " "@
                + res.reason,
        ),
    }
}

fn first_row_text(on: bool, m: &SipMessage) -> (r: String)
    ensures
        r@ == first_row(on, m@),
{
    match m {
        SipMessage::Request(req) => {
            let method = req.method.as_str();
            let mut t = "▶ ".to_owned();
            t.append(method);
            t.append(" ");
            t.append(req.uri.as_str());
            t.append(" ");
            t.append(req.version.as_str());
            join_two(ansi_bold(on), paint(on, method_color(method), t.as_str()).as_str())
        },
        SipMessage::Response(res) => {
            let code: u16 = res.status.0;
            let mut t = status_indicator(code).to_owned();
            t.append(" ");
            t.append(res.version.as_str());
            t.append(" ");
            push_dec(&mut t, code as u64);
            t.append(" ");
            t.append(res.reason.as_str());
            paint(on, status_color(code), t.as_str())
        },
    }
}

/// The rows for the fields of a message.
pub open spec fn field_rows(on: bool, hs: HeaderList) -> Seq<char>
    decreases hs.len(),
{
    if hs.len() == 0 {
        seq![]
    } else {
        field_rows(on, hs.drop_last()) + frame_row(
            on,
            bolded(on, hs.last().0.text()) + ": "@ + hs.last().1,
        )
    }
}

/// The rows for the lines of a body.
pub open spec fn body_rows(on: bool, ls: Seq<Seq<char>>) -> Seq<char>
    decreases ls.len(),
{
    if ls.len() == 0 {
        seq![]
    } else {
        body_rows(on, ls.drop_last()) + frame_row(on, painted(on, Color::Green, ls.last()))
    }
}

/// A message in full, in a frame.
pub open spec fn message_frame(
    on: bool,
    stamp: Seq<char>,
    source: EndpointView,
    dest: EndpointView,
    m: MessageView,
    size: nat,
) -> Seq<char> {
    frame_line(on, top_line()) + frame_row(
        on,
        stamp + " "@ + painted(on, Color::DarkGrey, at_right(dec(size), 6, ' ') + "B"@),
    ) + frame_row(on, painted(on, Color::DarkGrey, route(source, dest))) + frame_line(
        on,
        middle_line(),
    ) + frame_row(on, first_row(on, m)) + frame_line(on, thin_line()) + field_rows(
        on,
        m.headers(),
    ) + (match m.body() {
        Some(b) => frame_line(on, thin_line()) + body_rows(on, lines(b)),
        None => seq![],
    }) + frame_line(on, bottom_line())
}

fn push_fields(out: &mut String, on: bool, headers: &[Header], Ghost(hs): Ghost<HeaderList>)
    requires
        headers@.len() == hs.len(),
        forall|i: int| 0 <= i < hs.len() ==> (#[trigger] headers@[i])@ == hs[i],
    ensures
        final(out)@ == old(out)@ + field_rows(on, hs),
{
    let n: usize = headers.len();
    let mut i: usize = 0;
    assert(hs.take(0).len() == 0);
    assert(out@ =~= old(out)@ + field_rows(on, hs.take(0)));
    while i < n
        invariant
            n == headers@.len(),
            headers@.len() == hs.len(),
            forall|j: int| 0 <= j < hs.len() ==> (#[trigger] headers@[j])@ == hs[j],
            i <= n,
            out@ == old(out)@ + field_rows(on, hs.take(i as int)),
        decreases n - i,
    {
        let h = &headers[i];
        assert(headers@[i as int]@ == hs[i as int]);
        let mut row = embolden(on, h.name.as_str());
        row.append(": ");
        row.append(h.value.as_str());
        assert(hs.take(i + 1).drop_last() =~= hs.take(i as int));
        assert(hs.take(i + 1).last() == hs[i as int]);
        push_frame_row(out, on, row.as_str());
        i = i + 1;
        assert(out@ =~= old(out)@ + field_rows(on, hs.take(i as int)));
    }
    assert(hs.take(n as int) =~= hs);
}

fn push_body(out: &mut String, on: bool, body: &str)
    ensures
        final(out)@ == old(out)@ + body_rows(on, lines(body@)),
{
    let cs = chars_of(body);
    let ls = lines_of(cs.as_slice());
    let ghost all = lines(body@);
    let n: usize = ls.len();
    let mut i: usize = 0;
    assert(all.take(0).len() == 0);
    assert(out@ =~= old(out)@ + body_rows(on, all.take(0)));
    while i < n
        invariant
            n == ls@.len(),
            texts(ls@) == all,
            i <= n,
            out@ == old(out)@ + body_rows(on, all.take(i as int)),
        decreases n - i,
    {
        assert(all[i as int] == ls@[i as int]@);
        assert(all.take(i + 1).drop_last() =~= all.take(i as int));
        assert(all.take(i + 1).last() == all[i as int]);
        let line = string_of(ls[i]);
        push_frame_row(out, on, paint(on, Color::Green, line.as_str()).as_str());
        i = i + 1;
        assert(out@ =~= old(out)@ + body_rows(on, all.take(i as int)));
    }
    assert(all.take(n as int) =~= all);
}

/// A message in full, in a frame.
pub fn sip_detail(
    color: bool,
    timestamp: &str,
    source: &Endpoint,
    dest: &Endpoint,
    message: &SipMessage,
    raw_size: usize,
) -> (r: String)
    ensures
        r@ == message_frame(color, timestamp@, source@, dest@, message@, raw_size as nat),
{
    let mut s = String::new();
    push_frame_line(
        &mut s,
        color,
        "╔══════════════════════════════════════════════════════════════╗",
    );
    assert(s@ =~= frame_line(color, top_line()));
    let mut size = pad_left(dec_usize(raw_size).as_str(), 6, ' ');
    size.append("B");
    let mut when = timestamp.to_owned();
    when.append(" ");
    when.append(paint(color, Color::DarkGrey, size.as_str()).as_str());
    push_frame_row(&mut s, color, when.as_str());
    push_frame_row(
        &mut s,
        color,
        paint(color, Color::DarkGrey, route_text(source, dest).as_str()).as_str(),
    );
    push_frame_line(
        &mut s,
        color,
        "╠══════════════════════════════════════════════════════════════╣",
    );
    push_frame_row(&mut s, color, first_row_text(color, message).as_str());
    push_frame_line(
        &mut s,
        color,
        "╟──────────────────────────────────────────────────────────────╢",
    );
    let headers = message.headers();
    push_fields(&mut s, color, headers.iter(), Ghost(headers@));
    let ghost before = s@;
    match message.body() {
        Some(b) => {
            push_frame_line(
                &mut s,
                color,
                "╟──────────────────────────────────────────────────────────────╢",
            );
            push_body(&mut s, color, b);
            assert(s@ =~= before + (frame_line(color, thin_line()) + body_rows(
                color,
                lines(b@),
            )));
        },
        None => {
            assert(s@ =~= before + Seq::<char>::empty());
        },
    }
    push_frame_line(
        &mut s,
        color,
        "╚══════════════════════════════════════════════════════════════╝",
    );
    s
}

// ---------------------------------------------------------------------------
// Status
// ---------------------------------------------------------------------------

/// A time in minutes and seconds.
pub open spec fn clock(secs: nat) -> Seq<char> {
    two_digits(secs / 60) + ":"@ + two_digits(secs % 60)
}

fn clock_text(secs: u64) -> (r: String)
    ensures
        r@ == clock(secs as nat),
{
    let mut s = two_digit_string(secs / 60);
    s.append(":");
    s.append(two_digit_string(secs % 60).as_str());
    s
}

/// One part of the status bar, where it is shown.
pub open spec fn badge(on: bool, shown: bool, color: Color, text: Seq<char>) -> Seq<char> {
    if shown {
        " "@ + painted(on, color, text)
    } else {
        ""@
    }
}

fn badge_text(on: bool, shown: bool, color: Color, text: &str) -> (r: String)
    ensures
        r@ == badge(on, shown, color, text@),
{
    if shown {
        join_two(" ", paint(on, color, text).as_str())
    } else {
        "".to_owned()
    }
}

/// How a call stands, on one line: how long it has lasted, whether it is on
/// hold, muted, recorded and traced.
pub fn status_bar(
    color: bool,
    duration_secs: u64,
    on_hold: bool,
    muted: bool,
    recording: bool,
    sniffing: bool,
    sniff_count: usize,
) -> (r: String)
    ensures
        r@ == bold(color) + painted(color, Color::White, "["@ + clock(duration_secs as nat) + "]"@)
            + badge(color, on_hold, Color::Yellow, "HOLD"@) + badge(
            color,
            !on_hold,
            Color::Green,
            "ACTIVE"@,
        ) + badge(color, muted, Color::Red, "🔇"@) + badge(color, recording, Color::Red, "● REC"@)
            + badge(color, sniffing, Color::Cyan, "📡 "@ + dec(sniff_count as nat)),
{
    let mut time = "[".to_owned();
    time.append(clock_text(duration_secs).as_str());
    time.append("]");
    let mut s = ansi_bold(color).to_owned();
    s.append(paint(color, Color::White, time.as_str()).as_str());
    s.append(badge_text(color, on_hold, Color::Yellow, "HOLD").as_str());
    s.append(badge_text(color, !on_hold, Color::Green, "ACTIVE").as_str());
    s.append(badge_text(color, muted, Color::Red, "🔇").as_str());
    s.append(badge_text(color, recording, Color::Red, "● REC").as_str());
    let count = join_two("📡 ", dec_usize(sniff_count).as_str());
    s.append(badge_text(color, sniffing, Color::Cyan, count.as_str()).as_str());
    s
}

/// The heading of a part of the help.
pub open spec fn help_title(on: bool, title: Seq<char>) -> Seq<char> {
    "\n"@ + bold(on) + painted(on, Color::Cyan, "  "@ + title) + "\n"@
}

fn push_help_title(out: &mut String, on: bool, title: &str)
    ensures
        final(out)@ == old(out)@ + help_title(on, title@),
{
    let mut s = "\n".to_owned();
    s.append(ansi_bold(on));
    s.append(paint(on, Color::Cyan, join_two("  ", title).as_str()).as_str());
    s.append("\n");
    out.append(s.as_str());
}

/// A command in the help: its name, its argument where it takes one, and what
/// it does, behind `gap`.
pub open spec fn help_entry(
    on: bool,
    name: Seq<char>,
    arg: Seq<char>,
    gap: Seq<char>,
    does: Seq<char>,
) -> Seq<char> {
    "  "@ + painted(on, Color::Cyan, name) + (if arg.len() > 0 {
        " "@ + painted(on, Color::Yellow, arg)
    } else {
        ""@
    }) + gap + painted(on, Color::DarkGrey, does) + "\n"@
}

fn push_help(out: &mut String, on: bool, name: &str, arg: &str, gap: &str, does: &str)
    ensures
        final(out)@ == old(out)@ + help_entry(on, name@, arg@, gap@, does@),
{
    let mut s = "  ".to_owned();
    s.append(paint(on, Color::Cyan, name).as_str());
    let a = if arg.is_empty() {
        "".to_owned()
    } else {
        join_two(" ", paint(on, Color::Yellow, arg).as_str())
    };
    s.append(a.as_str());
    s.append(gap);
    s.append(paint(on, Color::DarkGrey, does).as_str());
    s.append("\n");
    out.append(s.as_str());
}

/// The help on call control.
pub open spec fn help_calls(on: bool) -> Seq<char> {
    help_title(on, "Call Control"@) + help_entry(
        on,
        "hold"@,
        ""@,
        "               "@,
        "Put call on hold"@,
    ) + help_entry(on, "resume"@, ""@, "             "@, "Resume held call"@) + help_entry(
        on,
        "transfer"@,
        "<uri>"@,
        "     "@,
        "Blind transfer (REFER)"@,
    ) + help_entry(
        on,
        "speed"@,
        "<0-9>"@,
        "         "@,
        "Transfer using configured speed dial slot"@,
    ) + help_entry(on, "hangup"@, ""@, "             "@, "End the call"@)
}

fn help_calls_text(on: bool) -> (r: String)
    ensures
        r@ == help_calls(on),
{
    let mut s = String::new();
    push_help_title(&mut s, on, "Call Control");
    assert(s@ =~= help_title(on, "Call Control"@));
    push_help(&mut s, on, "hold", "", "               ", "Put call on hold");
    push_help(&mut s, on, "resume", "", "             ", "Resume held call");
    push_help(&mut s, on, "transfer", "<uri>", "     ", "Blind transfer (REFER)");
    push_help(
        &mut s,
        on,
        "speed",
        "<0-9>",
        "         ",
        "Transfer using configured speed dial slot",
    );
    push_help(&mut s, on, "hangup", "", "             ", "End the call");
    s
}

/// The help on telephone keys.
pub open spec fn help_keys(on: bool) -> Seq<char> {
    help_title(on, "DTMF"@) + help_entry(
        on,
        "dtmf"@,
        "<digits>"@,
        "      "@,
        "Send DTMF via RTP (RFC2833)"@,
    ) + help_entry(on, "dtmf-info"@, "<digits>"@, " "@, "Send DTMF via SIP INFO"@) + help_entry(
        on,
        "dtmf-send"@,
        ""@,
        "          "@,
        "Flush queued DTMF now"@,
    )
}

fn help_keys_text(on: bool) -> (r: String)
    ensures
        r@ == help_keys(on),
{
    let mut s = String::new();
    push_help_title(&mut s, on, "DTMF");
    assert(s@ =~= help_title(on, "DTMF"@));
    push_help(&mut s, on, "dtmf", "<digits>", "      ", "Send DTMF via RTP (RFC2833)");
    push_help(&mut s, on, "dtmf-info", "<digits>", " ", "Send DTMF via SIP INFO");
    push_help(&mut s, on, "dtmf-send", "", "          ", "Flush queued DTMF now");
    s
}

/// The help on recording and audio.
pub open spec fn help_audio(on: bool) -> Seq<char> {
    help_title(on, "Recording"@) + help_entry(
        on,
        "record"@,
        "<file.wav>"@,
        "  "@,
        "Start recording"@,
    ) + help_entry(on, "stop"@, ""@, "               "@, "Pause recording"@) + help_title(
        on,
        "Audio"@,
    ) + help_entry(on, "mute"@, ""@, "               "@, "Silence outgoing audio"@) + help_entry(
        on,
        "unmute"@,
        ""@,
        "             "@,
        "Resume outgoing audio"@,
    )
}

fn help_audio_text(on: bool) -> (r: String)
    ensures
        r@ == help_audio(on),
{
    let mut s = String::new();
    push_help_title(&mut s, on, "Recording");
    assert(s@ =~= help_title(on, "Recording"@));
    push_help(&mut s, on, "record", "<file.wav>", "  ", "Start recording");
    push_help(&mut s, on, "stop", "", "               ", "Pause recording");
    push_help_title(&mut s, on, "Audio");
    push_help(&mut s, on, "mute", "", "               ", "Silence outgoing audio");
    push_help(&mut s, on, "unmute", "", "             ", "Resume outgoing audio");
    s
}

/// The help on diagnostics.
pub open spec fn help_diagnostics(on: bool) -> Seq<char> {
    help_title(on, "Diagnostics"@) + help_entry(
        on,
        "stats"@,
        ""@,
        "              "@,
        "Show call statistics"@,
    ) + help_entry(on, "sniff"@, ""@, "              "@, "Start SIP tracing"@) + help_entry(
        on,
        "sniff verbose"@,
        ""@,
        "      "@,
        "Trace with full headers"@,
    ) + help_entry(on, "sniff stop"@, ""@, "         "@, "Stop SIP tracing"@) + help_entry(
        on,
        "flows"@,
        ""@,
        "              "@,
        "Show call flow diagram"@,
    ) + help_entry(on, "Ctrl+0..9"@, ""@, "          "@, "Shortcut for 'speed <slot>'"@)
}

fn help_diagnostics_text(on: bool) -> (r: String)
    ensures
        r@ == help_diagnostics(on),
{
    let mut s = String::new();
    push_help_title(&mut s, on, "Diagnostics");
    assert(s@ =~= help_title(on, "Diagnostics"@));
    push_help(&mut s, on, "stats", "", "              ", "Show call statistics");
    push_help(&mut s, on, "sniff", "", "              ", "Start SIP tracing");
    push_help(&mut s, on, "sniff verbose", "", "      ", "Trace with full headers");
    push_help(&mut s, on, "sniff stop", "", "         ", "Stop SIP tracing");
    push_help(&mut s, on, "flows", "", "              ", "Show call flow diagram");
    push_help(&mut s, on, "Ctrl+0..9", "", "          ", "Shortcut for 'speed <slot>'");
    s
}

/// The help on the commands during a call.
pub fn print_help(color: bool) -> (r: String)
    ensures
        r@ == help_calls(color) + help_keys(color) + help_audio(color) + help_diagnostics(color)
            + "\n"@,
{
    let mut s = help_calls_text(color);
    s.append(help_keys_text(color).as_str());
    s.append(help_audio_text(color).as_str());
    s.append(help_diagnostics_text(color).as_str());
    s.append("\n");
    s
}

// ---------------------------------------------------------------------------
// Boxes
// ---------------------------------------------------------------------------

/// A line of a box.
pub open spec fn box_line(on: bool, line: Seq<char>) -> Seq<char> {
    painted(on, Color::Cyan, line) + "\n"@
}

fn push_box_line(out: &mut String, on: bool, line: &str)
    ensures
        final(out)@ == old(out)@ + box_line(on, line@),
{
    let mut s = paint(on, Color::Cyan, line);
    s.append("\n");
    out.append(s.as_str());
}

/// A row of the box of statistics, between its sides.
pub open spec fn stats_row(on: bool, text: Seq<char>) -> Seq<char> {
    painted(on, Color::Cyan, "│"@) + text + painted(on, Color::Cyan, "│"@) + "\n"@
}

fn push_stats_row(out: &mut String, on: bool, name: &str, value: &str, gap: &str)
    ensures
        final(out)@ == old(out)@ + stats_row(on, name@ + value@ + gap@),
{
    let mut t = name.to_owned();
    t.append(value);
    t.append(gap);
    let mut s = paint(on, Color::Cyan, "│");
    s.append(t.as_str());
    s.append(paint(on, Color::Cyan, "│").as_str());
    s.append("\n");
    out.append(s.as_str());
}

/// The rows for the media session of a call.
pub open spec fn session_rows(on: bool, s: SessionStats) -> Seq<char> {
    stats_row(on, "  Codec:     "@ + bolded(on, s.codec.text()) + "          "@) + stats_row(
        on,
        "  RTP local: "@ + painted(on, Color::DarkGrey, s.local_addr@.text()) + "  "@,
    ) + stats_row(
        on,
        "  RTP remote:"@ + painted(on, Color::DarkGrey, s.remote_addr@.text()) + "  "@,
    ) + stats_row(
        on,
        "  Packets TX:"@ + bolded(on, dec(s.packets_sent as nat)) + "           "@,
    ) + stats_row(
        on,
        "  SSRC:      "@ + painted(on, Color::DarkGrey, "0x"@ + eight_hex_digits(s.ssrc))
            + "     "@,
    )
}

fn session_rows_text(on: bool, stats: &SessionStats) -> (r: String)
    ensures
        r@ == session_rows(on, *stats),
{
    let mut s = String::new();
    push_stats_row(
        &mut s,
        on,
        "  Codec:     ",
        embolden(on, stats.codec.to_string().as_str()).as_str(),
        "          ",
    );
    assert(s@ =~= stats_row(
        on,
        "  Codec:     "@ + bolded(on, stats.codec.text()) + "          "@,
    ));
    push_stats_row(
        &mut s,
        on,
        "  RTP local: ",
        paint(on, Color::DarkGrey, stats.local_addr.to_string().as_str()).as_str(),
        "  ",
    );
    push_stats_row(
        &mut s,
        on,
        "  RTP remote:",
        paint(on, Color::DarkGrey, stats.remote_addr.to_string().as_str()).as_str(),
        "  ",
    );
    let mut count = String::new();
    push_dec(&mut count, stats.packets_sent);
    assert(count@ =~= dec(stats.packets_sent as nat));
    push_stats_row(
        &mut s,
        on,
        "  Packets TX:",
        embolden(on, count.as_str()).as_str(),
        "           ",
    );
    let ssrc = join_two("0x", eight_hex_string(stats.ssrc).as_str());
    push_stats_row(
        &mut s,
        on,
        "  SSRC:      ",
        paint(on, Color::DarkGrey, ssrc.as_str()).as_str(),
        "     ",
    );
    s
}

/// The row for the recording of a call: whether it goes on, how many seconds it
/// has lasted, and how many frames it has.
pub open spec fn recording_row(on: bool, active: bool, secs: Seq<char>, frames: nat) -> Seq<char> {
    stats_row(
        on,
        "  Recording: "@ + (if active {
            painted(on, Color::Red, "active"@)
        } else {
            painted(on, Color::Yellow, "paused"@)
        }) + (" ("@ + secs + "s, "@ + dec(frames) + " frames) "@),
    )
}

fn push_recording_row(out: &mut String, on: bool, active: bool, secs: &str, frames: usize)
    ensures
        final(out)@ == old(out)@ + recording_row(on, active, secs@, frames as nat),
{
    let state = if active {
        paint(on, Color::Red, "active")
    } else {
        paint(on, Color::Yellow, "paused")
    };
    let mut rest = " (".to_owned();
    rest.append(secs);
    rest.append("s, ");
    push_dec(&mut rest, frames as u64);
    rest.append(" frames) ");
    push_stats_row(out, on, "  Recording: ", state.as_str(), rest.as_str());
}

/// The row for the trace of a call.
pub open spec fn trace_row(on: bool, active: bool, count: nat) -> Seq<char> {
    stats_row(
        on,
        "  Sniffing:  "@ + (if active {
            painted(on, Color::Green, "active"@)
        } else {
            painted(on, Color::DarkGrey, "off"@)
        }) + (" ("@ + dec(count) + " msgs)    "@),
    )
}

fn push_trace_row(out: &mut String, on: bool, active: bool, count: usize)
    ensures
        final(out)@ == old(out)@ + trace_row(on, active, count as nat),
{
    let state = if active {
        paint(on, Color::Green, "active")
    } else {
        paint(on, Color::DarkGrey, "off")
    };
    let mut rest = " (".to_owned();
    push_dec(&mut rest, count as u64);
    rest.append(" msgs)    ");
    push_stats_row(out, on, "  Sniffing:  ", state.as_str(), rest.as_str());
}

/// A recording, as it is shown: whether it goes on, its seconds as text, and
/// its frames.
#[derive(Debug)]
pub struct RecordingLine {
    pub active: bool,
    pub secs: String,
    pub frames: usize,
}

/// The statistics of a call.
pub open spec fn stats_box(
    on: bool,
    duration: nat,
    muted: bool,
    session: Option<SessionStats>,
    recording: Option<(bool, Seq<char>, nat)>,
    traced: bool,
    trace_count: nat,
) -> Seq<char> {
    box_line(on, "┌─────────────────────────────┐"@) + stats_row(
        on,
        " "@ + bolded(on, "Call Statistics"@) + "             "@,
    ) + box_line(on, "├─────────────────────────────┤"@) + stats_row(
        on,
        "  Duration:  "@ + bolded(on, clock(duration)) + "           "@,
    ) + stats_row(
        on,
        "  Muted:     "@ + (if muted {
            painted(on, Color::Red, "yes"@)
        } else {
            painted(on, Color::Green, "no"@)
        }) + (reset(on) + "         "@),
    ) + (match session {
        Some(s) => session_rows(on, s),
        None => ""@,
    }) + (match recording {
        Some((active, secs, frames)) => recording_row(on, active, secs, frames),
        None => ""@,
    }) + trace_row(on, traced, trace_count) + box_line(on, "└─────────────────────────────┘"@)
}

/// The statistics of a call.
pub fn print_stats(
    color: bool,
    duration_secs: u64,
    muted: bool,
    rtp_stats: Option<&SessionStats>,
    recording: Option<&RecordingLine>,
    sniff_active: bool,
    sniff_count: usize,
) -> (r: String)
    ensures
        r@ == stats_box(
            color,
            duration_secs as nat,
            muted,
            match rtp_stats {
                Some(s) => Some(*s),
                None => None,
            },
            match recording {
                Some(x) => Some((x.active, x.secs@, x.frames as nat)),
                None => None,
            },
            sniff_active,
            sniff_count as nat,
        ),
{
    let mut s = String::new();
    push_box_line(&mut s, color, "┌─────────────────────────────┐");
    assert(s@ =~= box_line(color, "┌─────────────────────────────┐"@));
    push_stats_row(
        &mut s,
        color,
        " ",
        embolden(color, "Call Statistics").as_str(),
        "             ",
    );
    push_box_line(&mut s, color, "├─────────────────────────────┤");
    push_stats_row(
        &mut s,
        color,
        "  Duration:  ",
        embolden(color, clock_text(duration_secs).as_str()).as_str(),
        "           ",
    );
    let state = if muted {
        paint(color, Color::Red, "yes")
    } else {
        paint(color, Color::Green, "no")
    };
    push_stats_row(
        &mut s,
        color,
        "  Muted:     ",
        state.as_str(),
        join_two(ansi_reset(color), "         ").as_str(),
    );
    match rtp_stats {
        Some(x) => s.append(session_rows_text(color, x).as_str()),
        None => s.append(""),
    }
    match recording {
        Some(x) => push_recording_row(&mut s, color, x.active, x.secs.as_str(), x.frames),
        None => s.append(""),
    }
    push_trace_row(&mut s, color, sniff_active, sniff_count);
    push_box_line(&mut s, color, "└─────────────────────────────┘");
    s
}

/// A line of the banner.
pub open spec fn banner_line(line: Seq<char>) -> Seq<char> {
    stressed(true, Color::Cyan, line) + "\n"@
}

/// The banner; there is none without colours.
pub fn print_banner(color: bool) -> (r: String)
    ensures
        r@ == (if color {
            banner_line("  ┌──────────────────────────────────────┐"@) + banner_line(
                "  │  📞 sipr — SIP softphone for the CLI │"@,
            ) + banner_line("  └──────────────────────────────────────┘"@)
        } else {
            ""@
        }),
{
    if !color {
        return "".to_owned();
    }
    let mut s = join_two(
        stress(true, Color::Cyan, "  ┌──────────────────────────────────────┐").as_str(),
        "\n",
    );
    s.append(
        join_two(
            stress(true, Color::Cyan, "  │  📞 sipr — SIP softphone for the CLI │").as_str(),
            "\n",
        ).as_str(),
    );
    s.append(
        join_two(
            stress(true, Color::Cyan, "  └──────────────────────────────────────┘").as_str(),
            "\n",
        ).as_str(),
    );
    s
}

/// A count, behind what is counted.
pub open spec fn count_line(on: bool, what: Seq<char>, gap: Seq<char>, n: nat) -> Seq<char> {
    bolded(on, what) + gap + dec(n) + "\n"@
}

fn push_count_line(out: &mut String, on: bool, what: &str, gap: &str, n: usize)
    ensures
        final(out)@ == old(out)@ + count_line(on, what@, gap@, n as nat),
{
    let mut s = embolden(on, what);
    s.append(gap);
    push_dec(&mut s, n as u64);
    s.append("\n");
    out.append(s.as_str());
}

/// How often each kind of message was traced, as values.
pub open spec fn counts(v: Seq<(String, usize)>) -> Seq<(Seq<char>, nat)> {
    Seq::new(v.len(), |i: int| (v[i].0@, v[i].1 as nat))
}

/// The lines for the kinds of messages.
pub open spec fn kind_lines(on: bool, kinds: Seq<(Seq<char>, nat)>) -> Seq<char>
    decreases kinds.len(),
{
    if kinds.len() == 0 {
        seq![]
    } else {
        kind_lines(on, kinds.drop_last()) + ("  "@ + painted(
            on,
            Color::DarkGrey,
            at_left(kinds.last().0, 30),
        ) + " "@ + bolded(on, dec(kinds.last().1)) + "\n"@)
    }
}

fn push_kinds(out: &mut String, on: bool, kinds: &[(String, usize)])
    ensures
        final(out)@ == old(out)@ + kind_lines(on, counts(kinds@)),
{
    let n: usize = kinds.len();
    let ghost all = counts(kinds@);
    let mut i: usize = 0;
    assert(all.take(0).len() == 0);
    assert(out@ =~= old(out)@ + kind_lines(on, all.take(0)));
    while i < n
        invariant
            n == kinds@.len(),
            all == counts(kinds@),
            i <= n,
            out@ == old(out)@ + kind_lines(on, all.take(i as int)),
        decreases n - i,
    {
        assert(all.take(i + 1).drop_last() =~= all.take(i as int));
        assert(all.take(i + 1).last() == all[i as int]);
        let mut s = "  ".to_owned();
        s.append(
            paint(on, Color::DarkGrey, pad_right(kinds[i].0.as_str(), 30).as_str()).as_str(),
        );
        s.append(" ");
        s.append(embolden(on, dec_usize(kinds[i].1).as_str()).as_str());
        s.append("\n");
        out.append(s.as_str());
        i = i + 1;
        assert(out@ =~= old(out)@ + kind_lines(on, all.take(i as int)));
    }
    assert(all.take(n as int) =~= all);
}

/// A summary of what was traced.
pub open spec fn capture_summary(
    on: bool,
    total: nat,
    calls: nat,
    requests: nat,
    responses: nat,
    kinds: Seq<(Seq<char>, nat)>,
) -> Seq<char> {
    "\n"@ + stressed(on, Color::Cyan, "═══ Capture Summary ═══"@) + "\n"@ + count_line(
        on,
        "Total messages:"@,
        " "@,
        total,
    ) + count_line(on, "Active calls:"@, "   "@, calls) + count_line(
        on,
        "Requests:"@,
        "       "@,
        requests,
    ) + count_line(on, "Responses:"@, "      "@, responses) + (if kinds.len() > 0 {
        "\n"@ + bolded(on, "Breakdown:"@) + "\n"@ + kind_lines(on, kinds)
    } else {
        ""@
    })
}

/// A summary of what was traced.
pub fn print_capture_summary(
    color: bool,
    total: usize,
    calls: usize,
    requests: usize,
    responses: usize,
    breakdown: &[(String, usize)],
) -> (r: String)
    ensures
        r@ == capture_summary(
            color,
            total as nat,
            calls as nat,
            requests as nat,
            responses as nat,
            counts(breakdown@),
        ),
{
    let mut s = "\n".to_owned();
    s.append(stress(color, Color::Cyan, "═══ Capture Summary ═══").as_str());
    s.append("\n");
    push_count_line(&mut s, color, "Total messages:", " ", total);
    push_count_line(&mut s, color, "Active calls:", "   ", calls);
    push_count_line(&mut s, color, "Requests:", "       ", requests);
    push_count_line(&mut s, color, "Responses:", "      ", responses);
    if breakdown.len() > 0 {
        let mut t = "\n".to_owned();
        t.append(embolden(color, "Breakdown:").as_str());
        t.append("\n");
        push_kinds(&mut t, color, breakdown);
        s.append(t.as_str());
    } else {
        s.append("");
    }
    s
}

/// A row of the box of the sniffer, which is open at the right.
pub open spec fn sniffer_row(on: bool, name: Seq<char>, value: Seq<char>) -> Seq<char> {
    painted(on, Color::Cyan, "║"@) + name + value + "\n"@
}

fn push_sniffer_row(out: &mut String, on: bool, name: &str, value: &str)
    ensures
        final(out)@ == old(out)@ + sniffer_row(on, name@, value@),
{
    let mut s = paint(on, Color::Cyan, "║");
    s.append(name);
    s.append(value);
    s.append("\n");
    out.append(s.as_str());
}

/// What the sniffer says when it begins: where it listens, how much it shows,
/// and which method it shows alone, if any.
pub open spec fn sniffer_box(
    on: bool,
    local: EndpointView,
    verbose: bool,
    filter: Option<Seq<char>>,
) -> Seq<char> {
    box_line(on, "╔════════════════════════════════════════════════════╗"@) + (painted(
        on,
        Color::Cyan,
        "║"@,
    ) + "  "@ + bolded(on, "📡 siphone SIP Debugger / Sniffer"@) + "                "@ + painted(
        on,
        Color::Cyan,
        "║"@,
    ) + "\n"@) + box_line(on, "╟────────────────────────────────────────────────────╢"@)
        + sniffer_row(on, "  Listening on: "@, bolded(on, local.text())) + sniffer_row(
        on,
        "  Mode:         "@,
        bolded(
            on,
            if verbose {
                "verbose (full headers)"@
            } else {
                "summary"@
            },
        ),
    ) + (match filter {
        Some(f) => sniffer_row(on, "  Filter:       "@, bolded(on, f)),
        None => ""@,
    }) + sniffer_row(
        on,
        "  "@,
        painted(on, Color::DarkGrey, "Press Ctrl+C to stop and show call flows"@),
    ) + box_line(on, "╚════════════════════════════════════════════════════╝"@) + "\n"@
}

/// What the sniffer says when it begins.
pub fn print_sniffer_header(
    color: bool,
    local_addr: &Endpoint,
    verbose: bool,
    filter: Option<&str>,
) -> (r: String)
    ensures
        r@ == sniffer_box(
            color,
            local_addr@,
            verbose,
            match filter {
                Some(f) => Some(f@),
                None => None,
            },
        ),
{
    let mut s = String::new();
    push_box_line(&mut s, color, "╔════════════════════════════════════════════════════╗");
    assert(s@ =~= box_line(color, "╔════════════════════════════════════════════════════╗"@));
    let mut title = paint(color, Color::Cyan, "║");
    title.append("  ");
    title.append(embolden(color, "📡 siphone SIP Debugger / Sniffer").as_str());
    title.append("                ");
    title.append(paint(color, Color::Cyan, "║").as_str());
    title.append("\n");
    s.append(title.as_str());
    push_box_line(&mut s, color, "╟────────────────────────────────────────────────────╢");
    push_sniffer_row(
        &mut s,
        color,
        "  Listening on: ",
        embolden(color, local_addr.to_string().as_str()).as_str(),
    );
    let mode = if verbose {
        "verbose (full headers)"
    } else {
        "summary"
    };
    push_sniffer_row(&mut s, color, "  Mode:         ", embolden(color, mode).as_str());
    match filter {
        Some(f) => push_sniffer_row(
            &mut s,
            color,
            "  Filter:       ",
            embolden(color, f).as_str(),
        ),
        None => s.append(""),
    }
    push_sniffer_row(
        &mut s,
        color,
        "  ",
        paint(color, Color::DarkGrey, "Press Ctrl+C to stop and show call flows").as_str(),
    );
    push_box_line(&mut s, color, "╚════════════════════════════════════════════════════╝");
    s.append("\n");
    s
}

/// Without colours, the text that is painted is shown as it is.
pub proof fn law_plain_without_colours(color: Color, text: Seq<char>)
    ensures
        painted(false, color, text) == text,
        stressed(false, color, text) == text,
        bolded(false, text) == text,
{
    reveal_strlit("");
    assert(painted(false, color, text) =~= text);
    assert(stressed(false, color, text) =~= text);
    assert(bolded(false, text) =~= text);
}

} // verus!
