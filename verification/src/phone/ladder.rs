//! Call flows as ladder diagrams: a column for each endpoint, and an arrow for
//! each message.
use super::sip_debug::{captures, CapturedMessage, CapturedView};
use super::term::{
    ansi_bold, ansi_fg, ansi_reset, behind_date, bold, byte_len, can_shorten, center, centred,
    cut_date, fg, has_date, push_repeated, repeated, reset, short_time, shorten_time, text_bytes,
    Color,
};
use super::ui::{method_color, method_hue, status_color, status_hue};
use crate::net::{Endpoint, EndpointView};
use crate::number::{dec, push_dec};
use crate::sip::message::{MessageView, SipMessage};
use crate::text::{chars_of, is_space_char, push_chars, trim_back};
use vstd::prelude::*;
use vstd::slice::slice_subrange;

verus! {

// ---------------------------------------------------------------------------
// Geometry
// ---------------------------------------------------------------------------

/// The width of a column.
pub const COLUMN: usize = 24;

/// The endpoints of a sequence of messages, in the order in which they appear.
pub open spec fn endpoints(ms: Seq<CapturedView>) -> Seq<EndpointView>
    decreases ms.len(),
{
    if ms.len() == 0 {
        seq![]
    } else {
        with_endpoint(
            with_endpoint(endpoints(ms.drop_last()), ms.last().source),
            ms.last().destination,
        )
    }
}

/// The list with `e`, which is added at its end where it is missing.
pub open spec fn with_endpoint(es: Seq<EndpointView>, e: EndpointView) -> Seq<EndpointView> {
    if es.contains(e) {
        es
    } else {
        es.push(e)
    }
}

/// The position of the first `e`, or the length where there is none.
pub open spec fn column_of(es: Seq<EndpointView>, e: EndpointView) -> nat
    decreases es.len(),
{
    if es.len() == 0 || es[0] == e {
        0
    } else {
        1 + column_of(es.skip(1), e)
    }
}

pub proof fn lemma_column(es: Seq<EndpointView>, e: EndpointView)
    ensures
        column_of(es, e) <= es.len(),
        es.contains(e) <==> column_of(es, e) < es.len(),
        forall|j: int| 0 <= j < column_of(es, e) ==> es[j] != e,
        column_of(es, e) < es.len() ==> es[column_of(es, e) as int] == e,
    decreases es.len(),
{
    if es.len() > 0 && es[0] != e {
        let t = es.skip(1);
        lemma_column(t, e);
        assert forall|j: int| 0 <= j < column_of(es, e) implies es[j] != e by {
            if j > 0 {
                assert(t[j - 1] == es[j]);
            }
        }
        if column_of(t, e) < t.len() {
            assert(t[column_of(t, e) as int] == es[column_of(es, e) as int]);
        }
    }
}

/// The endpoints that there are stay when more messages are looked at, and
/// there are at most two for each message.
pub proof fn lemma_endpoints(ms: Seq<CapturedView>)
    ensures
        endpoints(ms).len() <= 2 * ms.len(),
        forall|i: int|
            0 <= i < ms.len() ==> endpoints(ms).contains((#[trigger] ms[i]).source)
                && endpoints(ms).contains(ms[i].destination),
    decreases ms.len(),
{
    if ms.len() > 0 {
        let t = ms.drop_last();
        lemma_endpoints(t);
        let a = endpoints(t);
        let b = with_endpoint(a, ms.last().source);
        lemma_with_endpoint(a, ms.last().source);
        lemma_with_endpoint(b, ms.last().destination);
        assert forall|i: int| 0 <= i < ms.len() implies endpoints(ms).contains(
            (#[trigger] ms[i]).source,
        ) && endpoints(ms).contains(ms[i].destination) by {
            if i < t.len() {
                assert(t[i] == ms[i]);
                assert(a.contains(ms[i].source));
                assert(b.contains(ms[i].source));
                assert(a.contains(ms[i].destination));
                assert(b.contains(ms[i].destination));
            } else {
                assert(b.contains(ms[i].source));
            }
        }
    }
}

proof fn lemma_with_endpoint(es: Seq<EndpointView>, e: EndpointView)
    ensures
        with_endpoint(es, e).contains(e),
        forall|x: EndpointView| #[trigger]
            es.contains(x) ==> with_endpoint(es, e).contains(x),
{
    let r = with_endpoint(es, e);
    if !es.contains(e) {
        assert(r[es.len() as int] == e);
        assert forall|x: EndpointView| #[trigger] es.contains(x) implies r.contains(x) by {
            let i = choose|i: int| 0 <= i < es.len() && es[i] == x;
            assert(r[i] == x);
        }
    }
}

/// The middle of a column.
pub open spec fn middle(i: nat) -> nat {
    i * 24 + 12
}

/// Where a label begins that stands between two columns.
pub open spec fn label_start(a: nat, b: nat, label: Seq<char>) -> nat {
    let mid = (middle(a) + middle(b)) / 2;
    let half = byte_len(label) / 2;
    if half <= mid {
        (mid - half) as nat
    } else {
        0
    }
}

/// A line with a label between the columns `a` and `b` of `n`.
pub open spec fn label_line(n: nat, a: nat, b: nat, label: Seq<char>) -> Seq<char> {
    let start = label_start(a, b, label);
    Seq::new(
        n * 24,
        |p: int|
            if start <= p < start + label.len() {
                label[p - start]
            } else if p % 24 == 12 {
                '│'
            } else {
                ' '
            },
    )
}

/// A character of the line with an arrow from column `src` to column `dst`.
pub open spec fn arrow_char(src: nat, dst: nat, p: int) -> char {
    let left = if src < dst {
        middle(src)
    } else {
        middle(dst)
    };
    let right = if src < dst {
        middle(dst)
    } else {
        middle(src)
    };
    if p == right {
        if src < dst {
            '▶'
        } else {
            '┤'
        }
    } else if p == left {
        if src < dst {
            '├'
        } else {
            '◀'
        }
    } else if left < p < right {
        '─'
    } else if p % 24 == 12 {
        '│'
    } else {
        ' '
    }
}

/// A line with an arrow from column `src` to column `dst` of `n`.
pub open spec fn arrow_line(n: nat, src: nat, dst: nat) -> Seq<char> {
    Seq::new(n * 24, |p: int| arrow_char(src, dst, p))
}

/// What is written at an arrow.
pub open spec fn label_of(m: MessageView) -> Seq<char> {
    match m {
        MessageView::Request(req) => req.method.text(),
        MessageView::Response(res) => dec(res.status as nat) + " "@ + res.reason,
    }
}

pub(crate) fn label_text(m: &SipMessage) -> (r: String)
    ensures
        r@ == label_of(m@),
{
    match m {
        SipMessage::Request(req) => req.method.to_string(),
        SipMessage::Response(res) => {
            let mut s = String::new();
            push_dec(&mut s, res.status.0 as u64);
            assert(s@ =~= dec(res.status.0 as nat));
            s.append(" ");
            s.append(res.reason.as_str());
            s
        },
    }
}

/// The colour of a message.
pub open spec fn hue_of(m: MessageView) -> Color {
    match m {
        MessageView::Request(req) => method_hue(req.method.text()),
        MessageView::Response(res) => status_hue(res.status),
    }
}

fn color_of(m: &SipMessage) -> (r: Color)
    ensures
        r == hue_of(m@),
{
    match m {
        SipMessage::Request(req) => method_color(req.method.as_str()),
        SipMessage::Response(res) => status_color(res.status.0),
    }
}

/// The endpoints, as values.
pub open spec fn endpoint_views(v: Seq<Endpoint>) -> Seq<EndpointView> {
    Seq::new(v.len(), |i: int| v[i]@)
}

fn find_column(es: &Vec<Endpoint>, e: &Endpoint) -> (r: usize)
    ensures
        r == column_of(endpoint_views(es@), e@),
        r <= es@.len(),
{
    let n: usize = es.len();
    let mut i: usize = 0;
    let ghost all = endpoint_views(es@);
    assert(all.skip(0) =~= all);
    while i < n
        invariant
            n == es@.len(),
            all == endpoint_views(es@),
            i <= n,
            column_of(all, e@) == i + column_of(all.skip(i as int), e@),
        decreases n - i,
    {
        assert(all.skip(i as int)[0] == all[i as int]);
        if es[i].same(e) {
            return i;
        }
        assert(all.skip(i as int).skip(1) =~= all.skip(i + 1));
        i = i + 1;
    }
    n
}

fn add_endpoint(es: &mut Vec<Endpoint>, e: &Endpoint)
    ensures
        endpoint_views(final(es)@) == with_endpoint(endpoint_views(old(es)@), e@),
{
    proof {
        lemma_column(endpoint_views(es@), e@);
    }
    if find_column(es, e) == es.len() {
        es.push(e.clone());
        assert(endpoint_views(es@) =~= endpoint_views(old(es)@).push(e@));
    }
}

/// The endpoints of a sequence of messages.
fn collect_endpoints(ms: &[CapturedMessage]) -> (r: Vec<Endpoint>)
    ensures
        endpoint_views(r@) == endpoints(captures(ms@)),
{
    let n: usize = ms.len();
    let mut es: Vec<Endpoint> = Vec::new();
    let ghost all = captures(ms@);
    let mut i: usize = 0;
    assert(all.take(0).len() == 0);
    assert(endpoint_views(es@) =~= seq![]);
    while i < n
        invariant
            n == ms@.len(),
            all == captures(ms@),
            i <= n,
            endpoint_views(es@) == endpoints(all.take(i as int)),
        decreases n - i,
    {
        assert(all.take(i + 1).drop_last() =~= all.take(i as int));
        assert(all.take(i + 1).last() == all[i as int]);
        add_endpoint(&mut es, &ms[i].source);
        add_endpoint(&mut es, &ms[i].destination);
        i = i + 1;
    }
    assert(all.take(n as int) =~= all);
    es
}

/// Appends characters without the white space at their end.
fn push_trimmed(out: &mut String, cs: &Vec<char>)
    ensures
        final(out)@ == old(out)@ + trim_back(cs@),
{
    let mut n: usize = cs.len();
    assert(cs@.take(n as int) =~= cs@);
    while n > 0 && is_space_char(cs[n - 1])
        invariant
            n <= cs@.len(),
            trim_back(cs@.take(n as int)) == trim_back(cs@),
        decreases n,
    {
        assert(cs@.take(n as int).drop_last() =~= cs@.take(n - 1));
        n = n - 1;
    }
    let t = slice_subrange(cs.as_slice(), 0, n);
    assert(t@ =~= cs@.take(n as int));
    push_chars(out, t);
}

fn build_label_line(n: usize, a: usize, b: usize, label: &str) -> (r: Vec<char>)
    requires
        n * 48 <= usize::MAX,
        a < n,
        b < n,
    ensures
        r@ == label_line(n as nat, a as nat, b as nat, label@),
{
    let cs = chars_of(label);
    let width: usize = n * 24;
    let mid: usize = (a * 24 + 12 + (b * 24 + 12)) / 2;
    let half: usize = text_bytes(label) / 2;
    let start: usize = if half <= mid {
        mid - half
    } else {
        0
    };
    let ghost want = label_line(n as nat, a as nat, b as nat, label@);
    let mut out: Vec<char> = Vec::new();
    let mut p: usize = 0;
    while p < width
        invariant
            width == n * 24,
            p <= width,
            cs@ == label@,
            start == label_start(a as nat, b as nat, label@),
            want == label_line(n as nat, a as nat, b as nat, label@),
            out@ == want.take(p as int),
        decreases width - p,
    {
        let c = if p >= start && p - start < cs.len() {
            cs[p - start]
        } else if p % 24 == 12 {
            '│'
        } else {
            ' '
        };
        assert(c == want[p as int]);
        out.push(c);
        p = p + 1;
        assert(out@ =~= want.take(p as int));
    }
    assert(want.take(width as int) =~= want);
    out
}

fn build_arrow_line(n: usize, src: usize, dst: usize) -> (r: Vec<char>)
    requires
        n * 48 <= usize::MAX,
        src < n,
        dst < n,
    ensures
        r@ == arrow_line(n as nat, src as nat, dst as nat),
{
    let width: usize = n * 24;
    let right_going = src < dst;
    let left: usize = if right_going {
        src * 24 + 12
    } else {
        dst * 24 + 12
    };
    let right: usize = if right_going {
        dst * 24 + 12
    } else {
        src * 24 + 12
    };
    let ghost want = arrow_line(n as nat, src as nat, dst as nat);
    let mut out: Vec<char> = Vec::new();
    let mut p: usize = 0;
    while p < width
        invariant
            width == n * 24,
            p <= width,
            right_going == (src < dst),
            left == (if src < dst {
                middle(src as nat)
            } else {
                middle(dst as nat)
            }),
            right == (if src < dst {
                middle(dst as nat)
            } else {
                middle(src as nat)
            }),
            want == arrow_line(n as nat, src as nat, dst as nat),
            out@ == want.take(p as int),
        decreases width - p,
    {
        let c = if p == right {
            if right_going {
                '▶'
            } else {
                '┤'
            }
        } else if p == left {
            if right_going {
                '├'
            } else {
                '◀'
            }
        } else if left < p && p < right {
            '─'
        } else if p % 24 == 12 {
            '│'
        } else {
            ' '
        };
        assert(c == arrow_char(src as nat, dst as nat, p as int));
        out.push(c);
        p = p + 1;
        assert(out@ =~= want.take(p as int));
    }
    assert(want.take(width as int) =~= want);
    out
}

// ---------------------------------------------------------------------------
// Plain diagrams
// ---------------------------------------------------------------------------

/// The endpoints, each in the middle of its column.
pub open spec fn endpoint_row(es: Seq<EndpointView>) -> Seq<char>
    decreases es.len(),
{
    if es.len() == 0 {
        seq![]
    } else {
        endpoint_row(es.drop_last()) + centred(es.last().text(), 24)
    }
}

/// A bar in the middle of each of `n` columns.
pub open spec fn bar_row(n: nat) -> Seq<char>
    decreases n,
{
    if n == 0 {
        seq![]
    } else {
        bar_row((n - 1) as nat) + centred("│"@, 24)
    }
}

/// A message of a diagram: when it went, what it is, and the arrow.
pub open spec fn plain_rung(es: Seq<EndpointView>, m: CapturedView) -> Seq<char> {
    let n = es.len();
    let src = column_of(es, m.source);
    let dst = column_of(es, m.destination);
    let time = behind_date(m.timestamp) + " "@;
    time + trim_back(label_line(n, src, dst, label_of(m.message))) + "\n"@ + repeated(
        ' ',
        byte_len(time),
    ) + trim_back(arrow_line(n, src, dst)) + "\n"@
}

/// The messages of a diagram.
pub open spec fn plain_rungs(es: Seq<EndpointView>, ms: Seq<CapturedView>) -> Seq<char>
    decreases ms.len(),
{
    if ms.len() == 0 {
        seq![]
    } else {
        plain_rungs(es, ms.drop_last()) + plain_rung(es, ms.last())
    }
}

/// A call flow as a diagram.
pub open spec fn plain_ladder(call_id: Seq<char>, ms: Seq<CapturedView>) -> Seq<char> {
    let es = endpoints(ms);
    if ms.len() == 0 {
        "(no messages)"@
    } else {
        "Call-ID: "@ + call_id + "\n\n"@ + endpoint_row(es) + "\n"@ + bar_row(es.len()) + "\n"@
            + plain_rungs(es, ms) + bar_row(es.len()) + "\n"@
    }
}

fn push_endpoints(out: &mut String, es: &Vec<Endpoint>)
    ensures
        final(out)@ == old(out)@ + endpoint_row(endpoint_views(es@)),
{
    let n: usize = es.len();
    let ghost all = endpoint_views(es@);
    let mut i: usize = 0;
    assert(all.take(0).len() == 0);
    assert(out@ =~= old(out)@ + endpoint_row(all.take(0)));
    while i < n
        invariant
            n == es@.len(),
            all == endpoint_views(es@),
            i <= n,
            out@ == old(out)@ + endpoint_row(all.take(i as int)),
        decreases n - i,
    {
        assert(all.take(i + 1).drop_last() =~= all.take(i as int));
        assert(all.take(i + 1).last() == all[i as int]);
        out.append(center(es[i].to_string().as_str(), COLUMN).as_str());
        i = i + 1;
        assert(out@ =~= old(out)@ + endpoint_row(all.take(i as int)));
    }
    assert(all.take(n as int) =~= all);
}

fn push_bars(out: &mut String, n: usize)
    ensures
        final(out)@ == old(out)@ + bar_row(n as nat),
{
    let mut i: usize = 0;
    assert(out@ =~= old(out)@ + bar_row(0));
    while i < n
        invariant
            i <= n,
            out@ == old(out)@ + bar_row(i as nat),
        decreases n - i,
    {
        out.append(center("│", COLUMN).as_str());
        i = i + 1;
        assert(out@ =~= old(out)@ + bar_row(i as nat));
    }
}

fn plain_rung_text(es: &Vec<Endpoint>, m: &CapturedMessage) -> (r: String)
    requires
        has_date(m@.timestamp),
        es@.len() * 48 <= usize::MAX,
        endpoint_views(es@).contains(m@.source),
        endpoint_views(es@).contains(m@.destination),
    ensures
        r@ == plain_rung(endpoint_views(es@), m@),
{
    let n: usize = es.len();
    proof {
        lemma_column(endpoint_views(es@), m@.source);
        lemma_column(endpoint_views(es@), m@.destination);
    }
    let src: usize = find_column(es, &m.source);
    let dst: usize = find_column(es, &m.destination);
    let label = label_text(&m.message);
    let mut s = cut_date(m.timestamp.as_str()).to_owned();
    s.append(" ");
    let indent: usize = text_bytes(s.as_str());
    push_trimmed(&mut s, &build_label_line(n, src, dst, label.as_str()));
    s.append("\n");
    push_repeated(&mut s, ' ', indent);
    push_trimmed(&mut s, &build_arrow_line(n, src, dst));
    s.append("\n");
    s
}

/// A call flow as a diagram, without colours.
pub fn plain_diagram(call_id: &str, ms: &[CapturedMessage]) -> (r: String)
    requires
        ms@.len() * 96 <= usize::MAX,
        forall|i: int| 0 <= i < ms@.len() ==> has_date((#[trigger] captures(ms@)[i]).timestamp),
    ensures
        r@ == plain_ladder(call_id@, captures(ms@)),
{
    let n: usize = ms.len();
    let ghost all = captures(ms@);
    if n == 0 {
        return "(no messages)".to_owned();
    }
    let es = collect_endpoints(ms);
    let ghost ends = endpoints(all);
    proof {
        lemma_endpoints(all);
    }
    let mut s = "Call-ID: ".to_owned();
    s.append(call_id);
    s.append("\n\n");
    push_endpoints(&mut s, &es);
    s.append("\n");
    push_bars(&mut s, es.len());
    s.append("\n");
    let ghost head = s@;
    let mut i: usize = 0;
    assert(all.take(0).len() == 0);
    assert(s@ =~= head + plain_rungs(ends, all.take(0)));
    while i < n
        invariant
            n == ms@.len(),
            all == captures(ms@),
            ends == endpoints(all),
            ends == endpoint_views(es@),
            es@.len() * 48 <= usize::MAX,
            forall|j: int|
                0 <= j < n ==> ends.contains((#[trigger] all[j]).source) && ends.contains(
                    all[j].destination,
                ),
            forall|j: int| 0 <= j < n ==> has_date((#[trigger] all[j]).timestamp),
            i <= n,
            s@ == head + plain_rungs(ends, all.take(i as int)),
        decreases n - i,
    {
        assert(all[i as int] == ms@[i as int]@);
        assert(all.take(i + 1).drop_last() =~= all.take(i as int));
        assert(all.take(i + 1).last() == all[i as int]);
        s.append(plain_rung_text(&es, &ms[i]).as_str());
        i = i + 1;
        assert(s@ =~= head + plain_rungs(ends, all.take(i as int)));
    }
    assert(all.take(n as int) =~= all);
    push_bars(&mut s, es.len());
    s.append("\n");
    s
}

// ---------------------------------------------------------------------------
// Coloured diagrams
// ---------------------------------------------------------------------------

/// The endpoints, each in bold type in the middle of its column.
pub open spec fn bold_endpoint_row(on: bool, es: Seq<EndpointView>) -> Seq<char>
    decreases es.len(),
{
    if es.len() == 0 {
        seq![]
    } else {
        bold_endpoint_row(on, es.drop_last()) + (bold(on) + centred(es.last().text(), 24) + reset(
            on,
        ))
    }
}

/// A grey bar in the middle of each of `n` columns.
pub open spec fn grey_bar_row(on: bool, n: nat) -> Seq<char>
    decreases n,
{
    if n == 0 {
        seq![]
    } else {
        grey_bar_row(on, (n - 1) as nat) + (fg(on, Color::DarkGrey) + centred("│"@, 24) + reset(
            on,
        ))
    }
}

/// A message of a coloured diagram.
pub open spec fn rung(on: bool, es: Seq<EndpointView>, m: CapturedView) -> Seq<char> {
    let n = es.len();
    let src = column_of(es, m.source);
    let dst = column_of(es, m.destination);
    let time = short_time(m.timestamp);
    let hue = hue_of(m.message);
    fg(on, Color::DarkGrey) + time + " "@ + reset(on) + fg(on, hue) + trim_back(
        label_line(n, src, dst, label_of(m.message)),
    ) + reset(on) + "\n"@ + repeated(' ', byte_len(time)) + "  "@ + fg(on, hue) + trim_back(
        arrow_line(n, src, dst),
    ) + reset(on) + "\n"@
}

/// The messages of a coloured diagram.
pub open spec fn rungs(on: bool, es: Seq<EndpointView>, ms: Seq<CapturedView>) -> Seq<char>
    decreases ms.len(),
{
    if ms.len() == 0 {
        seq![]
    } else {
        rungs(on, es, ms.drop_last()) + rung(on, es, ms.last())
    }
}

/// A call flow as a coloured diagram.
pub open spec fn ladder(on: bool, call_id: Seq<char>, ms: Seq<CapturedView>) -> Seq<char> {
    let es = endpoints(ms);
    if ms.len() == 0 {
        "(no messages)"@
    } else {
        fg(on, Color::DarkGrey) + "Call-ID:"@ + reset(on) + " "@ + bold(on) + call_id + reset(on)
            + "\n\n"@ + bold_endpoint_row(on, es) + "\n"@ + grey_bar_row(on, es.len()) + "\n"@
            + rungs(on, es, ms) + grey_bar_row(on, es.len()) + "\n"@
    }
}

fn push_bold_endpoints(out: &mut String, on: bool, es: &Vec<Endpoint>)
    ensures
        final(out)@ == old(out)@ + bold_endpoint_row(on, endpoint_views(es@)),
{
    let n: usize = es.len();
    let ghost all = endpoint_views(es@);
    let mut i: usize = 0;
    assert(all.take(0).len() == 0);
    assert(out@ =~= old(out)@ + bold_endpoint_row(on, all.take(0)));
    while i < n
        invariant
            n == es@.len(),
            all == endpoint_views(es@),
            i <= n,
            out@ == old(out)@ + bold_endpoint_row(on, all.take(i as int)),
        decreases n - i,
    {
        assert(all.take(i + 1).drop_last() =~= all.take(i as int));
        assert(all.take(i + 1).last() == all[i as int]);
        let mut cell = ansi_bold(on).to_owned();
        cell.append(center(es[i].to_string().as_str(), COLUMN).as_str());
        cell.append(ansi_reset(on));
        out.append(cell.as_str());
        i = i + 1;
        assert(out@ =~= old(out)@ + bold_endpoint_row(on, all.take(i as int)));
    }
    assert(all.take(n as int) =~= all);
}

fn push_grey_bars(out: &mut String, on: bool, n: usize)
    ensures
        final(out)@ == old(out)@ + grey_bar_row(on, n as nat),
{
    let mut i: usize = 0;
    assert(out@ =~= old(out)@ + grey_bar_row(on, 0));
    while i < n
        invariant
            i <= n,
            out@ == old(out)@ + grey_bar_row(on, i as nat),
        decreases n - i,
    {
        let mut cell = ansi_fg(on, Color::DarkGrey).to_owned();
        cell.append(center("│", COLUMN).as_str());
        cell.append(ansi_reset(on));
        out.append(cell.as_str());
        i = i + 1;
        assert(out@ =~= old(out)@ + grey_bar_row(on, i as nat));
    }
}

fn rung_text(on: bool, es: &Vec<Endpoint>, m: &CapturedMessage) -> (r: String)
    requires
        can_shorten(m@.timestamp),
        es@.len() * 48 <= usize::MAX,
        endpoint_views(es@).contains(m@.source),
        endpoint_views(es@).contains(m@.destination),
    ensures
        r@ == rung(on, endpoint_views(es@), m@),
{
    let n: usize = es.len();
    proof {
        lemma_column(endpoint_views(es@), m@.source);
        lemma_column(endpoint_views(es@), m@.destination);
    }
    let src: usize = find_column(es, &m.source);
    let dst: usize = find_column(es, &m.destination);
    let label = label_text(&m.message);
    let hue = color_of(&m.message);
    let time = shorten_time(m.timestamp.as_str());
    let mut s = ansi_fg(on, Color::DarkGrey).to_owned();
    s.append(time);
    s.append(" ");
    s.append(ansi_reset(on));
    s.append(ansi_fg(on, hue));
    push_trimmed(&mut s, &build_label_line(n, src, dst, label.as_str()));
    s.append(ansi_reset(on));
    s.append("\n");
    push_repeated(&mut s, ' ', text_bytes(time));
    s.append("  ");
    s.append(ansi_fg(on, hue));
    push_trimmed(&mut s, &build_arrow_line(n, src, dst));
    s.append(ansi_reset(on));
    s.append("\n");
    s
}

/// A call flow as a coloured diagram.
pub fn ladder_diagram(color: bool, call_id: &str, messages: &[CapturedMessage]) -> (r: String)
    requires
        messages@.len() * 96 <= usize::MAX,
        forall|i: int|
            0 <= i < messages@.len() ==> can_shorten(
                (#[trigger] captures(messages@)[i]).timestamp,
            ),
    ensures
        r@ == ladder(color, call_id@, captures(messages@)),
{
    let n: usize = messages.len();
    let ghost all = captures(messages@);
    if n == 0 {
        return "(no messages)".to_owned();
    }
    let es = collect_endpoints(messages);
    let ghost ends = endpoints(all);
    proof {
        lemma_endpoints(all);
    }
    let mut s = ansi_fg(color, Color::DarkGrey).to_owned();
    s.append("Call-ID:");
    s.append(ansi_reset(color));
    s.append(" ");
    s.append(ansi_bold(color));
    s.append(call_id);
    s.append(ansi_reset(color));
    s.append("\n\n");
    push_bold_endpoints(&mut s, color, &es);
    s.append("\n");
    push_grey_bars(&mut s, color, es.len());
    s.append("\n");
    let ghost head = s@;
    let mut i: usize = 0;
    assert(all.take(0).len() == 0);
    assert(s@ =~= head + rungs(color, ends, all.take(0)));
    while i < n
        invariant
            n == messages@.len(),
            all == captures(messages@),
            ends == endpoints(all),
            ends == endpoint_views(es@),
            es@.len() * 48 <= usize::MAX,
            forall|j: int|
                0 <= j < n ==> ends.contains((#[trigger] all[j]).source) && ends.contains(
                    all[j].destination,
                ),
            forall|j: int| 0 <= j < n ==> can_shorten((#[trigger] all[j]).timestamp),
            i <= n,
            s@ == head + rungs(color, ends, all.take(i as int)),
        decreases n - i,
    {
        assert(all[i as int] == messages@[i as int]@);
        assert(all.take(i + 1).drop_last() =~= all.take(i as int));
        assert(all.take(i + 1).last() == all[i as int]);
        s.append(rung_text(color, &es, &messages[i]).as_str());
        i = i + 1;
        assert(s@ =~= head + rungs(color, ends, all.take(i as int)));
    }
    assert(all.take(n as int) =~= all);
    push_grey_bars(&mut s, color, es.len());
    s.append("\n");
    s
}

// ---------------------------------------------------------------------------
// Laws
// ---------------------------------------------------------------------------

/// Every message has a column for its source and one for its destination, and
/// they are the same only where the message went nowhere.
pub proof fn law_messages_have_columns(ms: Seq<CapturedView>, i: int)
    requires
        0 <= i < ms.len(),
    ensures
        column_of(endpoints(ms), ms[i].source) < endpoints(ms).len(),
        column_of(endpoints(ms), ms[i].destination) < endpoints(ms).len(),
        column_of(endpoints(ms), ms[i].source) == column_of(endpoints(ms), ms[i].destination)
            <==> ms[i].source == ms[i].destination,
{
    lemma_endpoints(ms);
    lemma_column(endpoints(ms), ms[i].source);
    lemma_column(endpoints(ms), ms[i].destination);
}

/// No endpoint has two columns.
pub proof fn law_endpoints_distinct(ms: Seq<CapturedView>)
    ensures
        endpoints(ms).no_duplicates(),
    decreases ms.len(),
{
    if ms.len() > 0 {
        law_endpoints_distinct(ms.drop_last());
    }
}

/// An arrow has its head in the column of the destination: it points to the
/// right where that stands behind the source, and to the left where it stands
/// before it; its tail is in the column of the source.
pub proof fn law_arrow_points(n: nat, src: nat, dst: nat)
    requires
        src < n,
        dst < n,
        src != dst,
    ensures
        arrow_line(n, src, dst)[middle(dst) as int] == (if src < dst {
            '▶'
        } else {
            '◀'
        }),
        arrow_line(n, src, dst)[middle(src) as int] == (if src < dst {
            '├'
        } else {
            '┤'
        }),
{
}

} // verus!
