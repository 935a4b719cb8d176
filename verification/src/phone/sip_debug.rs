//! The tracing of messages and media.
use super::ladder::{label_of, label_text, ladder, ladder_diagram, plain_diagram, plain_ladder};
use super::term::{at_left, byte_len, can_shorten, has_date, lemma_ascii_stamp, pad_right};
use super::ui::{
    capture_summary, counts, media_flow_summary, media_line, message_frame, message_line,
    print_capture_summary, route, route_text, sip_detail, sip_summary,
};
use crate::net::{Endpoint, EndpointView};
use crate::number::{dec, push_dec};
use crate::sip::message::{
    message_text, parse_message, MessageView, MethodView, SipMessage, SipMethod,
};
use crate::sip::transport::{datagram_text, parse_datagram};
use crate::text::same_text;
use chrono::Local;
use vstd::prelude::*;
use vstd::utf8::is_ascii_chars;

verus! {

// ---------------------------------------------------------------------------
// What is traced
// ---------------------------------------------------------------------------

/// A message that was traced.
#[derive(Debug)]
pub struct CapturedMessage {
    pub timestamp: String,
    pub source: Endpoint,
    pub destination: Endpoint,
    pub message: SipMessage,
    pub raw_size: usize,
}

pub struct CapturedView {
    pub timestamp: Seq<char>,
    pub source: EndpointView,
    pub destination: EndpointView,
    pub message: MessageView,
    pub raw_size: nat,
}

impl View for CapturedMessage {
    type V = CapturedView;

    open spec fn view(&self) -> CapturedView {
        CapturedView {
            timestamp: self.timestamp@,
            source: self.source@,
            destination: self.destination@,
            message: self.message@,
            raw_size: self.raw_size as nat,
        }
    }
}

impl Clone for CapturedMessage {
    fn clone(&self) -> (r: Self)
        ensures
            r@ == self@,
    {
        CapturedMessage {
            timestamp: self.timestamp.clone(),
            source: self.source.clone(),
            destination: self.destination.clone(),
            message: self.message.clone(),
            raw_size: self.raw_size,
        }
    }
}

/// Messages that were traced, as values.
pub open spec fn captures(v: Seq<CapturedMessage>) -> Seq<CapturedView> {
    Seq::new(v.len(), |i: int| v[i]@)
}

/// What a message is, without where it went.
pub open spec fn brief(m: MessageView) -> Seq<char> {
    match m {
        MessageView::Request(req) => req.method.text() + " "@ + req.uri,
        MessageView::Response(res) => dec(res.status as nat) + " "@ + res.reason,
    }
}

/// A message on one line, without colours.
pub open spec fn plain_line(c: CapturedView) -> Seq<char> {
    c.timestamp + " | "@ + at_left(route(c.source, c.destination), 42) + " | "@ + brief(c.message)
        + " ("@ + dec(c.raw_size) + "B)"@
}

impl CapturedMessage {
    /// The message on one line, without colours.
    pub fn summary(&self) -> (r: String)
        ensures
            r@ == plain_line(self@),
    {
        let what = match &self.message {
            SipMessage::Request(req) => {
                let mut t = req.method.to_string();
                t.append(" ");
                t.append(req.uri.as_str());
                t
            },
            SipMessage::Response(_) => label_text(&self.message),
        };
        let mut s = self.timestamp.clone();
        s.append(" | ");
        s.append(pad_right(route_text(&self.source, &self.destination).as_str(), 42).as_str());
        s.append(" | ");
        s.append(what.as_str());
        s.append(" (");
        push_dec(&mut s, self.raw_size as u64);
        s.append("B)");
        s
    }

    /// The message on one line.
    pub fn summary_colored(&self, color: bool) -> (r: String)
        requires
            can_shorten(self@.timestamp),
        ensures
            r@ == message_line(
                color,
                self@.timestamp,
                self@.source,
                self@.destination,
                self@.message,
                self@.raw_size,
            ),
    {
        sip_summary(
            color,
            self.timestamp.as_str(),
            &self.source,
            &self.destination,
            &self.message,
            self.raw_size,
        )
    }

    /// The message in full, in a frame.
    pub fn detail_colored(&self, color: bool) -> (r: String)
        ensures
            r@ == message_frame(
                color,
                self@.timestamp,
                self@.source,
                self@.destination,
                self@.message,
                self@.raw_size,
            ),
    {
        sip_detail(
            color,
            self.timestamp.as_str(),
            &self.source,
            &self.destination,
            &self.message,
            self.raw_size,
        )
    }

    /// The message in full, in a frame without colours.
    pub fn detail(&self) -> (r: String)
        ensures
            r@ == message_frame(
                false,
                self@.timestamp,
                self@.source,
                self@.destination,
                self@.message,
                self@.raw_size,
            ),
    {
        self.detail_colored(false)
    }
}

/// A flow of media that was traced.
#[derive(Debug)]
pub struct CapturedMediaEvent {
    pub timestamp: String,
    pub source: Endpoint,
    pub destination: Endpoint,
    pub label: String,
}

pub struct MediaEventView {
    pub timestamp: Seq<char>,
    pub source: EndpointView,
    pub destination: EndpointView,
    pub label: Seq<char>,
}

impl View for CapturedMediaEvent {
    type V = MediaEventView;

    open spec fn view(&self) -> MediaEventView {
        MediaEventView {
            timestamp: self.timestamp@,
            source: self.source@,
            destination: self.destination@,
            label: self.label@,
        }
    }
}

impl Clone for CapturedMediaEvent {
    fn clone(&self) -> (r: Self)
        ensures
            r@ == self@,
    {
        CapturedMediaEvent {
            timestamp: self.timestamp.clone(),
            source: self.source.clone(),
            destination: self.destination.clone(),
            label: self.label.clone(),
        }
    }
}

/// Flows of media that were traced, as values.
pub open spec fn media_events(v: Seq<CapturedMediaEvent>) -> Seq<MediaEventView> {
    Seq::new(v.len(), |i: int| v[i]@)
}

/// What was traced of one call.
#[derive(Debug)]
pub struct CallFlow {
    pub call_id: String,
    pub messages: Vec<CapturedMessage>,
    pub media_events: Vec<CapturedMediaEvent>,
}

pub struct CallFlowView {
    pub call_id: Seq<char>,
    pub messages: Seq<CapturedView>,
    pub media: Seq<MediaEventView>,
}

impl View for CallFlow {
    type V = CallFlowView;

    open spec fn view(&self) -> CallFlowView {
        CallFlowView {
            call_id: self.call_id@,
            messages: captures(self.messages@),
            media: media_events(self.media_events@),
        }
    }
}

/// A call of which nothing was traced.
pub open spec fn new_flow(call_id: Seq<char>) -> CallFlowView {
    CallFlowView { call_id, messages: seq![], media: seq![] }
}

impl CallFlow {
    /// A call of which nothing was traced.
    pub fn new(call_id: String) -> (r: Self)
        ensures
            r@ == new_flow(call_id@),
    {
        let r = CallFlow { call_id, messages: Vec::new(), media_events: Vec::new() };
        assert(r@.messages =~= seq![]);
        assert(r@.media =~= seq![]);
        r
    }

    /// The messages of the call as a diagram, without colours.
    pub fn ladder_diagram(&self) -> (r: String)
        requires
            self@.messages.len() * 96 <= usize::MAX,
            forall|i: int|
                0 <= i < self@.messages.len() ==> has_date(
                    (#[trigger] self@.messages[i]).timestamp,
                ),
        ensures
            r@ == plain_ladder(self@.call_id, self@.messages),
    {
        plain_diagram(self.call_id.as_str(), self.messages.as_slice())
    }

    /// The messages of the call as a diagram.
    pub fn ladder_diagram_colored(&self, color: bool) -> (r: String)
        requires
            self@.messages.len() * 96 <= usize::MAX,
            forall|i: int|
                0 <= i < self@.messages.len() ==> can_shorten(
                    (#[trigger] self@.messages[i]).timestamp,
                ),
        ensures
            r@ == ladder(color, self@.call_id, self@.messages),
    {
        ladder_diagram(color, self.call_id.as_str(), self.messages.as_slice())
    }
}

// ---------------------------------------------------------------------------
// The tracer
// ---------------------------------------------------------------------------

/// Traces messages and media, by call.
pub struct SipDebugger {
    calls: Vec<CallFlow>,
    messages: Vec<CapturedMessage>,
    verbose: bool,
    active: bool,
}

pub struct DebuggerView {
    pub calls: Seq<CallFlowView>,
    pub messages: Seq<CapturedView>,
    pub verbose: bool,
    pub active: bool,
}

/// The flows, as values.
pub open spec fn flows(v: Seq<CallFlow>) -> Seq<CallFlowView> {
    Seq::new(v.len(), |i: int| v[i]@)
}

impl View for SipDebugger {
    type V = DebuggerView;

    closed spec fn view(&self) -> DebuggerView {
        DebuggerView {
            calls: flows(self.calls@),
            messages: captures(self.messages@),
            verbose: self.verbose,
            active: self.active,
        }
    }
}

/// The position of the first flow of a call, or the number of flows.
pub open spec fn flow_index(fs: Seq<CallFlowView>, id: Seq<char>) -> nat
    decreases fs.len(),
{
    if fs.len() == 0 || fs[0].call_id == id {
        0
    } else {
        1 + flow_index(fs.skip(1), id)
    }
}

pub proof fn lemma_flow_index(fs: Seq<CallFlowView>, id: Seq<char>)
    ensures
        flow_index(fs, id) <= fs.len(),
        forall|j: int| 0 <= j < flow_index(fs, id) ==> (#[trigger] fs[j]).call_id != id,
        flow_index(fs, id) < fs.len() ==> fs[flow_index(fs, id) as int].call_id == id,
    decreases fs.len(),
{
    if fs.len() > 0 && fs[0].call_id != id {
        let t = fs.skip(1);
        lemma_flow_index(t, id);
        assert forall|j: int| 0 <= j < flow_index(fs, id) implies (#[trigger] fs[j]).call_id
            != id by {
            if j > 0 {
                assert(t[j - 1] == fs[j]);
            }
        }
        if flow_index(t, id) < t.len() {
            assert(t[flow_index(t, id) as int] == fs[flow_index(fs, id) as int]);
        }
    }
}

/// The flow of a call; an empty one where there is none yet.
pub open spec fn flow_of(fs: Seq<CallFlowView>, id: Seq<char>) -> CallFlowView {
    if flow_index(fs, id) < fs.len() {
        fs[flow_index(fs, id) as int]
    } else {
        new_flow(id)
    }
}

/// The flows with another one in place of the flow of its call, or at the end
/// where there is none yet.
pub open spec fn with_flow(fs: Seq<CallFlowView>, f: CallFlowView) -> Seq<CallFlowView> {
    let k = flow_index(fs, f.call_id) as int;
    if k < fs.len() {
        fs.update(k, f)
    } else {
        fs.push(f)
    }
}

/// The flow with one more message.
pub open spec fn flow_with(f: CallFlowView, m: CapturedView) -> CallFlowView {
    CallFlowView { messages: f.messages.push(m), ..f }
}

/// The flow with one more flow of media.
pub open spec fn flow_with_media(f: CallFlowView, e: MediaEventView) -> CallFlowView {
    CallFlowView { media: f.media.push(e), ..f }
}

/// The tracer after a message: it is noted, and among those of its call where
/// it says which that is.
pub open spec fn after_message(d: DebuggerView, m: CapturedView) -> DebuggerView {
    DebuggerView {
        calls: match m.message.call_id() {
            Some(id) => with_flow(d.calls, flow_with(flow_of(d.calls, id), m)),
            None => d.calls,
        },
        messages: d.messages.push(m),
        ..d
    }
}

/// The tracer after a flow of media.
pub open spec fn after_media(d: DebuggerView, id: Seq<char>, e: MediaEventView) -> DebuggerView {
    DebuggerView {
        calls: with_flow(d.calls, flow_with_media(flow_of(d.calls, id), e)),
        ..d
    }
}

/// Whether every time stamp of a flow can be shortened.
pub open spec fn flow_ok(f: CallFlowView) -> bool {
    &&& forall|i: int| 0 <= i < f.messages.len() ==> can_shorten((#[trigger] f.messages[i]).timestamp)
    &&& forall|i: int| 0 <= i < f.media.len() ==> can_shorten((#[trigger] f.media[i]).timestamp)
}

impl DebuggerView {
    /// What holds of every tracer: the time stamps can be shortened, and no call
    /// has two flows.
    pub open spec fn wf(self) -> bool {
        &&& forall|i: int| 0 <= i < self.calls.len() ==> flow_ok(#[trigger] self.calls[i])
        &&& forall|i: int, j: int|
            0 <= i < j < self.calls.len() ==> (#[trigger] self.calls[i]).call_id != (
            #[trigger] self.calls[j]).call_id
    }
}

proof fn lemma_with_flow_wf(d: DebuggerView, f: CallFlowView)
    requires
        d.wf(),
        flow_ok(f),
    ensures
        (DebuggerView { calls: with_flow(d.calls, f), ..d }).wf(),
{
    lemma_flow_index(d.calls, f.call_id);
    let k = flow_index(d.calls, f.call_id) as int;
    let r = with_flow(d.calls, f);
    assert forall|i: int| 0 <= i < r.len() implies flow_ok(#[trigger] r[i]) by {
        if i < d.calls.len() && i != k {
            assert(r[i] == d.calls[i]);
        }
    }
    assert forall|i: int, j: int| 0 <= i < j < r.len() implies (#[trigger] r[i]).call_id != (
    #[trigger] r[j]).call_id by {
        if i != k {
            assert(r[i] == d.calls[i]);
        }
        if j != k && j < d.calls.len() {
            assert(r[j] == d.calls[j]);
        }
        if j < d.calls.len() {
            assert(d.calls[i].call_id != d.calls[j].call_id);
        }
    }
}

/// What is shown of a message that was traced: a line, and in verbose mode the
/// message in full.
#[derive(Debug)]
pub struct Shown {
    pub line: String,
    pub block: Option<String>,
}

/// Whether what is shown of a message is right.
pub open spec fn shows(s: Shown, color: bool, verbose: bool, m: CapturedView) -> bool {
    &&& s.line@ == message_line(
        color,
        m.timestamp,
        m.source,
        m.destination,
        m.message,
        m.raw_size,
    )
    &&& match s.block {
        Some(b) => verbose && b@ == message_frame(
            color,
            m.timestamp,
            m.source,
            m.destination,
            m.message,
            m.raw_size,
        ),
        None => !verbose,
    }
}

/// `Local::now` of the `chrono` crate gives the time, and its
/// `format("%Y-%m-%d %H:%M:%S%.3f")` writes it down: a year of at least four
/// characters, and the rest in digits and ASCII signs. Which time it is, is not
/// promised.
#[verifier::external_body]
fn stamp() -> (r: String)
    ensures
        is_ascii_chars(r@),
        r@.len() >= 23,
{
    Local::now().format("%Y-%m-%d %H:%M:%S%.3f").to_string()
}

/// The time now, as it is written to traces.
pub fn time_stamp() -> (r: String)
    ensures
        has_date(r@),
        can_shorten(r@),
        is_ascii_chars(r@),
{
    let s = stamp();
    proof {
        lemma_ascii_stamp(s@);
    }
    s
}

/// Whether a message passes a filter: a request by its method, and a response
/// by that of the request that it answers, where it names it.
pub open spec fn passes(filter: Option<MethodView>, m: MessageView) -> bool {
    match filter {
        None => true,
        Some(f) => match m {
            MessageView::Request(req) => req.method == f,
            MessageView::Response(_) => match m.cseq() {
                Some((_, method)) => method == f,
                None => true,
            },
        },
    }
}

/// Whether a message passes a filter.
pub fn passes_filter(filter: Option<&SipMethod>, msg: &SipMessage) -> (r: bool)
    ensures
        r == passes(
            match filter {
                Some(f) => Some(f@),
                None => None,
            },
            msg@,
        ),
{
    let f = match filter {
        Some(f) => f,
        None => {
            return true;
        },
    };
    match msg {
        SipMessage::Request(req) => req.method.same(f),
        SipMessage::Response(_) => match msg.cseq() {
            Some((_, method)) => method.same(f),
            None => true,
        },
    }
}

/// What became of a datagram that was sniffed.
#[derive(Debug)]
pub enum Sniffed {
    /// It holds a message, which is shown.
    Message(Shown),
    /// It holds a message that does not pass the filter.
    Filtered,
    /// It holds no message.
    NotSip,
}

impl SipDebugger {
    /// What holds of every tracer.
    pub open spec fn wf(&self) -> bool {
        self@.wf()
    }

    /// A tracer that does not trace yet.
    pub fn new(verbose: bool) -> (r: Self)
        ensures
            r.wf(),
            r@ == (DebuggerView { calls: seq![], messages: seq![], verbose, active: false }),
    {
        let r = SipDebugger { calls: Vec::new(), messages: Vec::new(), verbose, active: false };
        assert(r@.calls =~= seq![]);
        assert(r@.messages =~= seq![]);
        r
    }

    /// Whether messages are traced.
    pub fn is_active(&self) -> (r: bool)
        ensures
            r == self@.active,
    {
        self.active
    }

    /// Begins to trace.
    pub fn start(&mut self, verbose: bool)
        requires
            old(self).wf(),
        ensures
            final(self).wf(),
            final(self)@ == (DebuggerView { verbose, active: true, ..old(self)@ }),
    {
        self.verbose = verbose;
        self.active = true;
    }

    /// Ceases to trace. What was traced is kept.
    pub fn stop(&mut self)
        requires
            old(self).wf(),
        ensures
            final(self).wf(),
            final(self)@ == (DebuggerView { active: false, ..old(self)@ }),
    {
        self.active = false;
    }

    fn find_flow(&self, id: &str) -> (r: usize)
        ensures
            r == flow_index(self@.calls, id@),
            r <= self.calls@.len(),
    {
        let n: usize = self.calls.len();
        let mut i: usize = 0;
        let ghost all = self@.calls;
        assert(all.skip(0) =~= all);
        while i < n
            invariant
                n == self.calls@.len(),
                all == flows(self.calls@),
                i <= n,
                flow_index(all, id@) == i + flow_index(all.skip(i as int), id@),
            decreases n - i,
        {
            assert(all.skip(i as int)[0] == all[i as int]);
            if same_text(self.calls[i].call_id.as_str(), id) {
                return i;
            }
            assert(all.skip(i as int).skip(1) =~= all.skip(i + 1));
            i = i + 1;
        }
        n
    }

    /// Takes out the flow of a call, or makes one; gives where it was.
    fn take_flow(&mut self, id: &str) -> (r: (usize, CallFlow))
        ensures
            r.0 == flow_index(old(self)@.calls, id@),
            r.0 <= old(self).calls@.len(),
            r.1@ == flow_of(old(self)@.calls, id@),
            r.0 < old(self).calls@.len() ==> final(self).calls@ == old(self).calls@.remove(
                r.0 as int,
            ),
            r.0 == old(self).calls@.len() ==> final(self).calls@ == old(self).calls@,
            final(self).messages == old(self).messages,
            final(self).verbose == old(self).verbose,
            final(self).active == old(self).active,
    {
        let k: usize = self.find_flow(id);
        if k < self.calls.len() {
            let f = self.calls.remove(k);
            (k, f)
        } else {
            (k, CallFlow::new(id.to_owned()))
        }
    }

    /// Traces a message, whether or not tracing is on.
    pub fn process(&mut self, msg: CapturedMessage, color: bool) -> (r: Shown)
        requires
            old(self).wf(),
            can_shorten(msg@.timestamp),
        ensures
            final(self).wf(),
            final(self)@ == after_message(old(self)@, msg@),
            shows(r, color, old(self)@.verbose, msg@),
    {
        let line = msg.summary_colored(color);
        let block = if self.verbose {
            Some(msg.detail_colored(color))
        } else {
            None
        };
        let ghost before = self@;
        if let Some(id) = msg.message.call_id() {
            proof {
                lemma_flow_index(before.calls, id@);
                let f = flow_of(before.calls, id@);
                lemma_with_flow_wf(before, flow_with(f, msg@));
            }
            let ghost calls = self.calls@;
            let (k, mut flow) = self.take_flow(id.as_str());
            let ghost f = flow@;
            flow.messages.push(msg.clone());
            assert(flow@.messages =~= f.messages.push(msg@));
            self.calls.insert(k, flow);
            assert(flows(self.calls@) =~= with_flow(before.calls, flow_with(f, msg@)));
        }
        self.messages.push(msg);
        assert(self@.messages =~= before.messages.push(msg@));
        Shown { line, block }
    }

    /// Traces a message that arrived or was sent at `timestamp`, if tracing is on.
    pub fn capture_at(
        &mut self,
        timestamp: String,
        message: &SipMessage,
        source: &Endpoint,
        destination: &Endpoint,
        color: bool,
    ) -> (r: Option<Shown>)
        requires
            old(self).wf(),
            can_shorten(timestamp@),
        ensures
            final(self).wf(),
            captured_at(
                old(self)@,
                final(self)@,
                r,
                timestamp@,
                message@,
                source@,
                destination@,
                color,
            ),
    {
        if !self.active {
            return None;
        }
        let raw_size: usize = message.to_bytes().len();
        let captured = CapturedMessage {
            timestamp,
            source: source.clone(),
            destination: destination.clone(),
            message: message.clone(),
            raw_size,
        };
        Some(self.process(captured, color))
    }

    /// Traces a message that arrived, if tracing is on.
    pub fn capture_incoming(
        &mut self,
        message: &SipMessage,
        source: &Endpoint,
        local_addr: &Endpoint,
        color: bool,
    ) -> (r: Option<Shown>)
        requires
            old(self).wf(),
        ensures
            final(self).wf(),
            exists|t: Seq<char>| #[trigger]
                has_date(t) && captured_at(
                    old(self)@,
                    final(self)@,
                    r,
                    t,
                    message@,
                    source@,
                    local_addr@,
                    color,
                ),
    {
        let t = time_stamp();
        assert(has_date(t@));
        self.capture_at(t, message, source, local_addr, color)
    }

    /// Traces a message that was sent, if tracing is on.
    pub fn capture_outgoing(
        &mut self,
        message: &SipMessage,
        local_addr: &Endpoint,
        destination: &Endpoint,
        color: bool,
    ) -> (r: Option<Shown>)
        requires
            old(self).wf(),
        ensures
            final(self).wf(),
            exists|t: Seq<char>| #[trigger]
                has_date(t) && captured_at(
                    old(self)@,
                    final(self)@,
                    r,
                    t,
                    message@,
                    local_addr@,
                    destination@,
                    color,
                ),
    {
        let t = time_stamp();
        assert(has_date(t@));
        self.capture_at(t, message, local_addr, destination, color)
    }
}

/// The tracer before and after a message, and what is shown: where tracing is
/// off, nothing happens.
pub open spec fn captured_at(
    before: DebuggerView,
    after: DebuggerView,
    r: Option<Shown>,
    timestamp: Seq<char>,
    message: MessageView,
    source: EndpointView,
    destination: EndpointView,
    color: bool,
) -> bool {
    let m = CapturedView {
        timestamp,
        source,
        destination,
        message,
        raw_size: byte_len(message_text(message)),
    };
    match r {
        Some(s) => before.active && after == after_message(before, m) && shows(
            s,
            color,
            before.verbose,
            m,
        ),
        None => !before.active && after == before,
    }
}

/// The tracer before and after a flow of media, and what is shown: where
/// tracing is off, nothing happens.
pub open spec fn media_captured_at(
    before: DebuggerView,
    after: DebuggerView,
    r: Option<String>,
    call_id: Seq<char>,
    e: MediaEventView,
    color: bool,
) -> bool {
    match r {
        Some(line) => before.active && after == after_media(before, call_id, e) && line@
            == media_line(color, e.timestamp, e.source, e.destination, e.label),
        None => !before.active && after == before,
    }
}

/// Something that is shown.
#[derive(Debug)]
pub enum Output {
    Line(String),
    Block(String),
}

pub enum OutputView {
    Line(Seq<char>),
    Block(Seq<char>),
}

impl View for Output {
    type V = OutputView;

    open spec fn view(&self) -> OutputView {
        match *self {
            Output::Line(s) => OutputView::Line(s@),
            Output::Block(s) => OutputView::Block(s@),
        }
    }
}

/// What is shown, as values.
pub open spec fn outputs(v: Seq<Output>) -> Seq<OutputView> {
    Seq::new(v.len(), |i: int| v[i]@)
}

/// The lines for the media of a call.
pub open spec fn media_output(on: bool, media: Seq<MediaEventView>) -> Seq<OutputView> {
    Seq::new(
        media.len(),
        |i: int|
            OutputView::Line(
                "  "@ + media_line(
                    on,
                    media[i].timestamp,
                    media[i].source,
                    media[i].destination,
                    media[i].label,
                ),
            ),
    )
}

/// What is shown of a call: its messages as a diagram, and its media.
pub open spec fn flow_output(on: bool, f: CallFlowView) -> Seq<OutputView> {
    seq![
        OutputView::Block(
            if f.messages.len() > 0 {
                "\n"@ + ladder(on, f.call_id, f.messages)
            } else {
                "\nCall-ID: "@ + f.call_id
            },
        ),
    ] + (if f.media.len() > 0 {
        seq![OutputView::Line("RTP/media flow:"@)] + media_output(on, f.media)
    } else {
        seq![]
    })
}

/// What is shown of the calls.
pub open spec fn calls_output(on: bool, fs: Seq<CallFlowView>) -> Seq<OutputView>
    decreases fs.len(),
{
    if fs.len() == 0 {
        seq![]
    } else {
        calls_output(on, fs.drop_last()) + flow_output(on, fs.last())
    }
}

fn show(out: &mut Vec<Output>, o: Output)
    ensures
        outputs(final(out)@) == outputs(old(out)@).push(o@),
{
    out.push(o);
    assert(outputs(out@) =~= outputs(old(out)@).push(o@));
}

fn show_media(out: &mut Vec<Output>, on: bool, media: &Vec<CapturedMediaEvent>)
    requires
        forall|i: int|
            0 <= i < media@.len() ==> can_shorten(
                (#[trigger] media_events(media@)[i]).timestamp,
            ),
    ensures
        outputs(final(out)@) == outputs(old(out)@) + media_output(on, media_events(media@)),
{
    let n: usize = media.len();
    let ghost all = media_output(on, media_events(media@));
    let mut i: usize = 0;
    assert(outputs(out@) =~= outputs(old(out)@) + all.take(0));
    while i < n
        invariant
            n == media@.len(),
            all == media_output(on, media_events(media@)),
            forall|j: int|
                0 <= j < n ==> can_shorten((#[trigger] media_events(media@)[j]).timestamp),
            i <= n,
            outputs(out@) == outputs(old(out)@) + all.take(i as int),
        decreases n - i,
    {
        let e = &media[i];
        assert(media_events(media@)[i as int] == e@);
        let mut s = "  ".to_owned();
        s.append(
            media_flow_summary(
                on,
                e.timestamp.as_str(),
                &e.source,
                &e.destination,
                e.label.as_str(),
            ).as_str(),
        );
        show(out, Output::Line(s));
        i = i + 1;
        assert(outputs(out@) =~= outputs(old(out)@) + all.take(i as int));
    }
    assert(all.take(n as int) =~= all);
}

fn show_flow(out: &mut Vec<Output>, on: bool, f: &CallFlow)
    requires
        flow_ok(f@),
        f@.messages.len() * 96 <= usize::MAX,
    ensures
        outputs(final(out)@) == outputs(old(out)@) + flow_output(on, f@),
{
    if f.messages.len() > 0 {
        let mut s = "\n".to_owned();
        s.append(f.ladder_diagram_colored(on).as_str());
        show(out, Output::Block(s));
    } else {
        let mut s = "\nCall-ID: ".to_owned();
        s.append(f.call_id.as_str());
        show(out, Output::Block(s));
    }
    if f.media_events.len() > 0 {
        show(out, Output::Line("RTP/media flow:".to_owned()));
        assert(f@.media == media_events(f.media_events@));
        show_media(out, on, &f.media_events);
    }
    assert(outputs(out@) =~= outputs(old(out)@) + flow_output(on, f@));
}

/// How many of the messages are of a kind.
pub open spec fn kind_count(ms: Seq<CapturedView>, kind: Seq<char>) -> nat
    decreases ms.len(),
{
    if ms.len() == 0 {
        0
    } else {
        kind_count(ms.drop_last(), kind) + (if label_of(ms.last().message) == kind {
            1nat
        } else {
            0nat
        })
    }
}

/// How many of the messages are requests.
pub open spec fn request_count(ms: Seq<CapturedView>) -> nat
    decreases ms.len(),
{
    if ms.len() == 0 {
        0
    } else {
        request_count(ms.drop_last()) + (if ms.last().message is Request {
            1nat
        } else {
            0nat
        })
    }
}

/// Whether a list has every kind of the messages once, with how many there are,
/// and those that are more frequent first. Which of two kinds that are equally
/// frequent comes first is left open.
pub open spec fn is_breakdown(kinds: Seq<(Seq<char>, nat)>, ms: Seq<CapturedView>) -> bool {
    &&& forall|i: int|
        0 <= i < kinds.len() ==> (#[trigger] kinds[i]).1 == kind_count(ms, kinds[i].0)
            && kinds[i].1 > 0
    &&& forall|i: int, j: int|
        0 <= i < j < kinds.len() ==> (#[trigger] kinds[i]).0 != (#[trigger] kinds[j]).0
            && kinds[i].1 >= kinds[j].1
    &&& forall|k: int|
        0 <= k < ms.len() ==> has_kind(kinds, label_of((#[trigger] ms[k]).message))
}

/// Whether a list has a kind.
pub open spec fn has_kind(kinds: Seq<(Seq<char>, nat)>, kind: Seq<char>) -> bool {
    exists|i: int| 0 <= i < kinds.len() && (#[trigger] kinds[i]).0 == kind
}

impl SipDebugger {
    /// Traces that media flow at `timestamp`, if tracing is on.
    pub fn capture_rtp_event_at(
        &mut self,
        timestamp: String,
        call_id: &str,
        source: &Endpoint,
        destination: &Endpoint,
        label: &str,
        color: bool,
    ) -> (r: Option<String>)
        requires
            old(self).wf(),
            can_shorten(timestamp@),
        ensures
            final(self).wf(),
            media_captured_at(
                old(self)@,
                final(self)@,
                r,
                call_id@,
                MediaEventView {
                    timestamp: timestamp@,
                    source: source@,
                    destination: destination@,
                    label: label@,
                },
                color,
            ),
    {
        if !self.active {
            return None;
        }
        let line = media_flow_summary(color, timestamp.as_str(), source, destination, label);
        let event = CapturedMediaEvent {
            timestamp,
            source: source.clone(),
            destination: destination.clone(),
            label: label.to_owned(),
        };
        let ghost before = self@;
        proof {
            lemma_flow_index(before.calls, call_id@);
            let f = flow_of(before.calls, call_id@);
            lemma_with_flow_wf(before, flow_with_media(f, event@));
        }
        let (k, mut flow) = self.take_flow(call_id);
        let ghost f = flow@;
        let ghost e = event@;
        flow.media_events.push(event);
        assert(flow@.media =~= f.media.push(e));
        self.calls.insert(k, flow);
        assert(flows(self.calls@) =~= with_flow(before.calls, flow_with_media(f, e)));
        Some(line)
    }

    /// Traces that media flow, if tracing is on.
    pub fn capture_rtp_event(
        &mut self,
        call_id: &str,
        source: &Endpoint,
        destination: &Endpoint,
        label: &str,
        color: bool,
    ) -> (r: Option<String>)
        requires
            old(self).wf(),
        ensures
            final(self).wf(),
            exists|t: Seq<char>| #[trigger]
                has_date(t) && media_captured_at(
                    old(self)@,
                    final(self)@,
                    r,
                    call_id@,
                    MediaEventView {
                        timestamp: t,
                        source: source@,
                        destination: destination@,
                        label: label@,
                    },
                    color,
                ),
    {
        let t = time_stamp();
        assert(has_date(t@));
        self.capture_rtp_event_at(t, call_id, source, destination, label, color)
    }

    /// Takes in a datagram that was sniffed at `timestamp`: a message that passes
    /// the filter is traced and shown, whether or not tracing is on.
    pub fn sniff(
        &mut self,
        timestamp: String,
        data: &[u8],
        source: &Endpoint,
        local_addr: &Endpoint,
        filter: Option<&SipMethod>,
        color: bool,
    ) -> (r: Sniffed)
        requires
            old(self).wf(),
            can_shorten(timestamp@),
        ensures
            final(self).wf(),
            ({
                let f = match filter {
                    Some(x) => Some(x@),
                    None => None,
                };
                match parse_message(datagram_text(data@)) {
                    Err(_) => r is NotSip && final(self)@ == old(self)@,
                    Ok(m) => {
                        let c = CapturedView {
                            timestamp: timestamp@,
                            source: source@,
                            destination: local_addr@,
                            message: m,
                            raw_size: data@.len(),
                        };
                        if passes(f, m) {
                            &&& r is Message
                            &&& shows(r->Message_0, color, old(self)@.verbose, c)
                            &&& final(self)@ == after_message(old(self)@, c)
                        } else {
                            r is Filtered && final(self)@ == old(self)@
                        }
                    },
                }
            }),
    {
        let message = match parse_datagram(data) {
            Ok(m) => m,
            Err(_) => {
                return Sniffed::NotSip;
            },
        };
        if !passes_filter(filter, &message) {
            return Sniffed::Filtered;
        }
        let captured = CapturedMessage {
            timestamp,
            source: source.clone(),
            destination: local_addr.clone(),
            message,
            raw_size: data.len(),
        };
        Sniffed::Message(self.process(captured, color))
    }

    /// The number of messages that were traced.
    pub fn message_count(&self) -> (r: usize)
        ensures
            r == self@.messages.len(),
    {
        self.messages.len()
    }

    /// The number of flows of media that were traced.
    pub fn media_event_count(&self) -> (r: usize)
        requires
            media_total(self@.calls) <= usize::MAX,
        ensures
            r == media_total(self@.calls),
    {
        let n: usize = self.calls.len();
        let ghost all = self@.calls;
        let mut total: usize = 0;
        let mut i: usize = 0;
        assert(all.take(0).len() == 0);
        while i < n
            invariant
                n == self.calls@.len(),
                all == flows(self.calls@),
                media_total(all) <= usize::MAX,
                i <= n,
                total == media_total(all.take(i as int)),
            decreases n - i,
        {
            proof {
                assert(all.take(i + 1).drop_last() =~= all.take(i as int));
                assert(all.take(i + 1).last() == all[i as int]);
                lemma_media_total_grows(all, i + 1);
            }
            total = total + self.calls[i].media_events.len();
            i = i + 1;
        }
        assert(all.take(n as int) =~= all);
        total
    }

    /// Whether anything was traced.
    pub fn has_captures(&self) -> (r: bool)
        ensures
            r == (self@.messages.len() > 0 || media_total(self@.calls) > 0),
    {
        if self.messages.len() > 0 {
            return true;
        }
        let n: usize = self.calls.len();
        let ghost all = self@.calls;
        let mut i: usize = 0;
        assert(all.take(0).len() == 0);
        while i < n
            invariant
                n == self.calls@.len(),
                all == flows(self.calls@),
                self@.calls == all,
                self@.messages.len() == 0,
                i <= n,
                media_total(all.take(i as int)) == 0,
            decreases n - i,
        {
            proof {
                assert(all.take(i + 1).drop_last() =~= all.take(i as int));
                assert(all.take(i + 1).last() == all[i as int]);
                lemma_media_total_grows(all, i + 1);
            }
            if self.calls[i].media_events.len() > 0 {
                return true;
            }
            i = i + 1;
        }
        assert(all.take(n as int) =~= all);
        false
    }

    /// What was traced, by call.
    pub fn print_flows(&self, color: bool) -> (r: Vec<Output>)
        requires
            self.wf(),
            forall|i: int|
                0 <= i < self@.calls.len() ==> (#[trigger] self@.calls[i]).messages.len() * 96
                    <= usize::MAX,
        ensures
            outputs(r@) == (if self@.calls.len() == 0 {
                seq![OutputView::Line("No calls captured."@)]
            } else {
                calls_output(color, self@.calls)
            }),
    {
        let n: usize = self.calls.len();
        let ghost all = self@.calls;
        let mut out: Vec<Output> = Vec::new();
        assert(outputs(out@) =~= seq![]);
        if n == 0 {
            show(&mut out, Output::Line("No calls captured.".to_owned()));
            assert(outputs(out@) =~= seq![OutputView::Line("No calls captured."@)]);
            return out;
        }
        let mut i: usize = 0;
        assert(all.take(0).len() == 0);
        while i < n
            invariant
                n == self.calls@.len(),
                all == flows(self.calls@),
                forall|j: int| 0 <= j < n ==> flow_ok(#[trigger] all[j]),
                forall|j: int|
                    0 <= j < n ==> (#[trigger] all[j]).messages.len() * 96 <= usize::MAX,
                i <= n,
                outputs(out@) == calls_output(color, all.take(i as int)),
            decreases n - i,
        {
            assert(all.take(i + 1).drop_last() =~= all.take(i as int));
            assert(all.take(i + 1).last() == all[i as int]);
            assert(all[i as int] == self.calls@[i as int]@);
            show_flow(&mut out, color, &self.calls[i]);
            i = i + 1;
        }
        assert(all.take(n as int) =~= all);
        out
    }
}

/// The number of flows of media of all calls.
pub open spec fn media_total(fs: Seq<CallFlowView>) -> nat
    decreases fs.len(),
{
    if fs.len() == 0 {
        0
    } else {
        media_total(fs.drop_last()) + fs.last().media.len()
    }
}

proof fn lemma_media_total_grows(fs: Seq<CallFlowView>, k: int)
    requires
        0 <= k <= fs.len(),
    ensures
        media_total(fs.take(k)) <= media_total(fs),
    decreases fs.len(),
{
    if k < fs.len() {
        assert(fs.drop_last().take(k) =~= fs.take(k));
        lemma_media_total_grows(fs.drop_last(), k);
    } else {
        assert(fs.take(k) =~= fs);
    }
}

/// Whether a list has every kind of the messages once, with how many there are.
spec fn counts_kinds(kinds: Seq<(Seq<char>, nat)>, ms: Seq<CapturedView>) -> bool {
    &&& forall|i: int|
        0 <= i < kinds.len() ==> (#[trigger] kinds[i]).1 == kind_count(ms, kinds[i].0)
            && kinds[i].1 > 0
    &&& forall|i: int, j: int|
        0 <= i < j < kinds.len() ==> (#[trigger] kinds[i]).0 != (#[trigger] kinds[j]).0
    &&& forall|k: int|
        0 <= k < ms.len() ==> has_kind(kinds, label_of((#[trigger] ms[k]).message))
}

proof fn lemma_kind_absent(ms: Seq<CapturedView>, kind: Seq<char>)
    requires
        forall|k: int| 0 <= k < ms.len() ==> label_of((#[trigger] ms[k]).message) != kind,
    ensures
        kind_count(ms, kind) == 0,
    decreases ms.len(),
{
    if ms.len() > 0 {
        let t = ms.drop_last();
        assert forall|k: int| 0 <= k < t.len() implies label_of((#[trigger] t[k]).message)
            != kind by {
            assert(t[k] == ms[k]);
        }
        assert(label_of(ms[ms.len() - 1].message) != kind);
        lemma_kind_absent(t, kind);
    }
}

proof fn lemma_kind_bound(ms: Seq<CapturedView>, kind: Seq<char>)
    ensures
        kind_count(ms, kind) <= ms.len(),
    decreases ms.len(),
{
    if ms.len() > 0 {
        lemma_kind_bound(ms.drop_last(), kind);
    }
}

/// Counts one more message of a kind.
fn count_kind(kinds: &mut Vec<(String, usize)>, kind: String, Ghost(ms): Ghost<Seq<CapturedView>>)
    requires
        ms.len() > 0,
        ms.len() <= usize::MAX,
        kind@ == label_of(ms.last().message),
        counts_kinds(counts(old(kinds)@), ms.drop_last()),
    ensures
        counts_kinds(counts(final(kinds)@), ms),
{
    let ghost before = counts(kinds@);
    let ghost t = ms.drop_last();
    let n: usize = kinds.len();
    let mut i: usize = 0;
    while i < n && !same_text(kinds[i].0.as_str(), kind.as_str())
        invariant
            n == kinds@.len(),
            before == counts(kinds@),
            i <= n,
            forall|j: int| 0 <= j < i ==> (#[trigger] before[j]).0 != kind@,
        decreases n - i,
    {
        assert(before[i as int].0 == kinds@[i as int].0@);
        i = i + 1;
    }
    if i < n {
        assert(before[i as int].0 == kind@);
        let c: usize = kinds[i].1;
        proof {
            lemma_kind_bound(t, kind@);
            assert(before[i as int].1 == c);
        }
        kinds.set(i, (kind, c + 1));
        let ghost after = counts(kinds@);
        proof {
            assert(after =~= before.update(i as int, (kind@, (c + 1) as nat)));
            assert forall|j: int| 0 <= j < after.len() implies (#[trigger] after[j]).1
                == kind_count(ms, after[j].0) && after[j].1 > 0 by {
                if j != i {
                    assert(after[j] == before[j]);
                    assert(before[j].0 != kind@) by {
                        if j < i {
                        } else {
                            assert(before[i as int].0 != before[j].0);
                        }
                    }
                }
            }
            assert forall|a: int, b: int| 0 <= a < b < after.len() implies (#[trigger] after[a]).0
                != (#[trigger] after[b]).0 by {
                assert(after[a].0 == before[a].0);
                assert(after[b].0 == before[b].0);
            }
            assert forall|k: int| 0 <= k < ms.len() implies has_kind(
                after,
                label_of((#[trigger] ms[k]).message),
            ) by {
                if k < t.len() {
                    assert(t[k] == ms[k]);
                    assert(has_kind(before, label_of(t[k].message)));
                    let a = choose|a: int|
                        0 <= a < before.len() && (#[trigger] before[a]).0 == label_of(
                            t[k].message,
                        );
                    assert(after[a].0 == before[a].0);
                } else {
                    assert(after[i as int].0 == kind@);
                }
            }
        }
    } else {
        let ghost k0 = kind@;
        kinds.push((kind, 1));
        let ghost after = counts(kinds@);
        proof {
            assert(after =~= before.push((k0, 1nat)));
            assert forall|k: int| 0 <= k < t.len() implies label_of((#[trigger] t[k]).message)
                != k0 by {
                assert(has_kind(before, label_of(t[k].message)));
            }
            lemma_kind_absent(t, k0);
            assert forall|j: int| 0 <= j < after.len() implies (#[trigger] after[j]).1
                == kind_count(ms, after[j].0) && after[j].1 > 0 by {
                if j < n {
                    assert(after[j] == before[j]);
                }
            }
            assert forall|a: int, b: int| 0 <= a < b < after.len() implies (#[trigger] after[a]).0
                != (#[trigger] after[b]).0 by {
                assert(after[a] == before[a]);
                if b < n {
                    assert(after[b] == before[b]);
                }
            }
            assert forall|k: int| 0 <= k < ms.len() implies has_kind(
                after,
                label_of((#[trigger] ms[k]).message),
            ) by {
                if k < t.len() {
                    assert(t[k] == ms[k]);
                    assert(has_kind(before, label_of(t[k].message)));
                    let a = choose|a: int|
                        0 <= a < before.len() && (#[trigger] before[a]).0 == label_of(
                            t[k].message,
                        );
                    assert(after[a] == before[a]);
                } else {
                    assert(after[n as int].0 == k0);
                }
            }
        }
    }
}

/// Whether those that are more frequent come first.
spec fn frequent_first(kinds: Seq<(Seq<char>, nat)>) -> bool {
    forall|i: int, j: int|
        0 <= i < j < kinds.len() ==> (#[trigger] kinds[i]).1 >= (#[trigger] kinds[j]).1
}

/// A list with a count at `p` that was at its end is as right as the list was.
proof fn lemma_moved(kinds: Seq<(Seq<char>, nat)>, item: (Seq<char>, nat), p: int, ms: Seq<CapturedView>)
    requires
        0 <= p <= kinds.len(),
        forall|i: int|
            0 <= i < kinds.len() ==> (#[trigger] kinds[i]).1 == kind_count(ms, kinds[i].0)
                && kinds[i].1 > 0 && kinds[i].0 != item.0,
        forall|i: int, j: int|
            0 <= i < j < kinds.len() ==> (#[trigger] kinds[i]).0 != (#[trigger] kinds[j]).0,
        item.1 == kind_count(ms, item.0),
        item.1 > 0,
        frequent_first(kinds),
        forall|i: int| 0 <= i < p ==> (#[trigger] kinds[i]).1 >= item.1,
        forall|i: int| p <= i < kinds.len() ==> (#[trigger] kinds[i]).1 < item.1,
    ensures
        frequent_first(kinds.insert(p, item)),
        forall|i: int|
            0 <= i < kinds.insert(p, item).len() ==> (#[trigger] kinds.insert(p, item)[i]).1
                == kind_count(ms, kinds.insert(p, item)[i].0) && kinds.insert(p, item)[i].1 > 0,
        forall|i: int, j: int|
            0 <= i < j < kinds.insert(p, item).len() ==> (#[trigger] kinds.insert(p, item)[i]).0
                != (#[trigger] kinds.insert(p, item)[j]).0,
        forall|k: Seq<char>| #[trigger]
            has_kind(kinds, k) || k == item.0 ==> has_kind(kinds.insert(p, item), k),
{
    let r = kinds.insert(p, item);
    assert forall|i: int, j: int| 0 <= i < j < r.len() implies (#[trigger] r[i]).1 >= (
    #[trigger] r[j]).1 && r[i].0 != r[j].0 by {
        let a = if i < p { i } else { i - 1 };
        let b = if j < p { j } else { j - 1 };
        if i != p {
            assert(r[i] == kinds[a]);
        }
        if j != p {
            assert(r[j] == kinds[b]);
        }
    }
    assert forall|i: int| 0 <= i < r.len() implies (#[trigger] r[i]).1 == kind_count(ms, r[i].0)
        && r[i].1 > 0 by {
        if i != p {
            assert(r[i] == kinds[if i < p { i } else { i - 1 }]);
        }
    }
    assert forall|k: Seq<char>| #[trigger] has_kind(kinds, k) || k == item.0 implies has_kind(
        r,
        k,
    ) by {
        if k == item.0 {
            assert(r[p].0 == k);
        } else {
            let i = choose|i: int| 0 <= i < kinds.len() && (#[trigger] kinds[i]).0 == k;
            assert(r[if i < p { i } else { i + 1 }] == kinds[i]);
        }
    }
}

/// The kinds with those that are more frequent first.
fn sort_kinds(kinds: Vec<(String, usize)>, Ghost(ms): Ghost<Seq<CapturedView>>) -> (r: Vec<
    (String, usize),
>)
    requires
        counts_kinds(counts(kinds@), ms),
    ensures
        counts_kinds(counts(r@), ms),
        frequent_first(counts(r@)),
{
    let ghost all = counts(kinds@);
    let mut rest = kinds;
    let mut out: Vec<(String, usize)> = Vec::new();
    while rest.len() > 0
        invariant
            counts_kinds(all, ms),
            rest@.len() <= all.len(),
            counts(rest@) == all.take(rest@.len() as int),
            frequent_first(counts(out@)),
            forall|i: int|
                0 <= i < out@.len() ==> (#[trigger] counts(out@)[i]).1 == kind_count(
                    ms,
                    counts(out@)[i].0,
                ) && counts(out@)[i].1 > 0,
            forall|i: int, j: int|
                0 <= i < j < out@.len() ==> (#[trigger] counts(out@)[i]).0 != (#[trigger] counts(
                    out@,
                )[j]).0,
            forall|i: int, j: int|
                0 <= i < out@.len() && 0 <= j < rest@.len() ==> (#[trigger] counts(out@)[i]).0
                    != (#[trigger] all[j]).0,
            forall|j: int|
                rest@.len() <= j < all.len() ==> has_kind(counts(out@), (#[trigger] all[j]).0),
        decreases rest@.len(),
    {
        let ghost m = rest@.len() as int;
        let ghost before = counts(out@);
        assert(counts(rest@)[m - 1] == all[m - 1]);
        let item = match rest.pop() {
            Some(x) => x,
            None => {
                return out;
            },
        };
        let ghost it = (item.0@, item.1 as nat);
        assert(it == all[m - 1]);
        assert(counts(rest@) =~= all.take(m - 1));
        let n: usize = out.len();
        let mut p: usize = n;
        while p > 0 && out[p - 1].1 < item.1
            invariant
                n == out@.len(),
                before == counts(out@),
                it == (item.0@, item.1 as nat),
                p <= n,
                forall|i: int| p <= i < n ==> (#[trigger] before[i]).1 < it.1,
            decreases p,
        {
            assert(before[p - 1].1 == out@[p - 1].1);
            p = p - 1;
        }
        proof {
            if p > 0 {
                assert(before[p - 1].1 == out@[p - 1].1);
            }
            assert forall|i: int| 0 <= i < p implies (#[trigger] before[i]).1 >= it.1 by {
                if i < p - 1 {
                    assert(before[i].1 >= before[p - 1].1);
                }
            }
            assert forall|i: int| 0 <= i < before.len() implies (#[trigger] before[i]).0
                != it.0 by {
                assert(before[i].0 != all[m - 1].0);
            }
            lemma_moved(before, it, p as int, ms);
        }
        out.insert(p, item);
        let ghost after = counts(out@);
        proof {
            assert(after =~= before.insert(p as int, it));
            assert forall|i: int, j: int| 0 <= i < after.len() && 0 <= j < m - 1 implies (
            #[trigger] after[i]).0 != (#[trigger] all[j]).0 by {
                if i != p {
                    assert(after[i] == before[if i < p { i } else { i - 1 }]);
                } else {
                    assert(all[j].0 != all[m - 1].0);
                }
            }
            assert forall|j: int| m - 1 <= j < all.len() implies has_kind(
                after,
                (#[trigger] all[j]).0,
            ) by {
                if j >= m {
                    assert(has_kind(before, all[j].0));
                } else {
                    assert(has_kind(before, it.0) || it.0 == it.0);
                    assert(after[p as int].0 == it.0);
                }
            }
        }
    }
    proof {
        let done = counts(out@);
        assert forall|k: int| 0 <= k < ms.len() implies has_kind(
            done,
            label_of((#[trigger] ms[k]).message),
        ) by {
            let kind = label_of(ms[k].message);
            assert(has_kind(all, kind));
            let j = choose|j: int| 0 <= j < all.len() && (#[trigger] all[j]).0 == kind;
            assert(has_kind(done, all[j].0));
        }
    }
    out
}

impl SipDebugger {
    /// How often each kind of message was traced.
    pub fn breakdown(&self) -> (r: Vec<(String, usize)>)
        ensures
            is_breakdown(counts(r@), self@.messages),
    {
        let n: usize = self.messages.len();
        let ghost all = self@.messages;
        let mut kinds: Vec<(String, usize)> = Vec::new();
        let mut i: usize = 0;
        assert(counts(kinds@) =~= seq![]);
        assert(all.take(0).len() == 0);
        while i < n
            invariant
                n == self.messages@.len(),
                all == captures(self.messages@),
                i <= n,
                counts_kinds(counts(kinds@), all.take(i as int)),
            decreases n - i,
        {
            assert(all.take(i + 1).drop_last() =~= all.take(i as int));
            assert(all.take(i + 1).last() == all[i as int]);
            let kind = label_text(&self.messages[i].message);
            count_kind(&mut kinds, kind, Ghost(all.take(i + 1)));
            i = i + 1;
        }
        assert(all.take(n as int) =~= all);
        let r = sort_kinds(kinds, Ghost(all));
        r
    }

    /// A summary of what was traced.
    pub fn print_summary(&self, color: bool) -> (r: String)
        ensures
            exists|kinds: Seq<(Seq<char>, nat)>| #[trigger]
                is_breakdown(kinds, self@.messages) && r@ == capture_summary(
                    color,
                    self@.messages.len(),
                    self@.calls.len(),
                    request_count(self@.messages),
                    (self@.messages.len() - request_count(self@.messages)) as nat,
                    kinds,
                ),
    {
        let n: usize = self.messages.len();
        let ghost all = self@.messages;
        let mut requests: usize = 0;
        let mut i: usize = 0;
        assert(all.take(0).len() == 0);
        while i < n
            invariant
                n == self.messages@.len(),
                all == captures(self.messages@),
                i <= n,
                requests <= i,
                requests == request_count(all.take(i as int)),
            decreases n - i,
        {
            assert(all.take(i + 1).drop_last() =~= all.take(i as int));
            assert(all.take(i + 1).last() == all[i as int]);
            if self.messages[i].message.is_request() {
                requests = requests + 1;
            }
            i = i + 1;
        }
        assert(all.take(n as int) =~= all);
        let kinds = self.breakdown();
        assert(is_breakdown(counts(kinds@), all));
        print_capture_summary(
            color,
            n,
            self.calls.len(),
            requests,
            n - requests,
            kinds.as_slice(),
        )
    }
}

// ---------------------------------------------------------------------------
// Laws
// ---------------------------------------------------------------------------

/// A message is noted in the flow of its call, behind those that are there;
/// the flows of other calls stay as they were.
pub proof fn law_messages_by_call(d: DebuggerView, m: CapturedView, id: Seq<char>)
    requires
        d.wf(),
    ensures
        m.message.call_id() == Some(id) ==> flow_of(after_message(d, m).calls, id)
            == flow_with(flow_of(d.calls, id), m),
        m.message.call_id() != Some(id) ==> flow_of(after_message(d, m).calls, id) == flow_of(
            d.calls,
            id,
        ),
        after_message(d, m).messages == d.messages.push(m),
{
    if let Some(own) = m.message.call_id() {
        lemma_flow_index(d.calls, own);
        lemma_with_flow(d.calls, flow_with(flow_of(d.calls, own), m), id);
    }
}

/// A flow of media is noted in the flow of its call; the flows of other calls
/// stay as they were, and so do the messages.
pub proof fn law_media_by_call(d: DebuggerView, own: Seq<char>, e: MediaEventView, id: Seq<char>)
    ensures
        flow_of(after_media(d, own, e).calls, own) == flow_with_media(flow_of(d.calls, own), e),
        own != id ==> flow_of(after_media(d, own, e).calls, id) == flow_of(d.calls, id),
        after_media(d, own, e).messages == d.messages,
{
    lemma_flow_index(d.calls, own);
    lemma_with_flow(d.calls, flow_with_media(flow_of(d.calls, own), e), own);
    lemma_with_flow(d.calls, flow_with_media(flow_of(d.calls, own), e), id);
}

proof fn lemma_with_flow(fs: Seq<CallFlowView>, f: CallFlowView, id: Seq<char>)
    ensures
        flow_of(with_flow(fs, f), id) == (if f.call_id == id {
            f
        } else {
            flow_of(fs, id)
        }),
{
    let r = with_flow(fs, f);
    let k = flow_index(fs, f.call_id) as int;
    lemma_flow_index(fs, f.call_id);
    lemma_flow_index(fs, id);
    lemma_flow_index(r, id);
    let a = flow_index(fs, id) as int;
    let b = flow_index(r, id) as int;
    if f.call_id == id {
        assert(r[k].call_id == id);
        assert(b <= k) by {
            if b > k {
                assert(r[k].call_id != id);
            }
        }
        if b < k {
            assert(r[b] == fs[b]);
        }
    } else {
        if a < fs.len() {
            assert(r[a] == fs[a]);
            assert(b <= a) by {
                if b > a {
                    assert(r[a].call_id != id);
                }
            }
            if b < a {
                if b != k {
                    assert(r[b] == fs[b]);
                }
            }
        } else if b < r.len() {
            if b != k {
                assert(r[b] == fs[b]);
            }
        }
    }
}

/// Where tracing is off, nothing is noted and nothing is shown.
pub proof fn law_inactive_traces_nothing(
    before: DebuggerView,
    after: DebuggerView,
    r: Option<Shown>,
    timestamp: Seq<char>,
    message: MessageView,
    source: EndpointView,
    destination: EndpointView,
    color: bool,
)
    requires
        !before.active,
        captured_at(before, after, r, timestamp, message, source, destination, color),
    ensures
        after == before,
        r is None,
{
}

} // verus!
