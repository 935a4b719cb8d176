//! Transactions: one request and the responses to it (RFC 3261, section 17).
use super::header::{extract_param, lookup, param_of, HeaderName, NameView};
use super::message::{MessageView, MethodView, SipMessage, SipMethod, StatusCode};
use crate::text::same_text;
use std::time::Instant;
use vstd::prelude::*;

verus! {

/// Timer values, in milliseconds.
pub const T1: u64 = 500;

pub const T2: u64 = 4000;

pub const T4: u64 = 5000;

pub const TIMER_B: u64 = 32000;

pub const TIMER_D: u64 = 32000;

pub const TIMER_F: u64 = 32000;

pub const TIMER_H: u64 = 32000;

/// A moment, as the clock of the machine gives it.
#[verifier::external_type_specification]
#[verifier::external_body]
pub struct ExInstant(Instant);

/// `Instant::now` is the current moment. Nothing is promised of which one.
pub assume_specification[ Instant::now ]() -> Instant
;

/// `Instant::elapsed` says how long ago a moment was; it is given here in
/// nanoseconds. Nothing is promised of how long.
#[verifier::external_body]
fn nanos_since(at: &Instant) -> u128 {
    at.elapsed().as_nanos()
}

#[derive(Debug, Clone, Copy, PartialEq, Eq, Structural)]
pub enum TransactionKind {
    ClientInvite,
    ClientNonInvite,
    ServerInvite,
    ServerNonInvite,
}

#[derive(Debug, Clone, Copy, PartialEq, Eq, Structural)]
pub enum TransactionState {
    /// No response yet.
    Trying,
    /// A provisional response has come or gone.
    Proceeding,
    /// A final response has come or gone.
    Completed,
    /// The final response has been acknowledged.
    Confirmed,
    /// The transaction is done.
    Terminated,
}

/// What is to be done after a step of a transaction.
#[derive(Debug, Clone, Copy, PartialEq, Eq, Structural)]
pub enum TransactionAction {
    /// Nothing.
    Nothing,
    /// Hand the message to the dialog layer.
    PassToTU,
    /// Acknowledge a final response other than 2xx.
    SendAck,
    /// Send the response.
    SendResponse,
}

#[derive(Debug)]
pub struct SipTransaction {
    pub id: String,
    pub kind: TransactionKind,
    pub state: TransactionState,
    pub method: SipMethod,
    pub branch: String,
    pub call_id: String,
    pub original_request: Option<SipMessage>,
    pub last_response: Option<SipMessage>,
    pub retransmit_count: u32,
    pub created_at: Instant,
    pub last_retransmit: Option<Instant>,
}

/// What a `SipTransaction` holds, apart from the moments.
pub struct TransactionView {
    pub id: Seq<char>,
    pub kind: TransactionKind,
    pub state: TransactionState,
    pub method: MethodView,
    pub branch: Seq<char>,
    pub call_id: Seq<char>,
    pub original_request: Option<MessageView>,
    pub last_response: Option<MessageView>,
    pub retransmit_count: u32,
}

/// What an optional message stands for.
pub open spec fn opt_message(m: Option<SipMessage>) -> Option<MessageView> {
    match m {
        Some(t) => Some(t@),
        None => None,
    }
}

fn clone_message(m: &Option<SipMessage>) -> (r: Option<SipMessage>)
    ensures
        opt_message(r) == opt_message(*m),
{
    match m {
        Some(t) => Some(t.clone()),
        None => None,
    }
}

impl View for SipTransaction {
    type V = TransactionView;

    open spec fn view(&self) -> TransactionView {
        TransactionView {
            id: self.id@,
            kind: self.kind,
            state: self.state,
            method: self.method@,
            branch: self.branch@,
            call_id: self.call_id@,
            original_request: opt_message(self.original_request),
            last_response: opt_message(self.last_response),
            retransmit_count: self.retransmit_count,
        }
    }
}

impl Clone for SipTransaction {
    fn clone(&self) -> (r: Self)
        ensures
            r@ == self@,
            r.created_at == self.created_at,
            r.last_retransmit == self.last_retransmit,
    {
        SipTransaction {
            id: self.id.clone(),
            kind: self.kind,
            state: self.state,
            method: self.method.clone(),
            branch: self.branch.clone(),
            call_id: self.call_id.clone(),
            original_request: clone_message(&self.original_request),
            last_response: clone_message(&self.last_response),
            retransmit_count: self.retransmit_count,
            created_at: self.created_at,
            last_retransmit: self.last_retransmit,
        }
    }
}

/// The branch parameter of the first Via field.
pub open spec fn branch_of(m: MessageView) -> Option<Seq<char>> {
    match lookup(m.headers(), NameView::Via) {
        Some(v) => param_of(v, "branch="@),
        None => None,
    }
}

/// The transaction that a request begins, of the one kind for an INVITE and of
/// the other for any other method. The request needs a branch and a Call-ID.
pub open spec fn transaction_of(
    m: MessageView,
    invite: TransactionKind,
    other: TransactionKind,
) -> Option<TransactionView> {
    match m {
        MessageView::Request(req) => if branch_of(m) is Some && m.call_id() is Some {
            Some(
                TransactionView {
                    id: branch_of(m)->0 + ":"@ + req.method.text(),
                    kind: if req.method == MethodView::Invite {
                        invite
                    } else {
                        other
                    },
                    state: TransactionState::Trying,
                    method: req.method,
                    branch: branch_of(m)->0,
                    call_id: m.call_id()->0,
                    original_request: Some(m),
                    last_response: None,
                    retransmit_count: 0,
                },
            )
        } else {
            None
        },
        MessageView::Response(_) => None,
    }
}

/// The next state and the action when a client transaction in state `s`
/// receives a response with status `code`.
pub open spec fn client_step(kind: TransactionKind, s: TransactionState, code: u16) -> (
    TransactionState,
    TransactionAction,
) {
    let open = s == TransactionState::Trying || s == TransactionState::Proceeding;
    match kind {
        TransactionKind::ClientInvite => if open {
            if 100 <= code < 200 {
                (TransactionState::Proceeding, TransactionAction::PassToTU)
            } else if 200 <= code < 300 {
                (TransactionState::Terminated, TransactionAction::PassToTU)
            } else {
                (TransactionState::Completed, TransactionAction::SendAck)
            }
        } else if s == TransactionState::Completed {
            (s, TransactionAction::SendAck)
        } else {
            (s, TransactionAction::Nothing)
        },
        TransactionKind::ClientNonInvite => if open {
            if 100 <= code < 200 {
                (TransactionState::Proceeding, TransactionAction::PassToTU)
            } else {
                (TransactionState::Completed, TransactionAction::PassToTU)
            }
        } else {
            (s, TransactionAction::Nothing)
        },
        _ => (s, TransactionAction::Nothing),
    }
}

/// The next state and the action when a server transaction in state `s` sends
/// a response with status `code`.
pub open spec fn server_step(kind: TransactionKind, s: TransactionState, code: u16) -> (
    TransactionState,
    TransactionAction,
) {
    match kind {
        TransactionKind::ServerInvite => if 100 <= code < 200 {
            (TransactionState::Proceeding, TransactionAction::SendResponse)
        } else if 200 <= code < 300 {
            (TransactionState::Terminated, TransactionAction::SendResponse)
        } else {
            (TransactionState::Completed, TransactionAction::SendResponse)
        },
        TransactionKind::ServerNonInvite => if 100 <= code < 200 {
            (TransactionState::Proceeding, TransactionAction::SendResponse)
        } else {
            (TransactionState::Completed, TransactionAction::SendResponse)
        },
        _ => (s, TransactionAction::Nothing),
    }
}

/// `2^n`.
pub open spec fn doubled(n: nat) -> nat
    decreases n,
{
    if n == 0 {
        1
    } else {
        2 * doubled((n - 1) as nat)
    }
}

/// The time before retransmission `count + 1`: it doubles each time, up to
/// sixty-four times `T1`, and for a client no longer than `T2`.
pub open spec fn interval(kind: TransactionKind, count: u32) -> nat {
    let n: nat = if count < 6 {
        count as nat
    } else {
        6
    };
    let t = T1 as nat * doubled(n);
    if client(kind) && t > T2 {
        T2 as nat
    } else {
        t
    }
}

/// Whether a transaction of this kind is one of a client.
pub open spec fn client(kind: TransactionKind) -> bool {
    kind == TransactionKind::ClientInvite || kind == TransactionKind::ClientNonInvite
}

/// Whether a transaction that began `nanos` nanoseconds ago has timed out.
pub open spec fn timed_out(t: TransactionView, nanos: int) -> bool {
    nanos > 32_000_000_000 && (client(t.kind) || t.state == TransactionState::Completed)
}

/// Whether a client transaction retransmits its request.
pub open spec fn retransmits(t: TransactionView) -> bool {
    client(t.kind) && (t.state == TransactionState::Trying || (t.state
        == TransactionState::Proceeding && t.kind == TransactionKind::ClientInvite))
}

/// Whether a message belongs to the transaction: it has the same branch, and
/// the method in its CSeq, if it has one, is that of the transaction.
pub open spec fn in_transaction(t: TransactionView, m: MessageView) -> bool {
    branch_of(m) == Some(t.branch) && (m.cseq() is Some ==> (m.cseq()->0).1 == t.method)
}

impl SipTransaction {
    fn begin(request: &SipMessage, invite: TransactionKind, other: TransactionKind) -> (r: Option<
        Self,
    >)
        ensures
            match r {
                Some(t) => transaction_of(request@, invite, other) == Some(t@)
                    && t.last_retransmit is None,
                None => transaction_of(request@, invite, other) is None,
            },
    {
        let req = match request {
            SipMessage::Request(req) => req,
            SipMessage::Response(_) => {
                return None;
            },
        };
        let branch = match SipTransaction::extract_branch(request) {
            Some(b) => b,
            None => {
                return None;
            },
        };
        let call_id = match req.headers.get(&HeaderName::CallId) {
            Some(v) => v.as_str().to_owned(),
            None => {
                return None;
            },
        };
        let kind = if req.method.same(&SipMethod::Invite) {
            invite
        } else {
            other
        };
        let mut id = branch.clone();
        id.append(":");
        id.append(req.method.as_str());
        Some(
            SipTransaction {
                id,
                kind,
                state: TransactionState::Trying,
                method: req.method.clone(),
                branch,
                call_id,
                original_request: Some(request.clone()),
                last_response: None,
                retransmit_count: 0,
                created_at: Instant::now(),
                last_retransmit: None,
            },
        )
    }

    /// The client transaction of a request that is sent.
    pub fn new_client(request: &SipMessage) -> (r: Option<Self>)
        ensures
            match r {
                Some(t) => transaction_of(
                    request@,
                    TransactionKind::ClientInvite,
                    TransactionKind::ClientNonInvite,
                ) == Some(t@) && t.last_retransmit is None,
                None => transaction_of(
                    request@,
                    TransactionKind::ClientInvite,
                    TransactionKind::ClientNonInvite,
                ) is None,
            },
    {
        SipTransaction::begin(
            request,
            TransactionKind::ClientInvite,
            TransactionKind::ClientNonInvite,
        )
    }

    /// The server transaction of a request that is received.
    pub fn new_server(request: &SipMessage) -> (r: Option<Self>)
        ensures
            match r {
                Some(t) => transaction_of(
                    request@,
                    TransactionKind::ServerInvite,
                    TransactionKind::ServerNonInvite,
                ) == Some(t@) && t.last_retransmit is None,
                None => transaction_of(
                    request@,
                    TransactionKind::ServerInvite,
                    TransactionKind::ServerNonInvite,
                ) is None,
            },
    {
        SipTransaction::begin(
            request,
            TransactionKind::ServerInvite,
            TransactionKind::ServerNonInvite,
        )
    }

    /// Takes in a response to the request of a client transaction.
    pub fn process_response(&mut self, response: &SipMessage) -> (r: TransactionAction)
        ensures
            match response@ {
                MessageView::Response(res) => {
                    let next = client_step(old(self)@.kind, old(self)@.state, res.status);
                    final(self)@ == (TransactionView { state: next.0, ..old(self)@ }) && r
                        == next.1
                },
                MessageView::Request(_) => final(self)@ == old(self)@ && r
                    == TransactionAction::Nothing,
            },
            final(self).created_at == old(self).created_at,
            final(self).last_retransmit == old(self).last_retransmit,
    {
        match response {
            SipMessage::Response(res) => match self.kind {
                TransactionKind::ClientInvite => self.process_client_invite_response(res.status),
                TransactionKind::ClientNonInvite => self.process_client_non_invite_response(
                    res.status,
                ),
                _ => TransactionAction::Nothing,
            },
            SipMessage::Request(_) => TransactionAction::Nothing,
        }
    }

    fn process_client_invite_response(&mut self, status: StatusCode) -> (r: TransactionAction)
        requires
            old(self).kind == TransactionKind::ClientInvite,
        ensures
            final(self)@ == (TransactionView {
                state: client_step(old(self)@.kind, old(self)@.state, status.0).0,
                ..old(self)@
            }),
            r == client_step(old(self)@.kind, old(self)@.state, status.0).1,
            final(self).created_at == old(self).created_at,
            final(self).last_retransmit == old(self).last_retransmit,
    {
        match self.state {
            TransactionState::Trying | TransactionState::Proceeding => {
                if status.is_provisional() {
                    self.state = TransactionState::Proceeding;
                    TransactionAction::PassToTU
                } else if status.is_success() {
                    self.state = TransactionState::Terminated;
                    TransactionAction::PassToTU
                } else {
                    self.state = TransactionState::Completed;
                    TransactionAction::SendAck
                }
            },
            TransactionState::Completed => TransactionAction::SendAck,
            _ => TransactionAction::Nothing,
        }
    }

    fn process_client_non_invite_response(&mut self, status: StatusCode) -> (r: TransactionAction)
        requires
            old(self).kind == TransactionKind::ClientNonInvite,
        ensures
            final(self)@ == (TransactionView {
                state: client_step(old(self)@.kind, old(self)@.state, status.0).0,
                ..old(self)@
            }),
            r == client_step(old(self)@.kind, old(self)@.state, status.0).1,
            final(self).created_at == old(self).created_at,
            final(self).last_retransmit == old(self).last_retransmit,
    {
        match self.state {
            TransactionState::Trying | TransactionState::Proceeding => {
                if status.is_provisional() {
                    self.state = TransactionState::Proceeding;
                } else {
                    self.state = TransactionState::Completed;
                }
                TransactionAction::PassToTU
            },
            _ => TransactionAction::Nothing,
        }
    }

    /// Notes a response that a server transaction sends.
    pub fn send_response(&mut self, response: &SipMessage) -> (r: TransactionAction)
        ensures
            match response@ {
                MessageView::Response(res) => {
                    let next = server_step(old(self)@.kind, old(self)@.state, res.status);
                    final(self)@ == (TransactionView {
                        state: next.0,
                        last_response: Some(response@),
                        ..old(self)@
                    }) && r == next.1
                },
                MessageView::Request(_) => final(self)@ == old(self)@ && r
                    == TransactionAction::Nothing,
            },
            final(self).created_at == old(self).created_at,
            final(self).last_retransmit == old(self).last_retransmit,
    {
        let res = match response {
            SipMessage::Response(res) => res,
            SipMessage::Request(_) => {
                return TransactionAction::Nothing;
            },
        };
        self.last_response = Some(response.clone());
        match self.kind {
            TransactionKind::ServerInvite => {
                if res.status.is_provisional() {
                    self.state = TransactionState::Proceeding;
                } else if res.status.is_success() {
                    self.state = TransactionState::Terminated;
                } else {
                    self.state = TransactionState::Completed;
                }
                TransactionAction::SendResponse
            },
            TransactionKind::ServerNonInvite => {
                if res.status.is_provisional() {
                    self.state = TransactionState::Proceeding;
                } else {
                    self.state = TransactionState::Completed;
                }
                TransactionAction::SendResponse
            },
            _ => TransactionAction::Nothing,
        }
    }

    /// Whether the request is to be retransmitted.
    pub fn should_retransmit(&self) -> (r: bool)
        ensures
            r == retransmits(self@),
    {
        if self.kind != TransactionKind::ClientInvite && self.kind
            != TransactionKind::ClientNonInvite {
            return false;
        }
        self.state == TransactionState::Trying || (self.state == TransactionState::Proceeding
            && self.kind == TransactionKind::ClientInvite)
    }

    /// The time before the next retransmission, in milliseconds.
    pub fn retransmit_interval(&self) -> (r: u64)
        ensures
            r as nat == interval(self@.kind, self@.retransmit_count),
    {
        let n: u32 = if self.retransmit_count < 6 {
            self.retransmit_count
        } else {
            6
        };
        let mut m: u64 = 1;
        let mut i: u32 = 0;
        proof {
            reveal_with_fuel(doubled, 8);
        }
        while i < n
            invariant
                i <= n <= 6,
                m == doubled(i as nat),
                m <= 64,
                i <= 6,
                doubled(0) == 1 && doubled(1) == 2 && doubled(2) == 4 && doubled(3) == 8
                    && doubled(4) == 16 && doubled(5) == 32 && doubled(6) == 64,
            decreases n - i,
        {
            m = m * 2;
            i = i + 1;
        }
        let t: u64 = T1 * m;
        match self.kind {
            TransactionKind::ClientInvite | TransactionKind::ClientNonInvite => if t > T2 {
                T2
            } else {
                t
            },
            _ => t,
        }
    }

    /// Notes that the request has been retransmitted.
    pub fn mark_retransmit(&mut self)
        requires
            old(self).retransmit_count < u32::MAX,
        ensures
            final(self)@ == (TransactionView {
                retransmit_count: (old(self).retransmit_count + 1) as u32,
                ..old(self)@
            }),
            final(self).created_at == old(self).created_at,
            final(self).last_retransmit is Some,
    {
        self.retransmit_count = self.retransmit_count + 1;
        self.last_retransmit = Some(Instant::now());
    }

    /// Whether the transaction has timed out, if it began `nanos` nanoseconds ago.
    pub fn is_timed_out_after(&self, nanos: u128) -> (r: bool)
        ensures
            r == timed_out(self@, nanos as int),
    {
        let late = nanos > 32_000_000_000;
        match self.kind {
            TransactionKind::ClientInvite | TransactionKind::ClientNonInvite => late,
            TransactionKind::ServerInvite | TransactionKind::ServerNonInvite => self.state
                == TransactionState::Completed && late,
        }
    }

    /// Whether the transaction has timed out.
    pub fn is_timed_out(&self) -> (r: bool)
        ensures
            exists|nanos: u128| r == #[trigger] timed_out(self@, nanos as int),
    {
        self.is_timed_out_after(nanos_since(&self.created_at))
    }

    pub fn is_terminated(&self) -> (r: bool)
        ensures
            r == (self@.state == TransactionState::Terminated),
    {
        self.state == TransactionState::Terminated
    }

    /// Whether a message belongs to this transaction.
    pub fn matches(&self, msg: &SipMessage) -> (r: bool)
        ensures
            r == in_transaction(self@, msg@),
    {
        if let Some(branch) = SipTransaction::extract_branch(msg) {
            if same_text(branch.as_str(), self.branch.as_str()) {
                return match msg.cseq() {
                    Some((_, method)) => method.same(&self.method),
                    None => true,
                };
            }
        }
        false
    }

    fn extract_branch(msg: &SipMessage) -> (r: Option<String>)
        ensures
            match r {
                Some(b) => branch_of(msg@) == Some(b@),
                None => branch_of(msg@) is None,
            },
    {
        match msg.headers().get(&HeaderName::Via) {
            Some(via) => extract_param(via.as_str(), "branch="),
            None => None,
        }
    }
}

/// How far a transaction has come.
pub open spec fn progress(s: TransactionState) -> int {
    match s {
        TransactionState::Trying => 0,
        TransactionState::Proceeding => 1,
        TransactionState::Completed => 2,
        TransactionState::Confirmed => 3,
        TransactionState::Terminated => 4,
    }
}

/// A response never takes a client transaction back, and one that is done
/// stays done and asks for nothing.
pub proof fn law_client_progress(kind: TransactionKind, s: TransactionState, code: u16)
    ensures
        progress(client_step(kind, s, code).0) >= progress(s),
        s == TransactionState::Terminated ==> client_step(kind, s, code) == (
            s,
            TransactionAction::Nothing,
        ),
{
}

/// A final response other than 2xx to an INVITE is acknowledged each time it
/// comes.
pub proof fn law_ack_repeats(code: u16, again: u16)
    requires
        code >= 300,
    ensures
        ({
            let s = client_step(
                TransactionKind::ClientInvite,
                TransactionState::Proceeding,
                code,
            );
            &&& s.1 == TransactionAction::SendAck
            &&& client_step(TransactionKind::ClientInvite, s.0, again) == (
                s.0,
                TransactionAction::SendAck,
            )
        }),
{
}

/// The time between retransmissions never shrinks, and a client never waits
/// longer than `T2`.
pub proof fn law_interval_grows(kind: TransactionKind, count: u32)
    requires
        count < u32::MAX,
    ensures
        interval(kind, count) <= interval(kind, (count + 1) as u32),
        client(kind) ==> interval(kind, count) <= T2,
        interval(kind, 0) == T1,
{
    reveal_with_fuel(doubled, 8);
}

/// The transaction of a request takes in the request itself.
pub proof fn law_request_in_own_transaction(
    m: MessageView,
    invite: TransactionKind,
    other: TransactionKind,
)
    requires
        transaction_of(m, invite, other) is Some,
        m.cseq() is Some ==> (m.cseq()->0).1 == m->Request_0.method,
    ensures
        in_transaction(transaction_of(m, invite, other)->0, m),
{
}

} // verus!
