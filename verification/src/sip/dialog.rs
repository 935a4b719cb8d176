//! Dialogs: the state that the two ends of a call share.
use super::header::{
    brackets_ordered, extract_tag, extract_uri, generate_tag, lookup, tag_of, uri_of, HeaderName,
    NameView,
};
use super::message::{clone_opt, opt_text, MessageView, MethodView, SipMessage, SipMethod};
use crate::number::hex;
use crate::text::same_text;
use vstd::prelude::*;

verus! {

#[derive(Debug, Clone, Copy, PartialEq, Eq, Structural)]
pub enum DialogState {
    /// The INVITE is under way; there is no final response yet.
    Early,
    /// A 2xx response has confirmed the dialog.
    Confirmed,
    /// The dialog has ended.
    Terminated,
}

#[derive(Debug)]
pub struct SipDialog {
    pub call_id: String,
    pub local_tag: String,
    pub remote_tag: Option<String>,
    pub local_uri: String,
    pub remote_uri: String,
    pub remote_target: Option<String>,
    pub local_cseq: u32,
    pub remote_cseq: Option<u32>,
    pub state: DialogState,
}

/// What a `SipDialog` holds.
pub struct DialogView {
    pub call_id: Seq<char>,
    pub local_tag: Seq<char>,
    pub remote_tag: Option<Seq<char>>,
    pub local_uri: Seq<char>,
    pub remote_uri: Seq<char>,
    pub remote_target: Option<Seq<char>>,
    pub local_cseq: u32,
    pub remote_cseq: Option<u32>,
    pub state: DialogState,
}

impl View for SipDialog {
    type V = DialogView;

    open spec fn view(&self) -> DialogView {
        DialogView {
            call_id: self.call_id@,
            local_tag: self.local_tag@,
            remote_tag: opt_text(self.remote_tag),
            local_uri: self.local_uri@,
            remote_uri: self.remote_uri@,
            remote_target: opt_text(self.remote_target),
            local_cseq: self.local_cseq,
            remote_cseq: self.remote_cseq,
            state: self.state,
        }
    }
}

impl Clone for SipDialog {
    fn clone(&self) -> (r: Self)
        ensures
            r@ == self@,
    {
        SipDialog {
            call_id: self.call_id.clone(),
            local_tag: self.local_tag.clone(),
            remote_tag: clone_opt(&self.remote_tag),
            local_uri: self.local_uri.clone(),
            remote_uri: self.remote_uri.clone(),
            remote_target: clone_opt(&self.remote_target),
            local_cseq: self.local_cseq,
            remote_cseq: self.remote_cseq,
            state: self.state,
        }
    }
}

/// The URI of the Contact field, if there is one.
pub open spec fn contact_uri(m: MessageView) -> Option<Seq<char>> {
    match lookup(m.headers(), NameView::Contact) {
        Some(v) => uri_of(v),
        None => None,
    }
}

/// Whether the angle brackets of a field, if it is there, are in order.
pub open spec fn field_ordered(m: MessageView, k: NameView) -> bool {
    match lookup(m.headers(), k) {
        Some(v) => brackets_ordered(v),
        None => true,
    }
}

/// Whether the message is an INVITE.
pub open spec fn is_invite(m: MessageView) -> bool {
    m is Request && m->Request_0.method == MethodView::Invite
}

/// The dialog that an incoming INVITE opens, with `tag` for this end. The
/// INVITE needs a Call-ID, a tag and a URI in From, and a URI in To.
pub open spec fn dialog_of_invite(m: MessageView, tag: Seq<char>) -> Option<DialogView> {
    let hs = m.headers();
    let from = lookup(hs, NameView::From);
    let to = lookup(hs, NameView::To);
    if is_invite(m) && m.call_id() is Some && from is Some && tag_of(from->0) is Some && uri_of(
        from->0,
    ) is Some && to is Some && uri_of(to->0) is Some {
        Some(
            DialogView {
                call_id: m.call_id()->0,
                local_tag: tag,
                remote_tag: tag_of(from->0),
                local_uri: uri_of(to->0)->0,
                remote_uri: uri_of(from->0)->0,
                remote_target: contact_uri(m),
                local_cseq: 1,
                remote_cseq: None,
                state: DialogState::Early,
            },
        )
    } else {
        None
    }
}

/// Whether the angle brackets are in order in each field of an INVITE from
/// which a URI is taken.
pub open spec fn invite_ordered(m: MessageView) -> bool {
    let hs = m.headers();
    let from = lookup(hs, NameView::From);
    let to = lookup(hs, NameView::To);
    is_invite(m) && m.call_id() is Some && from is Some && tag_of(from->0) is Some ==> {
        &&& brackets_ordered(from->0)
        &&& uri_of(from->0) is Some && to is Some ==> {
            &&& brackets_ordered(to->0)
            &&& uri_of(to->0) is Some ==> field_ordered(m, NameView::Contact)
        }
    }
}

/// The dialog after a response: a tag in To and a Contact are taken over, and a
/// final response confirms or ends it. A response of another call leaves it
/// as it is.
pub open spec fn after_response(d: DialogView, m: MessageView) -> DialogView {
    if takes_response(d, m) {
        let hs = m.headers();
        let to = lookup(hs, NameView::To);
        let code = m->Response_0.status;
        DialogView {
            remote_tag: if to is Some && tag_of(to->0) is Some {
                tag_of(to->0)
            } else {
                d.remote_tag
            },
            remote_target: if lookup(hs, NameView::Contact) is Some {
                contact_uri(m)
            } else {
                d.remote_target
            },
            state: if 200 <= code <= 299 {
                DialogState::Confirmed
            } else if 300 <= code <= 699 {
                DialogState::Terminated
            } else {
                d.state
            },
            ..d
        }
    } else {
        d
    }
}

/// Whether the message is a response with the Call-ID of the dialog.
pub open spec fn takes_response(d: DialogView, m: MessageView) -> bool {
    m is Response && m.call_id() == Some(d.call_id)
}

/// Whether the message is a BYE with the Call-ID of the dialog.
pub open spec fn takes_bye(d: DialogView, m: MessageView) -> bool {
    m is Request && m->Request_0.method == MethodView::Bye && m.call_id() == Some(d.call_id)
}

/// Whether a message belongs to the dialog: its Call-ID is that of the dialog,
/// and where both From and To are there, so are the tags. In a request, From
/// has the tag of the remote end, if that is known, and To that of this end;
/// in a response, one of the two is right, or the remote tag is not known.
pub open spec fn belongs(d: DialogView, m: MessageView) -> bool {
    let hs = m.headers();
    let from = lookup(hs, NameView::From);
    let to = lookup(hs, NameView::To);
    &&& m.call_id() == Some(d.call_id)
    &&& from is Some && to is Some ==> if m is Request {
        (d.remote_tag is Some ==> tag_of(from->0) == d.remote_tag) && tag_of(to->0) == Some(
            d.local_tag,
        )
    } else {
        d.remote_tag is Some ==> tag_of(to->0) == d.remote_tag || tag_of(from->0) == Some(
            d.local_tag,
        )
    }
}

fn is_tag(tag: &Option<String>, want: &String) -> (r: bool)
    ensures
        r == (opt_text(*tag) == Some(want@)),
{
    match tag {
        Some(t) => *t == *want,
        None => false,
    }
}

impl SipDialog {
    /// The dialog of an INVITE that this end sends.
    pub fn new_uac(call_id: String, local_tag: String, local_uri: String, remote_uri: String) -> (r:
        Self)
        ensures
            r@ == (DialogView {
                call_id: call_id@,
                local_tag: local_tag@,
                remote_tag: None,
                local_uri: local_uri@,
                remote_uri: remote_uri@,
                remote_target: None,
                local_cseq: 1,
                remote_cseq: None,
                state: DialogState::Early,
            }),
    {
        SipDialog {
            call_id,
            local_tag,
            remote_tag: None,
            local_uri,
            remote_uri,
            remote_target: None,
            local_cseq: 1,
            remote_cseq: None,
            state: DialogState::Early,
        }
    }

    /// The dialog of an INVITE that this end receives.
    pub fn new_uas(
        call_id: String,
        local_tag: String,
        remote_tag: String,
        local_uri: String,
        remote_uri: String,
    ) -> (r: Self)
        ensures
            r@ == (DialogView {
                call_id: call_id@,
                local_tag: local_tag@,
                remote_tag: Some(remote_tag@),
                local_uri: local_uri@,
                remote_uri: remote_uri@,
                remote_target: None,
                local_cseq: 1,
                remote_cseq: None,
                state: DialogState::Early,
            }),
    {
        SipDialog {
            call_id,
            local_tag,
            remote_tag: Some(remote_tag),
            local_uri,
            remote_uri,
            remote_target: None,
            local_cseq: 1,
            remote_cseq: None,
            state: DialogState::Early,
        }
    }

    /// The dialog that an incoming INVITE opens, with a tag of the caller's choice.
    pub fn from_invite_with(msg: &SipMessage, local_tag: String) -> (r: Option<Self>)
        requires
            invite_ordered(msg@),
        ensures
            match r {
                Some(d) => dialog_of_invite(msg@, local_tag@) == Some(d@),
                None => dialog_of_invite(msg@, local_tag@) is None,
            },
    {
        let req = match msg {
            SipMessage::Request(req) => req,
            SipMessage::Response(_) => {
                return None;
            },
        };
        if !req.method.same(&SipMethod::Invite) {
            return None;
        }
        let call_id = match req.headers.get(&HeaderName::CallId) {
            Some(v) => v,
            None => {
                return None;
            },
        };
        let from = match req.headers.get(&HeaderName::From) {
            Some(v) => v,
            None => {
                return None;
            },
        };
        let remote_tag = match extract_tag(from.as_str()) {
            Some(t) => t,
            None => {
                return None;
            },
        };
        let remote_uri = match extract_uri(from.as_str()) {
            Some(u) => u,
            None => {
                return None;
            },
        };
        let to = match req.headers.get(&HeaderName::To) {
            Some(v) => v,
            None => {
                return None;
            },
        };
        let local_uri = match extract_uri(to.as_str()) {
            Some(u) => u,
            None => {
                return None;
            },
        };
        let contact = match req.headers.get(&HeaderName::Contact) {
            Some(v) => extract_uri(v.as_str()),
            None => None,
        };
        Some(
            SipDialog {
                call_id: call_id.as_str().to_owned(),
                local_tag,
                remote_tag: Some(remote_tag),
                local_uri,
                remote_uri,
                remote_target: contact,
                local_cseq: 1,
                remote_cseq: None,
                state: DialogState::Early,
            },
        )
    }

    /// The dialog that an incoming INVITE opens, with a random tag.
    pub fn from_invite(msg: &SipMessage) -> (r: Option<Self>)
        requires
            invite_ordered(msg@),
        ensures
            exists|n: u64|
                match r {
                    Some(d) => dialog_of_invite(msg@, #[trigger] hex(n as nat)) == Some(d@),
                    None => dialog_of_invite(msg@, hex(n as nat)) is None,
                },
    {
        SipDialog::from_invite_with(msg, generate_tag())
    }

    /// Takes in a response; says whether it is one of this call.
    pub fn process_response(&mut self, msg: &SipMessage) -> (r: bool)
        requires
            takes_response(old(self)@, msg@) ==> field_ordered(msg@, NameView::Contact),
        ensures
            r == takes_response(old(self)@, msg@),
            final(self)@ == after_response(old(self)@, msg@),
    {
        let res = match msg {
            SipMessage::Response(res) => res,
            SipMessage::Request(_) => {
                return false;
            },
        };
        match res.headers.get(&HeaderName::CallId) {
            Some(v) => {
                if !same_text(v.as_str(), self.call_id.as_str()) {
                    return false;
                }
            },
            None => {
                return false;
            },
        }
        if let Some(to) = res.headers.get(&HeaderName::To) {
            if let Some(tag) = extract_tag(to.as_str()) {
                self.remote_tag = Some(tag);
            }
        }
        if let Some(contact) = res.headers.get(&HeaderName::Contact) {
            self.remote_target = extract_uri(contact.as_str());
        }
        let code: u16 = res.status.0;
        if 200 <= code && code <= 299 {
            self.state = DialogState::Confirmed;
        } else if 300 <= code && code <= 699 {
            self.state = DialogState::Terminated;
        }
        true
    }

    /// Takes in a BYE, which ends the dialog; says whether it is one of this call.
    pub fn process_bye(&mut self, msg: &SipMessage) -> (r: bool)
        ensures
            r == takes_bye(old(self)@, msg@),
            final(self)@ == (if r {
                DialogView { state: DialogState::Terminated, ..old(self)@ }
            } else {
                old(self)@
            }),
    {
        if let SipMessage::Request(req) = msg {
            if req.method.same(&SipMethod::Bye) {
                if let Some(call_id) = req.headers.get(&HeaderName::CallId) {
                    if same_text(call_id.as_str(), self.call_id.as_str()) {
                        self.state = DialogState::Terminated;
                        return true;
                    }
                }
            }
        }
        false
    }

    /// Ends the dialog.
    pub fn terminate(&mut self)
        ensures
            final(self)@ == (DialogView { state: DialogState::Terminated, ..old(self)@ }),
    {
        self.state = DialogState::Terminated;
    }

    /// The sequence number for the next request.
    pub fn next_cseq(&mut self) -> (r: u32)
        requires
            old(self).local_cseq < u32::MAX,
        ensures
            r == old(self).local_cseq + 1,
            final(self)@ == (DialogView { local_cseq: r, ..old(self)@ }),
    {
        self.local_cseq = self.local_cseq + 1;
        self.local_cseq
    }

    /// Whether a message belongs to this dialog.
    pub fn matches(&self, msg: &SipMessage) -> (r: bool)
        ensures
            r == belongs(self@, msg@),
    {
        let headers = msg.headers();
        match headers.get(&HeaderName::CallId) {
            Some(v) => {
                if !same_text(v.as_str(), self.call_id.as_str()) {
                    return false;
                }
            },
            None => {
                return false;
            },
        }
        if let Some(from) = headers.get(&HeaderName::From) {
            let from_tag = extract_tag(from.as_str());
            if let Some(to) = headers.get(&HeaderName::To) {
                let to_tag = extract_tag(to.as_str());
                if msg.is_request() {
                    if let Some(rt) = &self.remote_tag {
                        if !is_tag(&from_tag, rt) {
                            return false;
                        }
                    }
                    if !is_tag(&to_tag, &self.local_tag) {
                        return false;
                    }
                } else if let Some(rt) = &self.remote_tag {
                    if !is_tag(&to_tag, rt) && !is_tag(&from_tag, &self.local_tag) {
                        return false;
                    }
                }
            }
        }
        true
    }

    pub fn is_confirmed(&self) -> (r: bool)
        ensures
            r == (self@.state == DialogState::Confirmed),
    {
        self.state == DialogState::Confirmed
    }

    pub fn is_terminated(&self) -> (r: bool)
        ensures
            r == (self@.state == DialogState::Terminated),
    {
        self.state == DialogState::Terminated
    }

    pub fn is_early(&self) -> (r: bool)
        ensures
            r == (self@.state == DialogState::Early),
    {
        self.state == DialogState::Early
    }
}

/// A message of another call does not touch a dialog, nor belong to it.
pub proof fn law_other_call(d: DialogView, m: MessageView)
    requires
        m.call_id() != Some(d.call_id),
    ensures
        after_response(d, m) == d,
        !takes_bye(d, m),
        !belongs(d, m),
{
}

/// A provisional response leaves the state of a dialog as it is, a 2xx
/// response confirms it, and a final response of any other class ends it.
pub proof fn law_response_state(d: DialogView, m: MessageView)
    requires
        takes_response(d, m),
    ensures
        100 <= m->Response_0.status <= 199 ==> after_response(d, m).state == d.state,
        200 <= m->Response_0.status <= 299 ==> after_response(d, m).state
            == DialogState::Confirmed,
        300 <= m->Response_0.status <= 699 ==> after_response(d, m).state
            == DialogState::Terminated,
{
}

/// A response never changes who the two ends are, nor the sequence numbers.
pub proof fn law_response_keeps_ends(d: DialogView, m: MessageView)
    ensures
        after_response(d, m).call_id == d.call_id,
        after_response(d, m).local_tag == d.local_tag,
        after_response(d, m).local_uri == d.local_uri,
        after_response(d, m).remote_uri == d.remote_uri,
        after_response(d, m).local_cseq == d.local_cseq,
        after_response(d, m).remote_cseq == d.remote_cseq,
{
}

} // verus!
