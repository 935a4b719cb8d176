//! What a call of each operation of the phone gives, whoever makes it: in each law
//! the calls that it speaks of stand among its conditions.
use super::call::{media_address, say, Call, Step, Tone};
use super::call_laws::{law_answer_moves_media, law_key_number, law_key_number_learnt};
use super::config::{deciding, law_dial_set_get, ConfigFile, DialList, SiprConfig};
use super::dtmf::{waiting_keys, DtmfMethod};
use super::request_laws::{
    law_bare_requests, law_called_end, law_dialog_request, law_invite, law_register,
};
use super::requests::{audio_session, Registration};
use super::softphone::{
    CallPlan, Fresh, KeyStep, OutgoingCall, PhoneError, PhoneErrorView, PhoneView, RegisterStep,
    SoftPhone,
};
use super::terminal_laws::law_server;
use super::uri::{prefer_ipv4, service_order, ServerName, ServiceRank};
use crate::case::ascii_lowered;
use crate::net::Endpoint;
use crate::number::{dec, uint_of};
use crate::rtp::codec::{CodecType, OpusFrame};
use crate::rtp::session::{RtpSession, SessionConfig, SessionView};
use crate::rtp::wav::AudioRecorder;
use crate::sip::dialog::{after_response, DialogState, DialogView, SipDialog};
use crate::sip::header::{lemma_position_is, lookup, param_of, NameView};
use crate::sip::laws::{law_first_audio, law_offer};
use crate::sip::message::{MethodView, SipMessage};
use crate::sip::message_laws::law_invited;
use crate::sip::sdp::{parse_sdp, sdp_text};
use crate::text::law_prefix;
use vstd::prelude::*;

verus! {

// ---------------------------------------------------------------------------
// Media of a call
// ---------------------------------------------------------------------------

/// When a call is taken with a session description whose address can be read, audio
/// goes to that address from then on, whether or not media came before; the user is
/// told the address.
pub proof fn law_audio_follows_answer(
    call: &mut Call,
    msg: &SipMessage,
    source: &Endpoint,
    addr: &Option<Endpoint>,
    fresh: &Fresh,
    step: Step,
    j: int,
)
    requires
        call_ensures(Call::on_message, (call, msg, source, addr, fresh), step),
        old(call)@.phone.dialog is Some,
        old(call)@.phone.rtp is Some,
        msg@ is Response,
        200 <= msg@->Response_0.status <= 299,
        msg@.body() is Some,
        parse_sdp(msg@.body()->0) is Ok,
        0 <= j < parse_sdp(msg@.body()->0)->Ok_0.media.len(),
        parse_sdp(msg@.body()->0)->Ok_0.media[j].media_type is Audio,
        *addr is Some,
    ensures
        final(call)@.phone.rtp == Some(
            SessionView { remote: (*addr)->0@, ..old(call)@.phone.rtp->0 },
        ),
        final(call)@.connected,
        final(call)@.receiving,
        final(call)@.phone.remote == Some(source@),
        step@.actions.contains(say(Tone::Info, "RTP remote: "@ + (*addr)->0@.text())),
{
    law_answer_moves_media(
        old(call)@,
        msg@->Response_0,
        source@,
        (*addr)->0@,
        fresh.branch@,
        fresh.session_id,
        j,
    );
}

/// A frame of audio goes to where media go, as one packet.
pub proof fn law_audio_goes_there(
    call: &mut Call,
    frame: &[i16],
    opus: OpusFrame,
    r: Option<(Vec<u8>, Endpoint)>,
)
    requires
        call_ensures(Call::next_audio, (call, frame, opus), r),
    ensures
        final(call)@ == old(call)@,
        r matches Some((_, to)) ==> old(call)@.phone.rtp is Some && to@
            == old(call)@.phone.rtp->0.remote,
        old(call)@.phone.rtp is None ==> r is None,
{
}

/// The address that a message gives for media is the connection address of its
/// description, at the port of its first audio.
pub proof fn law_media_address(msg: &SipMessage, r: Option<String>, j: int)
    requires
        call_ensures(media_address, (msg,), r),
        msg@.body() is Some,
        parse_sdp(msg@.body()->0) is Ok,
        0 <= j < parse_sdp(msg@.body()->0)->Ok_0.media.len(),
        parse_sdp(msg@.body()->0)->Ok_0.media[j].media_type is Audio,
        forall|i: int|
            0 <= i < j ==> !((
            #[trigger] parse_sdp(msg@.body()->0)->Ok_0.media[i]).media_type is Audio),
        parse_sdp(msg@.body()->0)->Ok_0.connection_address is Some,
    ensures
        r is Some,
        r->0@ == parse_sdp(msg@.body()->0)->Ok_0.connection_address->0 + ":"@ + dec(
            parse_sdp(msg@.body()->0)->Ok_0.media[j].port as nat,
        ),
{
    law_first_audio(parse_sdp(msg@.body()->0)->Ok_0.media, j);
}

/// The next key over RTP goes by the number that the other end asked for, and by the
/// phone's own only where it asked for none.
pub proof fn law_next_key(phone: &mut SoftPhone, branch: &str, step: KeyStep)
    requires
        call_ensures(SoftPhone::next_key, (phone, branch), step),
        old(phone)@.queue.len() > 0,
        old(phone)@.queue[0].method == DtmfMethod::Rfc2833,
        old(phone)@.rtp is Some,
    ensures
        step@ is Rtp,
        step@->Rtp_digit == old(phone)@.queue[0].digit,
        old(phone)@.remote_dtmf matches Some(t) ==> step@->payload_type == t,
        old(phone)@.remote_dtmf is None ==> step@->payload_type == old(phone)@.local_dtmf,
        final(phone)@ == (PhoneView { queue: old(phone)@.queue.skip(1), ..old(phone)@ }),
{
    law_key_number(old(phone)@, branch@);
}

/// From the answer to the key: the first `telephone-event` of the description that
/// the call was taken with, or reported on, gives the number of the next key over RTP.
pub proof fn law_key_after_answer(
    call: &mut Call,
    msg: &SipMessage,
    source: &Endpoint,
    addr: &Option<Endpoint>,
    fresh: &Fresh,
    step: Step,
    phone: &mut SoftPhone,
    branch: &str,
    key: KeyStep,
    j: int,
    k: int,
)
    requires
        call_ensures(Call::on_message, (call, msg, source, addr, fresh), step),
        call_ensures(SoftPhone::next_key, (phone, branch), key),
        old(phone)@ == final(call)@.phone,
        old(call)@.phone.dialog is Some,
        old(call)@.phone.rtp is Some,
        old(call)@.phone.queue.len() > 0,
        old(call)@.phone.queue[0].method == DtmfMethod::Rfc2833,
        msg@ is Response,
        msg@->Response_0.status == 183 || 200 <= msg@->Response_0.status <= 299,
        msg@.body() is Some,
        *addr is Some,
        parse_sdp(msg@.body()->0) is Ok,
        0 <= j < parse_sdp(msg@.body()->0)->Ok_0.media.len(),
        parse_sdp(msg@.body()->0)->Ok_0.media[j].media_type is Audio,
        forall|i: int|
            0 <= i < j ==> !((
            #[trigger] parse_sdp(msg@.body()->0)->Ok_0.media[i]).media_type is Audio),
        0 <= k <= parse_sdp(msg@.body()->0)->Ok_0.media[j].rtpmaps.len(),
        forall|i: int|
            0 <= i < k ==> ascii_lowered(
                (#[trigger] parse_sdp(msg@.body()->0)->Ok_0.media[j].rtpmaps[i]).encoding_name,
            ) != "telephone-event"@,
        k < parse_sdp(msg@.body()->0)->Ok_0.media[j].rtpmaps.len() ==> ascii_lowered(
            parse_sdp(msg@.body()->0)->Ok_0.media[j].rtpmaps[k].encoding_name,
        ) == "telephone-event"@,
    ensures
        ({
            let maps = parse_sdp(msg@.body()->0)->Ok_0.media[j].rtpmaps;
            &&& key@ is Rtp
            &&& key@->Rtp_digit == old(call)@.phone.queue[0].digit
            &&& k < maps.len() ==> key@->payload_type == maps[k].payload_type
            &&& k == maps.len() ==> key@->payload_type == old(call)@.phone.local_dtmf
        }),
{
    law_key_number_learnt(
        old(call)@,
        msg@->Response_0,
        source@,
        (*addr)->0@,
        branch@,
        fresh.session_id,
        j,
        k,
    );
    law_key_number_learnt(
        old(call)@,
        msg@->Response_0,
        source@,
        (*addr)->0@,
        fresh.branch@,
        fresh.session_id,
        j,
        k,
    );
}

// ---------------------------------------------------------------------------
// The phone
// ---------------------------------------------------------------------------

/// A phone begins at its own address and tag, with no call, no login and nothing
/// waiting, and with 101 as its number for keys.
pub proof fn law_phone_begins(local: Endpoint, tag: String, p: SoftPhone)
    requires
        call_ensures(SoftPhone::with_tag, (local, tag), p),
    ensures
        p@.local == local@,
        p@.tag == tag@,
        p@.dialog is None && p@.rtp is None && p@.call_id is None && p@.remote is None,
        p@.remote_dtmf is None && p@.local_dtmf == 101,
        p@.queue.len() == 0 && p@.announced is None && p@.credentials is None,
        !p@.on_hold,
{
}

/// A registration is asked for with the user's own name and password, under number
/// one and without an answer to a challenge; the phone remembers both.
pub proof fn law_registering(
    p: &mut SoftPhone,
    server: &str,
    user: &str,
    password: &str,
    fresh: &Fresh,
    r: (Registration, SipMessage),
)
    requires
        call_ensures(SoftPhone::register, (p, server, user, password, fresh), r),
    ensures
        final(p)@ == (PhoneView {
            credentials: Some((user@, password@)),
            server_host: Some(server@),
            reg_user: Some(user@),
            ..old(p)@
        }),
        r.0@.user == user@,
        r.0@.server == server@,
        r.0@.call_id == fresh.call_id@,
        server@.len() >= 4 && server@.subrange(0, 4) == "sip:"@ ==> r.0@.server_uri == server@,
        server@.len() < 4 || server@.subrange(0, 4) != "sip:"@ ==> r.0@.server_uri == "sip:"@
            + server@,
        r.1@ is Request,
        r.1@->Request_0.method is Register,
        r.1@->Request_0.uri == r.0@.server_uri,
        r.1@.headers()[5] == (NameView::CSeq, dec(1) + " "@ + "REGISTER"@),
        r.1@.headers()[4] == (NameView::CallId, fresh.call_id@),
        lookup(r.1@.headers(), NameView::Authorization) is None,
{
    reveal_strlit("sip:");
    if server@.len() >= 4 {
        assert(server@.take(4) =~= server@.subrange(0, 4));
    }
    law_register(
        r.0@,
        old(p)@.tag,
        old(p)@.local,
        fresh.branch@,
        1,
        NameView::Authorization,
        seq![],
    );
    lemma_position_is(
        r.1@.headers(),
        NameView::Authorization,
        r.1@.headers().len() as int,
    );
}

/// Only a registration that was accepted is remembered.
pub proof fn law_registered(
    p: &mut SoftPhone,
    a: &Registration,
    reply: &SipMessage,
    fresh: &Fresh,
    r: RegisterStep,
)
    requires
        call_ensures(SoftPhone::register_reply, (p, a, reply, fresh), r),
        reply@ is Response,
    ensures
        r@ is Registered <==> 200 <= reply@->Response_0.status <= 299,
        r@ is Registered ==> final(p)@ == (PhoneView {
            call_id: Some(a@.call_id),
            ..old(p)@
        }),
        !(r@ is Registered) ==> final(p)@ == old(p)@,
{
}

/// Who calls, whom, and by which host: what was asked for comes first, and else the
/// address that is called says it. A password that is given is remembered with the
/// user who calls.
pub proof fn law_call_planned(
    p: &mut SoftPhone,
    uri: &str,
    server: Option<&str>,
    user: Option<&str>,
    password: Option<&str>,
    login: Option<&str>,
    plan: CallPlan,
)
    requires
        call_ensures(SoftPhone::plan_call, (p, uri, server, user, password, login), plan),
    ensures
        uri@.len() >= 4 && uri@.subrange(0, 4) == "sip:"@ ==> plan.target_uri@ == uri@,
        uri@.len() < 4 || uri@.subrange(0, 4) != "sip:"@ ==> plan.target_uri@ == "sip:"@ + uri@,
        user is Some ==> plan.user@ == user->0@,
        server is Some ==> plan.server_host@ == server->0@,
        password is Some ==> final(p)@ == (PhoneView {
            credentials: Some((plan.user@, password->0@)),
            ..old(p)@
        }),
        password is None ==> final(p)@ == old(p)@,
{
    reveal_strlit("sip:");
    if uri@.len() >= 4 {
        assert(uri@.take(4) =~= uri@.subrange(0, 4));
    }
}

/// A call begins with nothing of an earlier one: no key waits, no number for keys is
/// known of the other end, and the phone's own is 101.
pub proof fn law_call_begins(
    p: &mut SoftPhone,
    plan: CallPlan,
    port: u16,
    fresh: &Fresh,
    out: OutgoingCall,
)
    requires
        call_ensures(SoftPhone::call, (p, plan, port, fresh), out),
    ensures
        final(p)@.queue.len() == 0,
        final(p)@.announced is None,
        final(p)@.remote_dtmf is None,
        final(p)@.local_dtmf == 101,
        final(p)@.credentials == old(p)@.credentials && final(p)@.tag == old(p)@.tag,
        out.call_id@ == fresh.call_id@,
        out.invite@ is Request,
        out.invite@->Request_0.method is Invite,
        out.invite@->Request_0.uri == plan.target_uri@,
        out.invite@.headers()[4] == (NameView::CallId, fresh.call_id@),
        out.invite@.body() is Some,
{
    law_invite(
        plan.target_uri@,
        plan.user@,
        plan.server_host@,
        old(p)@.tag,
        fresh.call_id@,
        old(p)@.local,
        fresh.branch@,
        out.invite@.body()->0,
    );
}

/// The dialog of a call that was placed is the caller's end of it.
pub proof fn law_call_placed(p: &mut SoftPhone, out: &OutgoingCall, rtp: RtpSession)
    requires
        call_ensures(SoftPhone::call_placed, (p, out, rtp), ()),
    ensures
        final(p)@.dialog is Some,
        ({
            let d = final(p)@.dialog->0;
            &&& d.call_id == out.call_id@
            &&& d.local_tag == old(p)@.tag
            &&& d.remote_tag is None
            &&& d.local_uri == "sip:"@ + out.plan.user@ + "@"@ + out.plan.server_host@
            &&& d.remote_uri == out.plan.target_uri@
            &&& d.remote_target is None
            &&& d.local_cseq == 1
            &&& d.state == DialogState::Early
        }),
        final(p)@.rtp == Some(rtp@),
        final(p)@.call_id == Some(out.call_id@),
        !final(p)@.on_hold,
        final(p)@.queue == old(p)@.queue && final(p)@.local_dtmf == old(p)@.local_dtmf,
{
}

/// A call that is taken has the dialog and the media that were agreed, and messages
/// go to where it came from.
pub proof fn law_call_taken(
    p: &mut SoftPhone,
    dialog: SipDialog,
    rtp: RtpSession,
    source: Endpoint,
)
    requires
        call_ensures(SoftPhone::call_taken, (p, dialog, rtp, source), ()),
    ensures
        final(p)@.dialog == Some(dialog@),
        final(p)@.rtp == Some(rtp@),
        final(p)@.remote == Some(source@),
        !final(p)@.on_hold,
        final(p)@.remote_dtmf == old(p)@.remote_dtmf && final(p)@.queue == old(p)@.queue,
{
}

/// Media of a call that comes in go to where its description says, and else to the
/// address that the call came from; keys go by the number that the description gave.
pub proof fn law_incoming_media(
    p: &mut SoftPhone,
    media: Option<(Endpoint, Option<u8>)>,
    source: &Endpoint,
    r: SessionConfig,
)
    requires
        call_ensures(SoftPhone::incoming_media, (p, media, source), r),
    ensures
        media matches Some((addr, dtmf)) ==> r.remote_addr@ == addr@ && final(p)@.remote_dtmf
            == dtmf,
        media is None ==> r.remote_addr@.ip == source@.ip && r.remote_addr@.port == 0
            && final(p)@ == old(p)@,
        r.codec == CodecType::Pcmu,
        r.jitter_buffer_size == 10,
{
}

/// A call that comes in is rung for in the dialog that it begins, with the tag that
/// the phone gave it; one that begins none is refused.
pub proof fn law_call_accepted(
    p: &SoftPhone,
    invite: &SipMessage,
    tag: String,
    r: Result<(SipDialog, SipMessage), PhoneError>,
)
    requires
        call_ensures(SoftPhone::accept_call, (p, invite, tag), r),
        invite@ is Request,
    ensures
        r matches Ok((d, ringing)) ==> {
            &&& d@.local_tag == tag@
            &&& Some(d@.call_id) == lookup(invite@.headers(), NameView::CallId)
            &&& lookup(invite@.headers(), NameView::From) is Some
            &&& d@.remote_tag == param_of(lookup(invite@.headers(), NameView::From)->0, "tag="@)
            &&& d@.state == DialogState::Early
            &&& ringing@ is Response
            &&& ringing@->Response_0.status == 180
            &&& lookup(ringing@.headers(), NameView::CallId) == Some(d@.call_id)
            &&& lookup(ringing@.headers(), NameView::To) == Some(
                "<"@ + d@.local_uri + ">"@ + ";tag="@ + tag@,
            )
        },
        r matches Err(e) ==> e@ == PhoneErrorView::CallFailed(
            "Failed to create dialog from INVITE"@,
        ),
{
    law_invited(invite@, tag@);
    if let Ok((d, ringing)) = r {
        law_called_end(invite@->Request_0, d@, p@.local, seq![]);
    }
}

/// The answer to a call offers audio at the port that was opened, both ways.
pub proof fn law_call_answered(
    p: &SoftPhone,
    invite: &SipMessage,
    dialog: &SipDialog,
    port: u16,
    fresh: &Fresh,
    r: Option<SipMessage>,
)
    requires
        call_ensures(SoftPhone::answer, (p, invite, dialog, port, fresh), r),
        invite@ is Request,
    ensures
        r is Some,
        r->0@ is Response,
        r->0@->Response_0.status == 200,
        r->0@.body() is Some,
        lookup(r->0@.headers(), NameView::CSeq) == lookup(invite@.headers(), NameView::CSeq),
        lookup(r->0@.headers(), NameView::To) == Some(
            "<"@ + dialog@.local_uri + ">"@ + ";tag="@ + dialog@.local_tag,
        ),
{
    law_called_end(
        invite@->Request_0,
        dialog@,
        p@.local,
        r->0@.body()->0,
    );
}

/// Messages of a call go to the contact of the other end, if that is an address, and
/// else to where the other end was heard.
pub proof fn law_destination(p: &SoftPhone, contact: Option<Endpoint>, r: Option<Endpoint>)
    requires
        call_ensures(SoftPhone::destination, (p, contact), r),
    ensures
        contact matches Some(e) ==> r is Some && r->0@ == e@,
        contact is None && p@.remote is Some ==> r is Some && r->0@ == p@.remote->0,
        contact is None && p@.remote is None ==> r is None,
{
}

/// A hangup goes out in the dialog, under its next number; without a dialog there is
/// none to send. What was hung up has no media and no dialog that goes on.
pub proof fn law_hangup(
    p: &mut SoftPhone,
    fresh: &Fresh,
    r: Result<SipMessage, PhoneError>,
    q: &mut SoftPhone,
)
    requires
        old(p)@.can_number(),
        call_ensures(SoftPhone::hangup, (p, fresh), r),
        call_ensures(SoftPhone::hung_up, (q,), ()),
    ensures
        r is Ok <==> old(p)@.dialog is Some,
        r matches Ok(m) ==> {
            &&& m@ is Request
            &&& m@->Request_0.method is Bye
            &&& final(p)@.dialog->0.local_cseq == old(p)@.dialog->0.local_cseq + 1
            &&& m@.headers()[5] == (
                NameView::CSeq,
                dec((old(p)@.dialog->0.local_cseq + 1) as nat) + " "@ + "BYE"@,
            )
            &&& m@.headers()[4] == (NameView::CallId, old(p)@.dialog->0.call_id)
        },
        r matches Err(e) ==> e@ == PhoneErrorView::NoDialog && final(p)@ == old(p)@,
        final(q)@.rtp is None,
        old(q)@.dialog is Some ==> final(q)@.dialog == Some(
            DialogView { state: DialogState::Terminated, ..old(q)@.dialog->0 },
        ),
{
    if let Ok(m) = r {
        let d = old(p)@.dialog->0;
        let n = (d.local_cseq + 1) as u32;
        law_dialog_request(
            MethodView::Bye,
            d,
            old(p)@.local,
            fresh.branch@,
            n,
        );
        law_bare_requests(d, old(p)@.local, fresh.branch@, n);
    }
}

/// A key that was told is not told again.
pub proof fn law_heard_once(
    p: &mut SoftPhone,
    digit: char,
    timestamp: u32,
    first: bool,
    q: &mut SoftPhone,
    second: bool,
)
    requires
        call_ensures(SoftPhone::heard_key, (p, digit, timestamp), first),
        call_ensures(SoftPhone::heard_key, (q, digit, timestamp), second),
        old(q)@ == final(p)@,
    ensures
        first <==> old(p)@.announced != Some((digit, timestamp)),
        !second,
        final(q)@ == final(p)@,
{
}

/// A call begins without media, unmuted, and recording where a recording was asked
/// for; when it is over, both recordings are handed back.
pub proof fn law_call_from_start_to_end(
    phone: SoftPhone,
    recorder: Option<AudioRecorder>,
    begun: Call,
    call: Call,
    r: (SoftPhone, Option<AudioRecorder>),
)
    requires
        call_ensures(Call::new, (phone, recorder), begun),
        call_ensures(Call::finish, (call,), r),
    ensures
        begun@.phone == phone@,
        begun@.recording <==> recorder is Some,
        begun@.live is None && !begun@.receiving && !begun@.connected && !begun@.muted,
        !begun@.announced_rx && !begun@.announced_tx,
        r.0@ == (PhoneView { live: call@.live, ..call@.phone }),
        r.1 is Some <==> call@.recorder is Some,
        r.1 matches Some(rec) ==> call@.recorder == Some((rec.spec_samples(), rec.spec_rate())),
{
}

// ---------------------------------------------------------------------------
// Settings and addresses
// ---------------------------------------------------------------------------

/// The first file that can be read decides the settings.
pub proof fn law_settings_loaded(files: Vec<ConfigFile>, k: int, r: SiprConfig)
    requires
        call_ensures(SiprConfig::load, (files,), r),
        0 <= k < files@.len(),
        forall|i: int|
            0 <= i < k ==> !((#[trigger] files@[i]) is Settings) && !(files@[i] is Invalid),
    ensures
        files@[k] is Settings ==> r == files@[k]->Settings_0,
        files@[k] is Invalid ==> r.user is None && r.server is None && r.password is None
            && r.codec is None && r.port is None && r.speed_dials is None,
{
    if files@[k] is Settings || files@[k] is Invalid {
        lemma_deciding(files@, k);
    }
}

proof fn lemma_deciding(files: Seq<ConfigFile>, k: int)
    requires
        0 <= k < files.len(),
        forall|i: int|
            0 <= i < k ==> !((#[trigger] files[i]) is Settings) && !(files[i] is Invalid),
        files[k] is Settings || files[k] is Invalid,
    ensures
        deciding(files) == k,
    decreases k,
{
    if k > 0 {
        let rest = files.skip(1);
        assert(!(files[0] is Settings) && !(files[0] is Invalid));
        assert forall|i: int| 0 <= i < k - 1 implies !((#[trigger] rest[i]) is Settings) && !(
        rest[i] is Invalid) by {
            assert(rest[i] == files[i + 1]);
        }
        assert(rest[k - 1] == files[k]);
        lemma_deciding(rest, k - 1);
    }
}

/// Whom to call: the address in a slot, where the user names one that has one, and
/// else what the user wrote. The history holds 1000 lines unless a limit is set.
pub proof fn law_call_target(c: &SiprConfig, who: &str, r: String, limit: usize)
    requires
        call_ensures(SiprConfig::call_target, (c, who), r),
        call_ensures(SiprConfig::history_limit, (c,), limit),
    ensures
        who@.len() != 1 || !('0' <= who@[0] <= '9') ==> r@ == who@,
        c.spec_speed_dial(who@) matches Some(u) ==> r@ == u,
        c.spec_speed_dial(who@) is None ==> r@ == who@,
        limit == (match c.max_history {
            Some(n) => n,
            None => 1000,
        }),
{
}

/// A server is asked for by its service only where no port was named; its address is
/// looked up with the port that was named, or 5060. An address of the newer kind is
/// taken only where there is none of the older.
pub proof fn law_server_looked_up(
    s: &ServerName,
    service: Option<String>,
    name: String,
    kinds: &[bool],
    pick: Option<usize>,
)
    requires
        call_ensures(ServerName::service_name, (s,), service),
        call_ensures(ServerName::lookup_name, (s,), name),
        call_ensures(prefer_ipv4, (kinds,), pick),
    ensures
        service is Some <==> s.port is None,
        service matches Some(t) ==> t@ == "_sip._udp."@ + s.hostname@,
        s.port matches Some(p) ==> name@ == s.hostname@ + ":"@ + dec(p as nat),
        s.port is None ==> name@ == s.hostname@ + ":"@ + dec(5060),
        pick is None <==> kinds@.len() == 0,
        pick matches Some(i) ==> kinds@[i as int] || forall|j: int|
            0 <= j < kinds@.len() ==> !#[trigger] kinds@[j],
{
    if let Some(i) = pick {
        if !kinds@[i as int] {
            assert forall|j: int| 0 <= j < kinds@.len() implies !#[trigger] kinds@[j] by {
                if kinds@[j] {
                    assert(kinds@.contains(true));
                }
            }
        }
    }
}

/// A service is tried before another of a greater priority number, or of the same
/// and a lesser weight; each is tried once.
pub proof fn law_services_in_order(ranks: &[ServiceRank], r: Vec<usize>, i: int, j: int)
    requires
        call_ensures(service_order, (ranks,), r),
        0 <= i < j < r@.len(),
    ensures
        r@.len() == ranks@.len(),
        r@[i] != r@[j],
        ranks@[r@[i] as int].priority <= ranks@[r@[j] as int].priority,
        ranks@[r@[i] as int].priority == ranks@[r@[j] as int].priority
            ==> ranks@[r@[i] as int].weight >= ranks@[r@[j] as int].weight,
{
}

/// The name of a server is read without its scheme; its port, where it has one,
/// stands behind the colon.
pub proof fn law_server_named(server: &str, host: Seq<char>, port: Seq<char>, s: ServerName)
    requires
        call_ensures(ServerName::of, (server,), s),
        !host.contains(':'),
        !port.contains(':'),
        server@ == "sip:"@ + (host + seq![':'] + port),
    ensures
        s.hostname@ == host,
        uint_of(port, 0xffff) is Some ==> s.port is Some && s.port->0 == uint_of(port, 0xffff)->0,
        uint_of(port, 0xffff) is None ==> s.port is None,
        s.text@ == host + seq![':'] + port,
{
    law_prefix("sip:"@, host + seq![':'] + port, server@);
    law_server(host, port);
}

// ---------------------------------------------------------------------------
// Requests of the user
// ---------------------------------------------------------------------------

/// The description that the phone sends offers one audio at the port of its media
/// session, or at port zero without one, at its own address, and in the direction
/// that is asked for.
pub proof fn law_own_description(p: PhoneView, id: u32, direction: Seq<char>)
    ensures
        ({
            let s = audio_session(
                p.local.ip,
                id,
                match p.rtp {
                    Some(m) => m.local.port,
                    None => 0,
                },
                direction,
            );
            &&& p.session_text(id, direction) == sdp_text(s)
            &&& s.connection_address == Some(p.local.ip)
            &&& s.origin_address == p.local.ip
            &&& s.media.len() == 1
            &&& s.media[0].media_type is Audio
            &&& p.rtp is Some ==> s.media[0].port == p.rtp->0.local.port
            &&& p.rtp is None ==> s.media[0].port == 0
            &&& s.media[0].attributes.last() == (direction, None::<Seq<char>>)
        }),
{
    law_offer(
        match p.rtp {
            Some(m) => m.local.port,
            None => 0,
        },
        direction,
        p.local.ip,
        id,
    );
}

/// Hold and resume send a new offer in the dialog, that only sends and that goes both
/// ways; a transfer names where to. Each takes the next number of the dialog, and none
/// is sent without one.
pub proof fn law_user_requests(
    p: &mut SoftPhone,
    q: &mut SoftPhone,
    t: &mut SoftPhone,
    who: &str,
    fresh: &Fresh,
    hold: Result<SipMessage, PhoneError>,
    resume: Result<SipMessage, PhoneError>,
    transfer: Result<SipMessage, PhoneError>,
)
    requires
        old(p)@.can_number() && old(q)@.can_number() && old(t)@.can_number(),
        call_ensures(SoftPhone::hold, (p, fresh), hold),
        call_ensures(SoftPhone::resume, (q, fresh), resume),
        call_ensures(SoftPhone::transfer, (t, who, fresh), transfer),
    ensures
        hold is Ok <==> old(p)@.dialog is Some,
        resume is Ok <==> old(q)@.dialog is Some,
        transfer is Ok <==> old(t)@.dialog is Some,
        hold matches Ok(m) ==> m@ is Request && m@->Request_0.method is Invite && m@.body() == Some(
            old(p)@.session_text(fresh.session_id, "sendonly"@),
        ) && final(p)@.dialog->0.local_cseq == old(p)@.dialog->0.local_cseq + 1,
        resume matches Ok(m) ==> m@ is Request && m@->Request_0.method is Invite && m@.body()
            == Some(old(q)@.session_text(fresh.session_id, "sendrecv"@))
            && final(q)@.dialog->0.local_cseq == old(q)@.dialog->0.local_cseq + 1,
        transfer matches Ok(m) ==> m@ is Request && m@->Request_0.method is Refer
            && m@.body() is None && final(t)@.dialog->0.local_cseq
            == old(t)@.dialog->0.local_cseq + 1,
        hold matches Err(e) ==> e@ == PhoneErrorView::NoDialog && final(p)@ == old(p)@,
        resume matches Err(e) ==> e@ == PhoneErrorView::NoDialog && final(q)@ == old(q)@,
        transfer matches Err(e) ==> e@ == PhoneErrorView::NoDialog && final(t)@ == old(t)@,
{
}

/// Keys that the user types wait behind those that wait, on the way that was asked
/// for, and the count says how many of them were taken.
pub proof fn law_keys_wait(
    p: &mut SoftPhone,
    digits: &str,
    r: (usize, Vec<char>),
    q: &mut SoftPhone,
    s: (usize, Vec<char>),
    i: int,
)
    requires
        call_ensures(SoftPhone::queue_rfc2833_dtmf, (p, digits), r),
        call_ensures(SoftPhone::queue_sip_info_dtmf, (q, digits), s),
    ensures
        final(p)@.queue.len() == old(p)@.queue.len() + r.0,
        final(q)@.queue.len() == old(q)@.queue.len() + s.0,
        0 <= i < old(p)@.queue.len() ==> final(p)@.queue[i] == old(p)@.queue[i],
        0 <= i < old(q)@.queue.len() ==> final(q)@.queue[i] == old(q)@.queue[i],
        old(p)@.queue.len() <= i < final(p)@.queue.len() ==> final(p)@.queue[i].method
            == DtmfMethod::Rfc2833,
        old(q)@.queue.len() <= i < final(q)@.queue.len() ==> final(q)@.queue[i].method
            == DtmfMethod::SipInfo,
        r.1@ == s.1@,
{
    lemma_one_way(digits@, DtmfMethod::Rfc2833, i - old(p)@.queue.len());
    lemma_one_way(digits@, DtmfMethod::SipInfo, i - old(q)@.queue.len());
}

proof fn lemma_one_way(s: Seq<char>, method: DtmfMethod, i: int)
    ensures
        0 <= i < waiting_keys(s, method).len() ==> waiting_keys(s, method)[i].method == method,
    decreases s.len(),
{
    if s.len() > 0 {
        lemma_one_way(s.drop_last(), method, i);
    }
}

/// A live recording is handed over once, with the path that it was asked for under.
pub proof fn law_recording_handed_over(
    p: &mut SoftPhone,
    r: Option<(String, AudioRecorder)>,
    q: &mut SoftPhone,
    s: Option<(String, AudioRecorder)>,
)
    requires
        call_ensures(SoftPhone::take_live_recording, (p,), r),
        call_ensures(SoftPhone::take_live_recording, (q,), s),
        old(q)@ == final(p)@,
    ensures
        r is Some <==> old(p)@.record_path is Some && old(p)@.live is Some,
        r matches Some((path, rec)) ==> old(p)@.record_path == Some(path@) && old(p)@.live
            == Some((rec.spec_samples(), rec.spec_rate())),
        s is None,
{
}

/// A response and a hangup change the dialog and nothing else of the phone.
pub proof fn law_phone_hears(p: &mut SoftPhone, q: &mut SoftPhone, msg: &SipMessage)
    requires
        call_ensures(SoftPhone::process_response, (p, msg), ()),
        call_ensures(SoftPhone::process_bye, (q, msg), ()),
        old(p)@.dialog is Some,
        old(q)@.dialog is Some,
    ensures
        final(p)@ == (PhoneView { dialog: Some(after_response(old(p)@.dialog->0, msg@)), ..old(p)@ }),
        ({
            let ours = msg@ is Request && msg@->Request_0.method is Bye && lookup(
                msg@.headers(),
                NameView::CallId,
            ) == Some(old(q)@.dialog->0.call_id);
            &&& ours ==> final(q)@ == (PhoneView {
                dialog: Some(
                    DialogView { state: DialogState::Terminated, ..old(q)@.dialog->0 },
                ),
                ..old(q)@
            })
            &&& !ours ==> final(q)@ == old(q)@
        }),
{
}

/// What a recording goes by while a call lasts: the one that was asked for first.
pub proof fn law_recording_in_use(call: &Call, r: Option<&AudioRecorder>, backlog: bool)
    requires
        call_ensures(Call::active_recording, (call,), r),
        call_ensures(Call::works_off_backlog, (call,), backlog),
    ensures
        call@.recorder is Some ==> r is Some && call@.recorder == Some(
            (r->0.spec_samples(), r->0.spec_rate()),
        ),
        call@.recorder is None && call@.live is Some ==> r is Some && call@.live == Some(
            (r->0.spec_samples(), r->0.spec_rate()),
        ),
        r is None <==> call@.recorder is None && call@.live is None,
        backlog <==> call@.recording && r is Some,
{
}

/// The first settings that are offered: the companded codec of the first kind, no
/// fixed port, colours on, no trace, a thousand lines and two slots.
pub proof fn law_template(c: SiprConfig)
    requires
        call_ensures(SiprConfig::template, (), c),
    ensures
        c.codec == Some(CodecType::Pcmu),
        c.port == Some(0u16),
        c.no_color == Some(false) && c.sniff == Some(false),
        c.max_history == Some(1000usize),
        c.user is None && c.server is None && c.password is None,
        c.speed_dials is Some,
        c.speed_dials->0@.len() == 2,
        c.speed_dials->0@[0] == ("1"@, "sip:alice@example.com"@),
        c.speed_dials->0@[1] == ("2"@, "sip:bob@example.com"@),
{
}

/// A slot is a single digit; a dial in it is found there, and in no other slot.
pub proof fn law_slots(c: &mut SiprConfig, slot: &str, uri: &str, r: bool, other: Seq<char>)
    requires
        old(c).wf(),
        call_ensures(SiprConfig::set_speed_dial, (c, slot, uri), r),
    ensures
        r <==> slot@.len() == 1 && '0' <= slot@[0] <= '9',
        r ==> final(c).spec_speed_dial(slot@) == Some(uri@),
        r && other != slot@ ==> final(c).spec_speed_dial(other) == old(c).spec_speed_dial(other),
        !r ==> *final(c) == *old(c),
{
    let ds = match old(c).speed_dials {
        Some(d) => d@,
        None => DialList::empty(),
    };
    law_dial_set_get(ds, slot@, uri@, other);
}

} // verus!
