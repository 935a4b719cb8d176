//! What the user types and what the user is shown.
use super::cli::{codec_named, test_steps, TestView};
use super::commands::{command_of, CommandView};
use super::editor::{on_key, EditView, EditorView, Key, KeyPress, SearchView};
use super::history::{entry_lines, file_entries, last_match, reverse_match, with_entry};
use super::uri::{host_of, ranks_before, schemeless, server_host, user_of, with_scheme, ServiceRank};
use crate::case::lower;
use crate::number::uint_of;
use crate::rtp::codec::CodecType;
use crate::sip::message_laws::lemma_after_last;
use crate::text::{contains_text, law_contains_text, law_prefix, law_separated, trimmed};
use vstd::prelude::*;

verus! {

// ---------------------------------------------------------------------------
// Commands
// ---------------------------------------------------------------------------

/// The words of the commands, read in any case. What follows the word is its
/// argument, taken as it was typed.
pub proof fn law_command_words(ws: Seq<Seq<char>>)
    requires
        ws.len() > 0,
    ensures
        ({
            let w = lower(ws[0]);
            let arg = if ws.len() > 1 {
                Some(ws[1])
            } else {
                None
            };
            &&& w == "help"@ || w == "h"@ || w == "?"@ ==> command_of(ws) == Some(CommandView::Help)
            &&& w == "record"@ || w == "rec"@ ==> command_of(ws) == Some(CommandView::Record(arg))
            &&& w == "stop"@ ==> command_of(ws) == Some(CommandView::Stop)
            &&& w == "mute"@ ==> command_of(ws) == Some(CommandView::Mute)
            &&& w == "unmute"@ ==> command_of(ws) == Some(CommandView::Unmute)
            &&& w == "stats"@ || w == "info"@ ==> command_of(ws) == Some(CommandView::Stats)
            &&& w == "flows"@ || w == "flow"@ || w == "ladder"@ ==> command_of(ws) == Some(CommandView::Flows)
            &&& w == "dtmf"@ ==> command_of(ws) == Some(CommandView::Keys(arg))
            &&& w == "dtmf-info"@ || w == "dtmf_info"@ ==> command_of(ws) == Some(CommandView::InfoKeys(arg))
            &&& w == "dtmf-send"@ || w == "send-dtmf"@ ==> command_of(ws) == Some(CommandView::SendKeys)
            &&& w == "dtmf-queue"@ ==> command_of(ws) == Some(CommandView::CountKeys)
            &&& w == "hold"@ ==> command_of(ws) == Some(CommandView::Hold)
            &&& w == "resume"@ || w == "unhold"@ ==> command_of(ws) == Some(CommandView::Resume)
            &&& w == "transfer"@ || w == "xfer"@ || w == "refer"@ ==> command_of(ws) == Some(CommandView::Transfer(arg))
            &&& w == "speed"@ ==> command_of(ws) == Some(CommandView::Speed(arg))
            &&& w == "hangup"@ || w == "bye"@ || w == "quit"@ || w == "exit"@ || w == "q"@ ==> command_of(ws) == Some(CommandView::Hangup)
            &&& w == "sniff"@ || w == "trace"@ || w == "debug"@ ==> command_of(ws) == Some(
                if arg is Some && lower(arg->0) == "stop"@ {
                    CommandView::StopTrace
                } else {
                    CommandView::Trace {
                        verbose: arg is Some && lower(arg->0) == "verbose"@,
                    }
                },
            )
        }),
{
    reveal_strlit("help");
    reveal_strlit("h");
    reveal_strlit("?");
    reveal_strlit("record");
    reveal_strlit("rec");
    reveal_strlit("stop");
    reveal_strlit("mute");
    reveal_strlit("unmute");
    reveal_strlit("stats");
    reveal_strlit("info");
    reveal_strlit("flows");
    reveal_strlit("flow");
    reveal_strlit("ladder");
    reveal_strlit("dtmf");
    reveal_strlit("dtmf-info");
    reveal_strlit("dtmf_info");
    reveal_strlit("dtmf-send");
    reveal_strlit("send-dtmf");
    reveal_strlit("dtmf-queue");
    reveal_strlit("hold");
    reveal_strlit("resume");
    reveal_strlit("unhold");
    reveal_strlit("transfer");
    reveal_strlit("xfer");
    reveal_strlit("refer");
    reveal_strlit("speed");
    reveal_strlit("hangup");
    reveal_strlit("bye");
    reveal_strlit("quit");
    reveal_strlit("exit");
    reveal_strlit("q");
    reveal_strlit("sniff");
    reveal_strlit("trace");
    reveal_strlit("debug");
    assert("help"@.len() == 4 && "help"@[0] == 'h' && "help"@[2] == 'l' && "help"@[3] == 'p');
    assert("h"@.len() == 1 && "h"@[0] == 'h');
    assert("?"@.len() == 1 && "?"@[0] == '?');
    assert("record"@.len() == 6 && "record"@[0] == 'r' && "record"@[3] == 'o' && "record"@[5] == 'd');
    assert("rec"@.len() == 3 && "rec"@[0] == 'r' && "rec"@[1] == 'e' && "rec"@[2] == 'c');
    assert("stop"@.len() == 4 && "stop"@[0] == 's' && "stop"@[2] == 'o' && "stop"@[3] == 'p');
    assert("mute"@.len() == 4 && "mute"@[0] == 'm' && "mute"@[2] == 't' && "mute"@[3] == 'e');
    assert("unmute"@.len() == 6 && "unmute"@[0] == 'u' && "unmute"@[3] == 'u' && "unmute"@[5] == 'e');
    assert("stats"@.len() == 5 && "stats"@[0] == 's' && "stats"@[2] == 'a' && "stats"@[4] == 's');
    assert("info"@.len() == 4 && "info"@[0] == 'i' && "info"@[2] == 'f' && "info"@[3] == 'o');
    assert("flows"@.len() == 5 && "flows"@[0] == 'f' && "flows"@[2] == 'o' && "flows"@[4] == 's');
    assert("flow"@.len() == 4 && "flow"@[0] == 'f' && "flow"@[2] == 'o' && "flow"@[3] == 'w');
    assert("ladder"@.len() == 6 && "ladder"@[0] == 'l' && "ladder"@[3] == 'd' && "ladder"@[5] == 'r');
    assert("dtmf"@.len() == 4 && "dtmf"@[0] == 'd' && "dtmf"@[2] == 'm' && "dtmf"@[3] == 'f');
    assert("dtmf-info"@.len() == 9 && "dtmf-info"@[0] == 'd' && "dtmf-info"@[4] == '-' && "dtmf-info"@[8] == 'o');
    assert("dtmf_info"@.len() == 9 && "dtmf_info"@[0] == 'd' && "dtmf_info"@[4] == '_' && "dtmf_info"@[8] == 'o');
    assert("dtmf-send"@.len() == 9 && "dtmf-send"@[0] == 'd' && "dtmf-send"@[4] == '-' && "dtmf-send"@[8] == 'd');
    assert("send-dtmf"@.len() == 9 && "send-dtmf"@[0] == 's' && "send-dtmf"@[4] == '-' && "send-dtmf"@[8] == 'f');
    assert("dtmf-queue"@.len() == 10 && "dtmf-queue"@[0] == 'd' && "dtmf-queue"@[5] == 'q' && "dtmf-queue"@[9] == 'e');
    assert("hold"@.len() == 4 && "hold"@[0] == 'h' && "hold"@[2] == 'l' && "hold"@[3] == 'd');
    assert("resume"@.len() == 6 && "resume"@[0] == 'r' && "resume"@[3] == 'u' && "resume"@[5] == 'e');
    assert("unhold"@.len() == 6 && "unhold"@[0] == 'u' && "unhold"@[3] == 'o' && "unhold"@[5] == 'd');
    assert("transfer"@.len() == 8 && "transfer"@[0] == 't' && "transfer"@[4] == 's' && "transfer"@[7] == 'r');
    assert("xfer"@.len() == 4 && "xfer"@[0] == 'x' && "xfer"@[2] == 'e' && "xfer"@[3] == 'r');
    assert("refer"@.len() == 5 && "refer"@[0] == 'r' && "refer"@[2] == 'f' && "refer"@[4] == 'r');
    assert("speed"@.len() == 5 && "speed"@[0] == 's' && "speed"@[2] == 'e' && "speed"@[4] == 'd');
    assert("hangup"@.len() == 6 && "hangup"@[0] == 'h' && "hangup"@[3] == 'g' && "hangup"@[5] == 'p');
    assert("bye"@.len() == 3 && "bye"@[0] == 'b' && "bye"@[1] == 'y' && "bye"@[2] == 'e');
    assert("quit"@.len() == 4 && "quit"@[0] == 'q' && "quit"@[2] == 'i' && "quit"@[3] == 't');
    assert("exit"@.len() == 4 && "exit"@[0] == 'e' && "exit"@[2] == 'i' && "exit"@[3] == 't');
    assert("q"@.len() == 1 && "q"@[0] == 'q');
    assert("sniff"@.len() == 5 && "sniff"@[0] == 's' && "sniff"@[2] == 'i' && "sniff"@[4] == 'f');
    assert("trace"@.len() == 5 && "trace"@[0] == 't' && "trace"@[2] == 'a' && "trace"@[4] == 'e');
    assert("debug"@.len() == 5 && "debug"@[0] == 'd' && "debug"@[2] == 'b' && "debug"@[4] == 'g');
}

/// A line without a word gives no command.
pub proof fn law_no_command()
    ensures
        command_of(Seq::empty()) is None,
{
}

/// The names by which the user chooses a codec.
pub proof fn law_codec_names(s: Seq<char>)
    ensures
        lower(s) == "pcmu"@ || lower(s) == "ulaw"@ || lower(s) == "g711u"@ ==> codec_named(s)
            == Some(CodecType::Pcmu),
        lower(s) == "pcma"@ || lower(s) == "alaw"@ || lower(s) == "g711a"@ ==> codec_named(s)
            == Some(CodecType::Pcma),
        codec_named(s) is Some ==> codec_named(s) != Some(CodecType::Opus),
{
    reveal_strlit("pcmu");
    reveal_strlit("ulaw");
    reveal_strlit("g711u");
    reveal_strlit("pcma");
    reveal_strlit("alaw");
    reveal_strlit("g711a");
    assert("pcmu"@.len() == 4 && "pcmu"@[0] == 'p' && "pcmu"@[2] == 'm' && "pcmu"@[3] == 'u');
    assert("ulaw"@.len() == 4 && "ulaw"@[0] == 'u' && "ulaw"@[2] == 'a' && "ulaw"@[3] == 'w');
    assert("g711u"@.len() == 5 && "g711u"@[0] == 'g' && "g711u"@[2] == '1' && "g711u"@[4] == 'u');
    assert("pcma"@.len() == 4 && "pcma"@[0] == 'p' && "pcma"@[2] == 'm' && "pcma"@[3] == 'a');
    assert("alaw"@.len() == 4 && "alaw"@[0] == 'a' && "alaw"@[2] == 'a' && "alaw"@[3] == 'w');
    assert("g711a"@.len() == 5 && "g711a"@[0] == 'g' && "g711a"@[2] == '1' && "g711a"@[4] == 'a');
}

// ---------------------------------------------------------------------------
// Addresses
// ---------------------------------------------------------------------------

/// An address without its scheme is a user before the first at sign and a host
/// behind it, or a host alone; the scheme is put before an address that has none.
pub proof fn law_addresses(user: Seq<char>, host: Seq<char>)
    requires
        !user.contains('@'),
        !host.contains('@'),
        host.len() >= 4 ==> host.subrange(0, 4) != "sip:"@,
    ensures
        schemeless("sip:"@ + (user + seq!['@'] + host)) == user + seq!['@'] + host,
        host_of("sip:"@ + (user + seq!['@'] + host)) == host,
        host_of("sip:"@ + host) == host,
        host_of(host) == host,
        user.len() > 0 ==> user_of("sip:"@ + (user + seq!['@'] + host)) == Some(user),
        user_of("sip:"@ + (seq!['@'] + host)) is None,
        user_of("sip:"@ + host) is None,
        user_of(host) is None,
        with_scheme("sip:"@ + host) == "sip:"@ + host,
        with_scheme(host) == "sip:"@ + host,
{
    let none = Seq::<char>::empty();
    let full = user + seq!['@'] + host;
    reveal_strlit("sip:");
    law_prefix("sip:"@, full, full);
    law_prefix("sip:"@, host, host);
    law_prefix("sip:"@, seq!['@'] + host, host);
    law_separated(user, '@', host, 2);
    law_separated(host, '@', host, 2);
    law_separated(none, '@', host, 2);
    assert(none + seq!['@'] + host =~= seq!['@'] + host);
    if host.len() >= 4 {
        assert(host.take(4) =~= host.subrange(0, 4));
    }
    assert(("sip:"@ + host).take(4) =~= "sip:"@);
}

/// The port of a server stands behind the last colon; without one there is none.
pub proof fn law_server(host: Seq<char>, port: Seq<char>)
    requires
        !host.contains(':'),
        !port.contains(':'),
    ensures
        server_host(host) == (host, None::<nat>),
        server_host(host + seq![':'] + port) == (host, uint_of(port, 0xffff)),
{
    lemma_after_last(host, ':', port);
    let s = host + seq![':'] + port;
    assert(s.take(host.len() as int) =~= host);
    assert(s.skip(host.len() as int + 1) =~= port);
}

/// Services are tried by priority, the lowest first, and among equals by weight, the
/// highest first.
pub proof fn law_service_ranks(a: ServiceRank, b: ServiceRank)
    ensures
        a.priority < b.priority ==> ranks_before(a, b) && !ranks_before(b, a),
        a.priority == b.priority && a.weight > b.weight ==> ranks_before(a, b) && !ranks_before(
            b,
            a,
        ),
        a.priority == b.priority && a.weight == b.weight ==> !ranks_before(a, b) && !ranks_before(
            b,
            a,
        ),
{
}

// ---------------------------------------------------------------------------
// History
// ---------------------------------------------------------------------------

/// A line that was typed is remembered last, without the white space at its ends,
/// unless it is blank or the same as the one before; where there is no room for one
/// more, the oldest are forgotten.
pub proof fn law_remembered(h: Seq<Seq<char>>, line: Seq<char>, max: nat)
    requires
        max > 0,
    ensures
        ({
            let after = with_entry(h, line, max);
            let news = trimmed(line).len() > 0 && (h.len() == 0 || h.last() != trimmed(line));
            &&& !news ==> after == h
            &&& news ==> after.last() == trimmed(line)
            &&& news && h.len() < max ==> after == h.push(trimmed(line))
            &&& news && h.len() >= max ==> after.len() == max && forall|i: int|
                0 <= i < max - 1 ==> #[trigger] after[i] == h[h.len() - max + 1 + i]
        }),
{
}

/// The history is kept one entry on a line; blank lines are none.
pub proof fn law_history_file(ls: Seq<Seq<char>>, l: Seq<char>, h: Seq<Seq<char>>)
    ensures
        file_entries(Seq::empty()).len() == 0,
        trimmed(l).len() == 0 ==> file_entries(ls.push(l)) == file_entries(ls),
        trimmed(l).len() > 0 ==> file_entries(ls.push(l)) == file_entries(ls).push(trimmed(l)),
        entry_lines(Seq::empty()).len() == 0,
        entry_lines(h.push(l)) == entry_lines(h) + l + "\n"@,
{
    assert(ls.push(l).drop_last() =~= ls);
    assert(h.push(l).drop_last() =~= h);
}

/// A search finds the latest entry before the last one found that has the text in
/// it; without a text it finds the latest of all.
pub proof fn law_searched(h: Seq<Seq<char>>, query: Seq<char>, before: Option<usize>, i: int)
    requires
        h.len() <= usize::MAX,
        before matches Some(k) ==> k <= h.len(),
    ensures
        query.len() == 0 && h.len() > 0 ==> reverse_match(h, query, before) == Some(
            (h.len() - 1) as usize,
        ),
        query.len() > 0 ==> ({
            let end = match before {
                Some(k) => k as int,
                None => h.len() as int,
            };
            let matching = |j: int|
                exists|p: int|
                    0 <= p <= h[j].len() - query.len() && #[trigger] h[j].subrange(
                        p,
                        p + query.len(),
                    ) == query;
            match reverse_match(h, query, before) {
                Some(k) => k < end && matching(k as int) && (k < i < end ==> !matching(i)),
                None => 0 <= i < end ==> !matching(i),
            }
        }),
{
    if query.len() > 0 {
        let end = match before {
            Some(k) => k as int,
            None => h.len() as int,
        };
        lemma_last_match(h, query, end, i);
    }
}

proof fn lemma_last_match(h: Seq<Seq<char>>, query: Seq<char>, end: int, i: int)
    requires
        0 <= end <= h.len() <= usize::MAX,
    ensures
        ({
            let matching = |j: int|
                exists|p: int|
                    0 <= p <= h[j].len() - query.len() && #[trigger] h[j].subrange(
                        p,
                        p + query.len(),
                    ) == query;
            match last_match(h, query, end) {
                Some(k) => k < end && matching(k as int) && (k < i < end ==> !matching(i)),
                None => 0 <= i < end ==> !matching(i),
            }
        }),
    decreases end,
{
    if end > 0 {
        law_contains_text(query, query, query, h[end - 1]);
        if !contains_text(h[end - 1], query) {
            lemma_last_match(h, query, end - 1, i);
        }
    }
}

// ---------------------------------------------------------------------------
// Line editing
// ---------------------------------------------------------------------------

/// What is typed comes at the end of the line; Backspace takes the last character
/// away; Enter submits the line without the white space at its ends, and a blank
/// line submits nothing. A key that is released does nothing.
pub proof fn law_typing(e: EditorView, c: char, k: KeyPress)
    requires
        e.search is None,
        !('\u{0}' <= c <= '\u{1f}'),
    ensures
        ({
            let (after, does) = on_key(
                e,
                KeyPress { key: Key::Char(c), control: false, released: false },
            );
            &&& after == (EditorView { line: e.line.push(c), ..e })
            &&& does == seq![EditView::Echo(c)]
        }),
        ({
            let (after, does) = on_key(
                e,
                KeyPress { key: Key::Backspace, control: false, released: false },
            );
            &&& e.line.len() > 0 ==> after == (EditorView { line: e.line.drop_last(), ..e })
                && does == seq![EditView::Redraw(e.line.drop_last())]
            &&& e.line.len() == 0 ==> after == e && does.len() == 0
        }),
        ({
            let (after, does) = on_key(
                e,
                KeyPress { key: Key::Enter, control: false, released: false },
            );
            let command = trimmed(e.line);
            &&& after.line.len() == 0
            &&& after.position is None
            &&& after.history == with_entry(e.history, command, e.max_history)
            &&& does[0] == EditView::NewLine
            &&& does.last() == EditView::Prompt
            &&& command.len() > 0 ==> does[does.len() - 2] == EditView::Submit(command)
            &&& command.len() == 0 ==> does.len() == 2
        }),
        k.released ==> on_key(e, k).0 == e && on_key(e, k).1.len() == 0,
{
}

/// Up goes back through the history from its latest entry and stays at the oldest;
/// Down goes forward and, behind the latest, gives an empty line.
pub proof fn law_arrows(e: EditorView)
    requires
        e.search is None,
        e.wf(),
    ensures
        ({
            let (after, does) = on_key(
                e,
                KeyPress { key: Key::Up, control: false, released: false },
            );
            let n = e.history.len();
            &&& n == 0 ==> after == e
            &&& n > 0 && e.position is None ==> after.position == Some((n - 1) as usize)
            &&& n > 0 && e.position is Some && e.position->0 > 0 ==> after.position == Some(
                (e.position->0 - 1) as usize,
            )
            &&& n > 0 && e.position == Some(0usize) ==> after.position == Some(0usize)
            &&& n > 0 ==> after.line == e.history[after.position->0 as int] && does == seq![
                EditView::Redraw(after.line),
            ]
        }),
        ({
            let (after, does) = on_key(
                e,
                KeyPress { key: Key::Down, control: false, released: false },
            );
            let n = e.history.len();
            &&& n == 0 ==> after == e
            &&& n > 0 && e.position is Some && e.position->0 + 1 < n ==> after.position == Some(
                (e.position->0 + 1) as usize,
            ) && after.line == e.history[e.position->0 + 1]
            &&& n > 0 && (e.position is None || e.position->0 + 1 >= n)
                ==> after.position is None && after.line.len() == 0
            &&& n > 0 ==> does == seq![EditView::Redraw(after.line)]
        }),
{
}

/// Control and C hang up and leave, and control and R begin a search that has no
/// text yet; both in either case of the letter, or as the control code.
pub proof fn law_control_keys(e: EditorView, k: KeyPress)
    requires
        e.search is None,
        !k.released,
    ensures
        (k.control && (k.key == Key::Char('c') || k.key == Key::Char('C'))) || k.key == Key::Char(
            '\u{3}',
        ) ==> on_key(e, k) == (e, seq![EditView::Submit("hangup"@), EditView::Quit]),
        (k.control && (k.key == Key::Char('r') || k.key == Key::Char('R'))) || k.key == Key::Char(
            '\u{12}',
        ) ==> ({
            let after = on_key(e, k).0;
            &&& after.search is Some
            &&& after.search->0.query.len() == 0
            &&& after.search->0.original == e.line
            &&& after.search->0.found == reverse_match(e.history, Seq::empty(), None)
            &&& after.line == e.line
        }),
{
}

/// In a search, what is typed goes into the text that is searched for, from the
/// latest entry on; control and R go on to the entry before the one that was found;
/// Enter takes the entry that was found; Escape gives the line back.
pub proof fn law_searching(e: EditorView, s: SearchView, c: char)
    requires
        e.search == Some(s),
        !('\u{0}' <= c <= '\u{1f}'),
    ensures
        ({
            let after = on_key(
                e,
                KeyPress { key: Key::Char(c), control: false, released: false },
            ).0;
            &&& after.search is Some
            &&& after.search->0.query == s.query.push(c)
            &&& after.search->0.found == reverse_match(e.history, s.query.push(c), None)
            &&& after.search->0.original == s.original
        }),
        ({
            let after = on_key(
                e,
                KeyPress { key: Key::Char('r'), control: true, released: false },
            ).0;
            &&& after.search is Some
            &&& after.search->0.query == s.query
            &&& after.search->0.found == reverse_match(e.history, s.query, s.found)
        }),
        ({
            let after = on_key(
                e,
                KeyPress { key: Key::Backspace, control: false, released: false },
            ).0;
            &&& after.search is Some
            &&& s.query.len() > 0 ==> after.search->0.query == s.query.drop_last()
            &&& s.query.len() == 0 ==> after.search->0.query == s.query
            &&& after.search->0.found == reverse_match(
                e.history,
                after.search->0.query,
                None,
            )
        }),
        ({
            let after = on_key(
                e,
                KeyPress { key: Key::Enter, control: false, released: false },
            ).0;
            &&& after.search is None
            &&& s.found is Some ==> after.line == e.history[s.found->0 as int]
            &&& s.found is None ==> after.line == s.original
            &&& after.position == s.found
        }),
        ({
            let after = on_key(
                e,
                KeyPress { key: Key::Esc, control: false, released: false },
            ).0;
            &&& after.search is None
            &&& after.line == s.original
            &&& after.position == e.position
        }),
{
}

// ---------------------------------------------------------------------------
// Audio tests
// ---------------------------------------------------------------------------

/// A test tone lasts as many frames of 20 milliseconds as the seconds that were asked
/// for, of 160 samples each, or goes into a file of as many milliseconds where there
/// is no device.
pub proof fn law_tone_test(
    available: bool,
    reason: Seq<char>,
    input: Seq<char>,
    output: Seq<char>,
    secs: nat,
    frequency: Seq<char>,
)
    requires
        1000 * secs <= u32::MAX,
    ensures
        ({
            let ss = test_steps("tone"@, available, reason, input, output, secs, frequency);
            &&& ss.len() == 3
            &&& available ==> ss[1] == TestView::PlayTone {
                frames: 50 * secs,
                samples: 160,
                frame_ms: 20,
            }
            &&& !available ==> ss[2] == TestView::SaveTone { ms: (1000 * secs) as u32 }
        }),
{
}

/// The other tests take a device: they last the seconds that were asked for, and
/// without a device the reason is told.
pub proof fn law_device_tests(
    mode: Seq<char>,
    available: bool,
    reason: Seq<char>,
    input: Seq<char>,
    output: Seq<char>,
    secs: nat,
    frequency: Seq<char>,
)
    ensures
        ({
            let ss = test_steps(mode, available, reason, input, output, secs, frequency);
            &&& mode == "capture"@ && available ==> ss[1] == TestView::Capture { secs }
            &&& mode == "loopback"@ && available ==> ss[1] == TestView::Loopback { secs }
            &&& (mode == "capture"@ || mode == "loopback"@) && !available ==> ss[1]
                == TestView::Say(reason)
            &&& mode != "tone"@ && mode != "capture"@ && mode != "loopback"@ ==> ss == seq![
                TestView::Say(
                    "Unknown test mode '"@ + mode + "'. Use: tone, capture, or loopback"@,
                ),
            ]
        }),
{
    reveal_strlit("tone");
    reveal_strlit("capture");
    reveal_strlit("loopback");
    assert("tone"@.len() == 4 && "capture"@.len() == 7 && "loopback"@.len() == 8);
}

} // verus!
