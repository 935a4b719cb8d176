//! The commands that a user types during a call.
use crate::case::{ascii_lowered, lower, lower_chars};
use crate::sip::message::opt_text;
use crate::text::{chars_of, same_text, string_of, word_len, words, words_of};
use vstd::prelude::*;
use vstd::utf8::is_ascii_chars;

verus! {

/// A command, with the argument that it takes where one was given.
#[derive(Debug, PartialEq, Eq)]
pub enum Command {
    Help,
    Record(Option<String>),
    Stop,
    Mute,
    Unmute,
    Stats,
    StopTrace,
    Trace { verbose: bool },
    Flows,
    Keys(Option<String>),
    InfoKeys(Option<String>),
    SendKeys,
    CountKeys,
    Hold,
    Resume,
    Transfer(Option<String>),
    Speed(Option<String>),
    Hangup,
    /// Not a command; the word that stands in its place.
    Unknown(String),
}

pub enum CommandView {
    Help,
    Record(Option<Seq<char>>),
    Stop,
    Mute,
    Unmute,
    Stats,
    StopTrace,
    Trace { verbose: bool },
    Flows,
    Keys(Option<Seq<char>>),
    InfoKeys(Option<Seq<char>>),
    SendKeys,
    CountKeys,
    Hold,
    Resume,
    Transfer(Option<Seq<char>>),
    Speed(Option<Seq<char>>),
    Hangup,
    Unknown(Seq<char>),
}

impl View for Command {
    type V = CommandView;

    open spec fn view(&self) -> CommandView {
        match *self {
            Command::Help => CommandView::Help,
            Command::Record(s) => CommandView::Record(opt_text(s)),
            Command::Stop => CommandView::Stop,
            Command::Mute => CommandView::Mute,
            Command::Unmute => CommandView::Unmute,
            Command::Stats => CommandView::Stats,
            Command::StopTrace => CommandView::StopTrace,
            Command::Trace { verbose } => CommandView::Trace { verbose },
            Command::Flows => CommandView::Flows,
            Command::Keys(s) => CommandView::Keys(opt_text(s)),
            Command::InfoKeys(s) => CommandView::InfoKeys(opt_text(s)),
            Command::SendKeys => CommandView::SendKeys,
            Command::CountKeys => CommandView::CountKeys,
            Command::Hold => CommandView::Hold,
            Command::Resume => CommandView::Resume,
            Command::Transfer(s) => CommandView::Transfer(opt_text(s)),
            Command::Speed(s) => CommandView::Speed(opt_text(s)),
            Command::Hangup => CommandView::Hangup,
            Command::Unknown(s) => CommandView::Unknown(s@),
        }
    }
}

/// The second word, if there is one.
pub open spec fn argument(ws: Seq<Seq<char>>) -> Option<Seq<char>> {
    if ws.len() < 2 {
        None
    } else {
        Some(ws[1])
    }
}

/// The command that a line of words gives: the first word says which, in any
/// letter case.
pub open spec fn command_of(ws: Seq<Seq<char>>) -> Option<CommandView> {
    if ws.len() == 0 {
        None
    } else {
        let w = lower(ws[0]);
        let arg = argument(ws);
        let low = match arg {
            Some(a) => Some(lower(a)),
            None => None,
        };
        Some(
            if w == "help"@ || w == "h"@ || w == "?"@ {
                CommandView::Help
            } else if w == "record"@ || w == "rec"@ {
                CommandView::Record(arg)
            } else if w == "stop"@ {
                CommandView::Stop
            } else if w == "mute"@ {
                CommandView::Mute
            } else if w == "unmute"@ {
                CommandView::Unmute
            } else if w == "stats"@ || w == "info"@ {
                CommandView::Stats
            } else if w == "sniff"@ || w == "trace"@ || w == "debug"@ {
                if low == Some("stop"@) {
                    CommandView::StopTrace
                } else {
                    CommandView::Trace { verbose: low == Some("verbose"@) }
                }
            } else if w == "flows"@ || w == "flow"@ || w == "ladder"@ {
                CommandView::Flows
            } else if w == "dtmf"@ {
                CommandView::Keys(arg)
            } else if w == "dtmf-info"@ || w == "dtmf_info"@ {
                CommandView::InfoKeys(arg)
            } else if w == "dtmf-send"@ || w == "send-dtmf"@ {
                CommandView::SendKeys
            } else if w == "dtmf-queue"@ {
                CommandView::CountKeys
            } else if w == "hold"@ {
                CommandView::Hold
            } else if w == "resume"@ || w == "unhold"@ {
                CommandView::Resume
            } else if w == "transfer"@ || w == "xfer"@ || w == "refer"@ {
                CommandView::Transfer(arg)
            } else if w == "speed"@ {
                CommandView::Speed(arg)
            } else if w == "hangup"@ || w == "bye"@ || w == "quit"@ || w == "exit"@ || w == "q"@ {
                CommandView::Hangup
            } else {
                CommandView::Unknown(ws[0])
            },
        )
    }
}

fn is_any(w: &str, a: &str, b: &str) -> (r: bool)
    ensures
        r == (w@ == a@ || w@ == b@),
{
    same_text(w, a) || same_text(w, b)
}

impl Command {
    /// The command that a line gives; a blank line gives none.
    pub fn parse(line: &str) -> (r: Option<Command>)
        ensures
            match r {
                Some(c) => command_of(words(line@)) == Some(c@),
                None => command_of(words(line@)) is None,
            },
    {
        let cs = chars_of(line);
        let ws = words_of(cs.as_slice());
        let ghost all = words(line@);
        if ws.len() == 0 {
            assert(all.len() == 0);
            return None;
        }
        assert(all[0] == ws@[0]@);
        let arg = if ws.len() < 2 {
            None
        } else {
            assert(all[1] == ws@[1]@);
            Some(string_of(ws[1]))
        };
        assert(opt_text(arg) == argument(all));
        let low = lower_chars(ws[0]);
        let w = low.as_str();
        Some(
            if is_any(w, "help", "h") || same_text(w, "?") {
                Command::Help
            } else if is_any(w, "record", "rec") {
                Command::Record(arg)
            } else if same_text(w, "stop") {
                Command::Stop
            } else if same_text(w, "mute") {
                Command::Mute
            } else if same_text(w, "unmute") {
                Command::Unmute
            } else if is_any(w, "stats", "info") {
                Command::Stats
            } else if is_any(w, "sniff", "trace") || same_text(w, "debug") {
                if ws.len() < 2 {
                    Command::Trace { verbose: false }
                } else {
                    let second = lower_chars(ws[1]);
                    if same_text(second.as_str(), "stop") {
                        Command::StopTrace
                    } else {
                        Command::Trace { verbose: same_text(second.as_str(), "verbose") }
                    }
                }
            } else if is_any(w, "flows", "flow") || same_text(w, "ladder") {
                Command::Flows
            } else if same_text(w, "dtmf") {
                Command::Keys(arg)
            } else if is_any(w, "dtmf-info", "dtmf_info") {
                Command::InfoKeys(arg)
            } else if is_any(w, "dtmf-send", "send-dtmf") {
                Command::SendKeys
            } else if same_text(w, "dtmf-queue") {
                Command::CountKeys
            } else if same_text(w, "hold") {
                Command::Hold
            } else if is_any(w, "resume", "unhold") {
                Command::Resume
            } else if is_any(w, "transfer", "xfer") || same_text(w, "refer") {
                Command::Transfer(arg)
            } else if same_text(w, "speed") {
                Command::Speed(arg)
            } else if is_any(w, "hangup", "bye") || is_any(w, "quit", "exit") || same_text(w, "q") {
                Command::Hangup
            } else {
                Command::Unknown(string_of(ws[0]))
            },
        )
    }
}

/// The line that dials a slot gives the command that does.
pub proof fn law_speed_line(slot: char)
    requires
        '0' <= slot <= '9',
    ensures
        command_of(words("speed "@.push(slot))) == Some(CommandView::Speed(Some(seq![slot]))),
{
    reveal_strlit("speed ");
    reveal_strlit("speed");
    let s = "speed "@.push(slot);
    let w = s.take(5);
    let rest = s.skip(5);
    let last = seq![slot];
    assert(w =~= "speed"@);
    reveal_with_fuel(word_len, 6);
    assert(s.skip(1).skip(1).skip(1).skip(1).skip(1) =~= rest);
    assert(word_len(s) == 5);
    assert(rest.skip(1) =~= last);
    assert(last.skip(1).len() == 0);
    assert(word_len(last) == 1);
    assert(last.take(1) =~= last);
    assert(words(last.skip(1)) =~= seq![]);
    assert(words(last) =~= seq![last]);
    assert(words(rest) == words(last));
    assert(words(s) =~= seq![w, last]);
    assert(lower(w) == "speed"@) by {
        assert(is_ascii_chars(w));
        assert(ascii_lowered(w) =~= w);
    }
    reveal_strlit("help");
    reveal_strlit("h");
    reveal_strlit("?");
    reveal_strlit("record");
    reveal_strlit("rec");
    reveal_strlit("stop");
    reveal_strlit("mute");
    reveal_strlit("unmute");
    reveal_strlit("stats");
    reveal_strlit("info");
    reveal_strlit("sniff");
    reveal_strlit("trace");
    reveal_strlit("debug");
    reveal_strlit("flows");
    reveal_strlit("flow");
    reveal_strlit("ladder");
    reveal_strlit("dtmf");
    reveal_strlit("dtmf-info");
    reveal_strlit("dtmf_info");
    reveal_strlit("dtmf-send");
    reveal_strlit("send-dtmf");
    reveal_strlit("dtmf-queue");
    reveal_strlit("hold");
    reveal_strlit("resume");
    reveal_strlit("unhold");
    reveal_strlit("transfer");
    reveal_strlit("xfer");
    reveal_strlit("refer");
    assert("speed"@[0] == 's' && "speed"@[1] == 'p');
    assert("stats"@[1] == 't' && "sniff"@[1] == 'n');
    assert("trace"@[0] == 't' && "debug"@[0] == 'd' && "flows"@[0] == 'f' && "refer"@[0] == 'r');
}

} // verus!
