use sipr::net::Endpoint;
use sipr::phone::sip_debug::{
    passes_filter, time_stamp, CallFlow, CapturedMessage, Output, SipDebugger, Sniffed,
};
use sipr::phone::term::{
    ansi_bold, ansi_fg, ansi_reset, center, clear_current_line, cut_date, eight_hex_string,
    is_shortenable, pad_left, pad_right, shorten_time, text_bytes, two_digit_string, Color,
};
use sipr::phone::ui;
use sipr::rtp::codec::CodecType;
use sipr::rtp::session::SessionStats;
use sipr::sip::header::HeaderName;
use sipr::sip::message::{RequestBuilder, ResponseBuilder, SipMessage, SipMethod, StatusCode};

const STAMP: &str = "2024-05-06 07:08:09.010";

fn a() -> Endpoint {
    Endpoint::new("10.0.0.1", 5060)
}

fn b() -> Endpoint {
    Endpoint::new("10.0.0.2", 5060)
}

fn invite(call_id: &str) -> SipMessage {
    RequestBuilder::new(SipMethod::Invite, "sip:bob@10.0.0.2")
        .header(HeaderName::Via, "SIP/2.0/UDP 10.0.0.1:5060;branch=z9hG4bK1")
        .header(HeaderName::From, "<sip:alice@10.0.0.1>;tag=1")
        .header(HeaderName::To, "<sip:bob@10.0.0.2>")
        .header(HeaderName::CallId, call_id)
        .header(HeaderName::CSeq, "1 INVITE")
        .build()
}

fn ok_to(msg: &SipMessage) -> SipMessage {
    match msg {
        SipMessage::Request(req) => {
            ResponseBuilder::from_request(req, StatusCode(StatusCode::OK)).build()
        },
        SipMessage::Response(_) => panic!("expected a request"),
    }
}

fn captured(message: SipMessage, source: Endpoint, destination: Endpoint) -> CapturedMessage {
    let raw_size = message.to_bytes().len();
    CapturedMessage { timestamp: STAMP.to_string(), source, destination, message, raw_size }
}

#[test]
fn diagram_draws_messages_between_columns() {
    let inv = invite("call-1");
    let ok = ok_to(&inv);
    let mut flow = CallFlow::new("call-1".to_string());
    assert_eq!(flow.ladder_diagram(), "(no messages)");
    flow.messages.push(captured(inv, a(), b()));
    flow.messages.push(captured(ok, b(), a()));
    let text = flow.ladder_diagram();
    let lines: Vec<&str> = text.lines().collect();
    assert_eq!(lines.len(), 9);
    assert_eq!(lines[0], "Call-ID: call-1");
    assert_eq!(lines[1], "");
    assert_eq!(lines[2], format!("{:^24}{:^24}", "10.0.0.1:5060", "10.0.0.2:5060"));
    assert_eq!(lines[3], format!("{:^24}{:^24}", "│", "│"));
    // The columns stand at 12 and 36; the label is around 24.
    assert_eq!(
        lines[4],
        format!("07:08:09.010 {}│{}INVITE{}│", " ".repeat(12), " ".repeat(8), " ".repeat(9))
    );
    assert_eq!(lines[5], format!("{}├{}▶", " ".repeat(13 + 12), "─".repeat(23)));
    assert_eq!(
        lines[6],
        format!("07:08:09.010 {}│{}200 OK{}│", " ".repeat(12), " ".repeat(8), " ".repeat(9))
    );
    assert_eq!(lines[7], format!("{}◀{}┤", " ".repeat(13 + 12), "─".repeat(23)));
    assert_eq!(lines[8], lines[3]);
}

#[test]
fn diagram_without_colours_is_plain() {
    let mut flow = CallFlow::new("call-1".to_string());
    flow.messages.push(captured(invite("call-1"), a(), b()));
    assert!(!flow.ladder_diagram_colored(false).contains('\u{1b}'));
    let colored = flow.ladder_diagram_colored(true);
    assert!(colored.contains("\u{1b}["));
    assert!(colored.contains("INVITE"));
}

#[test]
fn third_party_keeps_its_column() {
    let mut flow = CallFlow::new("c".to_string());
    let c = Endpoint::new("10.0.0.3", 5060);
    flow.messages.push(captured(invite("c"), a(), b()));
    flow.messages.push(captured(invite("c"), b(), c));
    let text = flow.ladder_diagram();
    let lines: Vec<&str> = text.lines().collect();
    // While a and b talk, the column of c is a bar; likewise that of a later.
    assert_eq!(
        lines[5],
        format!("{}├{}▶{}│", " ".repeat(25), "─".repeat(23), " ".repeat(23))
    );
    assert_eq!(
        lines[7],
        format!("{}│{}├{}▶", " ".repeat(25), " ".repeat(23), "─".repeat(23))
    );
}

#[test]
fn inactive_debugger_traces_nothing() {
    let mut dbg = SipDebugger::new(false);
    dbg.stop();
    assert!(!dbg.is_active());
    assert!(dbg.capture_incoming(&invite("x"), &a(), &b(), false).is_none());
    assert!(dbg.capture_rtp_event("x", &a(), &b(), "RX", false).is_none());
    assert_eq!(dbg.message_count(), 0);
    assert!(!dbg.has_captures());
}

#[test]
fn messages_are_grouped_by_call() {
    let mut dbg = SipDebugger::new(false);
    dbg.start(false);
    let stamp = || STAMP.to_string();
    let first = invite("call-a");
    dbg.capture_at(stamp(), &first, &a(), &b(), false);
    dbg.capture_at(stamp(), &invite("call-b"), &a(), &b(), false);
    dbg.capture_at(stamp(), &ok_to(&first), &b(), &a(), false);
    dbg.capture_rtp_event_at(stamp(), "call-a", &b(), &a(), "EARLY", false);
    assert_eq!(dbg.message_count(), 3);
    assert_eq!(dbg.media_event_count(), 1);
    assert!(dbg.has_captures());

    let flows = dbg.print_flows(false);
    let text: String = flows
        .iter()
        .map(|o| match o {
            Output::Line(s) => format!("{s}\n"),
            Output::Block(s) => s.clone(),
        })
        .collect();
    assert!(text.contains("call-a"));
    assert!(text.contains("call-b"));
    assert!(text.contains("EARLY"));

    let summary = dbg.print_summary(false);
    assert!(summary.contains('3'), "{summary}");
    let breakdown = dbg.breakdown();
    assert!(breakdown.contains(&("INVITE".to_string(), 2)), "{:?}", breakdown);

    dbg.stop();
    assert!(dbg.capture_at(stamp(), &first, &a(), &b(), false).is_none());
    assert_eq!(dbg.message_count(), 3);
}

#[test]
fn verbose_debugger_shows_messages_in_full() {
    let mut dbg = SipDebugger::new(false);
    dbg.start(true);
    let shown = dbg.capture_outgoing(&invite("x"), &a(), &b(), false).unwrap();
    assert!(shown.line.contains("INVITE"));
    assert!(shown.block.unwrap().contains("Call-ID"));
    dbg.start(false);
    assert!(dbg.capture_outgoing(&invite("x"), &a(), &b(), false).unwrap().block.is_none());
}

#[test]
fn sniffed_datagrams_are_filtered() {
    let mut dbg = SipDebugger::new(false);
    dbg.start(false);
    let data = invite("x").to_bytes();
    let stamp = || STAMP.to_string();
    let r = dbg.sniff(stamp(), &data, &a(), &b(), None, false);
    assert!(matches!(r, Sniffed::Message(_)));
    let r = dbg.sniff(stamp(), &data, &a(), &b(), Some(&SipMethod::Register), false);
    assert!(matches!(r, Sniffed::Filtered));
    let r = dbg.sniff(stamp(), b"", &a(), &b(), None, false);
    assert!(matches!(r, Sniffed::NotSip));
    assert!(passes_filter(Some(&SipMethod::Invite), &invite("x")));
}

#[test]
fn summaries_hold_size_and_ends() {
    let msg = captured(invite("x"), a(), b());
    let line = msg.summary();
    assert!(line.contains("INVITE"), "{line}");
    assert!(line.contains("10.0.0.1:5060"), "{line}");
    assert!(line.contains("10.0.0.2:5060"), "{line}");
    assert!(msg.detail().contains("Via: SIP/2.0/UDP 10.0.0.1:5060;branch=z9hG4bK1"));
    assert!(!msg.summary_colored(false).contains('\u{1b}'));
    assert!(!msg.detail_colored(false).contains('\u{1b}'));
    assert!(msg.detail_colored(true).contains('\u{1b}'));
}

#[test]
fn time_stamps_have_a_date_and_milliseconds() {
    let stamp = time_stamp();
    assert!(stamp.len() >= 23);
    assert_eq!(&stamp[4..5], "-");
    assert_eq!(&stamp[10..11], " ");
    assert_eq!(&stamp[19..20], ".");
    assert!(is_shortenable(&stamp));
    assert_eq!(cut_date(STAMP), "07:08:09.010");
    assert_eq!(shorten_time(STAMP), "07:08:09.010");
}

#[test]
fn colours_are_switched_off() {
    assert_eq!(ansi_fg(true, Color::Cyan), "\u{1b}[36m");
    assert_eq!(ansi_bold(true), "\u{1b}[1m");
    assert_eq!(ansi_reset(true), "\u{1b}[0m");
    assert_eq!(ansi_fg(false, Color::Red), "");
    assert_eq!(ansi_bold(false), "");
    assert_eq!(ansi_reset(false), "");
    assert!(clear_current_line().starts_with('\r'));
    for line in [
        ui::status(false, "m"),
        ui::success(false, "m"),
        ui::warning(false, "m"),
        ui::error(false, "m"),
        ui::info(false, "m"),
        ui::event(false, "m"),
    ] {
        assert!(!line.contains('\u{1b}'));
        assert!(line.contains('m'));
    }
    assert!(ui::error(true, "m").contains(ansi_fg(true, Color::Red)));
}

#[test]
fn texts_are_padded() {
    assert_eq!(pad_right("ab", 4), format!("{:<4}", "ab"));
    assert_eq!(pad_left("ab", 4, '0'), "00ab");
    assert_eq!(center("│", 24), format!("{:^24}", "│"));
    assert_eq!(center("10.0.0.1:5060", 24), format!("{:^24}", "10.0.0.1:5060"));
    assert_eq!(center("longer", 3), "longer");
    assert_eq!(two_digit_string(7), format!("{:02}", 7));
    assert_eq!(two_digit_string(123), format!("{:02}", 123));
    assert_eq!(eight_hex_string(0xBEEF), format!("{:08X}", 0xBEEF));
    assert_eq!(text_bytes("a│é"), "a│é".len());
}

#[test]
fn raw_mode_has_its_own_line_ends() {
    assert_eq!(ui::print_line("x", false), "x\n");
    assert_eq!(ui::print_line("x", true), "x\r\n");
    assert_eq!(ui::print_block("x\ny", true), "x\r\ny\r\n");
}

#[test]
fn status_bar_counts_minutes() {
    let bar = ui::status_bar(false, 125, true, true, true, true, 3);
    assert!(bar.contains("02:05"), "{bar}");
    assert!(bar.contains("HOLD"), "{bar}");
    assert!(bar.contains('3'), "{bar}");
    let bar = ui::status_bar(false, 5, false, false, false, false, 0);
    assert!(bar.contains("00:05"), "{bar}");
    assert!(!bar.contains("HOLD"), "{bar}");
}

#[test]
fn statistics_show_the_session() {
    let stats = SessionStats {
        local_addr: a(),
        remote_addr: b(),
        codec: CodecType::Pcmu,
        ssrc: 0xBEEF,
        packets_sent: 12,
    };
    let text = ui::print_stats(false, 65, false, Some(&stats), None, false, 0);
    assert!(text.contains("01:05"), "{text}");
    assert!(text.contains("PCMU (G.711 mu-law)"), "{text}");
    assert!(text.contains("12"), "{text}");
    assert!(ui::print_help(false).contains("transfer"));
    assert!(!ui::print_banner(false).contains('\u{1b}'));
    assert!(ui::print_sniffer_header(false, &a(), true, Some("INVITE")).contains("INVITE"));
}

#[test]
fn codes_have_colours_and_signs() {
    assert!(matches!(ui::status_color(200), Color::Green));
    assert!(matches!(ui::method_color("BYE"), Color::Red));
    assert_ne!(ui::status_indicator(200), ui::status_indicator(404));
}
