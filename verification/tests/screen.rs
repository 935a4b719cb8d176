use sipr::net::Endpoint;
use sipr::phone::ladder::ladder_diagram;
use sipr::phone::sip_debug::CapturedMessage;
use sipr::phone::ui::{self, RecordingLine};
use sipr::rtp::codec::CodecType;
use sipr::rtp::session::SessionStats;
use sipr::sip::header::HeaderName;
use sipr::sip::message::{RequestBuilder, ResponseBuilder, SipMessage, SipMethod, StatusCode};

const STAMP: &str = "2024-05-06 07:08:09.010";
const SHORT: &str = "07:08:09.010";
const TOP: &str = "══════════════════════════════════════════════════════════════";
const RULE: &str = "──────────────────────────────────────────────────────────────";

/// An escape sequence, where there are colours.
fn esc(color: bool, code: &str) -> String {
    if color {
        format!("\u{1b}[{code}m")
    } else {
        String::new()
    }
}

struct Codes {
    b: String,
    r: String,
    cyan: String,
    green: String,
    yellow: String,
    red: String,
    magenta: String,
    blue: String,
    grey: String,
    white: String,
}

fn codes(color: bool) -> Codes {
    Codes {
        b: esc(color, "1"),
        r: esc(color, "0"),
        cyan: esc(color, "36"),
        green: esc(color, "32"),
        yellow: esc(color, "33"),
        red: esc(color, "31"),
        magenta: esc(color, "35"),
        blue: esc(color, "34"),
        grey: esc(color, "90"),
        white: esc(color, "37"),
    }
}

fn a() -> Endpoint {
    Endpoint::new("10.0.0.1", 5060)
}

fn b() -> Endpoint {
    Endpoint::new("10.0.0.2", 5070)
}

fn invite() -> SipMessage {
    RequestBuilder::new(SipMethod::Invite, "sip:bob@10.0.0.2")
        .header(HeaderName::CallId, "c1")
        .body("v=0\r\ns=-")
        .build()
}

fn busy() -> SipMessage {
    ResponseBuilder::new(StatusCode(StatusCode::BUSY_HERE)).header(HeaderName::CallId, "c1").build()
}

#[test]
fn lines_have_their_colours() {
    for color in [false, true] {
        let Codes { b, r, green, yellow, red, grey, white, blue, .. } = codes(color);
        assert_eq!(ui::status(color, "m"), format!("{green}m{r}"));
        assert_eq!(ui::success(color, "m"), format!("{green}{b}✓ m{r}"));
        assert_eq!(ui::warning(color, "m"), format!("{yellow}⚠ m{r}"));
        assert_eq!(ui::error(color, "m"), format!("{red}✗ m{r}"));
        assert_eq!(ui::info(color, "m"), format!("{grey}m{r}"));
        assert_eq!(ui::event(color, "m"), format!("{white}{b}m{r}"));
        assert_eq!(ui::prompt(color), format!("{blue}{b}sipr› {r}"));
    }
}

#[test]
fn message_lines_are_exact() {
    for color in [false, true] {
        let Codes { b: bold, r, cyan, red, grey, .. } = codes(color);
        assert_eq!(
            ui::sip_summary(color, STAMP, &a(), &b(), &invite(), 42),
            format!(
                "{grey}{SHORT}{r} {grey}10.0.0.1:5060 → 10.0.0.2:5070{r} \
                 {bold}{cyan}▶ INVITE sip:bob@10.0.0.2{r} {grey}(42B){r}"
            )
        );
        assert_eq!(
            ui::sip_summary(color, STAMP, &a(), &b(), &busy(), 7),
            format!(
                "{grey}{SHORT}{r} {grey}10.0.0.1:5060 → 10.0.0.2:5070{r} \
                 {red}✗ 486 Busy Here{r} {grey}(7B){r}"
            )
        );
    }
}

#[test]
fn media_lines_are_exact() {
    for color in [false, true] {
        let Codes { b: bold, r, cyan, green, yellow, magenta, blue, grey, white, .. } =
            codes(color);
        for (label, badge, fg) in [
            ("Early media RTP announced (183)", "[EARLY]", &yellow),
            ("Connected call RTP announced (200 OK)", "[CONNECTED]", &green),
            ("RTP audio flow active (RX)", "[RX]", &cyan),
            ("RTP audio flow active (TX)", "[TX]", &magenta),
            ("other", "[RTP]", &white),
        ] {
            assert_eq!(
                ui::media_flow_summary(color, STAMP, &a(), &b(), label),
                format!(
                    "{grey}{SHORT}{r} {grey}10.0.0.1:5060 → 10.0.0.2:5070{r} \
                     {bold}{blue}[RTP]{r} {bold}{fg}{badge}{r} {fg}{label}{r}"
                )
            );
        }
    }
}

#[test]
fn message_details_are_exact() {
    for color in [false, true] {
        let Codes { b: bold, r, cyan, red, green, grey, .. } = codes(color);
        assert_eq!(
            ui::sip_detail(color, STAMP, &a(), &b(), &invite(), 42),
            format!(
                "{grey}╔{TOP}╗{r}\n\
                 {grey}║{r} {STAMP} {grey}    42B{r}\n\
                 {grey}║{r} {grey}10.0.0.1:5060 → 10.0.0.2:5070{r}\n\
                 {grey}╠{TOP}╣{r}\n\
                 {grey}║{r} {bold}{cyan}▶ INVITE sip:bob@10.0.0.2 SIP/2.0{r}\n\
                 {grey}╟{RULE}╢{r}\n\
                 {grey}║{r} {bold}Call-ID{r}: c1\n\
                 {grey}║{r} {bold}Content-Length{r}: 8\n\
                 {grey}╟{RULE}╢{r}\n\
                 {grey}║{r} {green}v=0{r}\n\
                 {grey}║{r} {green}s=-{r}\n\
                 {grey}╚{TOP}╝{r}\n"
            )
        );
        assert_eq!(
            ui::sip_detail(color, STAMP, &a(), &b(), &busy(), 1234567),
            format!(
                "{grey}╔{TOP}╗{r}\n\
                 {grey}║{r} {STAMP} {grey}1234567B{r}\n\
                 {grey}║{r} {grey}10.0.0.1:5060 → 10.0.0.2:5070{r}\n\
                 {grey}╠{TOP}╣{r}\n\
                 {grey}║{r} {red}✗ SIP/2.0 486 Busy Here{r}\n\
                 {grey}╟{RULE}╢{r}\n\
                 {grey}║{r} {bold}Call-ID{r}: c1\n\
                 {grey}║{r} {bold}Content-Length{r}: 0\n\
                 {grey}╚{TOP}╝{r}\n"
            )
        );
    }
}

#[test]
fn plain_summary_and_detail_are_exact() {
    let msg = CapturedMessage {
        timestamp: STAMP.to_string(),
        source: a(),
        destination: b(),
        message: invite(),
        raw_size: 42,
    };
    assert_eq!(
        msg.summary(),
        format!(
            "{} | {:42} | INVITE sip:bob@10.0.0.2 (42B)",
            STAMP, "10.0.0.1:5060 → 10.0.0.2:5070"
        )
    );
    assert_eq!(
        msg.detail(),
        format!(
            "╔{TOP}╗\n║ {STAMP}     42B\n║ 10.0.0.1:5060 → 10.0.0.2:5070\n╠{TOP}╣\n\
             ║ ▶ INVITE sip:bob@10.0.0.2 SIP/2.0\n╟{RULE}╢\n║ Call-ID: c1\n\
             ║ Content-Length: 8\n╟{RULE}╢\n║ v=0\n║ s=-\n╚{TOP}╝\n"
        )
    );
}

#[test]
fn coloured_diagram_is_exact() {
    for color in [false, true] {
        let Codes { b: bold, r, cyan, red, grey, .. } = codes(color);
        let messages = [
            CapturedMessage {
                timestamp: STAMP.to_string(),
                source: a(),
                destination: b(),
                message: invite(),
                raw_size: 42,
            },
            CapturedMessage {
                timestamp: STAMP.to_string(),
                source: b(),
                destination: a(),
                message: busy(),
                raw_size: 42,
            },
        ];
        let heads = format!("{bold}{:^24}{r}{bold}{:^24}{r}", "10.0.0.1:5060", "10.0.0.2:5070");
        let bars = format!("{grey}{:^24}{r}{grey}{:^24}{r}", "│", "│");
        let col = " ".repeat(12);
        let eight = " ".repeat(8);
        let nine = " ".repeat(9);
        let label = format!("{col}│{eight}INVITE{nine}│");
        let five = " ".repeat(5);
        let six = " ".repeat(5);
        let answer = format!("{col}│{five}486 Busy Here{six}│");
        let gap = " ".repeat(SHORT.len());
        let dashes = "─".repeat(23);
        assert_eq!(
            ladder_diagram(color, "c1", &messages),
            format!(
                "{grey}Call-ID:{r} {bold}c1{r}\n\n{heads}\n{bars}\n\
                 {grey}{SHORT} {r}{cyan}{label}{r}\n{gap}  {cyan}{col}├{dashes}▶{r}\n\
                 {grey}{SHORT} {r}{red}{answer}{r}\n{gap}  {red}{col}◀{dashes}┤{r}\n\
                 {bars}\n"
            )
        );
    }
}

#[test]
fn status_bars_are_exact() {
    for color in [false, true] {
        let Codes { b, r, cyan, green, yellow, red, white, .. } = codes(color);
        assert_eq!(
            ui::status_bar(color, 65, false, false, false, false, 0),
            format!("{b}{white}[01:05]{r} {green}ACTIVE{r}")
        );
        assert_eq!(
            ui::status_bar(color, 6005, true, true, true, true, 3),
            format!("{b}{white}[100:05]{r} {yellow}HOLD{r} {red}🔇{r} {red}● REC{r} {cyan}📡 3{r}")
        );
    }
}

#[test]
fn help_is_exact() {
    for color in [false, true] {
        let Codes { b, r, cyan: c, yellow: y, grey: g, .. } = codes(color);
        let expected = [
            String::new(),
            format!("{b}{c}  Call Control{r}"),
            format!("  {c}hold{r}               {g}Put call on hold{r}"),
            format!("  {c}resume{r}             {g}Resume held call{r}"),
            format!("  {c}transfer{r} {y}<uri>{r}     {g}Blind transfer (REFER){r}"),
            format!("  {c}speed{r} {y}<0-9>{r}         {g}Transfer using configured speed dial slot{r}"),
            format!("  {c}hangup{r}             {g}End the call{r}"),
            String::new(),
            format!("{b}{c}  DTMF{r}"),
            format!("  {c}dtmf{r} {y}<digits>{r}      {g}Send DTMF via RTP (RFC2833){r}"),
            format!("  {c}dtmf-info{r} {y}<digits>{r} {g}Send DTMF via SIP INFO{r}"),
            format!("  {c}dtmf-send{r}          {g}Flush queued DTMF now{r}"),
            String::new(),
            format!("{b}{c}  Recording{r}"),
            format!("  {c}record{r} {y}<file.wav>{r}  {g}Start recording{r}"),
            format!("  {c}stop{r}               {g}Pause recording{r}"),
            String::new(),
            format!("{b}{c}  Audio{r}"),
            format!("  {c}mute{r}               {g}Silence outgoing audio{r}"),
            format!("  {c}unmute{r}             {g}Resume outgoing audio{r}"),
            String::new(),
            format!("{b}{c}  Diagnostics{r}"),
            format!("  {c}stats{r}              {g}Show call statistics{r}"),
            format!("  {c}sniff{r}              {g}Start SIP tracing{r}"),
            format!("  {c}sniff verbose{r}      {g}Trace with full headers{r}"),
            format!("  {c}sniff stop{r}         {g}Stop SIP tracing{r}"),
            format!("  {c}flows{r}              {g}Show call flow diagram{r}"),
            format!("  {c}Ctrl+0..9{r}          {g}Shortcut for 'speed <slot>'{r}"),
            String::new(),
        ]
        .join("\n")
            + "\n";
        assert_eq!(ui::print_help(color), expected);
    }
}

#[test]
fn statistics_are_exact() {
    let stats = SessionStats {
        local_addr: a(),
        remote_addr: b(),
        codec: CodecType::Pcma,
        ssrc: 0xBEEF,
        packets_sent: 12,
    };
    let recording = RecordingLine { active: true, secs: "1.5".to_string(), frames: 75 };
    for color in [false, true] {
        let Codes { b, r, cyan: c, grey: g, red, green, .. } = codes(color);
        assert_eq!(
            ui::print_stats(color, 65, true, Some(&stats), Some(&recording), true, 9),
            format!(
                "{c}┌─────────────────────────────┐{r}\n\
                 {c}│{r} {b}Call Statistics{r}             {c}│{r}\n\
                 {c}├─────────────────────────────┤{r}\n\
                 {c}│{r}  Duration:  {b}01:05{r}           {c}│{r}\n\
                 {c}│{r}  Muted:     {red}yes{r}{r}         {c}│{r}\n\
                 {c}│{r}  Codec:     {b}PCMA (G.711 A-law){r}          {c}│{r}\n\
                 {c}│{r}  RTP local: {g}10.0.0.1:5060{r}  {c}│{r}\n\
                 {c}│{r}  RTP remote:{g}10.0.0.2:5070{r}  {c}│{r}\n\
                 {c}│{r}  Packets TX:{b}12{r}           {c}│{r}\n\
                 {c}│{r}  SSRC:      {g}0x0000BEEF{r}     {c}│{r}\n\
                 {c}│{r}  Recording: {red}active{r} (1.5s, 75 frames) {c}│{r}\n\
                 {c}│{r}  Sniffing:  {green}active{r} (9 msgs)    {c}│{r}\n\
                 {c}└─────────────────────────────┘{r}\n"
            )
        );
        assert_eq!(
            ui::print_stats(color, 5, false, None, None, false, 0),
            format!(
                "{c}┌─────────────────────────────┐{r}\n\
                 {c}│{r} {b}Call Statistics{r}             {c}│{r}\n\
                 {c}├─────────────────────────────┤{r}\n\
                 {c}│{r}  Duration:  {b}00:05{r}           {c}│{r}\n\
                 {c}│{r}  Muted:     {green}no{r}{r}         {c}│{r}\n\
                 {c}│{r}  Sniffing:  {g}off{r} (0 msgs)    {c}│{r}\n\
                 {c}└─────────────────────────────┘{r}\n"
            )
        );
    }
}

#[test]
fn banner_and_headers_are_exact() {
    assert_eq!(ui::print_banner(false), "");
    for color in [false, true] {
        let Codes { b, r, cyan: c, grey: g, .. } = codes(color);
        if color {
            assert_eq!(
                ui::print_banner(color),
                format!(
                    "{c}{b}  ┌──────────────────────────────────────┐{r}\n\
                     {c}{b}  │  📞 sipr — SIP softphone for the CLI │{r}\n\
                     {c}{b}  └──────────────────────────────────────┘{r}\n"
                )
            );
        }
        let breakdown = [("INVITE".to_string(), 2), ("200 OK".to_string(), 1)];
        assert_eq!(
            ui::print_capture_summary(color, 3, 1, 2, 1, &breakdown),
            format!(
                "\n{c}{b}═══ Capture Summary ═══{r}\n\
                 {b}Total messages:{r} 3\n\
                 {b}Active calls:{r}   1\n\
                 {b}Requests:{r}       2\n\
                 {b}Responses:{r}      1\n\n\
                 {b}Breakdown:{r}\n\
                 \x20 {g}{:30}{r} {b}2{r}\n\
                 \x20 {g}{:30}{r} {b}1{r}\n",
                "INVITE", "200 OK"
            )
        );
        assert_eq!(
            ui::print_sniffer_header(color, &a(), true, Some("INVITE")),
            format!(
                "{c}╔════════════════════════════════════════════════════╗{r}\n\
                 {c}║{r}  {b}📡 siphone SIP Debugger / Sniffer{r}                {c}║{r}\n\
                 {c}╟────────────────────────────────────────────────────╢{r}\n\
                 {c}║{r}  Listening on: {b}10.0.0.1:5060{r}\n\
                 {c}║{r}  Mode:         {b}verbose (full headers){r}\n\
                 {c}║{r}  Filter:       {b}INVITE{r}\n\
                 {c}║{r}  {g}Press Ctrl+C to stop and show call flows{r}\n\
                 {c}╚════════════════════════════════════════════════════╝{r}\n\n"
            )
        );
        assert!(ui::print_sniffer_header(color, &a(), false, None)
            .contains(&format!("Mode:         {b}summary{r}\n{c}║{r}  {g}Press")));
    }
}
