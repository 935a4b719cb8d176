use sipr::phone::cli::{
    capture_saved, devices_text, loopback_done, parse_codec, recording_saved, test_audio,
    tone_saved, TestStep,
};
use sipr::phone::config::{is_slot_name, ConfigFile, SiprConfig, SpeedDials};
use sipr::rtp::audio_device::{AudioDeviceInfo, DeviceType};
use sipr::rtp::codec::CodecType;

#[test]
fn test_default_config() {
    let cfg = SiprConfig::default();
    assert!(cfg.user.is_none());
    assert!(cfg.server.is_none());
    assert!(cfg.codec.is_none());
    assert!(cfg.port.is_none());
}

#[test]
fn first_readable_file_decides() {
    let settings = |user: &str| {
        let mut cfg = SiprConfig::default();
        cfg.user = Some(user.to_string());
        ConfigFile::Settings(cfg)
    };
    let cfg = SiprConfig::load(vec![ConfigFile::Missing, settings("a"), settings("b")]);
    assert_eq!(cfg.user.as_deref(), Some("a"));
    let cfg = SiprConfig::load(vec![ConfigFile::Unreadable, settings("b")]);
    assert_eq!(cfg.user.as_deref(), Some("b"));
    // A file that cannot be understood leaves the defaults.
    let cfg = SiprConfig::load(vec![ConfigFile::Invalid, settings("b")]);
    assert_eq!(cfg.user, None);
    assert_eq!(SiprConfig::load(vec![]).user, None);
}

#[test]
fn template_shows_common_settings() {
    let cfg = SiprConfig::template();
    assert_eq!(cfg.max_history, Some(1000));
    assert_eq!(cfg.codec, Some(CodecType::Pcmu));
    assert_eq!(cfg.port, Some(0));
    assert_eq!(cfg.no_color, Some(false));
    assert_eq!(cfg.sniff, Some(false));
    assert_eq!(cfg.speed_dial("1").as_deref(), Some("sip:alice@example.com"));
    assert_eq!(cfg.speed_dial("2").as_deref(), Some("sip:bob@example.com"));
}

#[test]
fn history_has_a_default_limit() {
    let mut cfg = SiprConfig::default();
    assert_eq!(cfg.history_limit(), 1000);
    cfg.max_history = Some(321);
    assert_eq!(cfg.history_limit(), 321);
}

#[test]
fn speed_dials_are_set_read_and_removed() {
    let mut cfg = SiprConfig::default();
    assert_eq!(cfg.speed_dial("1"), None);
    assert!(!cfg.remove_speed_dial("1"));
    assert!(!cfg.set_speed_dial("10", "sip:bob@example.com"));
    assert!(cfg.speed_dials.is_none());
    assert!(cfg.set_speed_dial("2", "sip:bob@example.com"));
    assert!(cfg.set_speed_dial("1", "sip:alice@example.com"));
    assert!(cfg.set_speed_dial("1", "sip:carol@example.com"));
    assert_eq!(cfg.speed_dial("1").as_deref(), Some("sip:carol@example.com"));
    assert_eq!(cfg.call_target("2"), "sip:bob@example.com");
    assert_eq!(cfg.call_target("3"), "3");
    assert_eq!(cfg.call_target("sip:x@y"), "sip:x@y");
    assert!(cfg.remove_speed_dial("2"));
    assert_eq!(cfg.speed_dial("2"), None);
    assert_eq!(cfg.speed_dial("1").as_deref(), Some("sip:carol@example.com"));
}

#[test]
fn speed_dials_are_kept_in_order() {
    let mut dials = SpeedDials::new();
    for slot in ["9", "1", "5"] {
        dials.set(slot, &format!("sip:{slot}@h"));
    }
    let slots: Vec<String> = (0..dials.len()).map(|i| dials.entry(i).0.to_string()).collect();
    assert_eq!(slots, vec!["1", "5", "9"]);
    assert_eq!(dials.get("5"), Some("sip:5@h"));
    assert!(dials.remove("5"));
    assert!(!dials.remove("5"));
    assert_eq!(dials.len(), 2);
    assert!(is_slot_name("0") && is_slot_name("9"));
    assert!(!is_slot_name("10") && !is_slot_name("a") && !is_slot_name(""));
}

#[test]
fn codecs_are_named_in_several_ways() {
    assert_eq!(parse_codec("PCMU"), Ok(CodecType::Pcmu));
    assert_eq!(parse_codec("alaw"), Ok(CodecType::Pcma));
    assert_eq!(parse_codec("G711A"), Ok(CodecType::Pcma));
    let err = parse_codec("g729").unwrap_err();
    assert!(err.contains("g729"), "{err}");
}

#[test]
fn devices_are_listed() {
    let mic = AudioDeviceInfo {
        name: "Mic".to_string(),
        device_type: DeviceType::Input,
        sample_rates: vec![8000],
        channels: vec![1],
        is_default: true,
    };
    let text = devices_text(true, "", &[mic], &[]);
    assert!(text.contains("Mic"), "{text}");
    let text = devices_text(false, "no sound here", &[], &[]);
    assert!(text.contains("no sound here"), "{text}");
}

#[test]
fn audio_tests_have_their_steps() {
    let steps = test_audio("tone", true, "", "default", "default", 2, "440");
    let tone = steps.iter().find_map(|s| match s {
        TestStep::PlayTone { frames, samples, frame_ms } => Some((*frames, *samples, *frame_ms)),
        _ => None,
    });
    assert_eq!(tone, Some((100, 160, 20)));
    let steps = test_audio("tone", false, "why", "default", "default", 2, "440");
    assert!(steps.contains(&TestStep::SaveTone { ms: 2000 }));
    let steps = test_audio("capture", true, "", "2", "default", 3, "440");
    assert_eq!(
        steps,
        vec![
            TestStep::Say("Capturing from #2 for 3s...".to_string()),
            TestStep::Capture { secs: 3 },
        ]
    );
    let steps = test_audio("capture", false, "why", "default", "default", 3, "440");
    assert_eq!(steps[1], TestStep::Say("why".to_string()));
    let steps = test_audio("loopback", true, "", "default", "default", 4, "440");
    assert!(steps.contains(&TestStep::Loopback { secs: 4 }));
    let steps = test_audio("capture", true, "", "default", "default", u64::MAX, "440");
    assert_eq!(steps[1], TestStep::Capture { secs: u64::MAX });
    let steps = test_audio("shout", true, "", "default", "default", 4, "440");
    assert_eq!(
        steps,
        vec![TestStep::Say(
            "Unknown test mode 'shout'. Use: tone, capture, or loopback".to_string()
        )]
    );
    assert!(tone_saved(2, "f.wav", 16000).contains("f.wav"));
    assert!(capture_saved(5, "0.1", "f.wav").contains("f.wav"));
    assert!(loopback_done(7).contains('7'));
    assert!(recording_saved("f.wav", "0.1", 5).contains("f.wav"));
}

#[test]
fn file_settles_which_settings_hold() {
    assert!(!ConfigFile::Missing.decides());
    assert!(!ConfigFile::Unreadable.decides());
    assert!(ConfigFile::Invalid.decides());
    assert!(ConfigFile::Settings(SiprConfig::template()).decides());
}
