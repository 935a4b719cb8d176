use sipr::rtp::audio_device::{
    audio_unavailable_reason, is_audio_available, list_devices, list_input_devices,
    list_output_devices, AudioConfig, AudioDeviceInfo, DeviceSelector, DeviceType,
};

#[test]
fn test_device_type_display() {
    assert_eq!(DeviceType::Input.to_string(), "input");
    assert_eq!(DeviceType::Output.to_string(), "output");
}

#[test]
fn test_device_selector_from_arg() {
    assert!(matches!(DeviceSelector::from_arg("default"), DeviceSelector::Default));
    assert!(matches!(DeviceSelector::from_arg("0"), DeviceSelector::ByIndex(0)));
    assert!(matches!(DeviceSelector::from_arg("2"), DeviceSelector::ByIndex(2)));
    assert!(matches!(DeviceSelector::from_arg("My Mic"), DeviceSelector::ByName(ref s) if s == "My Mic"));
}

#[test]
fn test_device_selector_display() {
    assert_eq!(DeviceSelector::Default.to_string(), "default");
    assert_eq!(DeviceSelector::ByIndex(3).to_string(), "#3");
    assert_eq!(DeviceSelector::ByName("USB Mic".into()).to_string(), "\"USB Mic\"");
}

#[test]
fn test_audio_config_telephony() {
    let cfg = AudioConfig::telephony();
    assert_eq!(cfg.sample_rate, 8000);
    assert_eq!(cfg.channels, 1);
    assert_eq!(cfg.frame_size_ms, 20);
    assert_eq!(cfg.samples_per_frame(), 160);
}

#[test]
fn test_audio_config_default() {
    let cfg = AudioConfig::default();
    assert_eq!(cfg.sample_rate, 8000);
}

#[test]
fn test_audio_device_info_display() {
    let info = AudioDeviceInfo {
        name: "Test Mic".to_string(),
        device_type: DeviceType::Input,
        sample_rates: vec![8000, 44100, 48000],
        channels: vec![1, 2],
        is_default: true,
    };
    let s = info.to_string();
    assert!(s.contains("Test Mic"));
    assert!(s.contains("(default)"));
    assert!(s.contains("input"));
    assert!(s.contains("8000Hz"));
}

#[test]
fn test_audio_device_info_non_default() {
    let info = AudioDeviceInfo {
        name: "HDMI Output".to_string(),
        device_type: DeviceType::Output,
        sample_rates: vec![48000],
        channels: vec![2],
        is_default: false,
    };
    let s = info.to_string();
    assert!(!s.contains("(default)"));
    assert!(s.contains("output"));
}

#[test]
fn test_stub_no_devices() {
    assert_eq!(list_devices().len(), 0);
    assert_eq!(list_input_devices().len(), 0);
    assert_eq!(list_output_devices().len(), 0);
    assert!(!is_audio_available());
    assert!(audio_unavailable_reason().contains("audio-device"));
}
