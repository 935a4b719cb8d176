//! The commands of the program, apart from calls: audio devices and codecs.
use crate::case::{lower, lower_text};
use crate::number::{dec, dec_usize, push_dec};
use crate::rtp::audio_device::{device_text, AudioConfig, AudioDeviceInfo, DeviceSelector, SelectorView};
use crate::rtp::codec::CodecType;
use crate::text::same_text;
use vstd::prelude::*;

verus! {

// ---------------------------------------------------------------------------
// Codecs
// ---------------------------------------------------------------------------

/// The codec that a name stands for, in any letter case.
pub open spec fn codec_named(s: Seq<char>) -> Option<CodecType> {
    let w = lower(s);
    if w == "pcmu"@ || w == "ulaw"@ || w == "g711u"@ {
        Some(CodecType::Pcmu)
    } else if w == "pcma"@ || w == "alaw"@ || w == "g711a"@ {
        Some(CodecType::Pcma)
    } else {
        None
    }
}

/// The codec that a name stands for, or what is wrong with the name.
pub fn parse_codec(s: &str) -> (r: Result<CodecType, String>)
    ensures
        match r {
            Ok(c) => codec_named(s@) == Some(c),
            Err(e) => codec_named(s@) is None && e@ == "Unknown codec '"@ + s@
                + "'. Supported: pcmu, pcma"@,
        },
{
    let low = lower_text(s);
    let w = low.as_str();
    if same_text(w, "pcmu") || same_text(w, "ulaw") || same_text(w, "g711u") {
        Ok(CodecType::Pcmu)
    } else if same_text(w, "pcma") || same_text(w, "alaw") || same_text(w, "g711a") {
        Ok(CodecType::Pcma)
    } else {
        let mut e = "Unknown codec '".to_owned();
        e.append(s);
        e.append("'. Supported: pcmu, pcma");
        Err(e)
    }
}

// ---------------------------------------------------------------------------
// Audio devices
// ---------------------------------------------------------------------------

/// A device, as it is listed.
pub open spec fn listed(d: AudioDeviceInfo) -> Seq<char> {
    device_text(d.name@, d.is_default, d.device_type, d.sample_rates@, d.channels@)
}

/// The devices, each with its index, on lines of their own.
pub open spec fn device_lines(ds: Seq<AudioDeviceInfo>) -> Seq<char>
    decreases ds.len(),
{
    if ds.len() == 0 {
        seq![]
    } else {
        device_lines(ds.drop_last()) + "  ["@ + dec((ds.len() - 1) as nat) + "] "@ + listed(
            ds.last(),
        ) + "\n"@
    }
}

/// The devices under a heading.
pub open spec fn device_section(title: Seq<char>, ds: Seq<AudioDeviceInfo>) -> Seq<char> {
    title + (if ds.len() == 0 {
        "  (none found)\n"@
    } else {
        device_lines(ds)
    })
}

fn push_devices(out: &mut String, title: &str, ds: &[AudioDeviceInfo])
    ensures
        final(out)@ == old(out)@ + device_section(title@, ds@),
{
    let n: usize = ds.len();
    let mut s = title.to_owned();
    if n == 0 {
        s.append("  (none found)\n");
        out.append(s.as_str());
        return;
    }
    let mut i: usize = 0;
    assert(ds@.take(0).len() == 0);
    assert(s@ =~= title@ + device_lines(ds@.take(0)));
    while i < n
        invariant
            n == ds@.len(),
            i <= n,
            s@ == title@ + device_lines(ds@.take(i as int)),
        decreases n - i,
    {
        assert(ds@.take(i + 1).drop_last() =~= ds@.take(i as int));
        assert(ds@.take(i + 1).last() == ds@[i as int]);
        s.append("  [");
        push_dec(&mut s, i as u64);
        s.append("] ");
        s.append(ds[i].to_string().as_str());
        s.append("\n");
        i = i + 1;
        assert(s@ =~= title@ + device_lines(ds@.take(i as int)));
    }
    assert(ds@.take(n as int) =~= ds@);
    out.append(s.as_str());
}

/// The audio devices, for people to read; `reason` says why there are none
/// where audio is not available.
pub fn devices_text(
    available: bool,
    reason: &str,
    inputs: &[AudioDeviceInfo],
    outputs: &[AudioDeviceInfo],
) -> (r: String)
    ensures
        r@ == (if available {
            device_section("=== Input Devices (Microphones) ===\n"@, inputs@) + device_section(
                "\n=== Output Devices (Speakers) ===\n"@,
                outputs@,
            ) + "\nUse --input-device / --output-device with 'call' or 'test-audio'.\n"@
                + "Values: \"default\", device index (e.g., \"0\"), or name substring.\n"@
        } else {
            "No audio devices available.\n"@ + reason@
                + "\n\nOn this system, siphone operates in RTP-only mode.\n"@
                + "Audio is encoded/decoded and sent/received via RTP,\n"@
                + "but no local microphone or speaker is used.\n"@
                + "\nTo enable audio device support, rebuild with:\n"@
                + "  cargo build --features audio-device\n"@
        }),
{
    if available {
        let mut s = String::new();
        push_devices(&mut s, "=== Input Devices (Microphones) ===\n", inputs);
        assert(s@ =~= device_section("=== Input Devices (Microphones) ===\n"@, inputs@));
        push_devices(&mut s, "\n=== Output Devices (Speakers) ===\n", outputs);
        s.append("\nUse --input-device / --output-device with 'call' or 'test-audio'.\n");
        s.append("Values: \"default\", device index (e.g., \"0\"), or name substring.\n");
        s
    } else {
        let mut s = "No audio devices available.\n".to_owned();
        s.append(reason);
        s.append("\n\nOn this system, siphone operates in RTP-only mode.\n");
        s.append("Audio is encoded/decoded and sent/received via RTP,\n");
        s.append("but no local microphone or speaker is used.\n");
        s.append("\nTo enable audio device support, rebuild with:\n");
        s.append("  cargo build --features audio-device\n");
        s
    }
}

// ---------------------------------------------------------------------------
// Audio tests
// ---------------------------------------------------------------------------

/// A step of a test of the audio devices.
#[derive(Debug, PartialEq, Eq)]
pub enum TestStep {
    /// Tell the user.
    Say(String),
    /// Play a tone: so many frames, each of so many samples and milliseconds.
    PlayTone { frames: u64, samples: usize, frame_ms: u64 },
    /// Write a tone of so many milliseconds to the file.
    SaveTone { ms: u32 },
    /// Record for so many seconds, and write the file.
    Capture { secs: u64 },
    /// Play what is heard, for so many seconds.
    Loopback { secs: u64 },
}

pub enum TestView {
    Say(Seq<char>),
    PlayTone { frames: nat, samples: nat, frame_ms: nat },
    SaveTone { ms: u32 },
    Capture { secs: nat },
    Loopback { secs: nat },
}

impl View for TestStep {
    type V = TestView;

    open spec fn view(&self) -> TestView {
        match *self {
            TestStep::Say(s) => TestView::Say(s@),
            TestStep::PlayTone { frames, samples, frame_ms } => TestView::PlayTone {
                frames: frames as nat,
                samples: samples as nat,
                frame_ms: frame_ms as nat,
            },
            TestStep::SaveTone { ms } => TestView::SaveTone { ms },
            TestStep::Capture { secs } => TestView::Capture { secs: secs as nat },
            TestStep::Loopback { secs } => TestView::Loopback { secs: secs as nat },
        }
    }
}

/// The steps, as values.
pub open spec fn test_views(v: Seq<TestStep>) -> Seq<TestView> {
    Seq::new(v.len(), |i: int| v[i]@)
}

/// A device selector for people to read.
pub open spec fn device_choice(arg: Seq<char>) -> Seq<char> {
    SelectorView::of_arg(arg).text()
}

/// The steps of a test. `frequency` is that of the tone, as text, and `reason`
/// says why audio is not available where it is not. A tone is played, or written
/// to a file where it cannot be played; the other modes need devices.
pub open spec fn test_steps(
    mode: Seq<char>,
    available: bool,
    reason: Seq<char>,
    input: Seq<char>,
    output: Seq<char>,
    duration: nat,
    frequency: Seq<char>,
) -> Seq<TestView> {
    if mode == "tone"@ {
        let begin = TestView::Say(
            "Generating "@ + frequency + "Hz test tone for "@ + dec(duration) + "s at "@ + dec(
                8000,
            ) + "Hz sample rate..."@,
        );
        if available {
            seq![
                begin,
                TestView::PlayTone { frames: duration * 1000 / 20, samples: 160, frame_ms: 20 },
                TestView::Say("Tone playback complete."@),
            ]
        } else {
            seq![
                begin,
                TestView::Say("No audio device available. Saving tone to WAV file instead."@),
                TestView::SaveTone { ms: (duration * 1000) as u32 },
            ]
        }
    } else if mode == "capture"@ {
        if available {
            seq![
                TestView::Say(
                    "Capturing from "@ + device_choice(input) + " for "@ + dec(duration) + "s..."@,
                ),
                TestView::Capture { secs: duration },
            ]
        } else {
            seq![
                TestView::Say("Cannot capture: no audio devices available."@),
                TestView::Say(reason),
            ]
        }
    } else if mode == "loopback"@ {
        if available {
            seq![
                TestView::Say(
                    "Loopback: "@ + device_choice(input) + " -> "@ + device_choice(output)
                        + " for "@ + dec(duration) + "s (Ctrl+C to stop)..."@,
                ),
                TestView::Loopback { secs: duration },
            ]
        } else {
            seq![
                TestView::Say("Cannot run loopback: no audio devices available."@),
                TestView::Say(reason),
            ]
        }
    } else {
        seq![
            TestView::Say(
                "Unknown test mode '"@ + mode + "'. Use: tone, capture, or loopback"@,
            ),
        ]
    }
}

fn put(out: &mut Vec<TestStep>, t: TestStep)
    ensures
        test_views(final(out)@) == test_views(old(out)@).push(t@),
{
    out.push(t);
    assert(test_views(out@) =~= test_views(old(out)@).push(t@));
}

fn put_line(out: &mut Vec<TestStep>, text: &str)
    ensures
        test_views(final(out)@) == test_views(old(out)@).push(TestView::Say(text@)),
{
    put(out, TestStep::Say(text.to_owned()));
}

fn tone_steps(available: bool, duration: u64, frequency: &str, out: &mut Vec<TestStep>)
    requires
        duration * 1000 <= u64::MAX,
    ensures
        test_views(final(out)@) == test_views(old(out)@) + test_steps(
            "tone"@,
            available,
            seq![],
            seq![],
            seq![],
            duration as nat,
            frequency@,
        ),
{
    let config = AudioConfig::telephony();
    let mut s = "Generating ".to_owned();
    s.append(frequency);
    s.append("Hz test tone for ");
    push_dec(&mut s, duration);
    s.append("s at ");
    push_dec(&mut s, config.sample_rate as u64);
    s.append("Hz sample rate...");
    put(out, TestStep::Say(s));
    if available {
        let frame_ms: u64 = config.frame_size_ms as u64;
        put(
            out,
            TestStep::PlayTone {
                frames: (duration * 1000) / frame_ms,
                samples: config.samples_per_frame(),
                frame_ms,
            },
        );
        put_line(out, "Tone playback complete.");
    } else {
        put_line(out, "No audio device available. Saving tone to WAV file instead.");
        put(out, TestStep::SaveTone { ms: (duration * 1000) as u32 });
    }
    assert(test_views(out@) =~= test_views(old(out)@) + test_steps(
        "tone"@,
        available,
        seq![],
        seq![],
        seq![],
        duration as nat,
        frequency@,
    ));
}

/// The steps of a test of the audio devices.
pub fn test_audio(
    mode: &str,
    available: bool,
    reason: &str,
    input: &str,
    output: &str,
    duration: u64,
    frequency: &str,
) -> (r: Vec<TestStep>)
    requires
        mode@ == "tone"@ ==> duration * 1000 <= u64::MAX,
    ensures
        test_views(r@) == test_steps(
            mode@,
            available,
            reason@,
            input@,
            output@,
            duration as nat,
            frequency@,
        ),
{
    let mut out: Vec<TestStep> = Vec::new();
    assert(test_views(out@) =~= seq![]);
    if same_text(mode, "tone") {
        tone_steps(available, duration, frequency, &mut out);
    } else if same_text(mode, "capture") {
        if available {
            let mut s = "Capturing from ".to_owned();
            s.append(DeviceSelector::from_arg(input).to_string().as_str());
            s.append(" for ");
            push_dec(&mut s, duration);
            s.append("s...");
            put(&mut out, TestStep::Say(s));
            put(&mut out, TestStep::Capture { secs: duration });
        } else {
            put_line(&mut out, "Cannot capture: no audio devices available.");
            put_line(&mut out, reason);
        }
    } else if same_text(mode, "loopback") {
        if available {
            let mut s = "Loopback: ".to_owned();
            s.append(DeviceSelector::from_arg(input).to_string().as_str());
            s.append(" -> ");
            s.append(DeviceSelector::from_arg(output).to_string().as_str());
            s.append(" for ");
            push_dec(&mut s, duration);
            s.append("s (Ctrl+C to stop)...");
            put(&mut out, TestStep::Say(s));
            put(&mut out, TestStep::Loopback { secs: duration });
        } else {
            put_line(&mut out, "Cannot run loopback: no audio devices available.");
            put_line(&mut out, reason);
        }
    } else {
        let mut s = "Unknown test mode '".to_owned();
        s.append(mode);
        s.append("'. Use: tone, capture, or loopback");
        put(&mut out, TestStep::Say(s));
    }
    assert(test_views(out@) =~= test_steps(
        mode@,
        available,
        reason@,
        input@,
        output@,
        duration as nat,
        frequency@,
    ));
    out
}

/// What is said of a tone that was written to a file.
pub fn tone_saved(duration: u64, file: &str, samples: usize) -> (r: String)
    ensures
        r@ == "Saved "@ + dec(duration as nat) + "s tone to "@ + file@ + " ("@ + dec(
            samples as nat,
        ) + " samples)"@,
{
    let mut s = "Saved ".to_owned();
    push_dec(&mut s, duration);
    s.append("s tone to ");
    s.append(file);
    s.append(" (");
    s.append(dec_usize(samples).as_str());
    s.append(" samples)");
    s
}

/// What is said of a recording that was written to a file; `secs` is how long
/// it is, as text.
pub fn capture_saved(frames: usize, secs: &str, file: &str) -> (r: String)
    ensures
        r@ == "Captured "@ + dec(frames as nat) + " frames ("@ + secs@ + "s) to "@ + file@,
{
    let mut s = "Captured ".to_owned();
    push_dec(&mut s, frames as u64);
    s.append(" frames (");
    s.append(secs);
    s.append("s) to ");
    s.append(file);
    s
}

/// What is said when a loopback is over.
pub fn loopback_done(frames: u64) -> (r: String)
    ensures
        r@ == "Loopback complete. "@ + dec(frames as nat) + " frames processed."@,
{
    let mut s = "Loopback complete. ".to_owned();
    push_dec(&mut s, frames);
    s.append(" frames processed.");
    s
}

/// What is said of the recording of a call that was written to a file.
pub fn recording_saved(file: &str, secs: &str, frames: usize) -> (r: String)
    ensures
        r@ == "Saved recording to "@ + file@ + " ("@ + secs@ + "s, "@ + dec(frames as nat)
            + " frames)"@,
{
    let mut s = "Saved recording to ".to_owned();
    s.append(file);
    s.append(" (");
    s.append(secs);
    s.append("s, ");
    push_dec(&mut s, frames as u64);
    s.append(" frames)");
    s
}

} // verus!
