use sipr::phone::commands::Command;
use sipr::phone::editor::{is_ctrl_char, EditAction, Key, KeyPress, LineEditor};

fn press(key: Key) -> KeyPress {
    KeyPress { key, control: false, released: false }
}

fn ctrl(ch: char) -> KeyPress {
    KeyPress { key: Key::Char(ch), control: true, released: false }
}

fn type_text(editor: &mut LineEditor, text: &str) {
    for ch in text.chars() {
        assert_eq!(editor.on_key(&press(Key::Char(ch))), vec![EditAction::Echo(ch)]);
    }
}

fn submitted(actions: &[EditAction]) -> Vec<String> {
    actions
        .iter()
        .filter_map(|a| match a {
            EditAction::Submit(s) => Some(s.clone()),
            _ => None,
        })
        .collect()
}

fn editor_with(history: &[&str]) -> LineEditor {
    LineEditor::new(history.iter().map(|s| s.to_string()).collect(), 5)
}

#[test]
fn entered_line_is_submitted_and_remembered() {
    let mut editor = editor_with(&[]);
    type_text(&mut editor, "mute");
    let actions = editor.on_key(&press(Key::Enter));
    assert_eq!(submitted(&actions), vec!["mute"]);
    assert!(actions.contains(&EditAction::Save));
    assert_eq!(editor.history(), &["mute".to_string()]);
}

#[test]
fn empty_line_submits_nothing() {
    let mut editor = editor_with(&[]);
    let actions = editor.on_key(&press(Key::Enter));
    assert!(submitted(&actions).is_empty());
    assert!(editor.history().is_empty());
}

#[test]
fn typed_character_is_taken_back() {
    let mut editor = editor_with(&[]);
    type_text(&mut editor, "ab");
    assert_eq!(
        editor.on_key(&press(Key::Backspace)),
        vec![EditAction::Redraw("a".to_string())]
    );
    assert_eq!(submitted(&editor.on_key(&press(Key::Enter))), vec!["a"]);
}

#[test]
fn up_and_down_walk_the_history() {
    let mut editor = editor_with(&["mute", "stats"]);
    assert_eq!(
        editor.on_key(&press(Key::Up)),
        vec![EditAction::Redraw("stats".to_string())]
    );
    assert_eq!(
        editor.on_key(&press(Key::Up)),
        vec![EditAction::Redraw("mute".to_string())]
    );
    assert_eq!(
        editor.on_key(&press(Key::Down)),
        vec![EditAction::Redraw("stats".to_string())]
    );
    assert_eq!(
        editor.on_key(&press(Key::Down)),
        vec![EditAction::Redraw(String::new())]
    );
}

#[test]
fn search_finds_older_and_older_entries() {
    let mut editor = editor_with(&["dtmf 1", "mute", "dtmf 2"]);
    editor.on_key(&ctrl('r'));
    let mut shown = editor.on_key(&press(Key::Char('d')));
    assert_eq!(
        shown,
        vec![EditAction::RedrawSearch { query: "d".to_string(), shown: "dtmf 2".to_string() }]
    );
    shown = editor.on_key(&ctrl('r'));
    assert_eq!(
        shown,
        vec![EditAction::RedrawSearch { query: "d".to_string(), shown: "dtmf 1".to_string() }]
    );
    assert_eq!(
        editor.on_key(&press(Key::Enter)),
        vec![EditAction::Redraw("dtmf 1".to_string())]
    );
    assert_eq!(submitted(&editor.on_key(&press(Key::Enter))), vec!["dtmf 1"]);
}

#[test]
fn search_can_be_left() {
    let mut editor = editor_with(&["dtmf 1"]);
    type_text(&mut editor, "mu");
    editor.on_key(&ctrl('r'));
    editor.on_key(&press(Key::Char('d')));
    assert_eq!(
        editor.on_key(&press(Key::Esc)),
        vec![EditAction::Redraw("mu".to_string())]
    );
}

#[test]
fn control_digit_is_a_speed_dial() {
    let mut editor = editor_with(&[]);
    assert_eq!(submitted(&editor.on_key(&ctrl('3'))), vec!["speed 3"]);
    assert_eq!(Command::parse("speed 3"), Some(Command::Speed(Some("3".to_string()))));
}

#[test]
fn released_keys_do_nothing() {
    let mut editor = editor_with(&[]);
    let released = KeyPress { key: Key::Char('a'), control: false, released: true };
    assert!(editor.on_key(&released).is_empty());
}

#[test]
fn control_characters_come_in_two_forms() {
    assert!(is_ctrl_char(&ctrl('C'), 'c', '\u{3}'));
    assert!(is_ctrl_char(&press(Key::Char('\u{3}')), 'c', '\u{3}'));
    assert!(!is_ctrl_char(&press(Key::Char('c')), 'c', '\u{3}'));
}

#[test]
fn commands_have_other_names() {
    assert_eq!(Command::parse("  "), None);
    assert_eq!(Command::parse("h"), Some(Command::Help));
    assert_eq!(Command::parse("REC out.wav"), Some(Command::Record(Some("out.wav".to_string()))));
    assert_eq!(Command::parse("record"), Some(Command::Record(None)));
    assert_eq!(Command::parse("stop"), Some(Command::Stop));
    assert_eq!(Command::parse("mute"), Some(Command::Mute));
    assert_eq!(Command::parse("unmute"), Some(Command::Unmute));
    assert_eq!(Command::parse("info"), Some(Command::Stats));
    assert_eq!(Command::parse("sniff"), Some(Command::Trace { verbose: false }));
    assert_eq!(Command::parse("trace VERBOSE"), Some(Command::Trace { verbose: true }));
    assert_eq!(Command::parse("sniff stop"), Some(Command::StopTrace));
    assert_eq!(Command::parse("ladder"), Some(Command::Flows));
    assert_eq!(Command::parse("dtmf 12#"), Some(Command::Keys(Some("12#".to_string()))));
    assert_eq!(Command::parse("dtmf-info 5"), Some(Command::InfoKeys(Some("5".to_string()))));
    assert_eq!(Command::parse("dtmf-send"), Some(Command::SendKeys));
    assert_eq!(Command::parse("dtmf-queue"), Some(Command::CountKeys));
    assert_eq!(Command::parse("hold"), Some(Command::Hold));
    assert_eq!(Command::parse("unhold"), Some(Command::Resume));
    assert_eq!(
        Command::parse("transfer sip:carol@example.com"),
        Some(Command::Transfer(Some("sip:carol@example.com".to_string())))
    );
    assert_eq!(Command::parse("speed 1"), Some(Command::Speed(Some("1".to_string()))));
    assert_eq!(Command::parse("q"), Some(Command::Hangup));
    assert_eq!(Command::parse("Dance now"), Some(Command::Unknown("Dance".to_string())));
}
