use keysynth::app::{note_for, App, Key, KeyKind};
use keysynth::nodes::Wave;
use keysynth::synth::SynthCommand;

#[test]
fn character_keys_play_thirteen_semitones() {
    let keys = ['a', 'w', 's', 'd', 'r', 'f', 't', 'g', 'h', 'u', 'j', 'i', 'k'];
    for (index, key) in keys.iter().enumerate() {
        assert_eq!(note_for(*key), Some(index + 1));
    }
}

#[test]
fn other_characters_play_nothing() {
    for key in ['b', 'z', 'A', 'K', '1', ' ', 'e', 'l', '\n'] {
        assert_eq!(note_for(key), None);
    }
}

#[test]
fn new_app_has_not_been_asked_to_leave() {
    assert!(!App::new().exit());
}

#[test]
fn press_and_release_of_a_note_key_become_note_commands() {
    let mut app = App::new();
    assert_eq!(app.handle_key(Key::Char('a'), KeyKind::Press), Some(SynthCommand::Note(1, true)));
    assert_eq!(app.handle_key(Key::Char('a'), KeyKind::Release), Some(SynthCommand::Note(1, false)));
    assert_eq!(app.handle_key(Key::Char('k'), KeyKind::Press), Some(SynthCommand::Note(13, true)));
    assert_eq!(app.handle_key(Key::Char('r'), KeyKind::Release), Some(SynthCommand::Note(5, false)));
    assert!(!app.exit());
}

#[test]
fn arrow_keys_select_the_waveform() {
    let mut app = App::new();
    assert_eq!(app.handle_key(Key::Up, KeyKind::Press), Some(SynthCommand::Wave(Wave::Sine)));
    assert_eq!(app.handle_key(Key::Down, KeyKind::Press), Some(SynthCommand::Wave(Wave::Saw)));
    assert_eq!(app.handle_key(Key::Left, KeyKind::Press), Some(SynthCommand::Wave(Wave::Square)));
    assert_eq!(app.handle_key(Key::Right, KeyKind::Press), Some(SynthCommand::Wave(Wave::Triangle)));
    assert_eq!(app.handle_key(Key::Down, KeyKind::Release), Some(SynthCommand::Wave(Wave::Saw)));
    assert!(!app.exit());
}

#[test]
fn repeated_keys_send_nothing() {
    let mut app = App::new();
    assert_eq!(app.handle_key(Key::Char('a'), KeyKind::Repeat), None);
    assert_eq!(app.handle_key(Key::Up, KeyKind::Repeat), None);
    assert_eq!(app.handle_key(Key::Other, KeyKind::Repeat), None);
    assert!(!app.exit());
}

#[test]
fn keys_without_a_meaning_send_nothing() {
    let mut app = App::new();
    assert_eq!(app.handle_key(Key::Other, KeyKind::Press), None);
    assert_eq!(app.handle_key(Key::Other, KeyKind::Release), None);
    assert_eq!(app.handle_key(Key::Char('x'), KeyKind::Press), None);
    assert!(!app.exit());
}

#[test]
fn escape_asks_to_leave_and_sends_nothing() {
    for kind in [KeyKind::Press, KeyKind::Release, KeyKind::Repeat] {
        let mut app = App::new();
        assert_eq!(app.handle_key(Key::Esc, kind), None);
        assert!(app.exit());
        assert_eq!(app.handle_key(Key::Char('a'), KeyKind::Press), Some(SynthCommand::Note(1, true)));
        assert!(app.exit());
    }
}
