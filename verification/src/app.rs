//! The keyboard as a control surface: which key plays which note, and which
//! command a key event becomes.

use crate::nodes::Wave;
use crate::synth::SynthCommand;
use vstd::prelude::*;

verus! {

/// The keys that the synthesizer tells apart.
#[derive(Debug, Clone, Copy, PartialEq, Eq)]
pub enum Key {
    Esc,
    Char(char),
    Up,
    Down,
    Left,
    Right,
    Other,
}

/// What happened to a key.
#[derive(Debug, Clone, Copy, PartialEq, Eq)]
pub enum KeyKind {
    Press,
    Release,
    Repeat,
}

/// The state of the program around the synthesizer.
pub struct App {
    exit: bool,
}

/// The number of the note that a character key plays: the home row and the
/// row above it laid out like a piano, thirteen semitones from `a` to `k`.
pub open spec fn spec_note_for(c: char) -> Option<usize> {
    if c == 'a' {
        Some(1usize)
    } else if c == 'w' {
        Some(2usize)
    } else if c == 's' {
        Some(3usize)
    } else if c == 'd' {
        Some(4usize)
    } else if c == 'r' {
        Some(5usize)
    } else if c == 'f' {
        Some(6usize)
    } else if c == 't' {
        Some(7usize)
    } else if c == 'g' {
        Some(8usize)
    } else if c == 'h' {
        Some(9usize)
    } else if c == 'u' {
        Some(10usize)
    } else if c == 'j' {
        Some(11usize)
    } else if c == 'i' {
        Some(12usize)
    } else if c == 'k' {
        Some(13usize)
    } else {
        None
    }
}

/// The waveform that an arrow key selects.
pub open spec fn spec_wave_for(key: Key) -> Option<Wave> {
    match key {
        Key::Up => Some(Wave::Sine),
        Key::Down => Some(Wave::Saw),
        Key::Left => Some(Wave::Square),
        Key::Right => Some(Wave::Triangle),
        _ => None,
    }
}

/// The command that a key event becomes: a note for a character key that
/// plays one, a waveform for an arrow key, and nothing for any other key or
/// for an event that is neither a press nor a release.
pub open spec fn spec_command(key: Key, kind: KeyKind) -> Option<SynthCommand> {
    if kind is Repeat {
        None
    } else {
        match key {
            Key::Char(c) => match spec_note_for(c) {
                Some(note) => Some(SynthCommand::Note(note, kind is Press)),
                None => None,
            },
            _ => match spec_wave_for(key) {
                Some(wave) => Some(SynthCommand::Wave(wave)),
                None => None,
            },
        }
    }
}

/// The number of the note that a character key plays.
pub fn note_for(c: char) -> (r: Option<usize>)
    ensures
        r == spec_note_for(c),
{
    if c == 'a' {
        Some(1)
    } else if c == 'w' {
        Some(2)
    } else if c == 's' {
        Some(3)
    } else if c == 'd' {
        Some(4)
    } else if c == 'r' {
        Some(5)
    } else if c == 'f' {
        Some(6)
    } else if c == 't' {
        Some(7)
    } else if c == 'g' {
        Some(8)
    } else if c == 'h' {
        Some(9)
    } else if c == 'u' {
        Some(10)
    } else if c == 'j' {
        Some(11)
    } else if c == 'i' {
        Some(12)
    } else if c == 'k' {
        Some(13)
    } else {
        None
    }
}

impl App {
    /// Whether the user has asked to leave.
    pub closed spec fn exit_requested(&self) -> bool {
        self.exit
    }

    /// The program at its start.
    pub fn new() -> (r: Self)
        ensures
            !r.exit_requested(),
    {
        let app = App { exit: false };
        app
    }

    /// Whether the user has asked to leave.
    pub fn exit(&self) -> (r: bool)
        ensures
            r == self.exit_requested(),
    {
        self.exit
    }

    /// Takes one key event: the escape key asks to leave, and every other key
    /// is turned into the command to send to the synthesizer, if it has one.
    pub fn handle_key(&mut self, key: Key, kind: KeyKind) -> (r: Option<SynthCommand>)
        ensures
            final(self).exit_requested() == (old(self).exit_requested() || key is Esc),
            r == spec_command(key, kind),
    {
        let pressed = match kind {
            KeyKind::Press => true,
            KeyKind::Release => false,
            KeyKind::Repeat => {
                if let Key::Esc = key {
                    self.exit = true;
                }
                return None;
            },
        };
        match key {
            Key::Esc => {
                self.exit = true;
                None
            },
            Key::Char(c) => match note_for(c) {
                Some(note) => Some(SynthCommand::Note(note, pressed)),
                None => None,
            },
            Key::Up => Some(SynthCommand::Wave(Wave::Sine)),
            Key::Down => Some(SynthCommand::Wave(Wave::Saw)),
            Key::Left => Some(SynthCommand::Wave(Wave::Square)),
            Key::Right => Some(SynthCommand::Wave(Wave::Triangle)),
            Key::Other => None,
        }
    }
}

} // verus!
