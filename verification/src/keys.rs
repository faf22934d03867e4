//! Keys as the client understands them, and the events of its input loop.

use vstd::prelude::*;

verus! {

/// A key press.
#[derive(Debug, Clone, Copy, PartialEq, Eq, Structural)]
pub enum Key {
    Char(char),
    Enter,
    Esc,
    Backspace,
    Up,
    Down,
    Left,
    Right,
    Tab,
    BackTab,
    Ctrl(char),
    Unknown,
}

/// What the input loop hands on: a key, a tick of the clock, or a resize of the terminal.
#[derive(Debug, Clone, Copy, PartialEq, Eq, Structural)]
pub enum Event {
    Key(Key),
    Tick,
    Resize,
}

/// How a terminal key code maps onto a [`Key`]: a character pressed with Control held is
/// `Ctrl`, any other character is `Char`; codes the client has no use for are `Unknown`.
#[derive(Debug, Clone, Copy, PartialEq, Eq, Structural)]
pub enum KeyCode {
    Char(char),
    Enter,
    Esc,
    Backspace,
    Up,
    Down,
    Left,
    Right,
    Tab,
    BackTab,
    Other,
}

pub open spec fn spec_key_from(code: KeyCode, control: bool) -> Key {
    match code {
        KeyCode::Char(c) => if control {
            Key::Ctrl(c)
        } else {
            Key::Char(c)
        },
        KeyCode::Enter => Key::Enter,
        KeyCode::Esc => Key::Esc,
        KeyCode::Backspace => Key::Backspace,
        KeyCode::Up => Key::Up,
        KeyCode::Down => Key::Down,
        KeyCode::Left => Key::Left,
        KeyCode::Right => Key::Right,
        KeyCode::Tab => Key::Tab,
        KeyCode::BackTab => Key::BackTab,
        KeyCode::Other => Key::Unknown,
    }
}

impl Key {
    /// The key for a terminal key code, with `control` telling whether Control was held.
    pub fn from_code(code: KeyCode, control: bool) -> (r: Key)
        ensures
            r == spec_key_from(code, control),
    {
        match code {
            KeyCode::Char(c) => if control {
                Key::Ctrl(c)
            } else {
                Key::Char(c)
            },
            KeyCode::Enter => Key::Enter,
            KeyCode::Esc => Key::Esc,
            KeyCode::Backspace => Key::Backspace,
            KeyCode::Up => Key::Up,
            KeyCode::Down => Key::Down,
            KeyCode::Left => Key::Left,
            KeyCode::Right => Key::Right,
            KeyCode::Tab => Key::Tab,
            KeyCode::BackTab => Key::BackTab,
            KeyCode::Other => Key::Unknown,
        }
    }
}

} // verus!
