//! Keyboard event normalization.

use vstd::prelude::*;

verus! {

/// A key, as far as the interface tells keys apart.
#[derive(Debug, Clone, Copy, PartialEq, Eq, Structural)]
pub enum Key {
    Up,
    Down,
    Left,
    Right,
    Enter,
    Esc,
    Backspace,
    Tab,
    Char(char),
    Other,
}

/// A key press, and whether Control was held.
#[derive(Debug, Clone, Copy, PartialEq, Eq, Structural)]
pub struct KeyPress {
    pub key: Key,
    pub control: bool,
}

/// A high-level input event consumed by the TUI loop.
#[derive(Debug, Clone, Copy, PartialEq, Eq, Structural)]
pub enum InputEvent {
    /// Move selection up.
    Up,
    /// Move selection down.
    Down,
    /// Move focus left.
    Left,
    /// Move focus right.
    Right,
    /// Confirm the current selection / field.
    Select,
    /// Quit the TUI.
    Quit,
    /// Delete the character before the cursor.
    Backspace,
    /// Switch to the next field (form mode).
    Tab,
    /// A printable character.
    Char(char),
    /// Any other, unhandled key.
    Other,
}

impl From<KeyPress> for InputEvent {
    fn from(k: KeyPress) -> (r: Self) {
        match k.key {
            Key::Up => InputEvent::Up,
            Key::Down => InputEvent::Down,
            Key::Left => InputEvent::Left,
            Key::Right => InputEvent::Right,
            Key::Enter => InputEvent::Select,
            Key::Esc => InputEvent::Quit,
            Key::Backspace => InputEvent::Backspace,
            Key::Tab => InputEvent::Tab,
            Key::Char(c) => {
                if c == 'c' && k.control {
                    InputEvent::Quit
                } else {
                    InputEvent::Char(c)
                }
            },
            Key::Other => InputEvent::Other,
        }
    }
}

impl vstd::std_specs::convert::FromSpecImpl<KeyPress> for InputEvent {
    open spec fn obeys_from_spec() -> bool {
        true
    }

    open spec fn from_spec(k: KeyPress) -> InputEvent {
        match k.key {
            Key::Up => InputEvent::Up,
            Key::Down => InputEvent::Down,
            Key::Left => InputEvent::Left,
            Key::Right => InputEvent::Right,
            Key::Enter => InputEvent::Select,
            Key::Esc => InputEvent::Quit,
            Key::Backspace => InputEvent::Backspace,
            Key::Tab => InputEvent::Tab,
            Key::Char(c) => if c == 'c' && k.control {
                InputEvent::Quit
            } else {
                InputEvent::Char(c)
            },
            Key::Other => InputEvent::Other,
        }
    }
}

/// Escape and Control-C quit, Enter selects, and a character that is typed is
/// what it is; nothing else quits or selects.
pub proof fn law_keys_mean_what_they_say(k: KeyPress, c: char)
    ensures
        ({
            let event = <InputEvent as vstd::std_specs::convert::FromSpec<KeyPress>>::from_spec(k);
            &&& event is Quit <==> k.key is Esc || (k.key == Key::Char('c') && k.control)
            &&& event is Select <==> k.key is Enter
            &&& event is Up <==> k.key is Up
            &&& event is Down <==> k.key is Down
            &&& event is Left <==> k.key is Left
            &&& event is Right <==> k.key is Right
            &&& event is Tab <==> k.key is Tab
            &&& event is Backspace <==> k.key is Backspace
            &&& event is Other <==> k.key is Other
            &&& event == InputEvent::Char(c) <==> k.key == Key::Char(c) && !(c == 'c' && k.control)
        }),
{
}

} // verus!
