//! Key events, as the prompts read them.

use vstd::prelude::*;

verus! {

/// The key of a key event.
#[derive(Clone, Copy, Debug, PartialEq, Eq, Structural)]
pub enum KeyCode {
    Backspace,
    Enter,
    Left,
    Right,
    Up,
    Down,
    Home,
    End,
    Delete,
    Esc,
    Char(char),
    /// Any other key.
    Other,
}

/// The modifier keys held with a key, one bit each.
#[derive(Clone, Copy, Debug, PartialEq, Eq, Structural)]
pub struct KeyModifiers {
    pub bits: u8,
}

/// No modifier key.
pub const NONE: u8 = 0;

/// The shift key.
pub const SHIFT: u8 = 1;

/// The control key.
pub const CONTROL: u8 = 2;

/// The alt key.
pub const ALT: u8 = 4;

/// Whether a key went down, is held, or came up.
#[derive(Clone, Copy, Debug, PartialEq, Eq, Structural)]
pub enum KeyEventKind {
    Press,
    Repeat,
    Release,
}

/// One event of a key.
#[derive(Clone, Copy, Debug, PartialEq, Eq, Structural)]
pub struct KeyEvent {
    pub code: KeyCode,
    pub modifiers: KeyModifiers,
    pub kind: KeyEventKind,
}

/// An event of the terminal.
#[derive(Clone, Copy, Debug, PartialEq, Eq, Structural)]
pub enum Event {
    Key(KeyEvent),
    /// Anything that is no key: focus, mouse, paste, resize.
    Other,
}

/// A key with the modifier keys held.
pub type Key = (KeyCode, KeyModifiers);

/// The key of an event, if the event is a key going down.
pub open spec fn spec_read(event: Event) -> Option<Key> {
    match event {
        Event::Key(key) => if key.kind == KeyEventKind::Press {
            Some((key.code, key.modifiers))
        } else {
            None
        },
        Event::Other => None,
    }
}

/// Whether the key says to go on: enter, with any modifier.
pub open spec fn spec_is_continue(key: Key) -> bool {
    key.0 == KeyCode::Enter || key.0 == KeyCode::Char('\n')
}

/// Whether the key says to go back: control and `d`, or escape alone.
pub open spec fn spec_is_back(key: Key) -> bool {
    (key.0 == KeyCode::Char('d') && key.1.bits == CONTROL) || (key.0 == KeyCode::Esc && key.1.bits
        == NONE)
}

/// Whether the key says to quit: control and `c`, or escape with any
/// modifier.
pub open spec fn spec_is_quit(key: Key) -> bool {
    (key.0 == KeyCode::Char('c') && key.1.bits == CONTROL) || key.0 == KeyCode::Esc
}

/// The key of an event, if the event is a key going down.
#[inline]
#[must_use]
pub fn read(event: &Event) -> (r: Option<Key>)
    ensures
        r == spec_read(*event),
{
    match event {
        Event::Key(key) => match key.kind {
            KeyEventKind::Press => Some((key.code, key.modifiers)),
            _ => None,
        },
        Event::Other => None,
    }
}

/// Whether the key says to go on.
pub fn is_continue(key: &Key) -> (b: bool)
    ensures
        b == spec_is_continue(*key),
{
    match key.0 {
        KeyCode::Enter => true,
        KeyCode::Char(c) => c == '\n',
        _ => false,
    }
}

/// Whether the key says to go back.
pub fn is_back(key: &Key) -> (b: bool)
    ensures
        b == spec_is_back(*key),
{
    match key.0 {
        KeyCode::Char(c) => c == 'd' && key.1.bits == CONTROL,
        KeyCode::Esc => key.1.bits == NONE,
        _ => false,
    }
}

/// Whether the key says to quit.
pub fn is_quit(key: &Key) -> (b: bool)
    ensures
        b == spec_is_quit(*key),
{
    match key.0 {
        KeyCode::Char(c) => c == 'c' && key.1.bits == CONTROL,
        KeyCode::Esc => true,
        _ => false,
    }
}

} // verus!
