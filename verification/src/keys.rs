//! Terminal input events in the form the interactive components read them.
use vstd::prelude::*;

verus! {

/// The key of a key press.
#[derive(Clone, Copy, Debug, PartialEq, Eq, Structural)]
pub enum KeyCode {
    Char(char),
    Enter,
    Esc,
    Backspace,
    Up,
    Down,
    Left,
    Right,
    Tab,
    Other,
}

/// A key press: the key, whether Control was held, and whether it is an
/// auto-repeat of a held key.
#[derive(Clone, Copy, Debug, PartialEq, Eq, Structural)]
pub struct KeyInput {
    pub code: KeyCode,
    pub ctrl: bool,
    pub repeat: bool,
}

impl KeyInput {
    /// A plain press of `code`, without modifiers.
    pub fn from_code(code: KeyCode) -> (k: KeyInput)
        ensures
            k == (KeyInput { code, ctrl: false, repeat: false }),
    {
        KeyInput { code, ctrl: false, repeat: false }
    }
}

/// Which mouse button event happened.
#[derive(Clone, Copy, Debug, PartialEq, Eq, Structural)]
pub enum MouseKind {
    LeftDown,
    LeftDrag,
    LeftUp,
    Other,
}

/// A mouse event at a terminal row.
#[derive(Clone, Copy, Debug, PartialEq, Eq, Structural)]
pub struct MouseInput {
    pub kind: MouseKind,
    pub row: u16,
}

} // verus!
