//! What the terminal reports: keys, pastes and the rest.

use vstd::prelude::*;

verus! {

#[derive(Debug, Clone, Copy, PartialEq, Eq, Structural)]
pub enum KeyCode {
    Backspace,
    Enter,
    Left,
    Right,
    Up,
    Down,
    Home,
    Tab,
    BackTab,
    Esc,
    Char(char),
    /// Any other key.
    Other,
}

/// The keys that are held down with another.
#[derive(Debug, Clone, Copy, PartialEq, Eq, Structural)]
pub struct KeyModifiers {
    pub shift: bool,
    pub control: bool,
    /// Any other modifier.
    pub other: bool,
}

impl KeyModifiers {
    /// No key is held down.
    #[verifier::allow_in_spec]
    pub fn none() -> KeyModifiers
        returns
            (KeyModifiers { shift: false, control: false, other: false }),
    {
        KeyModifiers { shift: false, control: false, other: false }
    }

    /// Whether no key is held down.
    #[verifier::allow_in_spec]
    pub fn is_empty(self) -> bool
        returns
            (!self.shift && !self.control && !self.other),
    {
        !self.shift && !self.control && !self.other
    }
}

#[derive(Debug, Clone, Copy, PartialEq, Eq, Structural)]
pub enum KeyEventKind {
    Press,
    Repeat,
    Release,
}

#[derive(Debug, Clone, Copy, PartialEq, Eq, Structural)]
pub struct KeyEvent {
    pub code: KeyCode,
    pub modifiers: KeyModifiers,
    pub kind: KeyEventKind,
}

impl KeyEvent {
    /// The key is a letter, small or capital, held down with control.
    #[verifier::allow_in_spec]
    pub fn is_control(self, small: char, capital: char) -> bool
        returns
            (self.modifiers.control && (self.code == KeyCode::Char(small) || self.code
                == KeyCode::Char(capital))),
    {
        self.modifiers.control && (self.code == KeyCode::Char(small) || self.code == KeyCode::Char(
            capital,
        ))
    }
}

#[derive(Debug)]
pub enum Event {
    Key(KeyEvent),
    Paste(String),
    /// Anything else.
    Other,
}

} // verus!
