//! Key events as the editor sees them: a key code plus modifier flags.

use vstd::prelude::*;

verus! {

/// The key that was pressed.
#[derive(Debug, Clone, Copy, PartialEq, Eq, Structural)]
pub enum KeyCode {
    Char(char),
    Enter,
    Esc,
    Backspace,
    Tab,
    Left,
    Right,
    Up,
    Down,
    Other,
}

/// One keystroke: the key and which modifiers were held.
#[derive(Debug, Clone, Copy, PartialEq, Eq, Structural)]
pub struct KeyEvent {
    pub code: KeyCode,
    pub ctrl: bool,
    pub alt: bool,
    pub shift: bool,
}

impl KeyEvent {
    /// A keystroke without modifiers.
    pub fn plain(code: KeyCode) -> (r: KeyEvent)
        ensures
            r == (KeyEvent { code, ctrl: false, alt: false, shift: false }),
    {
        KeyEvent { code, ctrl: false, alt: false, shift: false }
    }

    /// A keystroke with the control modifier held.
    pub fn with_ctrl(code: KeyCode) -> (r: KeyEvent)
        ensures
            r == (KeyEvent { code, ctrl: true, alt: false, shift: false }),
    {
        KeyEvent { code, ctrl: true, alt: false, shift: false }
    }

    /// A keystroke with the alt modifier held.
    pub fn with_alt(code: KeyCode) -> (r: KeyEvent)
        ensures
            r == (KeyEvent { code, ctrl: false, alt: true, shift: false }),
    {
        KeyEvent { code, ctrl: false, alt: true, shift: false }
    }

    /// A keystroke with the shift modifier held.
    pub fn with_shift(code: KeyCode) -> (r: KeyEvent)
        ensures
            r == (KeyEvent { code, ctrl: false, alt: false, shift: true }),
    {
        KeyEvent { code, ctrl: false, alt: false, shift: true }
    }
}

} // verus!
