//! Keys and pointer events, as the terminal reports them.
use vstd::prelude::*;

verus! {

/// No modifier held.
pub const NONE: u8 = 0;

pub const SHIFT: u8 = 1;

pub const CONTROL: u8 = 2;

pub const ALT: u8 = 4;

/// Which key was pressed.
#[derive(Debug, Clone, Copy, PartialEq, Eq, Structural)]
pub enum KeyCode {
    Char(char),
    Enter,
    Esc,
    Backspace,
    Tab,
    /// Shift and Tab.
    BackTab,
    Up,
    Down,
    Home,
    End,
    PageUp,
    PageDown,
    /// Any key that means nothing to the overlay.
    Other,
}

/// A key, with the modifiers held.
#[derive(Debug, Clone, Copy, PartialEq, Eq, Structural)]
pub struct KeyEvent {
    pub code: KeyCode,
    /// Bits: `SHIFT`, `CONTROL`, `ALT` and whatever else the terminal reports.
    pub modifiers: u8,
}

impl KeyEvent {
    pub fn new(code: KeyCode, modifiers: u8) -> (r: Self)
        ensures
            r == (KeyEvent { code, modifiers }),
    {
        KeyEvent { code, modifiers }
    }
}

/// What the pointer did.
#[derive(Debug, Clone, Copy, PartialEq, Eq, Structural)]
pub enum MouseEventKind {
    /// A button went down.
    Down,
    ScrollDown,
    ScrollUp,
    /// Motion, a release, or anything else.
    Other,
}

/// A pointer event and the cell it came over.
#[derive(Debug, Clone, Copy, PartialEq, Eq, Structural)]
pub struct MouseEvent {
    pub kind: MouseEventKind,
    pub column: u16,
    pub row: u16,
}

} // verus!
