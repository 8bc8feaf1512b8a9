//! What the terminal pane shows and what its keys are, as plain values.
use vstd::prelude::*;

verus! {

/// A key as the terminal encodes it.
#[derive(Debug, Clone, Copy, PartialEq, Eq, Structural)]
pub enum Key {
    Char(char),
    Enter,
    Escape,
    Backspace,
    Tab,
    ArrowUp,
    ArrowDown,
    ArrowLeft,
    ArrowRight,
    Home,
    End,
    PageUp,
    PageDown,
    Insert,
    Delete,
    /// A function key, by its number.
    F(u8),
}

/// The modifiers held with a key.
#[derive(Debug, Clone, Copy, PartialEq, Eq, Structural)]
pub struct Mods {
    pub shift: bool,
    pub ctrl: bool,
    pub alt: bool,
    pub super_key: bool,
}

/// A key press for the terminal to encode.
#[derive(Debug, Clone, PartialEq, Eq)]
pub struct KeyEvent {
    pub key: Key,
    pub mods: Mods,
    /// What the key types, where it types anything.
    pub text: Option<String>,
}

/// A key press, by view.
pub struct KeyPress {
    pub key: Key,
    pub mods: Mods,
    pub text: Option<Seq<char>>,
}

/// An optional text, by view.
pub open spec fn text_view(s: Option<String>) -> Option<Seq<char>> {
    match s {
        Some(v) => Some(v@),
        None => None,
    }
}

impl View for KeyEvent {
    type V = KeyPress;

    open spec fn view(&self) -> KeyPress {
        KeyPress { key: self.key, mods: self.mods, text: text_view(self.text) }
    }
}

/// A colour of the terminal.
#[derive(Debug, Clone, Copy, PartialEq, Eq, Structural)]
pub struct Rgb {
    pub r: u8,
    pub g: u8,
    pub b: u8,
}

/// How many columns a cell's glyph takes.
#[derive(Debug, Clone, Copy, PartialEq, Eq, Structural)]
pub enum CellWidth {
    Narrow,
    /// Two columns, this one and the next.
    Wide,
    /// The second column of a wide cell.
    SpacerTail,
}

/// How a cell is underlined.
#[derive(Debug, Clone, Copy, PartialEq, Eq, Structural)]
pub enum UnderlineKind {
    Absent,
    Single,
    Double,
    Curly,
    Dotted,
    Dashed,
}

/// How a cell's glyph is drawn.
#[derive(Debug, Clone, Copy, PartialEq, Eq, Structural)]
pub struct StyleFlags {
    pub bold: bool,
    pub italic: bool,
    pub faint: bool,
    pub inverse: bool,
    pub invisible: bool,
    pub strikethrough: bool,
    pub overline: bool,
    pub underline: UnderlineKind,
}

/// One cell of the screen.
#[derive(Debug, Clone, PartialEq, Eq)]
pub struct CellSnapshot {
    /// What stands in the cell; empty for a blank one.
    pub grapheme: String,
    pub width: CellWidth,
    /// The cell's own colours, where it has any.
    pub fg: Option<Rgb>,
    pub bg: Option<Rgb>,
    pub flags: StyleFlags,
}

/// The terminal's cursor.
#[derive(Debug, Clone, Copy, PartialEq, Eq)]
pub struct Cursor {
    pub visible: bool,
    /// Column and row in the viewport, while the cursor is in it.
    pub position: Option<(u16, u16)>,
}

/// The screen of a session at one moment.
#[derive(Debug, Clone, PartialEq, Eq)]
pub struct RenderSnapshot {
    pub cols: u16,
    pub rows: u16,
    pub foreground: Rgb,
    pub background: Rgb,
    /// The cells, by row.
    pub cells: Vec<Vec<CellSnapshot>>,
    pub cursor: Cursor,
}

} // verus!
