//! Colours and text styles.
use vstd::prelude::*;

verus! {

/// A terminal colour.
#[derive(Debug, Clone, Copy, PartialEq, Eq, Structural)]
pub enum Color {
    /// The terminal's own default.
    Reset,
    Gray,
    DarkGray,
    Cyan,
    Yellow,
    Blue,
    /// Red, green and blue.
    Rgb(u8, u8, u8),
}

pub const BOLD: u16 = 0x001;

pub const ITALIC: u16 = 0x004;

pub const UNDERLINED: u16 = 0x008;

pub const REVERSED: u16 = 0x040;

pub const CROSSED_OUT: u16 = 0x100;

/// Every modifier a cell can carry.
pub const ALL_MODIFIERS: u16 = 0x1ff;

/// How a piece of text is drawn. What is `None` is left as it was.
#[derive(Debug, Clone, Copy, PartialEq, Eq, Structural)]
pub struct Style {
    pub fg: Option<Color>,
    pub bg: Option<Color>,
    /// The modifiers the text turns on.
    pub add_modifier: u16,
}

/// The colour of quiet text.
pub open spec fn dim_color() -> Color {
    Color::Rgb(0x8B, 0x94, 0xA2)
}

/// The colour of what is in focus.
pub open spec fn accent_color() -> Color {
    Color::Rgb(0xF3, 0xB2, 0x4C)
}

/// The colour of quiet text.
pub fn dim() -> (r: Color)
    ensures
        r == dim_color(),
{
    Color::Rgb(0x8B, 0x94, 0xA2)
}

/// The colour of what is in focus.
pub fn accent() -> (r: Color)
    ensures
        r == accent_color(),
{
    Color::Rgb(0xF3, 0xB2, 0x4C)
}

impl Default for Style {
    fn default() -> (r: Self)
        ensures
            r == plain(),
    {
        Style { fg: None, bg: None, add_modifier: 0 }
    }
}

/// The style that changes nothing.
pub open spec fn plain() -> Style {
    Style { fg: None, bg: None, add_modifier: 0 }
}

impl Style {
    /// The style with this foreground.
    pub open spec fn with_fg(self, color: Color) -> Style {
        Style { fg: Some(color), ..self }
    }

    /// The style with this background.
    pub open spec fn with_bg(self, color: Color) -> Style {
        Style { bg: Some(color), ..self }
    }

    /// The style with these modifiers turned on as well.
    pub open spec fn with_modifier(self, modifier: u16) -> Style {
        Style { add_modifier: self.add_modifier | modifier, ..self }
    }

    /// The style with what `other` sets laid over it.
    pub open spec fn patched(self, other: Style) -> Style {
        Style {
            fg: if other.fg is Some {
                other.fg
            } else {
                self.fg
            },
            bg: if other.bg is Some {
                other.bg
            } else {
                self.bg
            },
            add_modifier: self.add_modifier | other.add_modifier,
        }
    }

    /// The style with this foreground.
    pub fn fg(self, color: Color) -> (r: Style)
        ensures
            r == self.with_fg(color),
    {
        Style { fg: Some(color), ..self }
    }

    /// The style with this background.
    pub fn bg(self, color: Color) -> (r: Style)
        ensures
            r == self.with_bg(color),
    {
        Style { bg: Some(color), ..self }
    }

    /// The style with these modifiers turned on as well.
    pub fn add_modifier(self, modifier: u16) -> (r: Style)
        ensures
            r == self.with_modifier(modifier),
    {
        Style { add_modifier: self.add_modifier | modifier, ..self }
    }

    /// The style with what `other` sets laid over it.
    pub fn patch(self, other: Style) -> (r: Style)
        ensures
            r == self.patched(other),
    {
        let fg = match other.fg {
            Some(c) => Some(c),
            None => self.fg,
        };
        let bg = match other.bg {
            Some(c) => Some(c),
            None => self.bg,
        };
        Style { fg, bg, add_modifier: self.add_modifier | other.add_modifier }
    }
}

/// Law: laying one style over another keeps the colours that the upper one does not
/// name and takes those it does, and no modifier of either is lost.
pub proof fn law_patch(a: Style, b: Style)
    ensures
        b.fg is None ==> a.patched(b).fg == a.fg,
        b.fg is Some ==> a.patched(b).fg == b.fg,
        b.bg is None ==> a.patched(b).bg == a.bg,
        b.bg is Some ==> a.patched(b).bg == b.bg,
        a.patched(b).add_modifier == a.add_modifier | b.add_modifier,
{
}

} // verus!
