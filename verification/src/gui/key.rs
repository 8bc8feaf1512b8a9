//! From the window's key presses to the terminal's.
use crate::gui::vt;
use crate::gui::vt::{KeyEvent, KeyPress, Mods};
use crate::text;
use vstd::prelude::*;
use vstd::string::*;

verus! {

/// A key with a name of its own.
#[derive(Debug, Clone, Copy, PartialEq, Eq, Structural)]
pub enum Named {
    Enter,
    Escape,
    Backspace,
    Tab,
    Space,
    ArrowUp,
    ArrowDown,
    ArrowLeft,
    ArrowRight,
    Home,
    End,
    PageUp,
    PageDown,
    Insert,
    Delete,
    F1,
    F2,
    F3,
    F4,
    F5,
    F6,
    F7,
    F8,
    F9,
    F10,
    F11,
    F12,
    /// A key that the terminal does not encode, such as a bare modifier.
    Other,
}

/// A key as the window reports it.
#[derive(Debug, Clone, PartialEq, Eq)]
pub enum Key {
    Named(Named),
    Character(String),
    Unidentified,
}

/// A key as the window reports it, by view.
pub enum KeyView {
    Named(Named),
    Character(Seq<char>),
    Unidentified,
}

impl View for Key {
    type V = KeyView;

    open spec fn view(&self) -> KeyView {
        match self {
            Key::Named(n) => KeyView::Named(*n),
            Key::Character(s) => KeyView::Character(s@),
            Key::Unidentified => KeyView::Unidentified,
        }
    }
}

/// The modifiers as the window reports them.
#[derive(Debug, Clone, Copy, PartialEq, Eq, Structural)]
pub struct Modifiers {
    pub shift: bool,
    pub control: bool,
    pub alt: bool,
    pub logo: bool,
}

impl Modifiers {
    /// No modifier.
    pub fn empty() -> (r: Modifiers)
        ensures
            r == (Modifiers { shift: false, control: false, alt: false, logo: false }),
    {
        Modifiers { shift: false, control: false, alt: false, logo: false }
    }

    /// The same modifiers for the terminal.
    pub open spec fn mods(self) -> Mods {
        Mods { shift: self.shift, ctrl: self.control, alt: self.alt, super_key: self.logo }
    }
}

/// The terminal's key for a named one.
pub open spec fn named(key: Named) -> Option<vt::Key> {
    match key {
        Named::Enter => Some(vt::Key::Enter),
        Named::Escape => Some(vt::Key::Escape),
        Named::Backspace => Some(vt::Key::Backspace),
        Named::Tab => Some(vt::Key::Tab),
        Named::Space => Some(vt::Key::Char(' ')),
        Named::ArrowUp => Some(vt::Key::ArrowUp),
        Named::ArrowDown => Some(vt::Key::ArrowDown),
        Named::ArrowLeft => Some(vt::Key::ArrowLeft),
        Named::ArrowRight => Some(vt::Key::ArrowRight),
        Named::Home => Some(vt::Key::Home),
        Named::End => Some(vt::Key::End),
        Named::PageUp => Some(vt::Key::PageUp),
        Named::PageDown => Some(vt::Key::PageDown),
        Named::Insert => Some(vt::Key::Insert),
        Named::Delete => Some(vt::Key::Delete),
        Named::F1 => Some(vt::Key::F(1)),
        Named::F2 => Some(vt::Key::F(2)),
        Named::F3 => Some(vt::Key::F(3)),
        Named::F4 => Some(vt::Key::F(4)),
        Named::F5 => Some(vt::Key::F(5)),
        Named::F6 => Some(vt::Key::F(6)),
        Named::F7 => Some(vt::Key::F(7)),
        Named::F8 => Some(vt::Key::F(8)),
        Named::F9 => Some(vt::Key::F(9)),
        Named::F10 => Some(vt::Key::F(10)),
        Named::F11 => Some(vt::Key::F(11)),
        Named::F12 => Some(vt::Key::F(12)),
        Named::Other => None,
    }
}

/// The terminal's key for a named one, or `None` where it has none.
fn map_named(key: Named) -> (r: Option<vt::Key>)
    ensures
        r == named(key),
{
    match key {
        Named::Enter => Some(vt::Key::Enter),
        Named::Escape => Some(vt::Key::Escape),
        Named::Backspace => Some(vt::Key::Backspace),
        Named::Tab => Some(vt::Key::Tab),
        Named::Space => Some(vt::Key::Char(' ')),
        Named::ArrowUp => Some(vt::Key::ArrowUp),
        Named::ArrowDown => Some(vt::Key::ArrowDown),
        Named::ArrowLeft => Some(vt::Key::ArrowLeft),
        Named::ArrowRight => Some(vt::Key::ArrowRight),
        Named::Home => Some(vt::Key::Home),
        Named::End => Some(vt::Key::End),
        Named::PageUp => Some(vt::Key::PageUp),
        Named::PageDown => Some(vt::Key::PageDown),
        Named::Insert => Some(vt::Key::Insert),
        Named::Delete => Some(vt::Key::Delete),
        Named::F1 => Some(vt::Key::F(1)),
        Named::F2 => Some(vt::Key::F(2)),
        Named::F3 => Some(vt::Key::F(3)),
        Named::F4 => Some(vt::Key::F(4)),
        Named::F5 => Some(vt::Key::F(5)),
        Named::F6 => Some(vt::Key::F(6)),
        Named::F7 => Some(vt::Key::F(7)),
        Named::F8 => Some(vt::Key::F(8)),
        Named::F9 => Some(vt::Key::F(9)),
        Named::F10 => Some(vt::Key::F(10)),
        Named::F11 => Some(vt::Key::F(11)),
        Named::F12 => Some(vt::Key::F(12)),
        Named::Other => None,
    }
}

/// The terminal's press for a window's: a named key that the terminal has, or
/// the first character of what a key types, with all of it as its text. Only
/// the space bar among the named keys types anything.
pub open spec fn mapped(key: KeyView, mods: Mods) -> Option<KeyPress> {
    match key {
        KeyView::Named(n) => match named(n) {
            Some(k) => Some(
                KeyPress {
                    key: k,
                    mods,
                    text: if n == Named::Space {
                        Some(seq![' '])
                    } else {
                        None
                    },
                },
            ),
            None => None,
        },
        KeyView::Character(s) => if s.len() > 0 {
            Some(KeyPress { key: vt::Key::Char(s[0]), mods, text: Some(s) })
        } else {
            None
        },
        KeyView::Unidentified => None,
    }
}

/// A press by view, where there is one.
pub open spec fn press_view(e: Option<KeyEvent>) -> Option<KeyPress> {
    match e {
        Some(v) => Some(v@),
        None => None,
    }
}

/// The same modifiers for the terminal.
fn mods_of(m: Modifiers) -> (r: Mods)
    ensures
        r == m.mods(),
{
    Mods { shift: m.shift, ctrl: m.control, alt: m.alt, super_key: m.logo }
}

/// The text of one character.
pub fn text_of_char(c: char) -> (r: String)
    ensures
        r@ == seq![c],
{
    let mut s = String::new();
    s.push(c);
    assert(s@ =~= seq![c]);
    s
}

/// Translate a key press of the window into one of the terminal, or `None` for
/// keys the terminal does not encode (bare modifiers, unidentified keys).
pub fn map_key(key: &Key, mods: Modifiers) -> (r: Option<KeyEvent>)
    ensures
        press_view(r) == mapped(key@, mods.mods()),
        key@ == KeyView::Named(Named::Enter) ==> (r matches Some(e) && e.key == vt::Key::Enter),
        key@ == KeyView::Named(Named::Escape) ==> (r matches Some(e) && e.key == vt::Key::Escape),
        key@ == KeyView::Named(Named::Backspace) ==> (r matches Some(e) && e.key == vt::Key::Backspace),
        key@ == KeyView::Named(Named::Tab) ==> (r matches Some(e) && e.key == vt::Key::Tab),
        key@ == KeyView::Named(Named::ArrowUp) ==> (r matches Some(e) && e.key == vt::Key::ArrowUp),
        key@ == KeyView::Named(Named::ArrowDown) ==> (r matches Some(e) && e.key == vt::Key::ArrowDown),
        key@ == KeyView::Named(Named::ArrowLeft) ==> (r matches Some(e) && e.key == vt::Key::ArrowLeft),
        key@ == KeyView::Named(Named::ArrowRight) ==> (r matches Some(e) && e.key == vt::Key::ArrowRight),
        key@ == KeyView::Named(Named::Home) ==> (r matches Some(e) && e.key == vt::Key::Home),
        key@ == KeyView::Named(Named::End) ==> (r matches Some(e) && e.key == vt::Key::End),
        key@ == KeyView::Named(Named::PageUp) ==> (r matches Some(e) && e.key == vt::Key::PageUp),
        key@ == KeyView::Named(Named::PageDown) ==> (r matches Some(e) && e.key == vt::Key::PageDown),
        key@ == KeyView::Named(Named::Insert) ==> (r matches Some(e) && e.key == vt::Key::Insert),
        key@ == KeyView::Named(Named::Delete) ==> (r matches Some(e) && e.key == vt::Key::Delete),
        key@ == KeyView::Named(Named::Space) ==> (r matches Some(e) && e.key == vt::Key::Char(' ')),
        key@ == KeyView::Named(Named::F1) ==> (r matches Some(e) && e.key == vt::Key::F(1)),
        key@ == KeyView::Named(Named::F2) ==> (r matches Some(e) && e.key == vt::Key::F(2)),
        key@ == KeyView::Named(Named::F3) ==> (r matches Some(e) && e.key == vt::Key::F(3)),
        key@ == KeyView::Named(Named::F4) ==> (r matches Some(e) && e.key == vt::Key::F(4)),
        key@ == KeyView::Named(Named::F5) ==> (r matches Some(e) && e.key == vt::Key::F(5)),
        key@ == KeyView::Named(Named::F6) ==> (r matches Some(e) && e.key == vt::Key::F(6)),
        key@ == KeyView::Named(Named::F7) ==> (r matches Some(e) && e.key == vt::Key::F(7)),
        key@ == KeyView::Named(Named::F8) ==> (r matches Some(e) && e.key == vt::Key::F(8)),
        key@ == KeyView::Named(Named::F9) ==> (r matches Some(e) && e.key == vt::Key::F(9)),
        key@ == KeyView::Named(Named::F10) ==> (r matches Some(e) && e.key == vt::Key::F(10)),
        key@ == KeyView::Named(Named::F11) ==> (r matches Some(e) && e.key == vt::Key::F(11)),
        key@ == KeyView::Named(Named::F12) ==> (r matches Some(e) && e.key == vt::Key::F(12)),
        key@ == KeyView::Named(Named::Other) ==> r is None,
        key@ matches KeyView::Character(s) ==> if s.len() == 0 {
            r is None
        } else {
            r matches Some(e) && e.key == vt::Key::Char(s[0]) && vt::text_view(e.text) == Some(s)
        },
        r matches Some(e) ==> {
            &&& e.mods.shift == mods.shift
            &&& e.mods.ctrl == mods.control
            &&& e.mods.alt == mods.alt
            &&& e.mods.super_key == mods.logo
        },
{
    let m = mods_of(mods);
    match key {
        Key::Named(n) => {
            let text = match *n {
                Named::Space => Some(text_of_char(' ')),
                _ => None,
            };
            match map_named(*n) {
                Some(k) => Some(KeyEvent { key: k, mods: m, text }),
                None => None,
            }
        },
        Key::Character(s) => {
            let chars = text::chars_of(s.as_str());
            if chars.len() == 0 {
                None
            } else {
                Some(
                    KeyEvent { key: vt::Key::Char(chars[0]), mods: m, text: Some(s.clone()) },
                )
            }
        },
        Key::Unidentified => None,
    }
}

/// Whether a character is a control code (Unicode's category `Cc`).
pub open spec fn control(c: char) -> bool {
    (c as u32) < 0x20 || 0x7f <= (c as u32) <= 0x9f
}

/// Whether a character is a control code.
pub fn is_control(c: char) -> (r: bool)
    ensures
        r == control(c),
{
    let n: u32 = c as u32;
    n < 0x20 || (0x7f <= n && n <= 0x9f)
}

/// The press that types one composed character; control codes type nothing.
pub open spec fn composed(c: char, mods: Mods) -> Option<KeyPress> {
    if control(c) {
        None
    } else {
        Some(KeyPress { key: vt::Key::Char(c), mods, text: Some(seq![c]) })
    }
}

/// The press that types one character an input method composed, or `None` for a
/// control code.
pub fn map_ime_char(c: char, mods: Modifiers) -> (r: Option<KeyEvent>)
    ensures
        press_view(r) == composed(c, mods.mods()),
        r is None <==> ((c as u32) < 0x20 || 0x7f <= (c as u32) <= 0x9f),
        r matches Some(e) ==> {
            &&& e.key == vt::Key::Char(c)
            &&& vt::text_view(e.text) == Some(seq![c])
            &&& e.mods.shift == mods.shift
            &&& e.mods.ctrl == mods.control
            &&& e.mods.alt == mods.alt
            &&& e.mods.super_key == mods.logo
        },
{
    if is_control(c) {
        None
    } else {
        Some(KeyEvent { key: vt::Key::Char(c), mods: mods_of(mods), text: Some(text_of_char(c)) })
    }
}

/// Law: a press keeps the modifiers it came with, and types what the key types.
pub proof fn law_press_keeps_modifiers(key: KeyView, mods: Mods)
    ensures
        mapped(key, mods) matches Some(p) ==> p.mods == mods,
        mapped(key, mods) matches Some(p) ==> match key {
            KeyView::Character(s) => p.text == Some(s),
            KeyView::Named(n) => p.text is Some <==> n == Named::Space,
            KeyView::Unidentified => false,
        },
{
}

/// Law: a named key is the terminal's key of the same name, held with the same
/// modifiers. The space bar is the character it types, and the only one of them
/// that types anything.
pub proof fn law_named_keys_keep_their_names(n: Named, mods: Mods)
    ensures
        n == Named::Enter ==> mapped(KeyView::Named(n), mods) == Some(
            KeyPress { key: vt::Key::Enter, mods, text: None },
        ),
        n == Named::Escape ==> mapped(KeyView::Named(n), mods) == Some(
            KeyPress { key: vt::Key::Escape, mods, text: None },
        ),
        n == Named::Backspace ==> mapped(KeyView::Named(n), mods) == Some(
            KeyPress { key: vt::Key::Backspace, mods, text: None },
        ),
        n == Named::Tab ==> mapped(KeyView::Named(n), mods) == Some(
            KeyPress { key: vt::Key::Tab, mods, text: None },
        ),
        n == Named::ArrowUp ==> mapped(KeyView::Named(n), mods) == Some(
            KeyPress { key: vt::Key::ArrowUp, mods, text: None },
        ),
        n == Named::ArrowDown ==> mapped(KeyView::Named(n), mods) == Some(
            KeyPress { key: vt::Key::ArrowDown, mods, text: None },
        ),
        n == Named::ArrowLeft ==> mapped(KeyView::Named(n), mods) == Some(
            KeyPress { key: vt::Key::ArrowLeft, mods, text: None },
        ),
        n == Named::ArrowRight ==> mapped(KeyView::Named(n), mods) == Some(
            KeyPress { key: vt::Key::ArrowRight, mods, text: None },
        ),
        n == Named::Home ==> mapped(KeyView::Named(n), mods) == Some(
            KeyPress { key: vt::Key::Home, mods, text: None },
        ),
        n == Named::End ==> mapped(KeyView::Named(n), mods) == Some(
            KeyPress { key: vt::Key::End, mods, text: None },
        ),
        n == Named::PageUp ==> mapped(KeyView::Named(n), mods) == Some(
            KeyPress { key: vt::Key::PageUp, mods, text: None },
        ),
        n == Named::PageDown ==> mapped(KeyView::Named(n), mods) == Some(
            KeyPress { key: vt::Key::PageDown, mods, text: None },
        ),
        n == Named::Insert ==> mapped(KeyView::Named(n), mods) == Some(
            KeyPress { key: vt::Key::Insert, mods, text: None },
        ),
        n == Named::Delete ==> mapped(KeyView::Named(n), mods) == Some(
            KeyPress { key: vt::Key::Delete, mods, text: None },
        ),
        n == Named::Space ==> mapped(KeyView::Named(n), mods) == Some(
            KeyPress { key: vt::Key::Char(' '), mods, text: Some(seq![' ']) },
        ),
        n == Named::F1 ==> mapped(KeyView::Named(n), mods) == Some(
            KeyPress { key: vt::Key::F(1), mods, text: None },
        ),
        n == Named::F2 ==> mapped(KeyView::Named(n), mods) == Some(
            KeyPress { key: vt::Key::F(2), mods, text: None },
        ),
        n == Named::F3 ==> mapped(KeyView::Named(n), mods) == Some(
            KeyPress { key: vt::Key::F(3), mods, text: None },
        ),
        n == Named::F4 ==> mapped(KeyView::Named(n), mods) == Some(
            KeyPress { key: vt::Key::F(4), mods, text: None },
        ),
        n == Named::F5 ==> mapped(KeyView::Named(n), mods) == Some(
            KeyPress { key: vt::Key::F(5), mods, text: None },
        ),
        n == Named::F6 ==> mapped(KeyView::Named(n), mods) == Some(
            KeyPress { key: vt::Key::F(6), mods, text: None },
        ),
        n == Named::F7 ==> mapped(KeyView::Named(n), mods) == Some(
            KeyPress { key: vt::Key::F(7), mods, text: None },
        ),
        n == Named::F8 ==> mapped(KeyView::Named(n), mods) == Some(
            KeyPress { key: vt::Key::F(8), mods, text: None },
        ),
        n == Named::F9 ==> mapped(KeyView::Named(n), mods) == Some(
            KeyPress { key: vt::Key::F(9), mods, text: None },
        ),
        n == Named::F10 ==> mapped(KeyView::Named(n), mods) == Some(
            KeyPress { key: vt::Key::F(10), mods, text: None },
        ),
        n == Named::F11 ==> mapped(KeyView::Named(n), mods) == Some(
            KeyPress { key: vt::Key::F(11), mods, text: None },
        ),
        n == Named::F12 ==> mapped(KeyView::Named(n), mods) == Some(
            KeyPress { key: vt::Key::F(12), mods, text: None },
        ),
        n == Named::Other ==> mapped(KeyView::Named(n), mods) is None,
{
}

/// Law: a key that types something is its first character, and types all of it;
/// what one character types is the same whether a key or an input method typed it,
/// unless it is a control code, which only a key can type.
pub proof fn law_typed_character(c: char, more: Seq<char>, mods: Mods)
    ensures
        mapped(KeyView::Character(seq![c] + more), mods) == Some(
            KeyPress { key: vt::Key::Char(c), mods, text: Some(seq![c] + more) },
        ),
        mapped(KeyView::Character(Seq::empty()), mods) is None,
        mapped(KeyView::Unidentified, mods) is None,
        composed(c, mods) == if (c as u32) < 0x20 || 0x7f <= (c as u32) <= 0x9f {
            None
        } else {
            mapped(KeyView::Character(seq![c]), mods)
        },
{
}

/// Law: no two named keys that the terminal encodes become the same press.
pub proof fn law_named_keys_differ(a: Named, b: Named)
    requires
        named(a) is Some,
        named(a) == named(b),
    ensures
        a == b,
{
}

} // verus!
