//! Terminal events as plain values.

use vstd::prelude::*;

verus! {

/// Whether a key went down, is held down or went up.
#[derive(Clone, Copy, Debug, PartialEq, Eq, Structural)]
pub enum KeyKind {
    Press,
    Repeat,
    Release,
}

/// The keys that the interface tells apart.
#[derive(Clone, Copy, Debug, PartialEq, Eq, Structural)]
pub enum KeyCode {
    Char(char),
    Enter,
    Esc,
    Tab,
    BackTab,
    Up,
    Down,
    Left,
    Right,
    Home,
    End,
    PageUp,
    PageDown,
    Backspace,
    Delete,
    Other,
}

/// The modifier keys that are held down. `other` stands for any modifier without a field.
#[derive(Clone, Copy, Debug, PartialEq, Eq, Structural)]
pub struct Modifiers {
    pub control: bool,
    pub shift: bool,
    pub alt: bool,
    pub super_key: bool,
    pub other: bool,
}

impl Modifiers {
    /// No modifier.
    pub fn none() -> (modifiers: Self)
        ensures
            modifiers == (Modifiers {
                control: false,
                shift: false,
                alt: false,
                super_key: false,
                other: false,
            }),
    {
        Modifiers { control: false, shift: false, alt: false, super_key: false, other: false }
    }

    /// The control key alone.
    pub fn control() -> (modifiers: Self)
        ensures
            modifiers == (Modifiers {
                control: true,
                shift: false,
                alt: false,
                super_key: false,
                other: false,
            }),
    {
        Modifiers { control: true, shift: false, alt: false, super_key: false, other: false }
    }

    /// The shift key alone.
    pub fn shift() -> (modifiers: Self)
        ensures
            modifiers == (Modifiers {
                control: false,
                shift: true,
                alt: false,
                super_key: false,
                other: false,
            }),
    {
        Modifiers { control: false, shift: true, alt: false, super_key: false, other: false }
    }

    pub open spec fn empty(self) -> bool {
        !self.control && !self.shift && !self.alt && !self.super_key && !self.other
    }

    /// Whether no modifier is held down.
    pub fn is_empty(&self) -> (yes: bool)
        ensures
            yes == self.empty(),
    {
        !self.control && !self.shift && !self.alt && !self.super_key && !self.other
    }
}

/// A key with its modifiers.
#[derive(Clone, Copy, Debug, PartialEq, Eq, Structural)]
pub struct KeyEvent {
    pub kind: KeyKind,
    pub code: KeyCode,
    pub modifiers: Modifiers,
}

impl KeyEvent {
    /// A key that is pressed.
    pub fn new(code: KeyCode, modifiers: Modifiers) -> (key: Self)
        ensures
            key == (KeyEvent { kind: KeyKind::Press, code, modifiers }),
    {
        KeyEvent { kind: KeyKind::Press, code, modifiers }
    }

    pub open spec fn down(self) -> bool {
        self.kind != KeyKind::Release
    }

    /// Whether the key is pressed or repeated.
    pub fn is_down(&self) -> (yes: bool)
        ensures
            yes == self.down(),
    {
        self.kind != KeyKind::Release
    }
}

/// A mouse button.
#[derive(Clone, Copy, Debug, PartialEq, Eq, Structural)]
pub enum MouseButton {
    Left,
    Right,
    Middle,
}

/// What the mouse did.
#[derive(Clone, Copy, Debug, PartialEq, Eq, Structural)]
pub enum MouseKind {
    Down(MouseButton),
    Up(MouseButton),
    Drag(MouseButton),
    Moved,
    ScrollUp,
    ScrollDown,
    ScrollLeft,
    ScrollRight,
}

/// A mouse event at a cell.
#[derive(Clone, Copy, Debug, PartialEq, Eq, Structural)]
pub struct MouseEvent {
    pub kind: MouseKind,
    pub column: u16,
    pub row: u16,
    pub modifiers: Modifiers,
}

/// An event of the terminal.
#[derive(Debug)]
pub enum Event {
    Key(KeyEvent),
    Mouse(MouseEvent),
    Paste(String),
    Resize(u16, u16),
    FocusGained,
    FocusLost,
}

/// A key event with one code, of a key that is pressed or repeated.
pub open spec fn pressed(event: Event, code: KeyCode) -> bool {
    event matches Event::Key(key) && key.down() && key.code == code
}

} // verus!
