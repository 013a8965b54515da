//! Client-protocol input events the GUI sends to a pane's terminal.

use vstd::prelude::*;

verus! {

/// Key codes in the server's (crossterm-shaped) vocabulary.
#[derive(Debug, Clone, Copy, PartialEq, Eq, Structural)]
pub enum ClientKeyCode {
    Enter,
    Backspace,
    Tab,
    BackTab,
    Esc,
    Left,
    Right,
    Up,
    Down,
    Home,
    End,
    PageUp,
    PageDown,
    Delete,
    Insert,
    F(u8),
    Char(char),
}

#[derive(Debug, Clone, Copy, PartialEq, Eq, Structural)]
pub enum ClientKeyKind {
    Press,
    Repeat,
}

#[derive(Debug, Clone, Copy, PartialEq, Eq, Structural)]
pub enum ClientMouseButton {
    Left,
    Right,
    Middle,
}

#[derive(Debug, Clone, Copy, PartialEq, Eq, Structural)]
pub enum ClientMouseKind {
    Down(ClientMouseButton),
    Up(ClientMouseButton),
    Drag(ClientMouseButton),
    Moved,
    ScrollUp,
    ScrollDown,
    ScrollLeft,
    ScrollRight,
}

/// One input event for a terminal. Modifier bytes use crossterm's
/// `KeyModifiers` bit layout.
#[derive(Debug, Clone, Copy, PartialEq, Eq, Structural)]
pub enum ClientInputEvent {
    Key { code: ClientKeyCode, modifiers: u8, kind: ClientKeyKind },
    Mouse { kind: ClientMouseKind, column: u16, row: u16, modifiers: u8 },
    FocusGained,
    FocusLost,
}

} // verus!
