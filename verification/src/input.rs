//! Translate window-system input into herdr [`ClientInputEvent`]s.
//!
//! The server reuses the same input pipeline as the terminal client, so the
//! goal here is to produce the crossterm-shaped key/mouse events the server
//! already understands. Modifier bytes use crossterm's `KeyModifiers` bit
//! layout, and shifted letters are reported as the uppercase character plus a
//! `SHIFT` modifier (matching the server's legacy convention).

use vstd::prelude::*;
use crate::protocol::{ClientInputEvent, ClientKeyCode, ClientKeyKind, ClientMouseButton, ClientMouseKind};

verus! {

/// crossterm `KeyModifiers` bits.
pub const SHIFT: u8 = 0b0000_0001;
pub const CONTROL: u8 = 0b0000_0010;
pub const ALT: u8 = 0b0000_0100;
pub const SUPER: u8 = 0b0000_1000;

/// Which modifier keys are held.
#[derive(Debug, Clone, Copy, PartialEq, Eq, Structural, Default)]
pub struct Modifiers {
    pub shift: bool,
    pub control: bool,
    pub alt: bool,
    pub super_key: bool,
}

/// Whether a key or button went down or up.
#[derive(Debug, Clone, Copy, PartialEq, Eq, Structural)]
pub enum ElementState {
    Pressed,
    Released,
}

/// The named (non-character) keys the terminal understands; every other
/// named key is `Unmapped`.
#[derive(Debug, Clone, Copy, PartialEq, Eq, Structural)]
pub enum NamedKey {
    Enter,
    Backspace,
    Tab,
    Space,
    Escape,
    ArrowLeft,
    ArrowRight,
    ArrowUp,
    ArrowDown,
    Home,
    End,
    PageUp,
    PageDown,
    Delete,
    Insert,
    /// Function key `F1..=F12` by number.
    F(u8),
    Unmapped,
}

/// A logical key as the keyboard layout reports it.
#[derive(Debug, Clone, PartialEq, Eq)]
pub enum Key {
    Named(NamedKey),
    /// The text the key produces, with shift already applied.
    Character(String),
    /// Dead keys and unidentified keys.
    Other,
}

/// A pointer button.
#[derive(Debug, Clone, Copy, PartialEq, Eq, Structural)]
pub enum MouseButton {
    Left,
    Right,
    Middle,
    Other,
}

/// The crossterm modifier byte for `state`.
pub open spec fn spec_modifier_bits(state: Modifiers) -> u8 {
    ((if state.shift { SHIFT } else { 0 }) + (if state.control { CONTROL } else { 0 }) + (if state.alt {
        ALT
    } else {
        0
    }) + (if state.super_key { SUPER } else { 0 })) as u8
}

/// The crossterm modifier byte for `state` with shift left out.
pub open spec fn spec_non_shift_bits(state: Modifiers) -> u8 {
    ((if state.control { CONTROL } else { 0 }) + (if state.alt { ALT } else { 0 }) + (if state.super_key {
        SUPER
    } else {
        0
    })) as u8
}

/// Crossterm modifier bits for the current keyboard modifier state.
pub fn modifier_bits(state: Modifiers) -> (bits: u8)
    ensures
        bits == spec_modifier_bits(state),
{
    let mut mods: u8 = 0;
    if state.shift {
        mods = mods + SHIFT;
    }
    if state.control {
        mods = mods + CONTROL;
    }
    if state.alt {
        mods = mods + ALT;
    }
    if state.super_key {
        mods = mods + SUPER;
    }
    mods
}

fn non_shift_bits(state: Modifiers) -> (bits: u8)
    ensures
        bits == spec_non_shift_bits(state),
{
    let mut mods: u8 = 0;
    if state.control {
        mods = mods + CONTROL;
    }
    if state.alt {
        mods = mods + ALT;
    }
    if state.super_key {
        mods = mods + SUPER;
    }
    mods
}

/// The terminal key code of a named key; `Tab` with shift held is
/// `BackTab`; keys without a terminal meaning have none.
pub open spec fn spec_named_code(named: NamedKey, shift: bool) -> Option<ClientKeyCode> {
    match named {
        NamedKey::Enter => Some(ClientKeyCode::Enter),
        NamedKey::Backspace => Some(ClientKeyCode::Backspace),
        NamedKey::Tab => Some(if shift { ClientKeyCode::BackTab } else { ClientKeyCode::Tab }),
        NamedKey::Space => Some(ClientKeyCode::Char(' ')),
        NamedKey::Escape => Some(ClientKeyCode::Esc),
        NamedKey::ArrowLeft => Some(ClientKeyCode::Left),
        NamedKey::ArrowRight => Some(ClientKeyCode::Right),
        NamedKey::ArrowUp => Some(ClientKeyCode::Up),
        NamedKey::ArrowDown => Some(ClientKeyCode::Down),
        NamedKey::Home => Some(ClientKeyCode::Home),
        NamedKey::End => Some(ClientKeyCode::End),
        NamedKey::PageUp => Some(ClientKeyCode::PageUp),
        NamedKey::PageDown => Some(ClientKeyCode::PageDown),
        NamedKey::Delete => Some(ClientKeyCode::Delete),
        NamedKey::Insert => Some(ClientKeyCode::Insert),
        NamedKey::F(n) => if 1 <= n <= 12 { Some(ClientKeyCode::F(n)) } else { None },
        NamedKey::Unmapped => None,
    }
}

fn named_code(named: NamedKey, shift: bool) -> (code: Option<ClientKeyCode>)
    ensures
        code == spec_named_code(named, shift),
{
    match named {
        NamedKey::Enter => Some(ClientKeyCode::Enter),
        NamedKey::Backspace => Some(ClientKeyCode::Backspace),
        NamedKey::Tab => Some(if shift { ClientKeyCode::BackTab } else { ClientKeyCode::Tab }),
        NamedKey::Space => Some(ClientKeyCode::Char(' ')),
        NamedKey::Escape => Some(ClientKeyCode::Esc),
        NamedKey::ArrowLeft => Some(ClientKeyCode::Left),
        NamedKey::ArrowRight => Some(ClientKeyCode::Right),
        NamedKey::ArrowUp => Some(ClientKeyCode::Up),
        NamedKey::ArrowDown => Some(ClientKeyCode::Down),
        NamedKey::Home => Some(ClientKeyCode::Home),
        NamedKey::End => Some(ClientKeyCode::End),
        NamedKey::PageUp => Some(ClientKeyCode::PageUp),
        NamedKey::PageDown => Some(ClientKeyCode::PageDown),
        NamedKey::Delete => Some(ClientKeyCode::Delete),
        NamedKey::Insert => Some(ClientKeyCode::Insert),
        NamedKey::F(n) => if 1 <= n && n <= 12 { Some(ClientKeyCode::F(n)) } else { None },
        NamedKey::Unmapped => None,
    }
}

pub open spec fn is_ascii_alphabetic(c: char) -> bool {
    ('a' <= c <= 'z') || ('A' <= c <= 'Z')
}

/// The key event for a key press or repeat: named keys carry all held
/// modifiers; characters carry the non-shift modifiers, plus `SHIFT` for
/// ASCII letters typed with shift held (symbols carry their shifted form in
/// the character itself). Releases, characterless text, and keys without a
/// terminal meaning give no event.
pub open spec fn spec_translate_key(logical: Key, state: Modifiers, element: ElementState, repeat: bool) -> Option<
    ClientInputEvent,
> {
    let kind = if repeat { ClientKeyKind::Repeat } else { ClientKeyKind::Press };
    if element != ElementState::Pressed {
        None
    } else {
        match logical {
            Key::Named(named) => match spec_named_code(named, state.shift) {
                Some(code) => Some(ClientInputEvent::Key { code, modifiers: spec_modifier_bits(state), kind }),
                None => None,
            },
            Key::Character(text) => if text@.len() == 0 {
                None
            } else {
                let ch = text@[0];
                let bits = if state.shift && is_ascii_alphabetic(ch) {
                    (spec_non_shift_bits(state) + SHIFT) as u8
                } else {
                    spec_non_shift_bits(state)
                };
                Some(ClientInputEvent::Key { code: ClientKeyCode::Char(ch), modifiers: bits, kind })
            },
            Key::Other => None,
        }
    }
}

/// Translates a logical key into a client key event.
///
/// Returns `None` for keys that have no terminal meaning (dead keys, bare
/// modifier presses, unidentified keys) and for releases.
pub fn translate_key(logical: &Key, state: Modifiers, element: ElementState, repeat: bool) -> (event: Option<
    ClientInputEvent,
>)
    ensures
        event == spec_translate_key(*logical, state, element, repeat),
{
    // The terminal pipeline only expects key-down/repeat events, matching how
    // a real terminal delivers input. Releases are dropped to avoid double
    // processing.
    if element != ElementState::Pressed {
        return None;
    }
    let kind = if repeat { ClientKeyKind::Repeat } else { ClientKeyKind::Press };
    match logical {
        Key::Named(named) => {
            let code = named_code(*named, state.shift);
            match code {
                Some(code) => Some(ClientInputEvent::Key { code, modifiers: modifier_bits(state), kind }),
                None => None,
            }
        },
        Key::Character(text) => {
            if text.as_str().unicode_len() == 0 {
                return None;
            }
            let ch = text.as_str().get_char(0);
            let mut bits = non_shift_bits(state);
            if state.shift && (('a' <= ch && ch <= 'z') || ('A' <= ch && ch <= 'Z')) {
                bits = bits + SHIFT;
            }
            Some(ClientInputEvent::Key { code: ClientKeyCode::Char(ch), modifiers: bits, kind })
        },
        Key::Other => None,
    }
}

/// Maps a pointer button to the protocol button.
pub fn mouse_button(button: MouseButton) -> (b: Option<ClientMouseButton>)
    ensures
        b == match button {
            MouseButton::Left => Some(ClientMouseButton::Left),
            MouseButton::Right => Some(ClientMouseButton::Right),
            MouseButton::Middle => Some(ClientMouseButton::Middle),
            MouseButton::Other => None::<ClientMouseButton>,
        },
{
    match button {
        MouseButton::Left => Some(ClientMouseButton::Left),
        MouseButton::Right => Some(ClientMouseButton::Right),
        MouseButton::Middle => Some(ClientMouseButton::Middle),
        MouseButton::Other => None,
    }
}

/// The cell under a pixel, clamped to the last column and row; `(0, 0)`
/// for a degenerate grid.
pub open spec fn spec_pixel_to_cell(x: int, y: int, cell_w: int, cell_h: int, cols: int, rows: int) -> (u16, u16) {
    if cell_w == 0 || cell_h == 0 || cols == 0 || rows == 0 {
        (0, 0)
    } else {
        (
            (if x / cell_w < cols - 1 { x / cell_w } else { cols - 1 }) as u16,
            (if y / cell_h < rows - 1 { y / cell_h } else { rows - 1 }) as u16,
        )
    }
}

/// Converts pixel coordinates (whole pixels) into a clamped (column, row)
/// cell address.
pub fn pixel_to_cell(x: usize, y: usize, cell_w: usize, cell_h: usize, cols: u16, rows: u16) -> (cell: (u16, u16))
    ensures
        cell == spec_pixel_to_cell(x as int, y as int, cell_w as int, cell_h as int, cols as int, rows as int),
{
    if cell_w == 0 || cell_h == 0 || cols == 0 || rows == 0 {
        return (0, 0);
    }
    let col: usize = x / cell_w;
    let row: usize = y / cell_h;
    let max_col: usize = cols as usize - 1;
    let max_row: usize = rows as usize - 1;
    (
        (if col < max_col { col } else { max_col }) as u16,
        (if row < max_row { row } else { max_row }) as u16,
    )
}

/// Released keys never reach the terminal.
pub proof fn lemma_releases_dropped(logical: Key, state: Modifiers, repeat: bool)
    ensures
        spec_translate_key(logical, state, ElementState::Released, repeat) is None,
{
}

/// A cell address is always inside a non-degenerate grid.
pub proof fn lemma_pixel_to_cell_in_grid(x: int, y: int, cell_w: int, cell_h: int, cols: int, rows: int)
    requires
        0 <= x,
        0 <= y,
        0 < cell_w,
        0 < cell_h,
        0 < cols <= 0xFFFF,
        0 < rows <= 0xFFFF,
    ensures
        spec_pixel_to_cell(x, y, cell_w, cell_h, cols, rows).0 < cols,
        spec_pixel_to_cell(x, y, cell_w, cell_h, cols, rows).1 < rows,
{
    assert(x / cell_w >= 0) by (nonlinear_arith)
        requires
            0 <= x,
            0 < cell_w,
    ;
    assert(y / cell_h >= 0) by (nonlinear_arith)
        requires
            0 <= y,
            0 < cell_h,
    ;
}

/// The scroll events of a wheel movement, from the signs of its vertical
/// and horizontal deltas (positive is up and right): the vertical event
/// first, then the horizontal one; a zero delta gives none.
pub open spec fn spec_scroll_kinds(vertical: i8, horizontal: i8) -> Seq<ClientMouseKind> {
    let v: Seq<ClientMouseKind> = if vertical > 0 {
        seq![ClientMouseKind::ScrollUp]
    } else if vertical < 0 {
        seq![ClientMouseKind::ScrollDown]
    } else {
        seq![]
    };
    let h: Seq<ClientMouseKind> = if horizontal > 0 {
        seq![ClientMouseKind::ScrollRight]
    } else if horizontal < 0 {
        seq![ClientMouseKind::ScrollLeft]
    } else {
        seq![]
    };
    v + h
}

pub fn scroll_kinds(vertical: i8, horizontal: i8) -> (kinds: Vec<ClientMouseKind>)
    ensures
        kinds@ == spec_scroll_kinds(vertical, horizontal),
{
    let mut kinds: Vec<ClientMouseKind> = Vec::new();
    if vertical > 0 {
        kinds.push(ClientMouseKind::ScrollUp);
    } else if vertical < 0 {
        kinds.push(ClientMouseKind::ScrollDown);
    }
    if horizontal > 0 {
        kinds.push(ClientMouseKind::ScrollRight);
    } else if horizontal < 0 {
        kinds.push(ClientMouseKind::ScrollLeft);
    }
    assert(kinds@ =~= spec_scroll_kinds(vertical, horizontal));
    kinds
}

/// The key event of a press (or repeat) of `code` with `state` held.
pub open spec fn key_event(code: ClientKeyCode, state: Modifiers, repeat: bool) -> Option<ClientInputEvent> {
    Some(
        ClientInputEvent::Key {
            code,
            modifiers: spec_modifier_bits(state),
            kind: if repeat { ClientKeyKind::Repeat } else { ClientKeyKind::Press },
        },
    )
}

/// Each named key reaches the terminal as the key of the same meaning,
/// whatever modifiers are held and whether it repeats: the arrows as the
/// arrow of the same direction, Home/End, PageUp/PageDown, Delete/Insert,
/// Enter, Backspace and Escape as themselves, Space as a space character,
/// Tab as Tab (BackTab with shift), F1..F12 as the function key of the
/// same number; other function numbers and unmapped keys send nothing.
pub proof fn lemma_named_keys_keep_their_meaning(state: Modifiers, repeat: bool, n: u8)
    ensures
        spec_translate_key(Key::Named(NamedKey::ArrowLeft), state, ElementState::Pressed, repeat) == key_event(ClientKeyCode::Left, state, repeat),
        spec_translate_key(Key::Named(NamedKey::ArrowRight), state, ElementState::Pressed, repeat) == key_event(ClientKeyCode::Right, state, repeat),
        spec_translate_key(Key::Named(NamedKey::ArrowUp), state, ElementState::Pressed, repeat) == key_event(ClientKeyCode::Up, state, repeat),
        spec_translate_key(Key::Named(NamedKey::ArrowDown), state, ElementState::Pressed, repeat) == key_event(ClientKeyCode::Down, state, repeat),
        spec_translate_key(Key::Named(NamedKey::Home), state, ElementState::Pressed, repeat) == key_event(ClientKeyCode::Home, state, repeat),
        spec_translate_key(Key::Named(NamedKey::End), state, ElementState::Pressed, repeat) == key_event(ClientKeyCode::End, state, repeat),
        spec_translate_key(Key::Named(NamedKey::PageUp), state, ElementState::Pressed, repeat) == key_event(ClientKeyCode::PageUp, state, repeat),
        spec_translate_key(Key::Named(NamedKey::PageDown), state, ElementState::Pressed, repeat) == key_event(ClientKeyCode::PageDown, state, repeat),
        spec_translate_key(Key::Named(NamedKey::Delete), state, ElementState::Pressed, repeat) == key_event(ClientKeyCode::Delete, state, repeat),
        spec_translate_key(Key::Named(NamedKey::Insert), state, ElementState::Pressed, repeat) == key_event(ClientKeyCode::Insert, state, repeat),
        spec_translate_key(Key::Named(NamedKey::Enter), state, ElementState::Pressed, repeat) == key_event(ClientKeyCode::Enter, state, repeat),
        spec_translate_key(Key::Named(NamedKey::Backspace), state, ElementState::Pressed, repeat) == key_event(ClientKeyCode::Backspace, state, repeat),
        spec_translate_key(Key::Named(NamedKey::Escape), state, ElementState::Pressed, repeat) == key_event(ClientKeyCode::Esc, state, repeat),
        spec_translate_key(Key::Named(NamedKey::Space), state, ElementState::Pressed, repeat) == key_event(ClientKeyCode::Char(' '), state, repeat),
        spec_translate_key(Key::Named(NamedKey::Tab), state, ElementState::Pressed, repeat) == key_event(
            if state.shift { ClientKeyCode::BackTab } else { ClientKeyCode::Tab },
            state,
            repeat,
        ),
        spec_translate_key(Key::Named(NamedKey::F(n)), state, ElementState::Pressed, repeat) == if 1 <= n <= 12 {
            key_event(ClientKeyCode::F(n), state, repeat)
        } else {
            None
        },
        spec_translate_key(Key::Named(NamedKey::Unmapped), state, ElementState::Pressed, repeat) is None,
{
}

/// The modifier byte of a named key has crossterm's bits: 1 for shift, 2
/// for control, 4 for alt and 8 for super, each set exactly when that
/// modifier is held.
pub proof fn lemma_modifier_bits_are_crossterm(state: Modifiers)
    ensures
        spec_modifier_bits(state) == (if state.shift { 1int } else { 0 }) + (if state.control { 2int } else { 0 }) + (
        if state.alt { 4int } else { 0 }) + (if state.super_key { 8int } else { 0 }),
{
}

/// A typed character reaches the terminal as that same character; shift
/// is reported only for ASCII letters, every other modifier as held.
pub proof fn lemma_characters_are_sent_as_typed(text: String, state: Modifiers, repeat: bool)
    requires
        text@.len() > 0,
    ensures
        ({
            let ch = text@[0];
            let others = (if state.control { 2int } else { 0 }) + (if state.alt { 4int } else { 0 }) + (if state.super_key {
                8int
            } else {
                0
            });
            let letter = ('a' <= ch <= 'z') || ('A' <= ch <= 'Z');
            spec_translate_key(Key::Character(text), state, ElementState::Pressed, repeat) == Some(
                ClientInputEvent::Key {
                    code: ClientKeyCode::Char(ch),
                    modifiers: (others + if state.shift && letter { 1int } else { 0 }) as u8,
                    kind: if repeat { ClientKeyKind::Repeat } else { ClientKeyKind::Press },
                },
            )
        }),
{
}

/// Wheel movement scrolls the way it goes: up for a positive vertical
/// delta, down for a negative one, right for a positive horizontal delta,
/// left for a negative one, nothing for none; a diagonal movement gives
/// the vertical scroll then the horizontal one.
pub proof fn lemma_scroll_follows_the_wheel(vertical: i8, horizontal: i8)
    ensures
        spec_scroll_kinds(vertical, horizontal) == spec_scroll_kinds(vertical, 0) + spec_scroll_kinds(0, horizontal),
        vertical > 0 ==> spec_scroll_kinds(vertical, 0) == seq![ClientMouseKind::ScrollUp],
        vertical < 0 ==> spec_scroll_kinds(vertical, 0) == seq![ClientMouseKind::ScrollDown],
        horizontal > 0 ==> spec_scroll_kinds(0, horizontal) == seq![ClientMouseKind::ScrollRight],
        horizontal < 0 ==> spec_scroll_kinds(0, horizontal) == seq![ClientMouseKind::ScrollLeft],
        spec_scroll_kinds(0, 0).len() == 0,
{
    assert(spec_scroll_kinds(vertical, horizontal) =~= spec_scroll_kinds(vertical, 0) + spec_scroll_kinds(0, horizontal));
}

} // verus!
