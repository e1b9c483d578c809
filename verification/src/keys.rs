//! Key events as the terminal front end hands them to the dialogs: a key
//! code and a set of modifier keys.

use vstd::prelude::*;

verus! {

/// Which key was pressed.
#[derive(PartialEq, Eq, Structural, Clone, Copy, Debug)]
pub enum KeyCode {
    Backspace,
    Enter,
    Left,
    Right,
    Up,
    Down,
    Home,
    End,
    PageUp,
    PageDown,
    Tab,
    BackTab,
    Delete,
    Insert,
    F(u8),
    Char(char),
    Null,
    Esc,
}

/// Names for the modifier bits of a key event: a key event holds the
/// modifier keys as a `u8`, one bit each.
pub struct KeyModifiers;

impl KeyModifiers {
    pub const NONE: u8 = 0u8;

    pub const SHIFT: u8 = 1u8;

    pub const CONTROL: u8 = 2u8;

    pub const ALT: u8 = 4u8;

    pub const SUPER: u8 = 8u8;

    pub const HYPER: u8 = 16u8;

    pub const META: u8 = 32u8;

    /// No modifier held.
    pub fn empty() -> (r: u8)
        ensures
            r == 0,
    {
        0u8
    }
}

/// Whether every modifier bit of `wanted` is held in `held`.
pub fn has_modifier(held: u8, wanted: u8) -> (r: bool)
    ensures
        r == (held & wanted == wanted),
{
    held & wanted == wanted
}

/// One key press.
#[derive(PartialEq, Eq, Structural, Clone, Copy, Debug)]
pub struct KeyEvent {
    pub code: KeyCode,
    /// The modifier bits held (see `KeyModifiers`).
    pub modifiers: u8,
}

impl KeyEvent {
    pub fn new(code: KeyCode, modifiers: u8) -> (r: KeyEvent)
        ensures
            r.code == code,
            r.modifiers == modifiers,
    {
        KeyEvent { code, modifiers }
    }
}

} // verus!
