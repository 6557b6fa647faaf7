//! Keys, as the terminal reports them.

use vstd::prelude::*;

verus! {

/// A key by itself.
#[derive(Clone, Copy, Debug, PartialEq, Eq, Structural)]
pub enum BareKey {
    PageDown,
    PageUp,
    Left,
    Down,
    Up,
    Right,
    Home,
    End,
    Backspace,
    Delete,
    Insert,
    F(u8),
    Char(char),
    Tab,
    Esc,
    Enter,
    CapsLock,
    ScrollLock,
    NumLock,
    PrintScreen,
    Pause,
    Menu,
}

/// A key with the modifiers that were held.
#[derive(Clone, Copy, Debug, PartialEq, Eq, Structural)]
pub struct KeyWithModifier {
    pub bare_key: BareKey,
    pub ctrl: bool,
    pub alt: bool,
    pub shift: bool,
    pub super_key: bool,
}

impl KeyWithModifier {
    /// No modifier was held.
    pub open spec fn unmodified(self) -> bool {
        !self.ctrl && !self.alt && !self.shift && !self.super_key
    }

    /// The key alone.
    pub open spec fn is_bare(self, key: BareKey) -> bool {
        self.bare_key == key && self.unmodified()
    }

    /// The key with Ctrl, whatever else was held.
    pub open spec fn is_ctrl(self, c: char) -> bool {
        self.bare_key == BareKey::Char(c) && self.ctrl
    }

    /// Whether it is the key and no modifier was held.
    pub fn is_key_without_modifier(&self, key: BareKey) -> (r: bool)
        ensures
            r == self.is_bare(key),
    {
        self.bare_key == key && self.has_no_modifiers()
    }

    /// Whether it is the key of the character and Ctrl was among what was held.
    pub fn is_key_with_ctrl_modifier(&self, c: char) -> (r: bool)
        ensures
            r == self.is_ctrl(c),
    {
        self.bare_key == BareKey::Char(c) && self.ctrl
    }

    /// Whether no modifier was held.
    pub fn has_no_modifiers(&self) -> (r: bool)
        ensures
            r == self.unmodified(),
    {
        !self.ctrl && !self.alt && !self.shift && !self.super_key
    }
}

}
