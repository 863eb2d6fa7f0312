//! Logical key events: a key code and the modifier keys held with it.

use vstd::prelude::*;

verus! {

/// Bit of the Shift modifier.
pub const SHIFT: u8 = 0b0000_0001;

/// Bit of the Control modifier.
pub const CONTROL: u8 = 0b0000_0010;

/// Bit of the Alt modifier.
pub const ALT: u8 = 0b0000_0100;

/// No modifier at all.
pub const NONE: u8 = 0b0000_0000;

/// The modifier keys held during a key press, one bit each.
#[derive(Clone, Copy, Debug, PartialEq, Eq, Structural)]
pub struct KeyModifiers {
    pub bits: u8,
}

impl KeyModifiers {
    /// Whether every bit of `flags` is set.
    pub open spec fn has(self, flags: u8) -> bool {
        self.bits & flags == flags
    }

    pub fn new(bits: u8) -> (m: KeyModifiers)
        ensures
            m.bits == bits,
    {
        KeyModifiers { bits }
    }

    pub fn contains(&self, flags: u8) -> (r: bool)
        ensures
            r == self.has(flags),
    {
        self.bits & flags == flags
    }
}

/// The key that was pressed.
#[derive(Clone, Copy, Debug, PartialEq, Eq, Structural)]
pub enum KeyCode {
    Backspace,
    Enter,
    Left,
    Right,
    Up,
    Down,
    Home,
    End,
    PageUp,
    PageDown,
    Tab,
    BackTab,
    Delete,
    Insert,
    F(u8),
    Char(char),
    Null,
    Esc,
}

/// A key press: the key and the modifiers held with it.
///
/// `==` on two events compares them after case folding (see [`folded`]), so
/// `Shift+a`, `Shift+A` and a bare `A` are one and the same key.
#[derive(Clone, Copy, Debug)]
pub struct KeyEvent {
    pub code: KeyCode,
    pub modifiers: KeyModifiers,
}

pub open spec fn is_ascii_upper(c: char) -> bool {
    'A' <= c && c <= 'Z'
}

pub open spec fn is_ascii_lower(c: char) -> bool {
    'a' <= c && c <= 'z'
}

/// The upper-case form of an ASCII lower-case letter; any other character is
/// left as it is.
pub open spec fn ascii_upper(c: char) -> char {
    if is_ascii_lower(c) {
        ((c as u32) - 32) as char
    } else {
        c
    }
}

/// `char::is_ascii_uppercase` of std: true exactly for `'A'..='Z'`.
pub assume_specification[ char::is_ascii_uppercase ](c: &char) -> (r: bool)
    ensures
        r == is_ascii_upper(*c),
;

/// `char::to_ascii_uppercase` of std: maps `'a'..='z'` onto `'A'..='Z'` and
/// leaves every other character unchanged.
pub assume_specification[ char::to_ascii_uppercase ](c: &char) -> (r: char)
    ensures
        r == ascii_upper(*c),
;

/// The event with its letter case made canonical: an upper-case letter always
/// carries Shift, and Shift on any other character upper-cases it.
pub open spec fn folded(e: KeyEvent) -> KeyEvent {
    match e.code {
        KeyCode::Char(c) => if is_ascii_upper(c) {
            KeyEvent { code: e.code, modifiers: KeyModifiers { bits: e.modifiers.bits | SHIFT } }
        } else if e.modifiers.has(SHIFT) {
            KeyEvent { code: KeyCode::Char(ascii_upper(c)), modifiers: e.modifiers }
        } else {
            e
        },
        _ => e,
    }
}

/// Two events denote the same key when they agree after case folding.
pub open spec fn same_key(a: KeyEvent, b: KeyEvent) -> bool {
    folded(a) == folded(b)
}

impl KeyEvent {
    pub fn new(code: KeyCode, modifiers: KeyModifiers) -> (e: KeyEvent)
        ensures
            e.code == code,
            e.modifiers == modifiers,
    {
        KeyEvent { code, modifiers }
    }

    /// The case-folded form of this event.
    pub fn normalize_case(self) -> (e: KeyEvent)
        ensures
            e == folded(self),
    {
        match self.code {
            KeyCode::Char(c) => {
                if c.is_ascii_uppercase() {
                    KeyEvent {
                        code: self.code,
                        modifiers: KeyModifiers { bits: self.modifiers.bits | SHIFT },
                    }
                } else if self.modifiers.contains(SHIFT) {
                    KeyEvent { code: KeyCode::Char(c.to_ascii_uppercase()), modifiers: self.modifiers }
                } else {
                    self
                }
            },
            _ => self,
        }
    }
}

impl PartialEq for KeyEvent {
    fn eq(&self, other: &KeyEvent) -> (r: bool) {
        let a = self.normalize_case();
        let b = other.normalize_case();
        a.code == b.code && a.modifiers == b.modifiers
    }
}

impl vstd::std_specs::cmp::PartialEqSpecImpl for KeyEvent {
    open spec fn obeys_eq_spec() -> bool {
        true
    }

    open spec fn eq_spec(&self, other: &KeyEvent) -> bool {
        same_key(*self, *other)
    }
}

impl Eq for KeyEvent {

}

} // verus!
