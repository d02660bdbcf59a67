//! Key presses as plain values.

use vstd::prelude::*;

verus! {

pub const KEY_BACKSPACE: u32 = 0xff08;

pub const KEY_TAB: u32 = 0xff09;

pub const KEY_RETURN: u32 = 0xff0d;

pub const KEY_ESCAPE: u32 = 0xff1b;

pub const KEY_HOME: u32 = 0xff50;

pub const KEY_LEFT: u32 = 0xff51;

pub const KEY_UP: u32 = 0xff52;

pub const KEY_RIGHT: u32 = 0xff53;

pub const KEY_DOWN: u32 = 0xff54;

pub const KEY_END: u32 = 0xff57;

pub const KEY_KP_ENTER: u32 = 0xff8d;

pub const KEY_F1: u32 = 0xffbe;

pub const KEY_SHIFT_L: u32 = 0xffe1;

pub const KEY_SHIFT_R: u32 = 0xffe2;

pub const KEY_DELETE: u32 = 0xffff;

/// A key: its keysym, and the character it stands for, if any.
#[derive(Clone, Copy, Debug, PartialEq, Eq, Structural)]
pub struct Key {
    pub code: u32,
    pub unicode: Option<char>,
}

impl Key {
    /// A key that stands for no character.
    pub fn named(code: u32) -> (res: Key)
        ensures
            res == (Key { code, unicode: None }),
    {
        Key { code, unicode: None }
    }

    /// The key of an ASCII character, whose keysym is its code point.
    pub open spec fn of_char(c: char) -> Key {
        Key { code: c as u32, unicode: Some(c) }
    }

    /// The key of an ASCII character, whose keysym is its code point.
    pub fn from_char(c: char) -> (res: Key)
        requires
            c as u32 <= 0x7f,
        ensures
            res == Key::of_char(c),
    {
        Key { code: c as u32, unicode: Some(c) }
    }

    pub open spec fn is_enter_key(self) -> bool {
        self.code == KEY_RETURN || self.code == KEY_KP_ENTER
    }

    /// Return, on the main block or on the keypad.
    pub fn is_enter(&self) -> (res: bool)
        ensures
            res == self.is_enter_key(),
    {
        self.code == KEY_RETURN || self.code == KEY_KP_ENTER
    }
}

/// The modifiers held during a key press or a click.
#[derive(Clone, Copy, Debug, PartialEq, Eq, Structural)]
pub struct Modifiers {
    pub control: bool,
    pub shift: bool,
    pub alt: bool,
    pub super_key: bool,
}

impl Modifiers {
    pub open spec fn no_modifiers() -> Modifiers {
        Modifiers { control: false, shift: false, alt: false, super_key: false }
    }

    /// No modifier held.
    pub fn none() -> (res: Modifiers)
        ensures
            res == Modifiers::no_modifiers(),
    {
        Modifiers { control: false, shift: false, alt: false, super_key: false }
    }

    pub open spec fn is_chord_state(self) -> bool {
        self.control || self.alt || self.super_key
    }

    /// Control, Alt or Super is held: the key belongs to an accelerator. Shift is none of them.
    pub fn is_chord(&self) -> (res: bool)
        ensures
            res == self.is_chord_state(),
    {
        self.control || self.alt || self.super_key
    }
}

/// The character is a control code (Unicode category Cc).
pub open spec fn is_control_char(c: char) -> bool {
    c as u32 <= 0x1f || 0x7f <= c as u32 <= 0x9f
}

/// Tells whether the character is a control code.
pub fn is_control(c: char) -> (res: bool)
    ensures
        res == is_control_char(c),
{
    let v: u32 = c as u32;
    v <= 0x1f || (0x7f <= v && v <= 0x9f)
}

/// A character's key types it, the two Enter keys are Enter, and Shift alone is no chord.
pub proof fn keys_are_what_they_are_called(c: char, key: Key, state: Modifiers)
    ensures
        Key::of_char(c).unicode == Some(c) && Key::of_char(c).code == c as u32,
        key.is_enter_key() <==> key.code == KEY_RETURN || key.code == KEY_KP_ENTER,
        state.is_chord_state() <==> !(!state.control && !state.alt && !state.super_key),
        !Modifiers::no_modifiers().is_chord_state() && !Modifiers::no_modifiers().shift,
{
}

/// The control characters are those before the space, and those from Delete on to the last one
/// before the printable characters of the second half of Latin-1.
pub proof fn printable_characters_are_no_control(c: char)
    ensures
        ' ' <= c && c <= '~' ==> !is_control_char(c),
        c as u32 >= 0xa0 ==> !is_control_char(c),
        c < ' ' ==> is_control_char(c),
        c > '~' && (c as u32) < 0xa0 ==> is_control_char(c),
{
}

} // verus!
