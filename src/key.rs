use vstd::prelude::*;

verus! {

/// The sixteen logical keys of the CHIP-8 keypad.
#[derive(Debug, PartialEq, Eq, Structural, Clone, Copy)]
pub enum Key {
    Code0,
    Code1,
    Code2,
    Code3,
    Code4,
    Code5,
    Code6,
    Code7,
    Code8,
    Code9,
    CodeA,
    CodeB,
    CodeC,
    CodeD,
    CodeE,
    CodeF,
}

// Keycodes of the physical keys in the keypad layout; for these keys the
// code is that of the (lowercase) character printed on the key.
pub const KEYCODE_1: i32 = 0x31;

pub const KEYCODE_2: i32 = 0x32;

pub const KEYCODE_3: i32 = 0x33;

pub const KEYCODE_4: i32 = 0x34;

pub const KEYCODE_Q: i32 = 0x71;

pub const KEYCODE_W: i32 = 0x77;

pub const KEYCODE_E: i32 = 0x65;

pub const KEYCODE_R: i32 = 0x72;

pub const KEYCODE_A: i32 = 0x61;

pub const KEYCODE_S: i32 = 0x73;

pub const KEYCODE_D: i32 = 0x64;

pub const KEYCODE_F: i32 = 0x66;

pub const KEYCODE_Z: i32 = 0x7A;

pub const KEYCODE_X: i32 = 0x78;

pub const KEYCODE_C: i32 = 0x63;

pub const KEYCODE_V: i32 = 0x76;

/// The keypad layout on a QWERTY keyboard:
///
/// ```text
/// 1 2 3 4        1 2 3 C
/// Q W E R   -->  4 5 6 D
/// A S D F        7 8 9 E
/// Z X C V        A 0 B F
/// ```
pub open spec fn key_for_code(code: i32) -> Option<Key> {
    if code == KEYCODE_1 {
        Some(Key::Code1)
    } else if code == KEYCODE_2 {
        Some(Key::Code2)
    } else if code == KEYCODE_3 {
        Some(Key::Code3)
    } else if code == KEYCODE_4 {
        Some(Key::CodeC)
    } else if code == KEYCODE_Q {
        Some(Key::Code4)
    } else if code == KEYCODE_W {
        Some(Key::Code5)
    } else if code == KEYCODE_E {
        Some(Key::Code6)
    } else if code == KEYCODE_R {
        Some(Key::CodeD)
    } else if code == KEYCODE_A {
        Some(Key::Code7)
    } else if code == KEYCODE_S {
        Some(Key::Code8)
    } else if code == KEYCODE_D {
        Some(Key::Code9)
    } else if code == KEYCODE_F {
        Some(Key::CodeE)
    } else if code == KEYCODE_Z {
        Some(Key::CodeA)
    } else if code == KEYCODE_X {
        Some(Key::Code0)
    } else if code == KEYCODE_C {
        Some(Key::CodeB)
    } else if code == KEYCODE_V {
        Some(Key::CodeF)
    } else {
        None
    }
}

impl Key {
    /// The key's code, `0x0..=0xF`.
    pub open spec fn spec_value(self) -> u8 {
        match self {
            Key::Code0 => 0x0,
            Key::Code1 => 0x1,
            Key::Code2 => 0x2,
            Key::Code3 => 0x3,
            Key::Code4 => 0x4,
            Key::Code5 => 0x5,
            Key::Code6 => 0x6,
            Key::Code7 => 0x7,
            Key::Code8 => 0x8,
            Key::Code9 => 0x9,
            Key::CodeA => 0xA,
            Key::CodeB => 0xB,
            Key::CodeC => 0xC,
            Key::CodeD => 0xD,
            Key::CodeE => 0xE,
            Key::CodeF => 0xF,
        }
    }

    /// The key's code, `0x0..=0xF`.
    pub fn value(self) -> (r: u8)
        ensures
            r == self.spec_value(),
            r < 16,
    {
        match self {
            Key::Code0 => 0x0,
            Key::Code1 => 0x1,
            Key::Code2 => 0x2,
            Key::Code3 => 0x3,
            Key::Code4 => 0x4,
            Key::Code5 => 0x5,
            Key::Code6 => 0x6,
            Key::Code7 => 0x7,
            Key::Code8 => 0x8,
            Key::Code9 => 0x9,
            Key::CodeA => 0xA,
            Key::CodeB => 0xB,
            Key::CodeC => 0xC,
            Key::CodeD => 0xD,
            Key::CodeE => 0xE,
            Key::CodeF => 0xF,
        }
    }

    /// The logical key bound to a physical keycode, if any.
    pub fn from_keycode(code: i32) -> (r: Option<Key>)
        ensures
            r == key_for_code(code),
    {
        match code {
            KEYCODE_1 => Some(Key::Code1),
            KEYCODE_2 => Some(Key::Code2),
            KEYCODE_3 => Some(Key::Code3),
            KEYCODE_4 => Some(Key::CodeC),
            KEYCODE_Q => Some(Key::Code4),
            KEYCODE_W => Some(Key::Code5),
            KEYCODE_E => Some(Key::Code6),
            KEYCODE_R => Some(Key::CodeD),
            KEYCODE_A => Some(Key::Code7),
            KEYCODE_S => Some(Key::Code8),
            KEYCODE_D => Some(Key::Code9),
            KEYCODE_F => Some(Key::CodeE),
            KEYCODE_Z => Some(Key::CodeA),
            KEYCODE_X => Some(Key::Code0),
            KEYCODE_C => Some(Key::CodeB),
            KEYCODE_V => Some(Key::CodeF),
            _ => None,
        }
    }
}

} // verus!
