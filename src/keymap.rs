use vstd::prelude::*;
use crate::machine::KEYBOARD_SIZE;

verus! {

/// The keypad key that a character of a QWERTY keyboard stands for. The
/// block `1234 / qwer / asdf / zxcv` lies over the keypad
/// `123C / 456D / 789E / A0BF`.
pub open spec fn key_map_spec(c: char) -> Option<u8> {
    if c == '1' {
        Some(0x1)
    } else if c == '2' {
        Some(0x2)
    } else if c == '3' {
        Some(0x3)
    } else if c == '4' {
        Some(0xC)
    } else if c == 'q' {
        Some(0x4)
    } else if c == 'w' {
        Some(0x5)
    } else if c == 'e' {
        Some(0x6)
    } else if c == 'r' {
        Some(0xD)
    } else if c == 'a' {
        Some(0x7)
    } else if c == 's' {
        Some(0x8)
    } else if c == 'd' {
        Some(0x9)
    } else if c == 'f' {
        Some(0xE)
    } else if c == 'z' {
        Some(0xA)
    } else if c == 'x' {
        Some(0x0)
    } else if c == 'c' {
        Some(0xB)
    } else if c == 'v' {
        Some(0xF)
    } else {
        None
    }
}

/// The keypad key for a keyboard character, if it stands for one.
pub fn key_map(c: char) -> (r: Option<u8>)
    ensures
        r == key_map_spec(c),
        r matches Some(k) ==> k < KEYBOARD_SIZE,
{
    match c {
        '1' => Some(0x1),
        '2' => Some(0x2),
        '3' => Some(0x3),
        '4' => Some(0xC),
        'q' => Some(0x4),
        'w' => Some(0x5),
        'e' => Some(0x6),
        'r' => Some(0xD),
        'a' => Some(0x7),
        's' => Some(0x8),
        'd' => Some(0x9),
        'f' => Some(0xE),
        'z' => Some(0xA),
        'x' => Some(0x0),
        'c' => Some(0xB),
        'v' => Some(0xF),
        _ => None,
    }
}

} // verus!
