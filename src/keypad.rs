//! Where the sixteen CHIP-8 keys sit on a host keyboard.
//!
//! The CHIP-8 keypad is a 4x4 block laid out
//!
//! ```text
//! 1 2 3 C
//! 4 5 6 D
//! 7 8 9 E
//! A 0 B F
//! ```
//!
//! and each key is played by the host key at the same place in the block
//! `1 2 3 4 / Q W E R / A S D F / Z X C V` of a QWERTY keyboard.

use vstd::prelude::*;

verus! {

/// A host keyboard key of the block that plays the keypad.
#[derive(Debug, Clone, Copy, PartialEq, Eq, Structural)]
pub enum HostKey {
    Key1,
    Key2,
    Key3,
    Key4,
    Q,
    W,
    E,
    R,
    A,
    S,
    D,
    F,
    Z,
    X,
    C,
    V,
}

/// The place of CHIP-8 key `k` in its 4x4 keypad, counted row by row.
pub open spec fn keypad_position(k: int) -> int {
    if k == 0x1 { 0 }
    else if k == 0x2 { 1 }
    else if k == 0x3 { 2 }
    else if k == 0xC { 3 }
    else if k == 0x4 { 4 }
    else if k == 0x5 { 5 }
    else if k == 0x6 { 6 }
    else if k == 0xD { 7 }
    else if k == 0x7 { 8 }
    else if k == 0x8 { 9 }
    else if k == 0x9 { 10 }
    else if k == 0xE { 11 }
    else if k == 0xA { 12 }
    else if k == 0x0 { 13 }
    else if k == 0xB { 14 }
    else { 15 }
}

/// The host key at place `p` of the block, counted row by row.
pub open spec fn host_key_at(p: int) -> HostKey {
    if p == 0 { HostKey::Key1 }
    else if p == 1 { HostKey::Key2 }
    else if p == 2 { HostKey::Key3 }
    else if p == 3 { HostKey::Key4 }
    else if p == 4 { HostKey::Q }
    else if p == 5 { HostKey::W }
    else if p == 6 { HostKey::E }
    else if p == 7 { HostKey::R }
    else if p == 8 { HostKey::A }
    else if p == 9 { HostKey::S }
    else if p == 10 { HostKey::D }
    else if p == 11 { HostKey::F }
    else if p == 12 { HostKey::Z }
    else if p == 13 { HostKey::X }
    else if p == 14 { HostKey::C }
    else { HostKey::V }
}

/// The host key that plays CHIP-8 key `key`: the one at the same place in
/// its block. A number above 0xF gets the last key of the block.
pub fn map_hex_value_to_key(key: u8) -> (host: HostKey)
    ensures
        host == host_key_at(keypad_position(key as int)),
{
    match key {
        0x1 => HostKey::Key1,
        0x2 => HostKey::Key2,
        0x3 => HostKey::Key3,
        0xC => HostKey::Key4,
        0x4 => HostKey::Q,
        0x5 => HostKey::W,
        0x6 => HostKey::E,
        0xD => HostKey::R,
        0x7 => HostKey::A,
        0x8 => HostKey::S,
        0x9 => HostKey::D,
        0xE => HostKey::F,
        0xA => HostKey::Z,
        0x0 => HostKey::X,
        0xB => HostKey::C,
        _ => HostKey::V,
    }
}

} // verus!
