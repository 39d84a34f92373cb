//! Key presses for the game's window.

use vstd::prelude::*;

verus! {

/// How long a key that is to be held stays down, in milliseconds.
pub const HOLD_MS: u32 = 80;

/// The virtual key of a function key.
pub fn fkey_vk(n: u8) -> (r: Option<u32>)
    ensures
        r == if 1 <= n <= 12 {
            Some((0x6F + n) as u32)
        } else {
            None
        },
{
    if 1 <= n && n <= 12 {
        Some(0x6F + n as u32)
    } else {
        None
    }
}

/// The scan code of a function key.
pub open spec fn scancode(n: u8) -> int {
    if n <= 10 {
        0x3B + n - 1
    } else if n == 11 {
        0x57
    } else {
        0x58
    }
}

/// The two messages of a key press.
#[derive(Debug, Clone, Copy, PartialEq, Eq, Structural)]
pub struct KeyPress {
    pub vk: u32,
    /// Repeat count 1 and the scan code.
    pub lparam_down: u32,
    /// As for the key going down, and the bits of a key that was down and goes up.
    pub lparam_up: u32,
    /// How long the key stays down.
    pub hold_ms: u32,
}

/// The press of a function key.
pub open spec fn press_of(n: u8, delayed: bool) -> Option<KeyPress> {
    if 1 <= n <= 12 {
        Some(
            KeyPress {
                vk: (0x6F + n) as u32,
                lparam_down: (1 + scancode(n) * 0x1_0000) as u32,
                lparam_up: (1 + scancode(n) * 0x1_0000 + 0xC000_0000) as u32,
                hold_ms: if delayed {
                    HOLD_MS
                } else {
                    0
                },
            },
        )
    } else {
        None
    }
}

/// The press of a function key; there is none outside of F1 to F12.
pub fn press_fkey(n: u8, delayed: bool) -> (r: Option<KeyPress>)
    ensures
        r == press_of(n, delayed),
{
    match fkey_vk(n) {
        None => None,
        Some(vk) => {
            let code: u32 = if n <= 10 {
                0x3B + (n as u32 - 1)
            } else if n == 11 {
                0x57
            } else {
                0x58
            };
            let lparam_down: u32 = 1 + code * 0x1_0000;
            Some(
                KeyPress {
                    vk,
                    lparam_down,
                    lparam_up: lparam_down + 0xC000_0000,
                    hold_ms: if delayed {
                        HOLD_MS
                    } else {
                        0
                    },
                },
            )
        },
    }
}

} // verus!
