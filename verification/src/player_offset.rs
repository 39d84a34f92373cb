//! Offsets in the player object.

use vstd::prelude::*;

verus! {

/// 49 idle, 4 walking, 0 in between, 8 transparent.
pub const ACTION_STATE: u32 = 0x14;

/// One of eight directions.
pub const DIRECTION: u32 = 0x15;

pub const ANIM_FRAME: u32 = 0x17;

pub const SPRITE_ID: u32 = 0x18;

pub const HASTE_LOW: u32 = 0x24;

pub const HASTE_HIGH: u32 = 0x29;

pub const MAP_ID: u32 = 0x80;

} // verus!
