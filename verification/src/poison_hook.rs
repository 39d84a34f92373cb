//! Telling whether the player is poisoned.

use vstd::prelude::*;

verus! {

/// Offset of the status word in the player's object.
pub const PLAYER_STATUS_OFFSET: u32 = 0x20;

/// The bit of the status word that stands for a poison that hurts.
pub const POISON_BIT_DAMAGE: u32 = 0x20;

/// Where a field of the player's object stands, if there is an object.
pub open spec fn field_of(player_ptr: Option<u32>, offset: u32) -> Option<u32> {
    match player_ptr {
        Some(p) => if p == 0 {
            None
        } else {
            Some((p + offset) as u32)
        },
        None => None,
    }
}

/// Where a field of the player's object stands, if there is an object.
pub fn player_field_addr(player_ptr: Option<u32>, offset: u32) -> (r: Option<u32>)
    requires
        player_ptr matches Some(p) ==> p + offset <= u32::MAX,
    ensures
        r == field_of(player_ptr, offset),
{
    match player_ptr {
        Some(p) => {
            if p == 0 {
                None
            } else {
                Some(p + offset)
            }
        },
        None => None,
    }
}

/// Whether a poison hurts the player.
pub open spec fn hurts(status: Option<u32>) -> bool {
    status is Some && status->0 / 32 % 2 == 1
}

/// Whether a poison hurts the player: bit 5 of the status word is set.  What could not
/// be read counts as not poisoned.
pub fn is_damage_poisoned(status: Option<u32>) -> (r: bool)
    ensures
        r == hurts(status),
{
    match status {
        None => false,
        Some(status) => {
            assert((status & 0x20 == 0) == (status / 32 % 2 == 0)) by (bit_vector);
            status & POISON_BIT_DAMAGE != 0
        },
    }
}

/// A poison that paralyses cannot be told.
pub fn is_paralyze_poisoned() -> (r: bool)
    ensures
        !r,
{
    false
}

/// A poison that silences cannot be told.
pub fn is_kasuto_poisoned() -> (r: bool)
    ensures
        !r,
{
    false
}

} // verus!
