//! The player's figures.
//!
//! The client keeps hit points and magic points scrambled: an object holds an index
//! (scrambled with a fixed number), the address of a table, and a salt; the figure
//! is the table's number at the index, combined with the salt by exclusive or.

use vstd::prelude::*;

use crate::address::FOOD_LEVEL_DIVISOR;
use crate::address::STAT_XOR_MAGIC;
use crate::address::WEIGHT_DIVISOR;

verus! {

/// Entries of the table that a scrambled figure points into.
pub const STAT_TABLE_LEN: u32 = 16;

/// The player's figures; everything is 0 outside of the world.
#[derive(Debug, Clone, Copy, PartialEq, Eq, Structural)]
pub struct PlayerState {
    pub hp: u32,
    pub max_hp: u32,
    pub mp: u32,
    pub max_mp: u32,
    /// In percent.
    pub food: u8,
    /// In percent.
    pub weight: u8,
    pub food_raw: u8,
    pub weight_raw: u8,
    pub map_id: u32,
}

/// Everything 0.
pub open spec fn nothing() -> PlayerState {
    PlayerState {
        hp: 0,
        max_hp: 0,
        mp: 0,
        max_mp: 0,
        food: 0,
        weight: 0,
        food_raw: 0,
        weight_raw: 0,
        map_id: 0,
    }
}

impl Default for PlayerState {
    fn default() -> (r: Self)
        ensures
            r == nothing(),
    {
        PlayerState {
            hp: 0,
            max_hp: 0,
            mp: 0,
            max_mp: 0,
            food: 0,
            weight: 0,
            food_raw: 0,
            weight_raw: 0,
            map_id: 0,
        }
    }
}

/// An index that is no index of the table.
#[derive(Debug, Clone, Copy, PartialEq, Eq, Structural)]
pub struct StatIndexError {
    pub plain_idx: u32,
}

/// Where the scrambled number stands.
pub open spec fn stat_entry(enc_idx: u32, key_ptr: u32) -> Result<int, StatIndexError> {
    let plain_idx = enc_idx ^ STAT_XOR_MAGIC;
    if plain_idx >= STAT_TABLE_LEN {
        Err(StatIndexError { plain_idx })
    } else {
        Ok(key_ptr + plain_idx * 4)
    }
}

/// Where the scrambled number stands: `enc_idx` and `key_ptr` are the first two
/// words of the figure's object.
pub fn stat_entry_addr(enc_idx: u32, key_ptr: u32) -> (r: Result<u32, StatIndexError>)
    requires
        stat_entry(enc_idx, key_ptr) matches Ok(addr) ==> addr <= u32::MAX,
    ensures
        match r {
            Ok(addr) => stat_entry(enc_idx, key_ptr) == Ok::<int, StatIndexError>(addr as int),
            Err(e) => stat_entry(enc_idx, key_ptr) == Err::<int, StatIndexError>(e),
        },
{
    let plain_idx: u32 = enc_idx ^ STAT_XOR_MAGIC;
    if plain_idx >= STAT_TABLE_LEN {
        return Err(StatIndexError { plain_idx });
    }
    Ok(key_ptr + plain_idx * 4)
}

/// A scrambled number made plain.
pub open spec fn plain(enc_value: u32, salt: u32) -> u32 {
    enc_value ^ salt
}

/// A scrambled number made plain.
pub fn decode_xor_stat(enc_value: u32, salt: u32) -> (r: u32)
    ensures
        r == plain(enc_value, salt),
{
    enc_value ^ salt
}

/// Scrambling and making plain are the same thing: doing it twice changes nothing.
pub proof fn scrambling_twice_is_nothing(value: u32, salt: u32)
    ensures
        (value ^ salt) ^ salt == value,
{
    assert((value ^ salt) ^ salt == value) by (bit_vector);
}

/// What was read of the client, as far as it could be read.
#[derive(Debug, Clone, Copy)]
pub struct StateReads {
    pub game_state: Option<u32>,
    pub max_hp: Option<u32>,
    pub max_mp: Option<u32>,
    /// Made plain.
    pub hp: Option<u32>,
    /// Made plain.
    pub mp: Option<u32>,
    pub food_raw: Option<u8>,
    pub weight_raw: Option<u8>,
    pub map_id: Option<u32>,
}

/// What was read, 0 where nothing could be read.
pub open spec fn or_zero32(x: Option<u32>) -> u32 {
    match x {
        Some(v) => v,
        None => 0,
    }
}

/// What was read, 0 where nothing could be read.
pub open spec fn or_zero8(x: Option<u8>) -> u8 {
    match x {
        Some(v) => v,
        None => 0,
    }
}

/// The figures that were read; nothing where a figure that cannot be missing is
/// missing.
pub open spec fn state_of(reads: StateReads) -> Option<PlayerState> {
    match reads.game_state {
        None => None,
        Some(game_state) => if game_state != 3 {
            Some(nothing())
        } else {
            match (reads.max_hp, reads.max_mp) {
                (Some(max_hp), Some(max_mp)) => Some(
                    PlayerState {
                        hp: or_zero32(reads.hp),
                        max_hp,
                        mp: or_zero32(reads.mp),
                        max_mp,
                        food: (or_zero8(reads.food_raw) * 100 / 225) as u8,
                        weight: (or_zero8(reads.weight_raw) * 100 / 240) as u8,
                        food_raw: or_zero8(reads.food_raw),
                        weight_raw: or_zero8(reads.weight_raw),
                        map_id: or_zero32(reads.map_id),
                    },
                ),
                _ => None,
            }
        },
    }
}

fn u32_or_zero(x: Option<u32>) -> (r: u32)
    ensures
        r == or_zero32(x),
{
    match x {
        Some(v) => v,
        None => 0,
    }
}

fn u8_or_zero(x: Option<u8>) -> (r: u8)
    ensures
        r == or_zero8(x),
{
    match x {
        Some(v) => v,
        None => 0,
    }
}

/// Puts the player's figures together.
pub fn read_player_state(reads: &StateReads) -> (r: Option<PlayerState>)
    ensures
        r == state_of(*reads),
{
    match reads.game_state {
        None => None,
        Some(game_state) => {
            if game_state != 3 {
                return Some(PlayerState::default());
            }
            match (reads.max_hp, reads.max_mp) {
                (Some(max_hp), Some(max_mp)) => {
                    let food_raw: u8 = u8_or_zero(reads.food_raw);
                    let weight_raw: u8 = u8_or_zero(reads.weight_raw);
                    Some(
                        PlayerState {
                            hp: u32_or_zero(reads.hp),
                            max_hp,
                            mp: u32_or_zero(reads.mp),
                            max_mp,
                            food: (food_raw as u32 * 100 / FOOD_LEVEL_DIVISOR) as u8,
                            weight: (weight_raw as u32 * 100 / WEIGHT_DIVISOR) as u8,
                            food_raw,
                            weight_raw,
                            map_id: u32_or_zero(reads.map_id),
                        },
                    )
                },
                _ => None,
            }
        },
    }
}

} // verus!
