//! Addresses and offsets in the client, and packet numbers.

use vstd::prelude::*;

verus! {

/// Current map.
pub const G_MAP_ID: u32 = 0x00965B60;

/// 1 login, 2 character selection, 3 in the world, 9 disconnected.
pub const G_GAME_STATE: u32 = 0x009AB5E8;

/// Light level, one byte.
pub const G_LIGHT_LEVEL: u32 = 0x00C31EAE;

pub const MAX_HP: u32 = 0x00C31E90;

pub const MAX_MP: u32 = 0x00C31E8C;

pub const STAT_STR: u32 = 0x00C31E80;

pub const STAT_INT: u32 = 0x00C31E81;

pub const STAT_WIS: u32 = 0x00C31E82;

pub const STAT_DEX: u32 = 0x00C31E83;

pub const STAT_CON: u32 = 0x00C31E84;

pub const STAT_CHA: u32 = 0x00C31E85;

/// Alignment, a signed 16-bit number.
pub const STAT_LAWFUL: u32 = 0x00C31E88;

/// Pointer to the player object.
pub const G_PLAYER_PTR: u32 = 0x00C2D2B8;

/// One byte per state, nonzero while the state is on.
pub const G_HASTE_BUFF_TABLE: u32 = 0x00ABF4C8;

/// Class of the player, one byte.
pub const G_CLASS: u32 = 0x00C31544;

pub const SEND_PACKET_DATA: u32 = 0x00580E50;

pub const PROCESS_PACKET: u32 = 0x00539333;

pub const CAST_MAGIC: u32 = 0x0073C260;

pub const SPELL_BOOK_CAST: u32 = 0x0073ECE0;

/// Pointer to the player's spell book.
pub const SPELL_BOOK_PTR: u32 = 0x00C31324;

/// Pointer to the table of all spells.
pub const SPELL_DB_PTR: u32 = 0x009A8ED4;

/// Current hit points, behind an index, a key table and a salt.
pub const CURRENT_HP_OBJ: u32 = 0x00BDC828;

/// Current mana, stored in the same way.
pub const CURRENT_MP_OBJ: u32 = 0x00BDC834;

pub const STAT_XOR_MAGIC: u32 = 0xC001_7921;

/// Satiety, one byte; 225 is full.
pub const FOOD_LEVEL: u32 = 0x00C31E8B;

pub const FOOD_LEVEL_DIVISOR: u32 = 225;

/// Load, one byte; 240 is full.
pub const CURRENT_WEIGHT: u32 = 0x00C31E8A;

pub const WEIGHT_DIVISOR: u32 = 240;

/// Pointer to the inventory: a count at +0x2C, an array of entries at +0x58.
pub const INVENTORY_BASE: u32 = 0x009A9250;

/// Delete an item.
pub const C_DELETE_ITEM: u8 = 0x8A;

/// Refine an item.
pub const C_REFINE: u8 = 0x4E;

/// Chat, with a channel and a text.
pub const C_CHAT_OPCODE: u8 = 0x88;

pub const CHAT_CHANNEL_SHOUT: u8 = 0x02;

pub const CHAT_CHANNEL_NORMAL: u8 = 0x00;

} // verus!
