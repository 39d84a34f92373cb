//! Offsets in an inventory entry.

use vstd::prelude::*;

verus! {

/// Id by which the server knows the item.
pub const ITEM_PARAM: u32 = 0x04;

/// 1 where the entry is in use.
pub const VALID: u32 = 0x08;

/// 1 where the item is worn or wielded.
pub const EQUIPPED: u32 = 0x09;

pub const NAME_PTR: u32 = 0x0C;

pub const ITEM_TYPE: u32 = 0x98;

pub const ICON_NUM: u32 = 0x9A;

/// How many there are in the stack.
pub const ITEM_COUNT: u32 = 0xA0;

} // verus!
