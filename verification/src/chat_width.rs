//! Widening the lines of the chat window.
//!
//! One immediate operand in the client caps how many bytes of text a chat line
//! takes.

use vstd::prelude::*;

use crate::code;
use crate::hook::Patch;

verus! {

/// Where the operand stands.
pub const CHAT_WRAP_IMM_ADDR: u32 = 0x0043_78C1;

pub const CHAT_WRAP_OLD_VALUE: u32 = 0x37;

pub const CHAT_WRAP_NEW_VALUE: u32 = 0x44;

/// What to do with the operand that was read.
#[derive(Debug)]
pub enum ChatWidthAction {
    /// Neither the old nor the new value stands there: leave it alone.
    Unexpected,
    /// The new value stands there already.
    AlreadyPatched,
    /// Write these bytes.
    Write(Patch),
}

/// Decides what to do where `current` was read.
pub fn install_chat_width_patch(current: u32) -> (r: ChatWidthAction)
    ensures
        r is Write <==> current == CHAT_WRAP_OLD_VALUE,
        r is AlreadyPatched <==> current == CHAT_WRAP_NEW_VALUE,
        r matches ChatWidthAction::Write(p) ==> p@ == (
            CHAT_WRAP_IMM_ADDR,
            code::le32(CHAT_WRAP_NEW_VALUE),
        ),
{
    if current == CHAT_WRAP_NEW_VALUE {
        return ChatWidthAction::AlreadyPatched;
    }
    if current != CHAT_WRAP_OLD_VALUE {
        return ChatWidthAction::Unexpected;
    }
    ChatWidthAction::Write(
        Patch { addr: CHAT_WRAP_IMM_ADDR, bytes: code::u32_bytes(CHAT_WRAP_NEW_VALUE) },
    )
}

/// Whether the value read back after the write is the one that was written.
pub fn chat_width_patch_took(after: u32) -> (r: bool)
    ensures
        r == (after == CHAT_WRAP_NEW_VALUE),
{
    after == CHAT_WRAP_NEW_VALUE
}

} // verus!
