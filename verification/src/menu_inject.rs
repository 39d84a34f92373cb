//! Entries of the game's context menu.
//!
//! The menu's addresses in the client are not known, so nothing can be installed.

use vstd::prelude::*;

verus! {

/// Entries of the ring.
pub const RING_SIZE: usize = 16;

/// What was chosen for which item.
#[derive(Debug, Clone, Copy, PartialEq, Eq, Structural)]
pub struct RingEntry {
    /// 1 to dissolve, 2 to delete, 3 to copy the name.
    pub action_tag: u32,
    pub item_obj_id: u32,
}

/// Where the injected code and its ring stand.
#[derive(Debug, Clone, Copy, PartialEq, Eq, Structural)]
pub struct MenuInjectControl {
    pub codecave: u32,
    pub ring_head_offset: u32,
    pub ring_tail_offset: u32,
    pub ring_buffer_offset: u32,
}

/// Nothing can be installed.
#[derive(Debug, Clone, Copy, PartialEq, Eq, Structural)]
pub struct NotAvailable;

/// Installs nothing.
pub fn install() -> (r: Result<MenuInjectControl, NotAvailable>)
    ensures
        r is Err,
{
    Err(NotAvailable)
}

/// Takes nothing out of the ring.
pub fn poll_ring(control: &MenuInjectControl) -> (r: usize)
    ensures
        r == 0,
{
    let _ = control;
    0
}

} // verus!
