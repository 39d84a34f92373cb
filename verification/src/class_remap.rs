//! State numbers that depend on the player's class.
//!
//! The client keeps one byte per state.  For a few states it uses another byte
//! for some classes; the settings always name the common number.

use vstd::prelude::*;

verus! {

/// The state byte that a class uses for a state number of the settings.
pub open spec fn remapped(class: u8, ini_id: i32) -> i32 {
    if class == 2 && ini_id == 37 {
        24
    } else if class == 3 && ini_id == 37 {
        42
    } else if class == 4 && ini_id == 14 {
        31
    } else if class == 4 && ini_id == 15 {
        30
    } else if class == 4 && ini_id == 16 {
        32
    } else if class == 4 && ini_id == 17 {
        29
    } else if class == 4 && ini_id == 140 {
        121
    } else if class == 6 && ini_id == 16 {
        116
    } else {
        ini_id
    }
}

/// Only four classes have states of their own, and none of them shares one
/// between two of its remapped numbers.
pub proof fn remap_is_local(class: u8, a: i32, b: i32)
    ensures
        class != 2 && class != 3 && class != 4 && class != 6 ==> remapped(class, a) == a,
        remapped(class, a) != a && remapped(class, b) != b && a != b ==> remapped(class, a)
            != remapped(class, b),
{
}

/// The class in the byte that was read, 0 where nothing could be read.
pub fn read_class(byte: Option<u8>) -> (class: u8)
    ensures
        class == (match byte {
            Some(b) => b,
            None => 0u8,
        }),
{
    match byte {
        Some(b) => b,
        None => 0,
    }
}

/// The state byte to look at.
pub fn remap(class: u8, ini_id: i32) -> (id: i32)
    ensures
        id == remapped(class, ini_id),
{
    match (class, ini_id) {
        (2, 37) => 24,
        (3, 37) => 42,
        (4, 14) => 31,
        (4, 15) => 30,
        (4, 16) => 32,
        (4, 17) => 29,
        (4, 140) => 121,
        (6, 16) => 116,
        _ => ini_id,
    }
}

} // verus!
