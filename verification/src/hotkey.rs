//! The function keys F1 to F4.
//!
//! Times are nanoseconds on a monotonic clock.

use vstd::prelude::*;

use crate::notification::queue;
use crate::settings::FKeyMacro;
use crate::text;
use crate::text::is_blank;

verus! {

/// How often threads look whether they are to end, in milliseconds.
pub const HOTKEY_SHUTDOWN_POLL_MS: u64 = 50;

/// Time between two uses of the same key, in nanoseconds.
pub const COOLDOWN: u64 = 500_000_000;

/// The message of a key that goes down.
pub const WM_KEYDOWN: u32 = 0x0100;

/// The message of a key that goes down together with Alt.
pub const WM_SYSKEYDOWN: u32 = 0x0104;

/// The virtual key of F1.
pub const VK_F1: u32 = 0x70;

/// How often threads look whether they are to end, in nanoseconds.
pub fn hotkey_shutdown_poll_timeout() -> (r: u64)
    ensures
        r == HOTKEY_SHUTDOWN_POLL_MS * 1_000_000,
{
    HOTKEY_SHUTDOWN_POLL_MS * 1_000_000
}

/// How long the thread that takes keys sleeps between messages: keys are not to wait.
pub fn hook_message_pump_sleep_timeout() -> (r: u64)
    ensures
        r == 0,
{
    0
}

/// Whether the game's window is in front.
pub open spec fn in_front(target: Option<u32>, foreground: Option<u32>) -> bool {
    target is Some && target == foreground
}

/// Whether the game's window is in front: `target` is the game's process, `foreground`
/// the process of the window in front.
pub fn game_focused(target: Option<u32>, foreground: Option<u32>) -> (r: bool)
    ensures
        r == in_front(target, foreground),
{
    match (target, foreground) {
        (Some(t), Some(f)) => t == f,
        _ => false,
    }
}

/// What happens to a key.
#[derive(Debug, Clone, Copy, PartialEq, Eq, Structural)]
pub enum KeyStep {
    /// It goes on to whoever is in front.
    Pass,
    /// It is swallowed, and macro number so and so is to run.
    Swallow(usize),
}

/// What happens to a key.
pub open spec fn step_of(code: i32, message: u32, vk: u32, focused: bool) -> KeyStep {
    if code >= 0 && (message == WM_KEYDOWN || message == WM_SYSKEYDOWN) && VK_F1 <= vk % 0x1_0000
        < VK_F1 + 4 && focused {
        KeyStep::Swallow((vk % 0x1_0000 - VK_F1) as usize)
    } else {
        KeyStep::Pass
    }
}

/// What happens to a key: F1 to F4 going down are swallowed while the game is in
/// front.  The lower half of `vk` is the key.
pub fn key_step(code: i32, message: u32, vk: u32, focused: bool) -> (r: KeyStep)
    ensures
        r == step_of(code, message, vk, focused),
{
    if code < 0 || (message != WM_KEYDOWN && message != WM_SYSKEYDOWN) {
        return KeyStep::Pass;
    }
    let idx: usize = match vk % 0x1_0000 {
        0x70 => 0,
        0x71 => 1,
        0x72 => 2,
        0x73 => 3,
        _ => return KeyStep::Pass,
    };
    if focused {
        KeyStep::Swallow(idx)
    } else {
        KeyStep::Pass
    }
}

/// Whether a key's macro is to run: the key is one of the four, it did not run just
/// now, and its macro is switched on and not blank.
pub open spec fn runs(
    idx: int,
    macros: Seq<FKeyMacro>,
    last_fire: Seq<Option<u64>>,
    now: u64,
) -> bool {
    &&& idx < 4
    &&& last_fire[idx] matches Some(t) ==> queue::age(t, now) >= COOLDOWN
    &&& macros[idx].enabled
    &&& text::trimmed(macros[idx].command@).len() > 0
}

/// When each macro last ran, after a key.
pub open spec fn fired_after(
    idx: int,
    macros: Seq<FKeyMacro>,
    last_fire: Seq<Option<u64>>,
    now: u64,
) -> Seq<Option<u64>> {
    if runs(idx, macros, last_fire, now) {
        last_fire.update(idx, Some(now))
    } else {
        last_fire
    }
}

/// Takes a key, and tells whether its macro is to run.
pub fn take_key(
    idx: usize,
    macros: &[FKeyMacro; 4],
    last_fire: &mut [Option<u64>; 4],
    now: u64,
) -> (r: bool)
    ensures
        r == runs(idx as int, macros@, old(last_fire)@, now),
        final(last_fire)@ == fired_after(idx as int, macros@, old(last_fire)@, now),
{
    if idx >= 4 {
        return false;
    }
    if let Some(t) = last_fire[idx] {
        if now.saturating_sub(t) < COOLDOWN {
            return false;
        }
    }
    if !macros[idx].enabled || is_blank(macros[idx].command.as_str()) {
        return false;
    }
    last_fire[idx] = Some(now);
    true
}

/// A key that is held does not run its macro again at once.
pub proof fn held_keys_wait(
    idx: int,
    macros: Seq<FKeyMacro>,
    last_fire: Seq<Option<u64>>,
    now: u64,
    later: u64,
)
    requires
        0 <= idx < 4,
        last_fire.len() == 4,
        queue::age(now, later) < COOLDOWN,
    ensures
        !runs(idx, macros, last_fire.update(idx, Some(now)), later),
{
}

/// Whether a macro can be carried out.
pub open spec fn can_fire(ready: bool, item_type: char, book_fresh: bool) -> bool {
    ready && (item_type == 'S' ==> book_fresh)
}

/// Whether a macro can be carried out: calls can be made, and a spell needs the
/// player's book.
pub fn fire_macro(ready: bool, item_type: char, book_fresh: bool) -> (r: bool)
    ensures
        r == can_fire(ready, item_type, book_fresh),
{
    ready && (item_type != 'S' || book_fresh)
}

} // verus!
