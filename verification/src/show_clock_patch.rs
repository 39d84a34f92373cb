//! Keeping the game clock on the screen.
//!
//! The client draws the time only while the mouse is over it; a conditional jump
//! decides.  With that jump replaced by `nop`s the time is always drawn.

use vstd::prelude::*;

use crate::code::same_bytes;
use crate::hook::bytes_of;
use crate::hook::Patch;

verus! {

pub const CLOCK_GATE_ADDR: u32 = 0x0078AD50;

pub const PATCH_LEN: usize = 6;

pub const ORIGINAL_BYTES: [u8; 6] = [0x0F, 0x84, 0xA1, 0x00, 0x00, 0x00];

pub const PATCHED_BYTES: [u8; 6] = [0x90, 0x90, 0x90, 0x90, 0x90, 0x90];

/// What stands at the jump.
#[derive(Debug, Clone, Copy, PartialEq, Eq, Structural)]
pub enum GateBytes {
    Original,
    Patched,
    Unexpected,
}

/// What to do about the jump.
#[derive(Debug)]
pub enum GateStep {
    /// Nothing has to be written.
    Done,
    /// Write these bytes.
    Write(Patch),
    /// Something else stands there: report an error, change nothing.
    Refuse,
}

pub open spec fn gate_bytes(bytes: Seq<u8>) -> GateBytes {
    if bytes == ORIGINAL_BYTES@ {
        GateBytes::Original
    } else if bytes == PATCHED_BYTES@ {
        GateBytes::Patched
    } else {
        GateBytes::Unexpected
    }
}

/// What stands at the jump once the step has been carried out.
pub open spec fn gate_after(step: GateStep, bytes: Seq<u8>) -> Seq<u8> {
    match step {
        GateStep::Write(p) => p.bytes@,
        _ => bytes,
    }
}

/// Whether the patch counts as in after this attempt to put it in; `written` says
/// whether the write, if one was asked for, went through.
pub open spec fn installed_after(state: bool, step: GateStep, written: bool) -> bool {
    match step {
        GateStep::Done => true,
        GateStep::Write(_) => written || state,
        GateStep::Refuse => state,
    }
}

/// Whether the patch counts as in after this attempt to take it out.
pub open spec fn installed_after_removal(state: bool, step: GateStep, written: bool) -> bool {
    match step {
        GateStep::Done => false,
        GateStep::Write(_) => !written && state,
        GateStep::Refuse => state,
    }
}

/// What `install` decides.
pub open spec fn is_install_step(state: bool, current: Seq<u8>, step: GateStep) -> bool {
    &&& step is Done <==> state || gate_bytes(current) == GateBytes::Patched
    &&& step is Refuse <==> !state && gate_bytes(current) == GateBytes::Unexpected
    &&& step matches GateStep::Write(p) ==> p@ == (CLOCK_GATE_ADDR, PATCHED_BYTES@)
    &&& !state && !(step is Refuse) ==> gate_after(step, current) == PATCHED_BYTES@
}

/// What `uninstall` decides.
pub open spec fn is_uninstall_step(state: bool, current: Seq<u8>, step: GateStep) -> bool {
    &&& step is Done <==> !state || gate_bytes(current) == GateBytes::Original
    &&& step is Refuse <==> state && gate_bytes(current) == GateBytes::Unexpected
    &&& step matches GateStep::Write(p) ==> p@ == (CLOCK_GATE_ADDR, ORIGINAL_BYTES@)
    &&& state && !(step is Refuse) ==> gate_after(step, current) == ORIGINAL_BYTES@
}

/// After an attempt to put the patch in that is not refused it counts as in and stands
/// at the jump; a refused attempt, or one whose write failed, leaves it counted as out.
/// An attempt while it counts as in writes nothing.
pub proof fn installing_sets_the_flag(
    state: bool,
    current: Seq<u8>,
    step: GateStep,
    written: bool,
)
    requires
        is_install_step(state, current, step),
    ensures
        !(step is Refuse) ==> installed_after(state, step, true),
        !state && !(step is Refuse) ==> gate_after(step, current) == PATCHED_BYTES@,
        step is Refuse ==> !installed_after(state, step, written),
        step is Write ==> !installed_after(state, step, false),
        state ==> step is Done && installed_after(state, step, written),
{
}

/// A refused attempt to take the patch out leaves it counted as in, and so does one
/// whose write failed; any other leaves it counted as out, with the original jump in
/// its place if it was in.  An attempt while it counts as out writes nothing.
pub proof fn only_a_refused_removal_keeps_the_flag(
    state: bool,
    current: Seq<u8>,
    step: GateStep,
    written: bool,
)
    requires
        is_uninstall_step(state, current, step),
    ensures
        step is Refuse ==> installed_after_removal(state, step, written),
        step is Write ==> installed_after_removal(state, step, false),
        !(step is Refuse) ==> !installed_after_removal(state, step, true),
        state && !(step is Refuse) ==> gate_after(step, current) == ORIGINAL_BYTES@,
        !state ==> step is Done && !installed_after_removal(state, step, written),
{
}

/// A call that puts the patch in or takes it out, where `current` was read; `written`
/// says whether the write, if the step asks for one, went through.
pub struct ClockCall {
    pub install: bool,
    pub current: Seq<u8>,
    pub step: GateStep,
    pub written: bool,
}

impl ClockCall {
    /// Whether the step is the one that is decided on while the patch counts as in
    /// (`state`) or out.
    pub open spec fn decided(&self, state: bool) -> bool {
        if self.install {
            is_install_step(state, self.current, self.step)
        } else {
            is_uninstall_step(state, self.current, self.step)
        }
    }

    /// Whether the call succeeds.
    pub open spec fn succeeds(&self) -> bool {
        self.step is Done || (self.step is Write && self.written)
    }
}

/// Whether the patch counts as in after these calls, the first one first.
pub open spec fn installed_after_calls(calls: Seq<ClockCall>) -> bool
    decreases calls.len(),
{
    if calls.len() == 0 {
        false
    } else {
        let before = installed_after_calls(calls.drop_last());
        let c = calls.last();
        if c.install {
            installed_after(before, c.step, c.written)
        } else {
            installed_after_removal(before, c.step, c.written)
        }
    }
}

/// Whatever calls came before: the patch counts as in right after a call that put it in
/// with success, and as out right after one that took it out with success; a call that
/// fails changes nothing.  Putting it in while it is in, and taking it out while it is
/// out, succeeds and writes nothing.
pub proof fn flag_follows_the_calls(calls: Seq<ClockCall>, next: ClockCall)
    requires
        next.decided(installed_after_calls(calls)),
    ensures
        !installed_after_calls(Seq::<ClockCall>::empty()),
        next.succeeds() ==> installed_after_calls(calls.push(next)) == next.install,
        !next.succeeds() ==> installed_after_calls(calls.push(next)) == installed_after_calls(calls),
        next.install == installed_after_calls(calls) ==> next.step is Done,
{
    assert(calls.push(next).drop_last() =~= calls);
}

/// Keeps whether the patch is in after an attempt to put it in.
pub fn settle_install(state: &mut bool, step: &GateStep, written: bool)
    ensures
        *final(state) == installed_after(*old(state), *step, written),
{
    match step {
        GateStep::Done => {
            *state = true;
        },
        GateStep::Write(_) => {
            *state = written || *state;
        },
        GateStep::Refuse => {},
    }
}

/// Keeps whether the patch is in after an attempt to take it out.
pub fn settle_uninstall(state: &mut bool, step: &GateStep, written: bool)
    ensures
        *final(state) == installed_after_removal(*old(state), *step, written),
{
    match step {
        GateStep::Done => {
            *state = false;
        },
        GateStep::Write(_) => {
            *state = !written && *state;
        },
        GateStep::Refuse => {},
    }
}

/// Tells the two known contents of the jump from anything else.
pub fn classify_gate_bytes(bytes: &[u8]) -> (r: GateBytes)
    ensures
        r == gate_bytes(bytes@),
{
    if same_bytes(bytes, &ORIGINAL_BYTES) {
        GateBytes::Original
    } else if same_bytes(bytes, &PATCHED_BYTES) {
        GateBytes::Patched
    } else {
        GateBytes::Unexpected
    }
}

/// Whether the patch is in.
pub fn is_installed(state: &bool) -> (r: bool)
    ensures
        r == *state,
{
    *state
}

/// Decides how to put the patch in where `current` was read; `state` says that it
/// is in already.
pub fn install(state: bool, current: &[u8]) -> (r: GateStep)
    ensures
        is_install_step(state, current@, r),
{
    if state {
        return GateStep::Done;
    }
    match classify_gate_bytes(current) {
        GateBytes::Patched => GateStep::Done,
        GateBytes::Original => GateStep::Write(
            Patch { addr: CLOCK_GATE_ADDR, bytes: bytes_of(&PATCHED_BYTES) },
        ),
        GateBytes::Unexpected => GateStep::Refuse,
    }
}

/// Decides how to take the patch out.
pub fn uninstall(state: bool, current: &[u8]) -> (r: GateStep)
    ensures
        is_uninstall_step(state, current@, r),
{
    if !state {
        return GateStep::Done;
    }
    match classify_gate_bytes(current) {
        GateBytes::Original => GateStep::Done,
        GateBytes::Patched => GateStep::Write(
            Patch { addr: CLOCK_GATE_ADDR, bytes: bytes_of(&ORIGINAL_BYTES) },
        ),
        GateBytes::Unexpected => GateStep::Refuse,
    }
}

} // verus!
