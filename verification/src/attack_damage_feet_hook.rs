//! Damage numbers below the feet of their targets.
//!
//! Goes with [`crate::attack_damage_hook`], whose bubbles are told from others by
//! their color.  Four stretches of the client's bubble code are redirected: two
//! that set the Y anchor, and two that set the direction of the bubble's tail.

use vstd::prelude::*;

use crate::code;
use crate::code::distance;
use crate::code::push_bytes;
use crate::code::push_u32;
use crate::code::start;
use crate::hook;
use crate::hook::build_hook_patch;
use crate::hook::bytes_of;
use crate::hook::Patch;
use crate::hook::Restore;

verus! {

broadcast use crate::code::group_code_len;

pub const LOCAL_HOOK_ADDR: u32 = 0x0042_B9D2;

pub const REMOTE_HOOK_ADDR: u32 = 0x0042_B9FB;

pub const POST_AC80_ADDR: u32 = 0x0042_BAFB;

pub const AC80_RESET_ADDR: u32 = 0x0042_AE0C;

pub const LOCAL_HOOK_LEN: usize = 6;

pub const REMOTE_HOOK_LEN: usize = 6;

pub const POST_AC80_LEN: usize = 5;

pub const AC80_RESET_LEN: usize = 7;

/// `mov [edx+0x380], ecx`
pub const LOCAL_ORIGINAL: [u8; 6] = [0x89, 0x8A, 0x80, 0x03, 0x00, 0x00];

/// `mov [ecx+0x380], eax`
pub const REMOTE_ORIGINAL: [u8; 6] = [0x89, 0x81, 0x80, 0x03, 0x00, 0x00];

/// `movzx eax, al; test eax, eax`
pub const POST_AC80_ORIGINAL: [u8; 5] = [0x0F, 0xB6, 0xC0, 0x85, 0xC0];

/// `mov byte [ecx+0x36A], 0`
pub const AC80_RESET_ORIGINAL: [u8; 7] = [0xC6, 0x81, 0x6A, 0x03, 0x00, 0x00, 0x00];

pub const RETURN_AFTER_POSITION: u32 = 0x0042_BA01;

pub const RETURN_AFTER_POST_AC80: u32 = 0x0042_BB00;

pub const RETURN_AFTER_AC80_RESET: u32 = 0x0042_AE13;

pub const DAMAGE_COLOR_LO: u8 = 0x00;

pub const DAMAGE_COLOR_HI: u8 = 0xF8;

/// How far below the feet the anchor is.
pub const FEET_PAD: u8 = 0x20;

pub const CODECAVE_SIZE: usize = 0x400;

// Layout of the cave: one segment per site.

pub const REMOTE_OFFSET: u32 = 0;

pub const LOCAL_OFFSET: u32 = 61;

pub const POST_AC80_OFFSET: u32 = 122;

pub const AC80_RESET_OFFSET: u32 = 153;

pub const CODE_LEN: u32 = 176;

/// The Y anchor of a bubble over somebody else: where the bubble is a damage number
/// it goes below the feet.
pub open spec fn position_remote_code(cave: u32) -> Seq<u8> {
    let c = [
        0x89u8, 0x81, 0x80, 0x03, 0x00, 0x00,
        0x66, 0x81, 0x7D, 0x10, DAMAGE_COLOR_LO, DAMAGE_COLOR_HI,
        0x75, 0x2A,
        0x8B, 0x91, 0x98, 0x03, 0x00, 0x00,
        0x85, 0xD2, 0x74, 0x20,
        0x0F, 0xBE, 0x42, 0x1D,
        0x6B, 0xC0, 0x18,
        0x8B, 0x92, 0x8C, 0x00, 0x00, 0x00,
        0x85, 0xD2, 0x74, 0x0F,
        0x8B, 0x54, 0x02, 0x14,
        0xF7, 0xDA,
        0x83, 0xC2, FEET_PAD,
        0x01, 0x91, 0x80, 0x03, 0x00, 0x00,
    ]@;
    let c = code::put(c, [0xE9u8]@);  // jmp back
    let c = code::put32(c, code::rel32(cave + REMOTE_OFFSET + 61, RETURN_AFTER_POSITION as int));
    c
}

/// Emits [`position_remote_code`].
fn emit_position_remote(cave: u32) -> (sc: Vec<u8>)
    requires
        cave + CODECAVE_SIZE <= u32::MAX,
    ensures
        sc@ == position_remote_code(cave),
        sc@.len() == 61,
{
    let mut sc: Vec<u8> = start(&[
        0x89, 0x81, 0x80, 0x03, 0x00, 0x00,
        0x66, 0x81, 0x7D, 0x10, DAMAGE_COLOR_LO, DAMAGE_COLOR_HI,
        0x75, 0x2A,
        0x8B, 0x91, 0x98, 0x03, 0x00, 0x00,
        0x85, 0xD2, 0x74, 0x20,
        0x0F, 0xBE, 0x42, 0x1D,
        0x6B, 0xC0, 0x18,
        0x8B, 0x92, 0x8C, 0x00, 0x00, 0x00,
        0x85, 0xD2, 0x74, 0x0F,
        0x8B, 0x54, 0x02, 0x14,
        0xF7, 0xDA,
        0x83, 0xC2, FEET_PAD,
        0x01, 0x91, 0x80, 0x03, 0x00, 0x00,
    ]);
    push_bytes(&mut sc, &[0xE9]);  // jmp back
    push_u32(&mut sc, distance(cave + REMOTE_OFFSET + 61, RETURN_AFTER_POSITION));
    sc
}

/// The same for a bubble over the player, with `ecx` and `edx` exchanged.
pub open spec fn position_local_code(cave: u32) -> Seq<u8> {
    let c = [
        0x89u8, 0x8A, 0x80, 0x03, 0x00, 0x00,
        0x66, 0x81, 0x7D, 0x10, DAMAGE_COLOR_LO, DAMAGE_COLOR_HI,
        0x75, 0x2A,
        0x8B, 0x8A, 0x98, 0x03, 0x00, 0x00,
        0x85, 0xC9, 0x74, 0x20,
        0x0F, 0xBE, 0x41, 0x1D,
        0x6B, 0xC0, 0x18,
        0x8B, 0x89, 0x8C, 0x00, 0x00, 0x00,
        0x85, 0xC9, 0x74, 0x0F,
        0x8B, 0x4C, 0x01, 0x14,
        0xF7, 0xD9,
        0x83, 0xC1, FEET_PAD,
        0x01, 0x8A, 0x80, 0x03, 0x00, 0x00,
    ]@;
    let c = code::put(c, [0xE9u8]@);  // jmp back
    let c = code::put32(c, code::rel32(cave + LOCAL_OFFSET + 61, RETURN_AFTER_POSITION as int));
    c
}

/// Emits [`position_local_code`].
fn emit_position_local(cave: u32) -> (sc: Vec<u8>)
    requires
        cave + CODECAVE_SIZE <= u32::MAX,
    ensures
        sc@ == position_local_code(cave),
        sc@.len() == 61,
{
    let mut sc: Vec<u8> = start(&[
        0x89, 0x8A, 0x80, 0x03, 0x00, 0x00,
        0x66, 0x81, 0x7D, 0x10, DAMAGE_COLOR_LO, DAMAGE_COLOR_HI,
        0x75, 0x2A,
        0x8B, 0x8A, 0x98, 0x03, 0x00, 0x00,
        0x85, 0xC9, 0x74, 0x20,
        0x0F, 0xBE, 0x41, 0x1D,
        0x6B, 0xC0, 0x18,
        0x8B, 0x89, 0x8C, 0x00, 0x00, 0x00,
        0x85, 0xC9, 0x74, 0x0F,
        0x8B, 0x4C, 0x01, 0x14,
        0xF7, 0xD9,
        0x83, 0xC1, FEET_PAD,
        0x01, 0x8A, 0x80, 0x03, 0x00, 0x00,
    ]);
    push_bytes(&mut sc, &[0xE9]);  // jmp back
    push_u32(&mut sc, distance(cave + LOCAL_OFFSET + 61, RETURN_AFTER_POSITION));
    sc
}

/// Turns the tail of a damage number around.
pub open spec fn post_ac80_code(cave: u32) -> Seq<u8> {
    let c = [
        0x8Bu8, 0x55, 0xE0,
        0x66, 0x81, 0xBA, 0x9C, 0x03, 0x00, 0x00, DAMAGE_COLOR_LO, DAMAGE_COLOR_HI,
        0x75, 0x07,
        0xC6, 0x82, 0x6A, 0x03, 0x00, 0x00, 0x04,
        0x0F, 0xB6, 0xC0,
        0x85, 0xC0,
    ]@;
    let c = code::put(c, [0xE9u8]@);  // jmp back
    let c = code::put32(c, code::rel32(cave + POST_AC80_OFFSET + 31, RETURN_AFTER_POST_AC80 as int));
    c
}

/// Emits [`post_ac80_code`].
fn emit_post_ac80(cave: u32) -> (sc: Vec<u8>)
    requires
        cave + CODECAVE_SIZE <= u32::MAX,
    ensures
        sc@ == post_ac80_code(cave),
        sc@.len() == 31,
{
    let mut sc: Vec<u8> = start(&[
        0x8B, 0x55, 0xE0,
        0x66, 0x81, 0xBA, 0x9C, 0x03, 0x00, 0x00, DAMAGE_COLOR_LO, DAMAGE_COLOR_HI,
        0x75, 0x07,
        0xC6, 0x82, 0x6A, 0x03, 0x00, 0x00, 0x04,
        0x0F, 0xB6, 0xC0,
        0x85, 0xC0,
    ]);
    push_bytes(&mut sc, &[0xE9]);  // jmp back
    push_u32(&mut sc, distance(cave + POST_AC80_OFFSET + 31, RETURN_AFTER_POST_AC80));
    sc
}

/// Keeps the tail of a damage number turned around, frame by frame.
pub open spec fn ac80_reset_code(cave: u32) -> Seq<u8> {
    let c = [
        0x66u8, 0x81, 0xB9, 0x9C, 0x03, 0x00, 0x00, DAMAGE_COLOR_LO, DAMAGE_COLOR_HI,
        0x74, 0x07,
        0xC6, 0x81, 0x6A, 0x03, 0x00, 0x00, 0x00,
    ]@;
    let c = code::put(c, [0xE9u8]@);  // jmp back
    let c = code::put32(c, code::rel32(cave + AC80_RESET_OFFSET + 23, RETURN_AFTER_AC80_RESET as int));
    c
}

/// Emits [`ac80_reset_code`].
fn emit_ac80_reset(cave: u32) -> (sc: Vec<u8>)
    requires
        cave + CODECAVE_SIZE <= u32::MAX,
    ensures
        sc@ == ac80_reset_code(cave),
        sc@.len() == 23,
{
    let mut sc: Vec<u8> = start(&[
        0x66, 0x81, 0xB9, 0x9C, 0x03, 0x00, 0x00, DAMAGE_COLOR_LO, DAMAGE_COLOR_HI,
        0x74, 0x07,
        0xC6, 0x81, 0x6A, 0x03, 0x00, 0x00, 0x00,
    ]);
    push_bytes(&mut sc, &[0xE9]);  // jmp back
    push_u32(&mut sc, distance(cave + AC80_RESET_OFFSET + 23, RETURN_AFTER_AC80_RESET));
    sc
}

/// Everything that the cave holds.
#[verifier::opaque]
pub open spec fn cave_code(cave: u32) -> Seq<u8> {
    let c = code::put(position_remote_code(cave), position_local_code(cave));
    let c = code::put(c, post_ac80_code(cave));
    code::put(c, ac80_reset_code(cave))
}

/// The contents of the cave, and the offsets at which its segments start.
#[derive(Debug)]
pub struct Layout {
    pub bytes: Vec<u8>,
    pub local_offset: usize,
    pub remote_offset: usize,
    pub post_ac80_offset: usize,
    pub ac80_reset_offset: usize,
}

/// Builds the contents of a cave at `cave`.
pub fn build_shellcode(cave: u32) -> (r: Layout)
    requires
        cave + CODECAVE_SIZE <= u32::MAX,
    ensures
        r.bytes@ == cave_code(cave),
        r.bytes@.len() == CODE_LEN,
        r.bytes@.len() <= CODECAVE_SIZE,
        r.remote_offset == REMOTE_OFFSET,
        r.local_offset == LOCAL_OFFSET,
        r.post_ac80_offset == POST_AC80_OFFSET,
        r.ac80_reset_offset == AC80_RESET_OFFSET,
{
    reveal(cave_code);
    let mut bytes: Vec<u8> = emit_position_remote(cave);
    let local_offset: usize = bytes.len();
    push_bytes(&mut bytes, emit_position_local(cave).as_slice());
    let post_ac80_offset: usize = bytes.len();
    push_bytes(&mut bytes, emit_post_ac80(cave).as_slice());
    let ac80_reset_offset: usize = bytes.len();
    push_bytes(&mut bytes, emit_ac80_reset(cave).as_slice());
    Layout { bytes, local_offset, remote_offset: 0, post_ac80_offset, ac80_reset_offset }
}

/// What has to be remembered of an installed hook.
#[derive(Debug)]
pub struct HookState {
    pub codecave_addr: u32,
    pub local_patch: Vec<u8>,
    pub remote_patch: Vec<u8>,
    pub post_ac80_patch: Vec<u8>,
    pub ac80_reset_patch: Vec<u8>,
}

impl HookState {
    /// Whether this is the state of a hook with its code at `cave`.
    pub open spec fn is_for(&self, cave: u32) -> bool {
        &&& self.codecave_addr == cave
        &&& self.local_patch@ == hook::hook_patch(
            LOCAL_HOOK_ADDR,
            (cave + LOCAL_OFFSET) as u32,
            LOCAL_HOOK_LEN as nat,
        )
        &&& self.remote_patch@ == hook::hook_patch(
            REMOTE_HOOK_ADDR,
            (cave + REMOTE_OFFSET) as u32,
            REMOTE_HOOK_LEN as nat,
        )
        &&& self.post_ac80_patch@ == hook::hook_patch(
            POST_AC80_ADDR,
            (cave + POST_AC80_OFFSET) as u32,
            POST_AC80_LEN as nat,
        )
        &&& self.ac80_reset_patch@ == hook::hook_patch(
            AC80_RESET_ADDR,
            (cave + AC80_RESET_OFFSET) as u32,
            AC80_RESET_LEN as nat,
        )
    }
}

/// The writes that put the hook in, in order, and the state to keep.
#[derive(Debug)]
pub struct InstallPlan {
    pub writes: Vec<Patch>,
    pub state: HookState,
}

/// Whether the hook is in.
pub fn is_installed(state: &Option<HookState>) -> (r: bool)
    ensures
        r == (*state is Some),
{
    state.is_some()
}

/// The sites that must hold these bytes before the hook goes in, in the order
/// in which they are looked at.
pub fn hook_sites() -> (r: Vec<Patch>)
    ensures
        hook::patch_views(r@) == seq![
            (LOCAL_HOOK_ADDR, LOCAL_ORIGINAL@),
            (REMOTE_HOOK_ADDR, REMOTE_ORIGINAL@),
            (POST_AC80_ADDR, POST_AC80_ORIGINAL@),
            (AC80_RESET_ADDR, AC80_RESET_ORIGINAL@),
        ],
{
    let r: Vec<Patch> = vec![
        Patch { addr: LOCAL_HOOK_ADDR, bytes: bytes_of(&LOCAL_ORIGINAL) },
        Patch { addr: REMOTE_HOOK_ADDR, bytes: bytes_of(&REMOTE_ORIGINAL) },
        Patch { addr: POST_AC80_ADDR, bytes: bytes_of(&POST_AC80_ORIGINAL) },
        Patch { addr: AC80_RESET_ADDR, bytes: bytes_of(&AC80_RESET_ORIGINAL) },
    ];
    assert(hook::patch_views(r@) =~= seq![
        (LOCAL_HOOK_ADDR, LOCAL_ORIGINAL@),
        (REMOTE_HOOK_ADDR, REMOTE_ORIGINAL@),
        (POST_AC80_ADDR, POST_AC80_ORIGINAL@),
        (AC80_RESET_ADDR, AC80_RESET_ORIGINAL@),
    ]);
    r
}

/// The writes that put a hook of this state in, in order.
pub open spec fn install_writes(state: HookState) -> Seq<(u32, Seq<u8>)> {
    seq![
        (state.codecave_addr, cave_code(state.codecave_addr)),
        (LOCAL_HOOK_ADDR, state.local_patch@),
        (REMOTE_HOOK_ADDR, state.remote_patch@),
        (POST_AC80_ADDR, state.post_ac80_patch@),
        (AC80_RESET_ADDR, state.ac80_reset_patch@),
    ]
}

/// The writes that put the hook in, with its code in the cave at `cave`: the
/// code first, then the sites.  There are none where the hook is in.
pub fn install(state: &Option<HookState>, cave: u32) -> (r: Option<InstallPlan>)
    requires
        *state is None ==> cave + CODECAVE_SIZE <= u32::MAX,
    ensures
        r is None <==> *state is Some,
        r matches Some(plan) ==> {
            &&& hook::patch_views(plan.writes@) == install_writes(plan.state)
            &&& plan.state.is_for(cave)
        },
{
    if is_installed(state) {
        return None;
    }
    let layout = build_shellcode(cave);
    let local: Vec<u8> = build_hook_patch::<6>(LOCAL_HOOK_ADDR, cave + layout.local_offset as u32);
    let remote: Vec<u8> = build_hook_patch::<6>(
        REMOTE_HOOK_ADDR,
        cave + layout.remote_offset as u32,
    );
    let post: Vec<u8> = build_hook_patch::<5>(
        POST_AC80_ADDR,
        cave + layout.post_ac80_offset as u32,
    );
    let reset: Vec<u8> = build_hook_patch::<7>(
        AC80_RESET_ADDR,
        cave + layout.ac80_reset_offset as u32,
    );
    let state = HookState {
        codecave_addr: cave,
        local_patch: bytes_of(local.as_slice()),
        remote_patch: bytes_of(remote.as_slice()),
        post_ac80_patch: bytes_of(post.as_slice()),
        ac80_reset_patch: bytes_of(reset.as_slice()),
    };
    let writes: Vec<Patch> = vec![
        Patch { addr: cave, bytes: layout.bytes },
        Patch { addr: LOCAL_HOOK_ADDR, bytes: local },
        Patch { addr: REMOTE_HOOK_ADDR, bytes: remote },
        Patch { addr: POST_AC80_ADDR, bytes: post },
        Patch { addr: AC80_RESET_ADDR, bytes: reset },
    ];
    assert(hook::patch_views(writes@) =~= install_writes(state));
    Some(InstallPlan { writes, state })
}

/// Taking the hook out gives the four sites the bytes back that they held before it went
/// in.
pub proof fn removal_undoes_the_hook(state: HookState, cave: u32, mem: Map<u32, Seq<u8>>)
    requires
        state.is_for(cave),
        cave != LOCAL_HOOK_ADDR,
        cave != REMOTE_HOOK_ADDR,
        cave != POST_AC80_ADDR,
        cave != AC80_RESET_ADDR,
        mem[LOCAL_HOOK_ADDR] == LOCAL_ORIGINAL@,
        mem[REMOTE_HOOK_ADDR] == REMOTE_ORIGINAL@,
        mem[POST_AC80_ADDR] == POST_AC80_ORIGINAL@,
        mem[AC80_RESET_ADDR] == AC80_RESET_ORIGINAL@,
    ensures
        ({
            let after = hook::after_restores(
                hook::after_writes(mem, install_writes(state)),
                restore_sites(state),
            );
            &&& after[LOCAL_HOOK_ADDR] == mem[LOCAL_HOOK_ADDR]
            &&& after[REMOTE_HOOK_ADDR] == mem[REMOTE_HOOK_ADDR]
            &&& after[POST_AC80_ADDR] == mem[POST_AC80_ADDR]
            &&& after[AC80_RESET_ADDR] == mem[AC80_RESET_ADDR]
        }),
{
    reveal_with_fuel(hook::after_writes, 6);
    reveal_with_fuel(hook::after_restores, 5);
}

/// The sites that get their original bytes back, in order.
pub open spec fn restore_sites(state: HookState) -> Seq<(u32, Seq<u8>, Seq<u8>)> {
    seq![
        (AC80_RESET_ADDR, AC80_RESET_ORIGINAL@, state.ac80_reset_patch@),
        (POST_AC80_ADDR, POST_AC80_ORIGINAL@, state.post_ac80_patch@),
        (REMOTE_HOOK_ADDR, REMOTE_ORIGINAL@, state.remote_patch@),
        (LOCAL_HOOK_ADDR, LOCAL_ORIGINAL@, state.local_patch@),
    ]
}

fn restores(state: &HookState) -> (r: Vec<Restore>)
    ensures
        hook::restore_views(r@) == restore_sites(*state),
{
    let r: Vec<Restore> = vec![
        Restore {
            addr: AC80_RESET_ADDR,
            original: bytes_of(&AC80_RESET_ORIGINAL),
            patch: bytes_of(state.ac80_reset_patch.as_slice()),
        },
        Restore {
            addr: POST_AC80_ADDR,
            original: bytes_of(&POST_AC80_ORIGINAL),
            patch: bytes_of(state.post_ac80_patch.as_slice()),
        },
        Restore {
            addr: REMOTE_HOOK_ADDR,
            original: bytes_of(&REMOTE_ORIGINAL),
            patch: bytes_of(state.remote_patch.as_slice()),
        },
        Restore {
            addr: LOCAL_HOOK_ADDR,
            original: bytes_of(&LOCAL_ORIGINAL),
            patch: bytes_of(state.local_patch.as_slice()),
        },
    ];
    assert(hook::restore_views(r@) =~= restore_sites(*state));
    r
}

/// The sites to put back to take the hook out, in order, none where it is not in; the
/// hook counts as out from now on.
pub fn uninstall(state: &mut Option<HookState>) -> (r: Vec<Restore>)
    ensures
        *final(state) == hook::after_uninstall(*old(state)),
        hook::restore_views(r@) == match *old(state) {
            Some(s) => restore_sites(s),
            None => Seq::empty(),
        },
{
    match state.take() {
        Some(s) => restores(&s),
        None => {
            let none: Vec<Restore> = Vec::new();
            assert(hook::restore_views(none@) =~= Seq::<(u32, Seq<u8>, Seq<u8>)>::empty());
            none
        },
    }
}

} // verus!
