//! Damage numbers over the heads of the player's targets.
//!
//! Two stretches of the client's packet handling are redirected into a code
//! cave: the single-target attack path, and the path of an area spell whose
//! packet carries one damage value per target.  The cave books each hit in a
//! one-slot accumulator and shows "( current ) total" through the client's own
//! overhead text function.

use vstd::prelude::*;

use crate::code;
use crate::code::distance;
use crate::code::emit_call32;
use crate::code::emit_jcc32;
use crate::code::emit_jmp32;
use crate::code::push_bytes;
use crate::code::push_u32;
use crate::code::start;
use crate::hook;
use crate::hook::build_hook_patch;
use crate::hook::bytes_of;
use crate::hook::Patch;
use crate::hook::Restore;

verus! {

broadcast use crate::code::group_code_len;

pub const ATTACK_HOOK_ADDR: u32 = 0x0052_95D9;

pub const ATTACK_HOOK_LEN: usize = 10;

pub const ATTACK_HOOK_FALLTHROUGH_ADDR: u32 = 0x0052_95E3;

pub const ATTACK_SKIP_ADDR: u32 = 0x0052_9BCD;

/// `cmp dword ptr [ebp-0x20], 0; jle 0x00529BCD`
pub const ATTACK_ORIGINAL_BYTES: [u8; 10] = [
    0x83, 0x7D, 0xE0, 0x00, 0x0F, 0x8E, 0xEA, 0x05, 0x00, 0x00,
];

pub const AOE_HOOK_ADDR: u32 = 0x0052_A4F2;

pub const AOE_HOOK_LEN: usize = 7;

pub const AOE_HOOK_FALLTHROUGH_ADDR: u32 = 0x0052_A4F9;

/// `cmp dword ptr [0x00C2D2B8], 0`
pub const AOE_ORIGINAL_BYTES: [u8; 7] = [0x83, 0x3D, 0xB8, 0xD2, 0xC2, 0x00, 0x00];

pub const MAGIC_AOE_HOOK_ADDR: u32 = 0x0052_A8F1;

pub const MAGIC_AOE_HOOK_LEN: usize = 7;

pub const MAGIC_AOE_HOOK_FALLTHROUGH_ADDR: u32 = 0x0052_A8F8;

/// `cmp dword ptr [0x00C2D2B8], 0`
pub const MAGIC_AOE_ORIGINAL_BYTES: [u8; 7] = [0x83, 0x3D, 0xB8, 0xD2, 0xC2, 0x00, 0x00];

pub const MAGIC_AOE_EXT_DAMAGE_HOOK_ADDR: u32 = 0x0052_A821;

pub const MAGIC_AOE_EXT_DAMAGE_HOOK_LEN: usize = 6;

pub const MAGIC_AOE_EXT_DAMAGE_FALLTHROUGH_ADDR: u32 = 0x0052_A827;

/// `add esp, 0x10; mov [ebp-0x30], eax`
pub const MAGIC_AOE_EXT_DAMAGE_ORIGINAL_BYTES: [u8; 6] = [0x83, 0xC4, 0x10, 0x89, 0x45, 0xD0];

pub const SELF_CHAR_ID_ADDR: u32 = 0x00AB_F4B4;

pub const LOCAL_PLAYER_PTR_ADDR: u32 = 0x00C2_D2B8;

pub const LOCAL_PLAYER_ID_OFFSET: u8 = 0x0C;

pub const LOCAL_PLAYER_ALT_ID_OFFSET: u8 = 0x14;

pub const OVERHEAD_TEXT_FN: u32 = 0x0042_B7B0;

pub const DAMAGE_TEXT_COLOR: u32 = 0x0000_F800;

pub const CODECAVE_SIZE: usize = 0x8000;

pub const TEXT_BUFFER_SIZE: usize = 96;

pub const ACCUMULATOR_TIMEOUT_MS: u32 = 8_000;

/// The accumulator: the last target, its total so far and the time of the last
/// hit.
#[derive(Debug, Clone, Copy, PartialEq, Eq, Structural)]
pub struct LastHitState {
    pub target_id: u32,
    pub total: u32,
    pub tick: u32,
}

impl Default for LastHitState {
    fn default() -> (r: Self)
        ensures
            r == (LastHitState { target_id: 0, total: 0, tick: 0 }),
    {
        LastHitState { target_id: 0, total: 0, tick: 0 }
    }
}

/// Milliseconds from `then` to `now` on a clock that wraps around at 2^32.
pub open spec fn elapsed_ms(then: u32, now: u32) -> int {
    (now - then) % 0x1_0000_0000
}

/// The accumulator after a hit: the total goes on where the target is the same
/// and the last hit is at most eight seconds ago, else it starts again.
pub open spec fn after_hit(s: LastHitState, target_id: u32, damage: u32, now: u32) -> LastHitState {
    LastHitState {
        target_id,
        total: if s.target_id == target_id && elapsed_ms(s.tick, now) <= ACCUMULATOR_TIMEOUT_MS {
            ((s.total + damage) % 0x1_0000_0000) as u32
        } else {
            damage
        },
        tick: now,
    }
}

/// Hits on one target, each within the timeout of the one before, add up: two
/// hits count as one of their sum.
pub proof fn hits_add_up(s: LastHitState, target_id: u32, d1: u32, t1: u32, d2: u32, t2: u32)
    requires
        elapsed_ms(t1, t2) <= ACCUMULATOR_TIMEOUT_MS,
        d1 + d2 <= u32::MAX,
    ensures
        after_hit(after_hit(s, target_id, d1, t1), target_id, d2, t2).total == after_hit(
            s,
            target_id,
            (d1 + d2) as u32,
            t1,
        ).total,
{
}

/// Changing the target, or waiting longer than the timeout, forgets the total.
pub proof fn total_is_forgotten(s: LastHitState, target_id: u32, damage: u32, now: u32)
    requires
        s.target_id != target_id || elapsed_ms(s.tick, now) > ACCUMULATOR_TIMEOUT_MS,
    ensures
        after_hit(s, target_id, damage, now).total == damage,
{
}

/// Books a hit and gives the new total.
pub fn update_total_state(state: &mut LastHitState, target_id: u32, damage: u32, now: u32) -> (total:
    u32)
    ensures
        *final(state) == after_hit(*old(state), target_id, damage, now),
        total == final(state).total,
{
    let elapsed: u32 = now.wrapping_sub(state.tick);
    if state.target_id == target_id && elapsed <= ACCUMULATOR_TIMEOUT_MS {
        state.total = state.total.wrapping_add(damage);
    } else {
        state.target_id = target_id;
        state.total = damage;
    }
    state.tick = now;
    state.total
}

/// The sites that are hooked.
pub fn active_hook_sites() -> (r: Vec<u32>)
    ensures
        r@ == seq![ATTACK_HOOK_ADDR, MAGIC_AOE_EXT_DAMAGE_HOOK_ADDR],
{
    vec![ATTACK_HOOK_ADDR, MAGIC_AOE_EXT_DAMAGE_HOOK_ADDR]
}

// Layout of the cave: four entries, the number routine, then the data.

pub const STACK_SAVE: u32 = 1839;

pub const TOTAL_DAMAGE: u32 = 1843;

pub const CURRENT_DAMAGE: u32 = 1847;

pub const CURRENT_TARGET: u32 = 1851;

pub const RANDOM_STATE: u32 = 1855;

pub const LOOP_INDEX: u32 = 1859;

pub const LOOP_COUNT: u32 = 1863;

pub const COLOR_TABLE: u32 = 1867;

pub const LAST_TARGET: u32 = 1871;

pub const LAST_TOTAL: u32 = 1875;

pub const LAST_TICK: u32 = 1879;

pub const GET_TICK_COUNT_PTR: u32 = 1883;

pub const TEXT_BUFFER: u32 = 1887;

pub const ATTACK_ENTRY: u32 = 0;

pub const AOE_ENTRY: u32 = 355;

pub const MAGIC_AOE_ENTRY: u32 = 867;

pub const MAGIC_AOE_EXT_ENTRY: u32 = 1379;

pub const APPEND_U32: u32 = 1794;

pub const DATA: u32 = 1839;

pub const CODE_LEN: u32 = 1983;

/// Saves flags, registers and the stack pointer.
pub open spec fn entry_prologue_code(cave: u32) -> Seq<u8> {
    let c = [
        0x9Cu8, 0x60, // pushfd; pushad
        0x89, 0x25, // mov [stack_save], esp
    ]@;
    let c = code::put32(c, data_addr(cave, STACK_SAVE));
    c
}

/// Emits [`entry_prologue_code`].
fn emit_entry_prologue(cave: u32) -> (sc: Vec<u8>)
    requires
        cave + CODE_LEN <= u32::MAX,
    ensures
        sc@ == entry_prologue_code(cave),
        sc@.len() == 8,
{
    let mut sc: Vec<u8> = start(&[
        0x9C, 0x60, // pushfd; pushad
        0x89, 0x25, // mov [stack_save], esp
    ]);
    push_u32(&mut sc, cave + STACK_SAVE);
    sc
}

pub const FILTER_OK: u32 = 49;

/// Goes on only where `edx` is an id of the local player, else to `skip`.
pub open spec fn attacker_filter_code(skip: int) -> Seq<u8> {
    let c = [0x8Bu8, 0x0D]@;
    let c = code::put32(c, SELF_CHAR_ID_ADDR);
    let c = code::put(c, [0x39u8, 0xCA]@);  // cmp edx, ecx
    let c = code::jcc(c, 0x84, FILTER_OK as int);
    let c = code::put(c, [0xA1u8]@);
    let c = code::put32(c, LOCAL_PLAYER_PTR_ADDR);
    let c = code::put(c, [0x85u8, 0xC0]@);  // test eax, eax
    let c = code::jcc(c, 0x84, skip);
    let c = code::put(c, [0x8Bu8, 0x48, LOCAL_PLAYER_ID_OFFSET, 0x39, 0xCA]@);
    let c = code::jcc(c, 0x84, FILTER_OK as int);
    let c = code::put(c, [0x8Bu8, 0x48, LOCAL_PLAYER_ALT_ID_OFFSET, 0x39, 0xCA]@);
    let c = code::jcc(c, 0x85, skip);
    // filter_ok:
    c
}

/// Emits [`attacker_filter_code`].
fn emit_attacker_filter(skip: u32) -> (sc: Vec<u8>)
    ensures
        sc@ == attacker_filter_code(skip as int),
        sc@.len() == 49,
{
    let mut sc: Vec<u8> = start(&[0x8B, 0x0D]);
    push_u32(&mut sc, SELF_CHAR_ID_ADDR);
    push_bytes(&mut sc, &[0x39, 0xCA]);  // cmp edx, ecx
    emit_jcc32(&mut sc, 0x84, FILTER_OK);
    push_bytes(&mut sc, &[0xA1]);
    push_u32(&mut sc, LOCAL_PLAYER_PTR_ADDR);
    push_bytes(&mut sc, &[0x85, 0xC0]);  // test eax, eax
    emit_jcc32(&mut sc, 0x84, skip);
    push_bytes(&mut sc, &[0x8B, 0x48, LOCAL_PLAYER_ID_OFFSET, 0x39, 0xCA]);
    emit_jcc32(&mut sc, 0x84, FILTER_OK);
    push_bytes(&mut sc, &[0x8B, 0x48, LOCAL_PLAYER_ALT_ID_OFFSET, 0x39, 0xCA]);
    emit_jcc32(&mut sc, 0x85, skip);
    assert(sc@.len() == FILTER_OK);
    sc
}

pub const TOTAL_RESET: u32 = 53;

pub const TOTAL_COMMIT: u32 = 65;

/// Adds the damage `edx` to the running total of the target `ecx`, or starts a
/// new total where the target changed or the last hit is too long ago: the
/// machine-code form of [`update_total_state`].
pub open spec fn update_target_total_code(cave: u32) -> Seq<u8> {
    let c = [
        0x51u8, // push ecx (target_id)
        0x52, // push edx (current damage)
        0xFF, 0x15, // call dword [gettickcount_ptr] -> eax = now ms
    ]@;
    let c = code::put32(c, data_addr(cave, GET_TICK_COUNT_PTR));
    let c = code::put(c, [
        0x5Au8, // pop edx
        0x59, // pop ecx
        0x89, 0xC3, // mov ebx, eax  (save now)
        0x2B, 0x1D, // sub ebx, [last_tick]  -> elapsed
    ]@);
    let c = code::put32(c, data_addr(cave, LAST_TICK));
    let c = code::put(c, [0x3Bu8, 0x0D]@);  // cmp ecx, [last_target]
    let c = code::put32(c, data_addr(cave, LAST_TARGET));
    let c = code::jcc(c, 0x85, TOTAL_RESET as int);  // jne .reset
    let c = code::put(c, [0x81u8, 0xFB]@);  // cmp ebx, ACCUMULATOR_TIMEOUT_MS
    let c = code::put32(c, ACCUMULATOR_TIMEOUT_MS);
    let c = code::jcc(c, 0x87, TOTAL_RESET as int);  // ja .reset (unsigned greater)
    let c = code::put(c, [0x01u8, 0x15]@);  // add [last_total], edx
    let c = code::put32(c, data_addr(cave, LAST_TOTAL));
    let c = code::jmp(c, TOTAL_COMMIT as int);
    // total_reset:
    let c = code::put(c, [0x89u8, 0x0D]@);  // mov [last_target], ecx
    let c = code::put32(c, data_addr(cave, LAST_TARGET));
    let c = code::put(c, [0x89u8, 0x15]@);  // mov [last_total], edx
    let c = code::put32(c, data_addr(cave, LAST_TOTAL));
    // total_commit:
    let c = code::put(c, [0xA3u8]@);  // mov [last_tick], eax
    let c = code::put32(c, data_addr(cave, LAST_TICK));
    let c = code::put(c, [0xA1u8]@);  // mov eax, [last_total]
    let c = code::put32(c, data_addr(cave, LAST_TOTAL));
    let c = code::put(c, [0xA3u8]@);  // mov [total_damage], eax
    let c = code::put32(c, data_addr(cave, TOTAL_DAMAGE));
    c
}

/// Emits [`update_target_total_code`].
fn emit_update_target_total(cave: u32) -> (sc: Vec<u8>)
    requires
        cave + CODE_LEN <= u32::MAX,
    ensures
        sc@ == update_target_total_code(cave),
        sc@.len() == 80,
{
    let mut sc: Vec<u8> = start(&[
        0x51, // push ecx (target_id)
        0x52, // push edx (current damage)
        0xFF, 0x15, // call dword [gettickcount_ptr] -> eax = now ms
    ]);
    push_u32(&mut sc, cave + GET_TICK_COUNT_PTR);
    push_bytes(&mut sc, &[
        0x5A, // pop edx
        0x59, // pop ecx
        0x89, 0xC3, // mov ebx, eax  (save now)
        0x2B, 0x1D, // sub ebx, [last_tick]  -> elapsed
    ]);
    push_u32(&mut sc, cave + LAST_TICK);
    push_bytes(&mut sc, &[0x3B, 0x0D]);  // cmp ecx, [last_target]
    push_u32(&mut sc, cave + LAST_TARGET);
    emit_jcc32(&mut sc, 0x85, TOTAL_RESET);  // jne .reset
    push_bytes(&mut sc, &[0x81, 0xFB]);  // cmp ebx, ACCUMULATOR_TIMEOUT_MS
    push_u32(&mut sc, ACCUMULATOR_TIMEOUT_MS);
    emit_jcc32(&mut sc, 0x87, TOTAL_RESET);  // ja .reset (unsigned greater)
    push_bytes(&mut sc, &[0x01, 0x15]);  // add [last_total], edx
    push_u32(&mut sc, cave + LAST_TOTAL);
    emit_jmp32(&mut sc, TOTAL_COMMIT);
    assert(sc@.len() == TOTAL_RESET);
    push_bytes(&mut sc, &[0x89, 0x0D]);  // mov [last_target], ecx
    push_u32(&mut sc, cave + LAST_TARGET);
    push_bytes(&mut sc, &[0x89, 0x15]);  // mov [last_total], edx
    push_u32(&mut sc, cave + LAST_TOTAL);
    assert(sc@.len() == TOTAL_COMMIT);
    push_bytes(&mut sc, &[0xA3]);  // mov [last_tick], eax
    push_u32(&mut sc, cave + LAST_TICK);
    push_bytes(&mut sc, &[0xA1]);  // mov eax, [last_total]
    push_u32(&mut sc, cave + LAST_TOTAL);
    push_bytes(&mut sc, &[0xA3]);  // mov [total_damage], eax
    push_u32(&mut sc, cave + TOTAL_DAMAGE);
    sc
}

/// Writes "( current ) total" into the text buffer; `append` is the routine that
/// writes a number.
pub open spec fn damage_text_code(cave: u32, append: int) -> Seq<u8> {
    let c = [0xBFu8]@;  // mov edi, text_buffer
    let c = code::put32(c, data_addr(cave, TEXT_BUFFER));
    let c = code::put(c, [
        0xC7u8, 0x07, 0x5C, 0x5C, 0x66, 0x52, // [edi+0]  = "\\fR"
        0xC7, 0x47, 0x04, 0x66, 0x3E, 0x28, 0x20, // [edi+4]  = "f>( "
        0xC7, 0x47, 0x08, 0x5C, 0x5C, 0x66, 0x52, // [edi+8]  = "\\fR"
        0x66, 0xC7, 0x47, 0x0C, 0x66, 0x30, // [edi+12] = "f0" (word)
        0x83, 0xC7, 0x0E, // add edi, 14
        0xA1, // mov eax, [random_state]
    ]@);
    let c = code::put32(c, data_addr(cave, RANDOM_STATE));
    let c = code::put(c, [0x69u8, 0xC0, 0xFD, 0x43, 0x03, 0x00, 0x03, 0x05]@);
    let c = code::put32(c, data_addr(cave, CURRENT_DAMAGE));
    let c = code::put(c, [0x03u8, 0x05]@);
    let c = code::put32(c, data_addr(cave, CURRENT_TARGET));
    let c = code::put(c, [0x05u8, 0xC3, 0x9E, 0x26, 0x00, 0xA3]@);
    let c = code::put32(c, data_addr(cave, RANDOM_STATE));
    let c = code::put(c, [0xC1u8, 0xE8, 0x08, 0x83, 0xE0, 0x03, 0x8A, 0x98]@);
    let c = code::put32(c, data_addr(cave, COLOR_TABLE));
    let c = code::put(c, [
        0x88u8, 0x5F, 0xFF, // update inline color digit
        0xA1,
    ]@);
    let c = code::put32(c, data_addr(cave, CURRENT_DAMAGE));
    let c = code::call(c, append);
    let c = code::put(c, [
        0xC7u8, 0x07, 0x5C, 0x5C, 0x66, 0x52,
        0xC7, 0x47, 0x04, 0x66, 0x3E, 0x20, 0x29,
        0xC6, 0x47, 0x08, 0x20,
        0x83, 0xC7, 0x09,
        0xA1,
    ]@);
    let c = code::put32(c, data_addr(cave, TOTAL_DAMAGE));
    let c = code::call(c, append);
    let c = code::put(c, [0xC6u8, 0x07, 0x00]@);
    c
}

/// Emits [`damage_text_code`].
fn emit_damage_text(cave: u32, append: u32) -> (sc: Vec<u8>)
    requires
        cave + CODE_LEN <= u32::MAX,
    ensures
        sc@ == damage_text_code(cave, append as int),
        sc@.len() == 125,
{
    let mut sc: Vec<u8> = start(&[0xBF]);  // mov edi, text_buffer
    push_u32(&mut sc, cave + TEXT_BUFFER);
    push_bytes(&mut sc, &[
        0xC7, 0x07, 0x5C, 0x5C, 0x66, 0x52, // [edi+0]  = "\\fR"
        0xC7, 0x47, 0x04, 0x66, 0x3E, 0x28, 0x20, // [edi+4]  = "f>( "
        0xC7, 0x47, 0x08, 0x5C, 0x5C, 0x66, 0x52, // [edi+8]  = "\\fR"
        0x66, 0xC7, 0x47, 0x0C, 0x66, 0x30, // [edi+12] = "f0" (word)
        0x83, 0xC7, 0x0E, // add edi, 14
        0xA1, // mov eax, [random_state]
    ]);
    push_u32(&mut sc, cave + RANDOM_STATE);
    push_bytes(&mut sc, &[0x69, 0xC0, 0xFD, 0x43, 0x03, 0x00, 0x03, 0x05]);
    push_u32(&mut sc, cave + CURRENT_DAMAGE);
    push_bytes(&mut sc, &[0x03, 0x05]);
    push_u32(&mut sc, cave + CURRENT_TARGET);
    push_bytes(&mut sc, &[0x05, 0xC3, 0x9E, 0x26, 0x00, 0xA3]);
    push_u32(&mut sc, cave + RANDOM_STATE);
    push_bytes(&mut sc, &[0xC1, 0xE8, 0x08, 0x83, 0xE0, 0x03, 0x8A, 0x98]);
    push_u32(&mut sc, cave + COLOR_TABLE);
    push_bytes(&mut sc, &[
        0x88, 0x5F, 0xFF, // update inline color digit
        0xA1,
    ]);
    push_u32(&mut sc, cave + CURRENT_DAMAGE);
    emit_call32(&mut sc, append);
    push_bytes(&mut sc, &[
        0xC7, 0x07, 0x5C, 0x5C, 0x66, 0x52,
        0xC7, 0x47, 0x04, 0x66, 0x3E, 0x20, 0x29,
        0xC6, 0x47, 0x08, 0x20,
        0x83, 0xC7, 0x09,
        0xA1,
    ]);
    push_u32(&mut sc, cave + TOTAL_DAMAGE);
    emit_call32(&mut sc, append);
    push_bytes(&mut sc, &[0xC6, 0x07, 0x00]);
    sc
}

/// Shows the text buffer over the target's head.
pub open spec fn overhead_text_call_code(cave: u32) -> Seq<u8> {
    let c = [
        0x6Au8, 0x00, // push 0
        0x6A, 0x00, // push 0
        0x6A, 0x01, // push 1
        0x68, // push DAMAGE_TEXT_COLOR
    ]@;
    let c = code::put32(c, DAMAGE_TEXT_COLOR);
    let c = code::put(c, [0x68u8]@);  // push text_buffer
    let c = code::put32(c, data_addr(cave, TEXT_BUFFER));
    let c = code::put(c, [0xFFu8, 0x35]@);  // push [current_target]
    let c = code::put32(c, data_addr(cave, CURRENT_TARGET));
    let c = code::put(c, [0xB8u8]@);  // mov eax, OVERHEAD_TEXT_FN
    let c = code::put32(c, OVERHEAD_TEXT_FN);
    let c = code::put(c, [
        0xFFu8, 0xD0, // call eax
        0x83, 0xC4, 0x18, // add esp, 24
    ]@);
    c
}

/// Emits [`overhead_text_call_code`].
fn emit_overhead_text_call(cave: u32) -> (sc: Vec<u8>)
    requires
        cave + CODE_LEN <= u32::MAX,
    ensures
        sc@ == overhead_text_call_code(cave),
        sc@.len() == 32,
{
    let mut sc: Vec<u8> = start(&[
        0x6A, 0x00, // push 0
        0x6A, 0x00, // push 0
        0x6A, 0x01, // push 1
        0x68, // push DAMAGE_TEXT_COLOR
    ]);
    push_u32(&mut sc, DAMAGE_TEXT_COLOR);
    push_bytes(&mut sc, &[0x68]);  // push text_buffer
    push_u32(&mut sc, cave + TEXT_BUFFER);
    push_bytes(&mut sc, &[0xFF, 0x35]);  // push [current_target]
    push_u32(&mut sc, cave + CURRENT_TARGET);
    push_bytes(&mut sc, &[0xB8]);  // mov eax, OVERHEAD_TEXT_FN
    push_u32(&mut sc, OVERHEAD_TEXT_FN);
    push_bytes(&mut sc, &[
        0xFF, 0xD0, // call eax
        0x83, 0xC4, 0x18, // add esp, 24
    ]);
    sc
}

/// Books the hit (`ecx` target, `edx` damage) and shows it.
pub open spec fn update_total_and_display_no_checks_code(cave: u32, append: int) -> Seq<u8> {
    let c = [0x89u8, 0x15]@;
    let c = code::put32(c, data_addr(cave, CURRENT_DAMAGE));
    let c = code::put(c, [0x89u8, 0x0D]@);
    let c = code::put32(c, data_addr(cave, CURRENT_TARGET));
    let c = code::put(c, update_target_total_code(cave));
    let c = code::put(c, damage_text_code(cave, append - 92));
    let c = code::put(c, overhead_text_call_code(cave));
    c
}

/// Emits [`update_total_and_display_no_checks_code`].
fn emit_update_total_and_display_no_checks(cave: u32, append: u32) -> (sc: Vec<u8>)
    requires
        cave + CODE_LEN <= u32::MAX,
        append >= 200,
    ensures
        sc@ == update_total_and_display_no_checks_code(cave, append as int),
        sc@.len() == 249,
{
    let mut sc: Vec<u8> = start(&[0x89, 0x15]);
    push_u32(&mut sc, cave + CURRENT_DAMAGE);
    push_bytes(&mut sc, &[0x89, 0x0D]);
    push_u32(&mut sc, cave + CURRENT_TARGET);
    push_bytes(&mut sc, emit_update_target_total(cave).as_slice());
    push_bytes(&mut sc, emit_damage_text(cave, append - 92).as_slice());
    push_bytes(&mut sc, emit_overhead_text_call(cave).as_slice());
    sc
}

/// Books and shows the hit unless target or damage is zero.
pub open spec fn update_total_and_display_code(cave: u32, skip: int, append: int) -> Seq<u8> {
    let c = [0x85u8, 0xC9]@;  // test ecx, ecx
    let c = code::jcc(c, 0x84, skip);
    let c = code::put(c, [0x85u8, 0xD2]@);  // test edx, edx
    let c = code::jcc(c, 0x84, skip);
    let c = code::put(c, [0x89u8, 0x15]@);
    let c = code::put32(c, data_addr(cave, CURRENT_DAMAGE));
    let c = code::put(c, [0x89u8, 0x0D]@);
    let c = code::put32(c, data_addr(cave, CURRENT_TARGET));
    let c = code::put(c, update_target_total_code(cave));
    let c = code::put(c, damage_text_code(cave, append - 108));
    let c = code::put(c, overhead_text_call_code(cave));
    c
}

/// Emits [`update_total_and_display_code`].
fn emit_update_total_and_display(cave: u32, skip: u32, append: u32) -> (sc: Vec<u8>)
    requires
        cave + CODE_LEN <= u32::MAX,
        append >= 200,
    ensures
        sc@ == update_total_and_display_code(cave, skip as int, append as int),
        sc@.len() == 265,
{
    let mut sc: Vec<u8> = start(&[0x85, 0xC9]);  // test ecx, ecx
    emit_jcc32(&mut sc, 0x84, skip);
    push_bytes(&mut sc, &[0x85, 0xD2]);  // test edx, edx
    emit_jcc32(&mut sc, 0x84, skip);
    push_bytes(&mut sc, &[0x89, 0x15]);
    push_u32(&mut sc, cave + CURRENT_DAMAGE);
    push_bytes(&mut sc, &[0x89, 0x0D]);
    push_u32(&mut sc, cave + CURRENT_TARGET);
    push_bytes(&mut sc, emit_update_target_total(cave).as_slice());
    push_bytes(&mut sc, emit_damage_text(cave, append - 108).as_slice());
    push_bytes(&mut sc, emit_overhead_text_call(cave).as_slice());
    sc
}

pub const HITS_OUTER_LOOP: u32 = 60;

pub const HITS_PRIOR_LOOP: u32 = 98;

pub const HITS_SUM_START: u32 = 121;

pub const HITS_SUM_LOOP: u32 = 125;

pub const HITS_SUM_NEXT: u32 = 158;

pub const HITS_DONE: u32 = 164;

pub const HITS_OUTER_NEXT: u32 = 421;

pub const HITS_DONE_2: u32 = 432;

/// Sums the hits of each target of an area attack and shows one total per target.
/// `load_container` brings the hit container into `esi`, `load_count` its length
/// into `eax`, and `load_hit_damage` the damage of hit `ebx` into `eax`.
pub open spec fn display_aggregated_aoe_hits_code(cave: u32, skip: int, append: int, load_container: Seq<u8>, load_count: Seq<u8>, load_hit_damage: Seq<u8>) -> Seq<u8> {
    let c = load_container;
    let c = code::put(c, [0x85u8, 0xF6]@);  // test esi, esi
    let c = code::jcc(c, 0x84, skip);
    let c = code::put(c, [
        0x8Bu8, 0x56, 0x08, // mov edx, [esi+8] damage array
        0x85, 0xD2,
    ]@);
    let c = code::jcc(c, 0x84, skip);
    let c = code::put(c, [
        0x8Bu8, 0x7E, 0x04, // mov edi, [esi+4] target array
        0x85, 0xFF, // test edi, edi
    ]@);
    let c = code::jcc(c, 0x84, skip);
    let c = code::put(c, load_count);
    let c = code::put(c, [0x85u8, 0xC0]@);  // test eax, eax
    let c = code::jcc(c, 0x84, skip);
    let c = code::put(c, [0xA3u8]@);  // mov [loop_count], eax
    let c = code::put32(c, data_addr(cave, LOOP_COUNT));
    let c = code::put(c, [0xC7u8, 0x05]@);  // mov dword ptr [loop_index], 0
    let c = code::put32(c, data_addr(cave, LOOP_INDEX));
    let c = code::put32(c, 0);
    // hits_outer_loop:
    let c = code::put(c, load_container);
    let c = code::put(c, [
        0x8Bu8, 0x7E, 0x04, // mov edi, [esi+4]
        0x8B, 0x1D, // mov ebx, [loop_index]
    ]@);
    let c = code::put32(c, data_addr(cave, LOOP_INDEX));
    let c = code::put(c, [0xA1u8]@);  // mov eax, [loop_count]
    let c = code::put32(c, data_addr(cave, LOOP_COUNT));
    let c = code::put(c, [0x39u8, 0xC3]@);  // cmp ebx, eax
    let c = code::jcc(c, 0x8D, HITS_DONE_2 as int);
    let c = code::put(c, [
        0x8Bu8, 0x0C, 0x9F, // mov ecx, [edi+ebx*4] target
        0x85, 0xC9, // test ecx, ecx
    ]@);
    let c = code::jcc(c, 0x84, HITS_OUTER_NEXT as int);
    let c = code::put(c, [0x31u8, 0xD2]@);  // xor edx, edx; prior index
    // hits_prior_loop:
    let c = code::put(c, [0x39u8, 0xDA]@);  // cmp edx, ebx
    let c = code::jcc(c, 0x8D, HITS_SUM_START as int);
    let c = code::put(c, [0x39u8, 0x0C, 0x97]@);  // cmp [edi+edx*4], ecx
    let c = code::jcc(c, 0x84, HITS_OUTER_NEXT as int);
    let c = code::put(c, [0x42u8]@);  // inc edx
    let c = code::jmp(c, HITS_PRIOR_LOOP as int);
    // hits_sum_start:
    let c = code::put(c, [
        0x31u8, 0xD2, // xor edx, edx; total damage
        0x31, 0xDB, // xor ebx, ebx; sum index
    ]@);
    // hits_sum_loop:
    let c = code::put(c, [0xA1u8]@);  // mov eax, [loop_count]
    let c = code::put32(c, data_addr(cave, LOOP_COUNT));
    let c = code::put(c, [0x39u8, 0xC3]@);  // cmp ebx, eax
    let c = code::jcc(c, 0x8D, HITS_DONE as int);
    let c = code::put(c, [0x39u8, 0x0C, 0x9F]@);  // cmp [edi+ebx*4], ecx
    let c = code::jcc(c, 0x85, HITS_SUM_NEXT as int);
    let c = code::put(c, [0x50u8]@);  // push eax
    let c = code::put(c, load_hit_damage);
    let c = code::put(c, [
        0x01u8, 0xC2, // add edx, eax
        0x58, // pop eax
    ]@);
    // hits_sum_next:
    let c = code::put(c, [0x43u8]@);  // inc ebx
    let c = code::jmp(c, HITS_SUM_LOOP as int);
    // hits_done:
    let c = code::put(c, [0x85u8, 0xD2]@);  // test edx, edx
    let c = code::jcc(c, 0x84, HITS_OUTER_NEXT as int);
    let c = code::put(c, update_total_and_display_no_checks_code(cave, append - 172));
    // hits_outer_next:
    let c = code::put(c, [0xFFu8, 0x05]@);  // inc dword ptr [loop_index]
    let c = code::put32(c, data_addr(cave, LOOP_INDEX));
    let c = code::jmp(c, HITS_OUTER_LOOP as int);
    // hits_done_2:
    c
}

/// Emits [`display_aggregated_aoe_hits_code`].
#[verifier::rlimit(50)]
fn emit_display_aggregated_aoe_hits(cave: u32, skip: u32, append: u32, load_container: &[u8], load_count: &[u8], load_hit_damage: &[u8]) -> (sc: Vec<u8>)
    requires
        cave + CODE_LEN <= u32::MAX,
        append >= 400,
        load_container@.len() == 3,
        load_count@.len() == 4,
        load_hit_damage@.len() == 7,
    ensures
        sc@ == display_aggregated_aoe_hits_code(cave, skip as int, append as int, load_container@, load_count@, load_hit_damage@),
        sc@.len() == 432,
{
    let mut sc: Vec<u8> = start(load_container);
    push_bytes(&mut sc, &[0x85, 0xF6]);  // test esi, esi
    emit_jcc32(&mut sc, 0x84, skip);
    push_bytes(&mut sc, &[
        0x8B, 0x56, 0x08, // mov edx, [esi+8] damage array
        0x85, 0xD2,
    ]);
    emit_jcc32(&mut sc, 0x84, skip);
    push_bytes(&mut sc, &[
        0x8B, 0x7E, 0x04, // mov edi, [esi+4] target array
        0x85, 0xFF, // test edi, edi
    ]);
    emit_jcc32(&mut sc, 0x84, skip);
    push_bytes(&mut sc, load_count);
    push_bytes(&mut sc, &[0x85, 0xC0]);  // test eax, eax
    emit_jcc32(&mut sc, 0x84, skip);
    push_bytes(&mut sc, &[0xA3]);  // mov [loop_count], eax
    push_u32(&mut sc, cave + LOOP_COUNT);
    push_bytes(&mut sc, &[0xC7, 0x05]);  // mov dword ptr [loop_index], 0
    push_u32(&mut sc, cave + LOOP_INDEX);
    push_u32(&mut sc, 0);
    assert(sc@.len() == HITS_OUTER_LOOP);
    push_bytes(&mut sc, load_container);
    push_bytes(&mut sc, &[
        0x8B, 0x7E, 0x04, // mov edi, [esi+4]
        0x8B, 0x1D, // mov ebx, [loop_index]
    ]);
    push_u32(&mut sc, cave + LOOP_INDEX);
    push_bytes(&mut sc, &[0xA1]);  // mov eax, [loop_count]
    push_u32(&mut sc, cave + LOOP_COUNT);
    push_bytes(&mut sc, &[0x39, 0xC3]);  // cmp ebx, eax
    emit_jcc32(&mut sc, 0x8D, HITS_DONE_2);
    push_bytes(&mut sc, &[
        0x8B, 0x0C, 0x9F, // mov ecx, [edi+ebx*4] target
        0x85, 0xC9, // test ecx, ecx
    ]);
    emit_jcc32(&mut sc, 0x84, HITS_OUTER_NEXT);
    push_bytes(&mut sc, &[0x31, 0xD2]);  // xor edx, edx; prior index
    assert(sc@.len() == HITS_PRIOR_LOOP);
    push_bytes(&mut sc, &[0x39, 0xDA]);  // cmp edx, ebx
    emit_jcc32(&mut sc, 0x8D, HITS_SUM_START);
    push_bytes(&mut sc, &[0x39, 0x0C, 0x97]);  // cmp [edi+edx*4], ecx
    emit_jcc32(&mut sc, 0x84, HITS_OUTER_NEXT);
    push_bytes(&mut sc, &[0x42]);  // inc edx
    emit_jmp32(&mut sc, HITS_PRIOR_LOOP);
    assert(sc@.len() == HITS_SUM_START);
    push_bytes(&mut sc, &[
        0x31, 0xD2, // xor edx, edx; total damage
        0x31, 0xDB, // xor ebx, ebx; sum index
    ]);
    assert(sc@.len() == HITS_SUM_LOOP);
    push_bytes(&mut sc, &[0xA1]);  // mov eax, [loop_count]
    push_u32(&mut sc, cave + LOOP_COUNT);
    push_bytes(&mut sc, &[0x39, 0xC3]);  // cmp ebx, eax
    emit_jcc32(&mut sc, 0x8D, HITS_DONE);
    push_bytes(&mut sc, &[0x39, 0x0C, 0x9F]);  // cmp [edi+ebx*4], ecx
    emit_jcc32(&mut sc, 0x85, HITS_SUM_NEXT);
    push_bytes(&mut sc, &[0x50]);  // push eax
    push_bytes(&mut sc, load_hit_damage);
    push_bytes(&mut sc, &[
        0x01, 0xC2, // add edx, eax
        0x58, // pop eax
    ]);
    assert(sc@.len() == HITS_SUM_NEXT);
    push_bytes(&mut sc, &[0x43]);  // inc ebx
    emit_jmp32(&mut sc, HITS_SUM_LOOP);
    assert(sc@.len() == HITS_DONE);
    push_bytes(&mut sc, &[0x85, 0xD2]);  // test edx, edx
    emit_jcc32(&mut sc, 0x84, HITS_OUTER_NEXT);
    push_bytes(&mut sc, emit_update_total_and_display_no_checks(cave, append - 172).as_slice());
    assert(sc@.len() == HITS_OUTER_NEXT);
    push_bytes(&mut sc, &[0xFF, 0x05]);  // inc dword ptr [loop_index]
    push_u32(&mut sc, cave + LOOP_INDEX);
    emit_jmp32(&mut sc, HITS_OUTER_LOOP);
    assert(sc@.len() == HITS_DONE_2);
    sc
}

/// A routine that writes `eax` in decimal at `edi` and moves `edi` behind it.
pub open spec fn append_u32_code() -> Seq<u8> {
    let c = [
        0x53u8, 0x51, 0x52, 0x56, // push ebx; push ecx; push edx; push esi
        0x31, 0xC9, // xor ecx, ecx
        0xBB, 0x0A, 0x00, 0x00, 0x00, // mov ebx, 10
        0x85, 0xC0, // test eax, eax
        0x75, 0x06, // jne digits
        0xC6, 0x07, 0x30, 0x47, // *edi++ = '0'
        0xEB, 0x13, // jmp done
        0x31, 0xD2, // digits: xor edx, edx
        0xF7, 0xF3, // div ebx
        0x80, 0xC2, 0x30, // add dl, '0'
        0x52, 0x41, // push edx; inc ecx
        0x85, 0xC0, // test eax, eax
        0x75, 0xF3, // jne digits
        0x5A, 0x88, 0x17, 0x47, // write: *edi++ = pop edx
        0xE2, 0xFA, // loop write
        0x5E, 0x5A, 0x59, 0x5B, 0xC3, // done: pop esi; pop edx; pop ecx; pop ebx; ret
    ]@;
    c
}

/// Emits [`append_u32_code`].
fn emit_append_u32() -> (sc: Vec<u8>)
    ensures
        sc@ == append_u32_code(),
        sc@.len() == 45,
{
    let mut sc: Vec<u8> = start(&[
        0x53, 0x51, 0x52, 0x56, // push ebx; push ecx; push edx; push esi
        0x31, 0xC9, // xor ecx, ecx
        0xBB, 0x0A, 0x00, 0x00, 0x00, // mov ebx, 10
        0x85, 0xC0, // test eax, eax
        0x75, 0x06, // jne digits
        0xC6, 0x07, 0x30, 0x47, // *edi++ = '0'
        0xEB, 0x13, // jmp done
        0x31, 0xD2, // digits: xor edx, edx
        0xF7, 0xF3, // div ebx
        0x80, 0xC2, 0x30, // add dl, '0'
        0x52, 0x41, // push edx; inc ecx
        0x85, 0xC0, // test eax, eax
        0x75, 0xF3, // jne digits
        0x5A, 0x88, 0x17, 0x47, // write: *edi++ = pop edx
        0xE2, 0xFA, // loop write
        0x5E, 0x5A, 0x59, 0x5B, 0xC3, // done: pop esi; pop edx; pop ecx; pop ebx; ret
    ]);
    sc
}

pub const ATTACK_SKIP: u32 = 338;

/// The single-target attack path.
pub open spec fn attack_entry_code(cave: u32, append: int) -> Seq<u8> {
    let c = entry_prologue_code(cave);
    let c = code::put(c, [0x8Bu8, 0x55, 0xEC]@);  // mov edx, [ebp-0x14] attacker
    let c = code::put(c, attacker_filter_code(ATTACK_SKIP - 11));
    let c = code::put(c, [
        0x8Bu8, 0x4D, 0xF0, // mov ecx, [ebp-0x10] target
        0x0F, 0xB7, 0x55, 0xCC, // movzx edx, word [ebp-0x34] damage
    ]@);
    let c = code::put(c, update_total_and_display_code(cave, ATTACK_SKIP - 67, append - 67));
    let c = code::put(c, [0x8Bu8, 0x25]@);  // mov esp, [stack_save]
    let c = code::put32(c, data_addr(cave, STACK_SAVE));
    // attack_skip:
    let c = code::put(c, [
        0x61u8, 0x9D, // popad; popfd
        0x83, 0x7D, 0xE0, 0x00, // cmp dword ptr [ebp-0x20], 0
    ]@);
    let c = code::put(c, [0x0Fu8, 0x8E]@);
    let c = code::put32(c, code::rel32(cave + ATTACK_ENTRY + 350, ATTACK_SKIP_ADDR as int));
    let c = code::put(c, [0xE9u8]@);
    let c = code::put32(c, code::rel32(cave + ATTACK_ENTRY + 355, ATTACK_HOOK_FALLTHROUGH_ADDR as int));
    c
}

/// Emits [`attack_entry_code`].
#[verifier::rlimit(30)]
fn emit_attack_entry(cave: u32, append: u32) -> (sc: Vec<u8>)
    requires
        cave + CODE_LEN <= u32::MAX,
        append >= 355,
        append <= CODE_LEN,
    ensures
        sc@ == attack_entry_code(cave, append as int),
        sc@.len() == 355,
{
    let mut sc: Vec<u8> = emit_entry_prologue(cave);
    push_bytes(&mut sc, &[0x8B, 0x55, 0xEC]);  // mov edx, [ebp-0x14] attacker
    push_bytes(&mut sc, emit_attacker_filter(ATTACK_SKIP - 11).as_slice());
    push_bytes(&mut sc, &[
        0x8B, 0x4D, 0xF0, // mov ecx, [ebp-0x10] target
        0x0F, 0xB7, 0x55, 0xCC, // movzx edx, word [ebp-0x34] damage
    ]);
    push_bytes(&mut sc, emit_update_total_and_display(cave, ATTACK_SKIP - 67, append - 67).as_slice());
    push_bytes(&mut sc, &[0x8B, 0x25]);  // mov esp, [stack_save]
    push_u32(&mut sc, cave + STACK_SAVE);
    assert(sc@.len() == ATTACK_SKIP);
    push_bytes(&mut sc, &[
        0x61, 0x9D, // popad; popfd
        0x83, 0x7D, 0xE0, 0x00, // cmp dword ptr [ebp-0x20], 0
    ]);
    push_bytes(&mut sc, &[0x0F, 0x8E]);
    push_u32(&mut sc, distance(cave + ATTACK_ENTRY + 350, ATTACK_SKIP_ADDR));
    push_bytes(&mut sc, &[0xE9]);
    push_u32(&mut sc, distance(cave + ATTACK_ENTRY + 355, ATTACK_HOOK_FALLTHROUGH_ADDR));
    sc
}

pub const AOE_SKIP: u32 = 498;

/// The area attack path.
pub open spec fn aoe_entry_code(cave: u32, append: int) -> Seq<u8> {
    let c = entry_prologue_code(cave);
    let c = code::put(c, [0x8Bu8, 0x55, 0xF0]@);  // mov edx, [ebp-0x10] attacker
    let c = code::put(c, attacker_filter_code(AOE_SKIP - 11));
    let c = code::put(c, display_aggregated_aoe_hits_code(cave, AOE_SKIP - 60, append - 60, [0x8Bu8, 0x75, 0xE4]@, [0x0Fu8, 0xB7, 0x45, 0xE0]@, [0x8Bu8, 0x46, 0x08, 0x0F, 0xB7, 0x04, 0x58]@));
    let c = code::put(c, [0x8Bu8, 0x25]@);  // mov esp, [stack_save]
    let c = code::put32(c, data_addr(cave, STACK_SAVE));
    // aoe_skip:
    let c = code::put(c, [
        0x61u8, 0x9D, // popad; popfd
        0x83, 0x3D, 0xB8, 0xD2, 0xC2, 0x00, 0x00, // cmp dword ptr [local_player], 0
    ]@);
    let c = code::put(c, [0xE9u8]@);
    let c = code::put32(c, code::rel32(cave + AOE_ENTRY + 512, AOE_HOOK_FALLTHROUGH_ADDR as int));
    c
}

/// Emits [`aoe_entry_code`].
#[verifier::rlimit(30)]
fn emit_aoe_entry(cave: u32, append: u32) -> (sc: Vec<u8>)
    requires
        cave + CODE_LEN <= u32::MAX,
        append >= 512,
        append <= CODE_LEN,
    ensures
        sc@ == aoe_entry_code(cave, append as int),
        sc@.len() == 512,
{
    let mut sc: Vec<u8> = emit_entry_prologue(cave);
    push_bytes(&mut sc, &[0x8B, 0x55, 0xF0]);  // mov edx, [ebp-0x10] attacker
    push_bytes(&mut sc, emit_attacker_filter(AOE_SKIP - 11).as_slice());
    push_bytes(&mut sc, emit_display_aggregated_aoe_hits(cave, AOE_SKIP - 60, append - 60, &[0x8B, 0x75, 0xE4], &[0x0F, 0xB7, 0x45, 0xE0], &[0x8B, 0x46, 0x08, 0x0F, 0xB7, 0x04, 0x58]).as_slice());
    push_bytes(&mut sc, &[0x8B, 0x25]);  // mov esp, [stack_save]
    push_u32(&mut sc, cave + STACK_SAVE);
    assert(sc@.len() == AOE_SKIP);
    push_bytes(&mut sc, &[
        0x61, 0x9D, // popad; popfd
        0x83, 0x3D, 0xB8, 0xD2, 0xC2, 0x00, 0x00, // cmp dword ptr [local_player], 0
    ]);
    push_bytes(&mut sc, &[0xE9]);
    push_u32(&mut sc, distance(cave + AOE_ENTRY + 512, AOE_HOOK_FALLTHROUGH_ADDR));
    sc
}

pub const MAGIC_AOE_SKIP: u32 = 498;

/// The area magic path.
pub open spec fn magic_aoe_entry_code(cave: u32, append: int) -> Seq<u8> {
    let c = entry_prologue_code(cave);
    let c = code::put(c, [0x8Bu8, 0x55, 0xE4]@);  // mov edx, [ebp-0x1C] magic caster
    let c = code::put(c, attacker_filter_code(MAGIC_AOE_SKIP - 11));
    let c = code::put(c, display_aggregated_aoe_hits_code(cave, MAGIC_AOE_SKIP - 60, append - 60, [0x8Bu8, 0x75, 0xBC]@, [0x0Fu8, 0xB7, 0x45, 0xB4]@, [0x8Bu8, 0x46, 0x08, 0x0F, 0xB7, 0x04, 0x58]@));
    let c = code::put(c, [0x8Bu8, 0x25]@);  // mov esp, [stack_save]
    let c = code::put32(c, data_addr(cave, STACK_SAVE));
    // magic_aoe_skip:
    let c = code::put(c, [
        0x61u8, 0x9D, // popad; popfd
        0x83, 0x3D, 0xB8, 0xD2, 0xC2, 0x00, 0x00, // cmp dword ptr [local_player], 0
    ]@);
    let c = code::put(c, [0xE9u8]@);
    let c = code::put32(c, code::rel32(cave + MAGIC_AOE_ENTRY + 512, MAGIC_AOE_HOOK_FALLTHROUGH_ADDR as int));
    c
}

/// Emits [`magic_aoe_entry_code`].
#[verifier::rlimit(30)]
fn emit_magic_aoe_entry(cave: u32, append: u32) -> (sc: Vec<u8>)
    requires
        cave + CODE_LEN <= u32::MAX,
        append >= 512,
        append <= CODE_LEN,
    ensures
        sc@ == magic_aoe_entry_code(cave, append as int),
        sc@.len() == 512,
{
    let mut sc: Vec<u8> = emit_entry_prologue(cave);
    push_bytes(&mut sc, &[0x8B, 0x55, 0xE4]);  // mov edx, [ebp-0x1C] magic caster
    push_bytes(&mut sc, emit_attacker_filter(MAGIC_AOE_SKIP - 11).as_slice());
    push_bytes(&mut sc, emit_display_aggregated_aoe_hits(cave, MAGIC_AOE_SKIP - 60, append - 60, &[0x8B, 0x75, 0xBC], &[0x0F, 0xB7, 0x45, 0xB4], &[0x8B, 0x46, 0x08, 0x0F, 0xB7, 0x04, 0x58]).as_slice());
    push_bytes(&mut sc, &[0x8B, 0x25]);  // mov esp, [stack_save]
    push_u32(&mut sc, cave + STACK_SAVE);
    assert(sc@.len() == MAGIC_AOE_SKIP);
    push_bytes(&mut sc, &[
        0x61, 0x9D, // popad; popfd
        0x83, 0x3D, 0xB8, 0xD2, 0xC2, 0x00, 0x00, // cmp dword ptr [local_player], 0
    ]);
    push_bytes(&mut sc, &[0xE9]);
    push_u32(&mut sc, distance(cave + MAGIC_AOE_ENTRY + 512, MAGIC_AOE_HOOK_FALLTHROUGH_ADDR));
    sc
}

pub const MAGIC_AOE_EXT_SKIP: u32 = 402;

/// The area magic path whose packet carries one damage dword per target: the
/// dword is consumed before the replaced parse epilogue is replayed.
pub open spec fn magic_aoe_ext_damage_entry_code(cave: u32, append: int) -> Seq<u8> {
    let c = [
        0x8Bu8, 0x10, // mov edx, [eax] damage
        0x83, 0xC0, 0x04, // add eax, 4
    ]@;
    let c = code::put(c, entry_prologue_code(cave));
    let c = code::put(c, [0x89u8, 0x15]@);
    let c = code::put32(c, data_addr(cave, CURRENT_DAMAGE));
    let c = code::put(c, [0x8Bu8, 0x55, 0xE4]@);  // mov edx, [ebp-0x1C] caster
    let c = code::put(c, attacker_filter_code(MAGIC_AOE_EXT_SKIP - 22));
    let c = code::put(c, [
        0x8Bu8, 0x75, 0xBC, // mov esi, [ebp-0x44] hit container
        0x85, 0xF6, // test esi, esi
    ]@);
    let c = code::jcc(c, 0x84, MAGIC_AOE_EXT_SKIP as int);
    let c = code::put(c, [
        0x8Bu8, 0x9D, 0x10, 0xFE, 0xFF, 0xFF, // mov ebx, [ebp-0x1F0] index
        0x8B, 0x7E, 0x08, // mov edi, [esi+8] hit flag array
        0x85, 0xFF, // test edi, edi
    ]@);
    let c = code::jcc(c, 0x84, MAGIC_AOE_EXT_SKIP as int);
    let c = code::put(c, [
        0x0Fu8, 0xB7, 0x04, 0x5F, // movzx eax, word [edi+ebx*2]
        0x85, 0xC0, // test eax, eax
    ]@);
    let c = code::jcc(c, 0x84, MAGIC_AOE_EXT_SKIP as int);
    let c = code::put(c, [
        0x8Bu8, 0x7E, 0x04, // mov edi, [esi+4] target array
        0x85, 0xFF, // test edi, edi
    ]@);
    let c = code::jcc(c, 0x84, MAGIC_AOE_EXT_SKIP as int);
    let c = code::put(c, [
        0x8Bu8, 0x0C, 0x9F, // mov ecx, [edi+ebx*4] target
        0x85, 0xC9, // test ecx, ecx
    ]@);
    let c = code::jcc(c, 0x84, MAGIC_AOE_EXT_SKIP as int);
    let c = code::put(c, [0x8Bu8, 0x15]@);
    let c = code::put32(c, data_addr(cave, CURRENT_DAMAGE));
    let c = code::put(c, [0x85u8, 0xD2]@);  // test edx, edx
    let c = code::jcc(c, 0x8E, MAGIC_AOE_EXT_SKIP as int);  // MAGIC_AOE_EXT_SKIP damage <= 0
    let c = code::put(c, update_total_and_display_no_checks_code(cave, append - 147));
    let c = code::put(c, [0x8Bu8, 0x25]@);  // mov esp, [stack_save]
    let c = code::put32(c, data_addr(cave, STACK_SAVE));
    // magic_aoe_ext_skip:
    let c = code::put(c, [
        0x61u8, 0x9D, // popad; popfd
        0x83, 0xC4, 0x10, // add esp, 0x10
        0x89, 0x45, 0xD0, // mov [ebp-0x30], eax
    ]@);
    let c = code::put(c, [0xE9u8]@);
    let c = code::put32(c, code::rel32(cave + MAGIC_AOE_EXT_ENTRY + 415, MAGIC_AOE_EXT_DAMAGE_FALLTHROUGH_ADDR as int));
    c
}

/// Emits [`magic_aoe_ext_damage_entry_code`].
#[verifier::rlimit(30)]
fn emit_magic_aoe_ext_damage_entry(cave: u32, append: u32) -> (sc: Vec<u8>)
    requires
        cave + CODE_LEN <= u32::MAX,
        append >= 415,
        append <= CODE_LEN,
    ensures
        sc@ == magic_aoe_ext_damage_entry_code(cave, append as int),
        sc@.len() == 415,
{
    let mut sc: Vec<u8> = start(&[
        0x8B, 0x10, // mov edx, [eax] damage
        0x83, 0xC0, 0x04, // add eax, 4
    ]);
    push_bytes(&mut sc, emit_entry_prologue(cave).as_slice());
    push_bytes(&mut sc, &[0x89, 0x15]);
    push_u32(&mut sc, cave + CURRENT_DAMAGE);
    push_bytes(&mut sc, &[0x8B, 0x55, 0xE4]);  // mov edx, [ebp-0x1C] caster
    push_bytes(&mut sc, emit_attacker_filter(MAGIC_AOE_EXT_SKIP - 22).as_slice());
    push_bytes(&mut sc, &[
        0x8B, 0x75, 0xBC, // mov esi, [ebp-0x44] hit container
        0x85, 0xF6, // test esi, esi
    ]);
    emit_jcc32(&mut sc, 0x84, MAGIC_AOE_EXT_SKIP);
    push_bytes(&mut sc, &[
        0x8B, 0x9D, 0x10, 0xFE, 0xFF, 0xFF, // mov ebx, [ebp-0x1F0] index
        0x8B, 0x7E, 0x08, // mov edi, [esi+8] hit flag array
        0x85, 0xFF, // test edi, edi
    ]);
    emit_jcc32(&mut sc, 0x84, MAGIC_AOE_EXT_SKIP);
    push_bytes(&mut sc, &[
        0x0F, 0xB7, 0x04, 0x5F, // movzx eax, word [edi+ebx*2]
        0x85, 0xC0, // test eax, eax
    ]);
    emit_jcc32(&mut sc, 0x84, MAGIC_AOE_EXT_SKIP);
    push_bytes(&mut sc, &[
        0x8B, 0x7E, 0x04, // mov edi, [esi+4] target array
        0x85, 0xFF, // test edi, edi
    ]);
    emit_jcc32(&mut sc, 0x84, MAGIC_AOE_EXT_SKIP);
    push_bytes(&mut sc, &[
        0x8B, 0x0C, 0x9F, // mov ecx, [edi+ebx*4] target
        0x85, 0xC9, // test ecx, ecx
    ]);
    emit_jcc32(&mut sc, 0x84, MAGIC_AOE_EXT_SKIP);
    push_bytes(&mut sc, &[0x8B, 0x15]);
    push_u32(&mut sc, cave + CURRENT_DAMAGE);
    push_bytes(&mut sc, &[0x85, 0xD2]);  // test edx, edx
    emit_jcc32(&mut sc, 0x8E, MAGIC_AOE_EXT_SKIP);  // MAGIC_AOE_EXT_SKIP damage <= 0
    push_bytes(&mut sc, emit_update_total_and_display_no_checks(cave, append - 147).as_slice());
    push_bytes(&mut sc, &[0x8B, 0x25]);  // mov esp, [stack_save]
    push_u32(&mut sc, cave + STACK_SAVE);
    assert(sc@.len() == MAGIC_AOE_EXT_SKIP);
    push_bytes(&mut sc, &[
        0x61, 0x9D, // popad; popfd
        0x83, 0xC4, 0x10, // add esp, 0x10
        0x89, 0x45, 0xD0, // mov [ebp-0x30], eax
    ]);
    push_bytes(&mut sc, &[0xE9]);
    push_u32(&mut sc, distance(cave + MAGIC_AOE_EXT_ENTRY + 415, MAGIC_AOE_EXT_DAMAGE_FALLTHROUGH_ADDR));
    sc
}

/// The address of a data cell in the cave.
pub open spec fn data_addr(cave: u32, offset: u32) -> u32 {
    (cave + offset) as u32
}

/// The data cells, all zero but the seed, the color digits and the address of
/// `GetTickCount`, with the text buffer at the end.
pub open spec fn data_code(cave: u32, gettickcount_addr: u32) -> Seq<u8> {
    let c = [
        0u8, 0, 0, 0, // stack_save
        0, 0, 0, 0, // total_damage
        0, 0, 0, 0, // current_damage
        0, 0, 0, 0, // current_target
    ]@;
    let c = code::put32(c, cave ^ 0xA5A5_5A5A);  // random_state
    let c = code::put(c, [
        0u8, 0, 0, 0, // loop_index
        0, 0, 0, 0, // loop_count
        0x32, 0x32, 0x32, 0x32, // color_table
        0, 0, 0, 0, // last_target
        0, 0, 0, 0, // last_total
        0, 0, 0, 0, // last_tick
    ]@);
    let c = code::put32(c, gettickcount_addr);
    code::put(c, Seq::new(96, |i: int| 0u8))  // text_buffer
}

/// Everything that the cave holds.
#[verifier::opaque]
pub open spec fn cave_code(cave: u32, gettickcount_addr: u32) -> Seq<u8> {
    let c = attack_entry_code(cave, APPEND_U32 - ATTACK_ENTRY);
    let c = code::put(c, aoe_entry_code(cave, APPEND_U32 - AOE_ENTRY));
    let c = code::put(c, magic_aoe_entry_code(cave, APPEND_U32 - MAGIC_AOE_ENTRY));
    let c = code::put(c, magic_aoe_ext_damage_entry_code(cave, APPEND_U32 - MAGIC_AOE_EXT_ENTRY));
    let c = code::put(c, append_u32_code());
    code::put(c, data_code(cave, gettickcount_addr))
}

/// Emits [`data_code`].
fn emit_data(cave: u32, gettickcount_addr: u32) -> (sc: Vec<u8>)
    ensures
        sc@ == data_code(cave, gettickcount_addr),
        sc@.len() == 144,
{
    let mut sc: Vec<u8> = start(&[
        0, 0, 0, 0, // stack_save
        0, 0, 0, 0, // total_damage
        0, 0, 0, 0, // current_damage
        0, 0, 0, 0, // current_target
    ]);
    push_u32(&mut sc, cave ^ 0xA5A5_5A5A);
    push_bytes(&mut sc, &[
        0, 0, 0, 0, // loop_index
        0, 0, 0, 0, // loop_count
        0x32, 0x32, 0x32, 0x32, // color_table
        0, 0, 0, 0, // last_target
        0, 0, 0, 0, // last_total
        0, 0, 0, 0, // last_tick
    ]);
    push_u32(&mut sc, gettickcount_addr);
    let text: Vec<u8> = vec![0u8; TEXT_BUFFER_SIZE];
    assert(text@ =~= Seq::new(96, |i: int| 0u8));
    push_bytes(&mut sc, text.as_slice());
    sc
}

/// The contents of the cave, and the offsets at which its entries start.
#[derive(Debug, Clone)]
pub struct Shellcode {
    pub bytes: Vec<u8>,
    pub attack_entry_offset: usize,
    pub aoe_entry_offset: usize,
    pub magic_aoe_entry_offset: usize,
    pub magic_aoe_ext_damage_entry_offset: usize,
}

/// Builds the contents of a cave at `cave`; `gettickcount_addr` is the address
/// of the system's tick counter.
pub fn build_shellcode(cave: u32, gettickcount_addr: u32) -> (r: Shellcode)
    requires
        cave + CODE_LEN <= u32::MAX,
    ensures
        r.bytes@ == cave_code(cave, gettickcount_addr),
        r.bytes@.len() == CODE_LEN,
        r.bytes@.len() <= CODECAVE_SIZE,
        r.attack_entry_offset == ATTACK_ENTRY,
        r.aoe_entry_offset == AOE_ENTRY,
        r.magic_aoe_entry_offset == MAGIC_AOE_ENTRY,
        r.magic_aoe_ext_damage_entry_offset == MAGIC_AOE_EXT_ENTRY,
{
    reveal(cave_code);
    let mut sc: Vec<u8> = emit_attack_entry(cave, APPEND_U32 - ATTACK_ENTRY);
    let aoe_entry_offset: usize = sc.len();
    push_bytes(&mut sc, emit_aoe_entry(cave, APPEND_U32 - AOE_ENTRY).as_slice());
    let magic_aoe_entry_offset: usize = sc.len();
    push_bytes(&mut sc, emit_magic_aoe_entry(cave, APPEND_U32 - MAGIC_AOE_ENTRY).as_slice());
    let magic_aoe_ext_damage_entry_offset: usize = sc.len();
    push_bytes(
        &mut sc,
        emit_magic_aoe_ext_damage_entry(cave, APPEND_U32 - MAGIC_AOE_EXT_ENTRY).as_slice(),
    );
    assert(sc@.len() == APPEND_U32);
    push_bytes(&mut sc, emit_append_u32().as_slice());
    assert(sc@.len() == DATA);
    push_bytes(&mut sc, emit_data(cave, gettickcount_addr).as_slice());
    Shellcode {
        bytes: sc,
        attack_entry_offset: 0,
        aoe_entry_offset,
        magic_aoe_entry_offset,
        magic_aoe_ext_damage_entry_offset,
    }
}

/// What has to be remembered of an installed hook.
#[derive(Debug, Clone)]
pub struct HookState {
    pub codecave_addr: u32,
    pub attack_patch_bytes: Vec<u8>,
    pub magic_aoe_ext_damage_patch_bytes: Vec<u8>,
}

impl HookState {
    /// Whether this is the state of a hook with its code at `cave`.
    pub open spec fn is_for(&self, cave: u32) -> bool {
        &&& self.codecave_addr == cave
        &&& self.attack_patch_bytes@ == hook::hook_patch(
            ATTACK_HOOK_ADDR,
            (cave + ATTACK_ENTRY) as u32,
            ATTACK_HOOK_LEN as nat,
        )
        &&& self.magic_aoe_ext_damage_patch_bytes@ == hook::hook_patch(
            MAGIC_AOE_EXT_DAMAGE_HOOK_ADDR,
            (cave + MAGIC_AOE_EXT_ENTRY) as u32,
            MAGIC_AOE_EXT_DAMAGE_HOOK_LEN as nat,
        )
    }
}

/// The writes that put the hook in, in order, and the state to keep.
#[derive(Debug, Clone)]
pub struct InstallPlan {
    pub writes: Vec<Patch>,
    pub state: HookState,
}

/// Whether the hook is in.
pub fn is_installed(state: &Option<HookState>) -> (r: bool)
    ensures
        r == (*state is Some),
{
    state.is_some()
}

/// The sites that must hold these bytes before the hook goes in, in the order
/// in which they are looked at.
pub fn hook_sites() -> (r: Vec<Patch>)
    ensures
        hook::patch_views(r@) == seq![
            (ATTACK_HOOK_ADDR, ATTACK_ORIGINAL_BYTES@),
            (MAGIC_AOE_EXT_DAMAGE_HOOK_ADDR, MAGIC_AOE_EXT_DAMAGE_ORIGINAL_BYTES@),
        ],
{
    let r: Vec<Patch> = vec![
        Patch { addr: ATTACK_HOOK_ADDR, bytes: bytes_of(&ATTACK_ORIGINAL_BYTES) },
        Patch {
            addr: MAGIC_AOE_EXT_DAMAGE_HOOK_ADDR,
            bytes: bytes_of(&MAGIC_AOE_EXT_DAMAGE_ORIGINAL_BYTES),
        },
    ];
    assert(hook::patch_views(r@) =~= seq![
        (ATTACK_HOOK_ADDR, ATTACK_ORIGINAL_BYTES@),
        (MAGIC_AOE_EXT_DAMAGE_HOOK_ADDR, MAGIC_AOE_EXT_DAMAGE_ORIGINAL_BYTES@),
    ]);
    r
}

/// The writes that put a hook of this state in, in order.
pub open spec fn install_writes(state: HookState, gettickcount_addr: u32) -> Seq<(u32, Seq<u8>)> {
    seq![
        (state.codecave_addr, cave_code(state.codecave_addr, gettickcount_addr)),
        (ATTACK_HOOK_ADDR, state.attack_patch_bytes@),
        (MAGIC_AOE_EXT_DAMAGE_HOOK_ADDR, state.magic_aoe_ext_damage_patch_bytes@),
    ]
}

/// The writes that put the hook in, with its code in the cave at `cave`: the
/// code first, then the two sites.  There are none where the hook is in.
pub fn install(state: &Option<HookState>, cave: u32, gettickcount_addr: u32) -> (r: Option<
    InstallPlan,
>)
    requires
        *state is None ==> cave + CODE_LEN <= u32::MAX,
    ensures
        r is None <==> *state is Some,
        r matches Some(plan) ==> {
            &&& hook::patch_views(plan.writes@) == install_writes(plan.state, gettickcount_addr)
            &&& plan.state.is_for(cave)
        },
{
    if is_installed(state) {
        return None;
    }
    let shellcode = build_shellcode(cave, gettickcount_addr);
    let attack: Vec<u8> = build_hook_patch::<10>(
        ATTACK_HOOK_ADDR,
        cave + shellcode.attack_entry_offset as u32,
    );
    let ext: Vec<u8> = build_hook_patch::<6>(
        MAGIC_AOE_EXT_DAMAGE_HOOK_ADDR,
        cave + shellcode.magic_aoe_ext_damage_entry_offset as u32,
    );
    let state = HookState {
        codecave_addr: cave,
        attack_patch_bytes: bytes_of(attack.as_slice()),
        magic_aoe_ext_damage_patch_bytes: bytes_of(ext.as_slice()),
    };
    let writes: Vec<Patch> = vec![
        Patch { addr: cave, bytes: shellcode.bytes },
        Patch { addr: ATTACK_HOOK_ADDR, bytes: attack },
        Patch { addr: MAGIC_AOE_EXT_DAMAGE_HOOK_ADDR, bytes: ext },
    ];
    assert(hook::patch_views(writes@) =~= install_writes(state, gettickcount_addr));
    Some(InstallPlan { writes, state })
}

/// Taking the hook out gives both sites the bytes back that they held before it went in.
pub proof fn removal_undoes_the_hook(
    state: HookState,
    cave: u32,
    gettickcount_addr: u32,
    mem: Map<u32, Seq<u8>>,
)
    requires
        state.is_for(cave),
        cave != ATTACK_HOOK_ADDR,
        cave != MAGIC_AOE_EXT_DAMAGE_HOOK_ADDR,
        mem[ATTACK_HOOK_ADDR] == ATTACK_ORIGINAL_BYTES@,
        mem[MAGIC_AOE_EXT_DAMAGE_HOOK_ADDR] == MAGIC_AOE_EXT_DAMAGE_ORIGINAL_BYTES@,
    ensures
        ({
            let after = hook::after_restores(
                hook::after_writes(mem, install_writes(state, gettickcount_addr)),
                restore_sites(state),
            );
            &&& after[ATTACK_HOOK_ADDR] == mem[ATTACK_HOOK_ADDR]
            &&& after[MAGIC_AOE_EXT_DAMAGE_HOOK_ADDR] == mem[MAGIC_AOE_EXT_DAMAGE_HOOK_ADDR]
        }),
{
    reveal_with_fuel(hook::after_writes, 4);
    reveal_with_fuel(hook::after_restores, 3);
}

/// The sites that get their original bytes back, in order.
pub open spec fn restore_sites(state: HookState) -> Seq<(u32, Seq<u8>, Seq<u8>)> {
    seq![
        (
            MAGIC_AOE_EXT_DAMAGE_HOOK_ADDR,
            MAGIC_AOE_EXT_DAMAGE_ORIGINAL_BYTES@,
            state.magic_aoe_ext_damage_patch_bytes@,
        ),
        (ATTACK_HOOK_ADDR, ATTACK_ORIGINAL_BYTES@, state.attack_patch_bytes@),
    ]
}

fn restores(state: &HookState) -> (r: Vec<Restore>)
    ensures
        hook::restore_views(r@) == restore_sites(*state),
{
    let r: Vec<Restore> = vec![
        Restore {
            addr: MAGIC_AOE_EXT_DAMAGE_HOOK_ADDR,
            original: bytes_of(&MAGIC_AOE_EXT_DAMAGE_ORIGINAL_BYTES),
            patch: bytes_of(state.magic_aoe_ext_damage_patch_bytes.as_slice()),
        },
        Restore {
            addr: ATTACK_HOOK_ADDR,
            original: bytes_of(&ATTACK_ORIGINAL_BYTES),
            patch: bytes_of(state.attack_patch_bytes.as_slice()),
        },
    ];
    assert(hook::restore_views(r@) =~= restore_sites(*state));
    r
}

/// The sites to put back to take the hook out, in order, none where it is not in; the
/// hook counts as out from now on.
pub fn uninstall(state: &mut Option<HookState>) -> (r: Vec<Restore>)
    ensures
        *final(state) == hook::after_uninstall(*old(state)),
        hook::restore_views(r@) == match *old(state) {
            Some(s) => restore_sites(s),
            None => Seq::empty(),
        },
{
    match state.take() {
        Some(s) => restores(&s),
        None => {
            let none: Vec<Restore> = Vec::new();
            assert(hook::restore_views(none@) =~= Seq::<(u32, Seq<u8>, Seq<u8>)>::empty());
            none
        },
    }
}

} // verus!
