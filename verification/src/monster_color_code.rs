//! Code that draws the names of monsters in the colors of their levels.
//!
//! The client draws a name with an inner and an outer color.  Objects whose names
//! are to be colored are listed in a table of marked objects; the code looks an
//! object up there before it touches any color.

use vstd::prelude::*;

use crate::code;
use crate::code::distance;
use crate::code::emit_jcc32;
use crate::code::emit_jmp32;
use crate::code::push_bytes;
use crate::code::push_u32;
use crate::code::start;
use crate::code::u32_bytes;
use crate::hook;
use crate::hook::build_hook_patch;
use crate::hook::bytes_of;
use crate::hook::Patch;
use crate::hook::Restore;

verus! {

broadcast use crate::code::group_code_len;

/// The client's white.
pub const DEFAULT_NAME_COLOR: u16 = 0xFFDF;

pub const DARK_RED: u16 = 0x8800;

pub const LIGHT_RED: u16 = 0xF800;

pub const BLUE: u16 = 0x001F;

pub const GREEN: u16 = 0x07E0;

/// Lowest number of a monster.
pub const MIN_RENDER_MONSTER_OBJECT_ID: u32 = 0x0100_0000;

pub const ENABLE_MONSTER_NAME_RENDER_HOOKS: bool = true;

pub const ENABLE_SELECTED_NAME_COLOR_HOOKS: bool = true;

pub const ENABLE_OVERHEAD_TEXT_COLOR_HOOK: bool = false;

/// Where the address of the selected object stands.
pub const SELECTED_ENTITY_PTR_ADDR: u32 = 0x00AB_F440;

pub const NAME_RENDER_HOOK_ADDR: u32 = 0x004F_2BA0;

pub const NAME_RENDER_HOOK_LEN: usize = 8;

pub const NAME_RENDER_FALLTHROUGH_ADDR: u32 = 0x004F_2BA8;

pub const NAME_RENDER_AFTER_CALL_ADDR: u32 = 0x004F_2BE2;

pub const NAME_RENDER_ORIGINAL_BYTES: [u8; 8] = [0x6A, 0x00, 0x8B, 0x15, 0x38, 0xFB, 0x95, 0x00];

pub const TEXT_DRAW_FN: u32 = 0x0046_F150;

pub const BLACK_COLOR_GLOBAL_ADDR: u32 = 0x0095_FB38;

pub const DRAW_SURFACE_GLOBAL_ADDR: u32 = 0x009A_84E0;

pub const NAME_RENDER_CODECAVE_SIZE: usize = 0x200;

pub const HOVER_NAME_COLOR_ADDR: u32 = 0x004E_FD71;

pub const HOVER_NAME_COLOR_LEN: usize = 7;

pub const HOVER_NAME_COLOR_ORIGINAL_BYTES: [u8; 7] = [0x8B, 0x55, 0x08, 0x0F, 0xB7, 0x42, 0x30];

pub const HOVER_NAME_COLOR_FORCED_WHITE_BYTES: [u8; 7] = [
    0xB8,
    0xDF,
    0xFF,
    0x00,
    0x00,
    0x90,
    0x90,
];

pub const TEXT_DRAW_FN_HOOK_LEN: usize = 5;

pub const TEXT_DRAW_FN_ORIGINAL_BYTES: [u8; 5] = [0x55, 0x8B, 0xEC, 0x6A, 0xFF];

pub const TEXT_DRAW_FN_FALLTHROUGH_ADDR: u32 = 0x0046_F155;

pub const TEXT_DRAW_COMPACT_FN: u32 = 0x0046_F980;

pub const TEXT_DRAW_COMPACT_HOOK_LEN: usize = 6;

pub const TEXT_DRAW_COMPACT_ORIGINAL_BYTES: [u8; 6] = [0x55, 0x8B, 0xEC, 0x83, 0xEC, 0x0C];

pub const TEXT_DRAW_COMPACT_FALLTHROUGH_ADDR: u32 = 0x0046_F986;

pub const OVERHEAD_TEXT_COLOR_HOOK_ADDR: u32 = 0x0042_BADA;

pub const OVERHEAD_TEXT_COLOR_HOOK_LEN: usize = 11;

pub const OVERHEAD_TEXT_COLOR_FALLTHROUGH_ADDR: u32 = 0x0042_BAE5;

/// `mov cx, [ebp+0x10]; mov [eax+0x39C], cx`
pub const OVERHEAD_TEXT_COLOR_ORIGINAL_BYTES: [u8; 11] = [
    0x66,
    0x8B,
    0x4D,
    0x10,
    0x66,
    0x89,
    0x88,
    0x9C,
    0x03,
    0x00,
    0x00,
];

pub const OVERHEAD_TEXT_COLOR_CODECAVE_SIZE: usize = 0x200;

pub const OVERHEAD_TEXT_COLOR_RESET_HOOK_ADDR: u32 = 0x0042_BBA3;

pub const OVERHEAD_TEXT_COLOR_RESET_HOOK_LEN: usize = 13;

pub const OVERHEAD_TEXT_COLOR_RESET_FALLTHROUGH_ADDR: u32 = 0x0042_BBB0;

/// `mov ax, [default color]; mov [edx+0x39C], ax`
pub const OVERHEAD_TEXT_COLOR_RESET_ORIGINAL_BYTES: [u8; 13] = [
    0x66,
    0xA1,
    0x94,
    0xFB,
    0x95,
    0x00,
    0x66,
    0x89,
    0x82,
    0x9C,
    0x03,
    0x00,
    0x00,
];

pub const OVERHEAD_TEXT_COLOR_RESET_CODECAVE_SIZE: usize = 0x200;

/// Where the default color of a text stands.
pub const OVERHEAD_DEFAULT_COLOR_ADDR: u32 = 0x0095_FB94;

pub const SELECTED_TEXT_CODECAVE_SIZE: usize = 0x500;

/// Entries of the table of marked objects.
pub const RENDER_MARKER_TABLE_CAPACITY: usize = 128;

/// Bytes of the table of marked objects.
pub const RENDER_MARKER_TABLE_BYTES: usize = 516;

/// Where calls of the text routine return to that draw a selected name.
pub const SELECTED_TEXT_DRAW_RETURNS: [u32; 12] = [
    0x004F_2E8C,
    0x004F_307A,
    0x004F_310C,
    0x004F_319E,
    0x004F_3235,
    0x004F_3278,
    0x004F_33D5,
    0x004F_3535,
    0x004F_3650,
    0x004F_3693,
    0x004F_38B4,
    0x004F_39AB,
];

/// The same for the compact text routine.
pub const SELECTED_COMPACT_TEXT_DRAW_RETURNS: [u32; 4] = [
    0x004F_3039,
    0x004F_30CB,
    0x004F_315D,
    0x004F_31F4,
];

pub const MARKER_LOOP: u32 = 20;

pub const MARKER_FAIL: u32 = 38;

pub const MARKER_MATCH: u32 = 45;

/// Goes on only if the object in a register is in the table of marked objects;
/// else jumps to `fail`, counted from the start of this piece.
pub open spec fn marker_check_code(table: u32, modrm: u8, fail: int) -> Seq<u8> {
    let c = [
        0x56u8, // push esi
        0x57, // push edi
        0xBE, // mov esi, table
    ]@;
    let c = code::put32(c, table);
    let c = code::put(c, [
        0x8Bu8, 0x3E, // mov edi, [esi]: the count
        0x83, 0xC6, 0x04, // add esi, 4
        0x85, 0xFF, // test edi, edi
    ]@);
    let c = code::jcc(c, 0x84, MARKER_FAIL as int);  // jz fail
    // marker_loop:
    let c = code::put(c, [0x39u8, modrm]@);  // cmp [esi], reg
    let c = code::jcc(c, 0x84, MARKER_MATCH as int);  // je match
    let c = code::put(c, [
        0x83u8, 0xC6, 0x04, // add esi, 4
        0x4F, // dec edi
    ]@);
    let c = code::jcc(c, 0x85, MARKER_LOOP as int);  // jnz loop
    // marker_fail:
    let c = code::put(c, [
        0x5Fu8, // pop edi
        0x5E, // pop esi
    ]@);
    let c = code::jmp(c, fail);  // jmp out
    // marker_match:
    let c = code::put(c, [
        0x5Fu8, // pop edi
        0x5E, // pop esi
    ]@);
    c
}

/// Emits [`marker_check_code`].
fn emit_marker_table_check(table: u32, modrm: u8, fail: u32) -> (sc: Vec<u8>)
    ensures
        sc@ == marker_check_code(table, modrm, fail as int),
        sc@.len() == 47,
{
    let mut sc: Vec<u8> = start(&[
        0x56, // push esi
        0x57, // push edi
        0xBE, // mov esi, table
    ]);
    push_u32(&mut sc, table);
    push_bytes(&mut sc, &[
        0x8B, 0x3E, // mov edi, [esi]: the count
        0x83, 0xC6, 0x04, // add esi, 4
        0x85, 0xFF, // test edi, edi
    ]);
    emit_jcc32(&mut sc, 0x84, MARKER_FAIL);  // jz fail
    assert(sc@.len() == MARKER_LOOP);
    push_bytes(&mut sc, &[0x39, modrm]);  // cmp [esi], reg
    emit_jcc32(&mut sc, 0x84, MARKER_MATCH);  // je match
    push_bytes(&mut sc, &[
        0x83, 0xC6, 0x04, // add esi, 4
        0x4F, // dec edi
    ]);
    emit_jcc32(&mut sc, 0x85, MARKER_LOOP);  // jnz loop
    assert(sc@.len() == MARKER_FAIL);
    push_bytes(&mut sc, &[
        0x5F, // pop edi
        0x5E, // pop esi
    ]);
    emit_jmp32(&mut sc, fail);  // jmp out
    assert(sc@.len() == MARKER_MATCH);
    push_bytes(&mut sc, &[
        0x5F, // pop edi
        0x5E, // pop esi
    ]);
    sc
}

pub const NAME_CHECK_ID: u32 = 95;

pub const NAME_ORIGINAL: u32 = 216;

/// Draws the name of a marked monster in its color around white; any other name as
/// the client draws it.
#[verifier::opaque]
pub open spec fn name_render_code(cave: u32, table: u32) -> Seq<u8> {
    let c = [0x8Bu8, 0x85]@;  // mov eax, [ebp-0x238]: the object
    let c = code::put32(c, 0xFFFF_FDC8);
    let c = code::put(c, [0x85u8, 0xC0]@);  // test eax, eax
    let c = code::jcc(c, 0x84, NAME_ORIGINAL as int);  // jz original
    let c = code::put(c, [
        0x0Fu8, 0xB7, 0x48, 0x30, // movzx ecx, word [eax+0x30]: its color
        0x81, 0xF9, // cmp ecx, white
    ]@);
    let c = code::put32(c, DEFAULT_NAME_COLOR as u32);
    let c = code::jcc(c, 0x84, NAME_ORIGINAL as int);  // je original
    let c = code::put(c, [0x81u8, 0xF9]@);  // cmp ecx, white
    let c = code::put32(c, DEFAULT_NAME_COLOR as u32);
    let c = code::jcc(c, 0x84, NAME_ORIGINAL as int);  // je original
    let c = code::put(c, [0x81u8, 0xF9]@);  // cmp ecx, color
    let c = code::put32(c, DARK_RED as u32);
    let c = code::jcc(c, 0x84, NAME_CHECK_ID as int);  // je
    let c = code::put(c, [0x81u8, 0xF9]@);  // cmp ecx, color
    let c = code::put32(c, LIGHT_RED as u32);
    let c = code::jcc(c, 0x84, NAME_CHECK_ID as int);  // je
    let c = code::put(c, [0x81u8, 0xF9]@);  // cmp ecx, color
    let c = code::put32(c, BLUE as u32);
    let c = code::jcc(c, 0x84, NAME_CHECK_ID as int);  // je
    let c = code::put(c, [0x81u8, 0xF9]@);  // cmp ecx, color
    let c = code::put32(c, GREEN as u32);
    let c = code::jcc(c, 0x84, NAME_CHECK_ID as int);  // je
    let c = code::jmp(c, NAME_ORIGINAL as int);  // jmp original
    // name_check_id:
    let c = code::put(c, [
        0x8Bu8, 0x50, 0x0C, // mov edx, [eax+0x0C]: its number
        0x81, 0xFA, // cmp edx, min
    ]@);
    let c = code::put32(c, MIN_RENDER_MONSTER_OBJECT_ID);
    let c = code::jcc(c, 0x82, NAME_ORIGINAL as int);  // jb original
    let c = code::put(c, marker_check_code(table, 0x06, NAME_ORIGINAL - 110));
    let c = code::put(c, [
        0x6Au8, 0x00, // push 0
        0x51, // push ecx: the outer color
        0x68, // push inner white
    ]@);
    let c = code::put32(c, DEFAULT_NAME_COLOR as u32);
    let c = code::put(c, [0x8Bu8, 0x95]@);  // mov edx, [ebp-0x25C]
    let c = code::put32(c, 0xFFFF_FDA4);
    let c = code::put(c, [
        0x52u8, // push edx: y
        0x8B, 0x85, // mov eax, [ebp-0x260]
    ]@);
    let c = code::put32(c, 0xFFFF_FDA0);
    let c = code::put(c, [
        0x50u8, // push eax: x
        0x8B, 0x8D, // mov ecx, [ebp-0x258]
    ]@);
    let c = code::put32(c, 0xFFFF_FDA8);
    let c = code::put(c, [
        0x51u8, // push ecx: the length
        0x8B, 0x95, // mov edx, [ebp-0x238]
    ]@);
    let c = code::put32(c, 0xFFFF_FDC8);
    let c = code::put(c, [
        0x8Bu8, 0x42, 0x60, // mov eax, [edx+0x60]
        0x50, // push eax: the name
        0x8B, 0x0D, // mov ecx, [surface]
    ]@);
    let c = code::put32(c, DRAW_SURFACE_GLOBAL_ADDR);
    let c = code::put(c, [0x51u8]@);  // push ecx
    let c = code::put(c, [0xE8u8]@);  // call the text routine
    let c = code::put32(c, code::rel32(cave + 208, TEXT_DRAW_FN as int));
    let c = code::put(c, [0x83u8, 0xC4, 0x20]@);  // add esp, 0x20
    let c = code::put(c, [0xE9u8]@);  // jmp behind the call
    let c = code::put32(c, code::rel32(cave + 216, NAME_RENDER_AFTER_CALL_ADDR as int));
    // name_original:
    let c = code::put(c, [
        0x6Au8, 0x00, // push 0
        0x8B, 0x15, // mov edx, [black]
    ]@);
    let c = code::put32(c, BLACK_COLOR_GLOBAL_ADDR);
    let c = code::put(c, [0xE9u8]@);  // jmp back
    let c = code::put32(c, code::rel32(cave + 229, NAME_RENDER_FALLTHROUGH_ADDR as int));
    c
}

/// Builds [`name_render_code`].
#[verifier::rlimit(40)]
pub fn build_name_render_shellcode(cave: u32, table: u32) -> (sc: Vec<u8>)
    requires
        cave + NAME_RENDER_CODECAVE_SIZE <= u32::MAX,
    ensures
        sc@ == name_render_code(cave, table),
        sc@.len() == 229,
{
    reveal(name_render_code);
    let mut sc: Vec<u8> = start(&[0x8B, 0x85]);  // mov eax, [ebp-0x238]: the object
    push_u32(&mut sc, 0xFFFF_FDC8);
    push_bytes(&mut sc, &[0x85, 0xC0]);  // test eax, eax
    emit_jcc32(&mut sc, 0x84, NAME_ORIGINAL);  // jz original
    push_bytes(&mut sc, &[
        0x0F, 0xB7, 0x48, 0x30, // movzx ecx, word [eax+0x30]: its color
        0x81, 0xF9, // cmp ecx, white
    ]);
    push_u32(&mut sc, DEFAULT_NAME_COLOR as u32);
    emit_jcc32(&mut sc, 0x84, NAME_ORIGINAL);  // je original
    push_bytes(&mut sc, &[0x81, 0xF9]);  // cmp ecx, white
    push_u32(&mut sc, DEFAULT_NAME_COLOR as u32);
    emit_jcc32(&mut sc, 0x84, NAME_ORIGINAL);  // je original
    push_bytes(&mut sc, &[0x81, 0xF9]);  // cmp ecx, color
    push_u32(&mut sc, DARK_RED as u32);
    emit_jcc32(&mut sc, 0x84, NAME_CHECK_ID);  // je
    push_bytes(&mut sc, &[0x81, 0xF9]);  // cmp ecx, color
    push_u32(&mut sc, LIGHT_RED as u32);
    emit_jcc32(&mut sc, 0x84, NAME_CHECK_ID);  // je
    push_bytes(&mut sc, &[0x81, 0xF9]);  // cmp ecx, color
    push_u32(&mut sc, BLUE as u32);
    emit_jcc32(&mut sc, 0x84, NAME_CHECK_ID);  // je
    push_bytes(&mut sc, &[0x81, 0xF9]);  // cmp ecx, color
    push_u32(&mut sc, GREEN as u32);
    emit_jcc32(&mut sc, 0x84, NAME_CHECK_ID);  // je
    emit_jmp32(&mut sc, NAME_ORIGINAL);  // jmp original
    assert(sc@.len() == NAME_CHECK_ID);
    push_bytes(&mut sc, &[
        0x8B, 0x50, 0x0C, // mov edx, [eax+0x0C]: its number
        0x81, 0xFA, // cmp edx, min
    ]);
    push_u32(&mut sc, MIN_RENDER_MONSTER_OBJECT_ID);
    emit_jcc32(&mut sc, 0x82, NAME_ORIGINAL);  // jb original
    push_bytes(&mut sc, emit_marker_table_check(table, 0x06, NAME_ORIGINAL - 110).as_slice());
    push_bytes(&mut sc, &[
        0x6A, 0x00, // push 0
        0x51, // push ecx: the outer color
        0x68, // push inner white
    ]);
    push_u32(&mut sc, DEFAULT_NAME_COLOR as u32);
    push_bytes(&mut sc, &[0x8B, 0x95]);  // mov edx, [ebp-0x25C]
    push_u32(&mut sc, 0xFFFF_FDA4);
    push_bytes(&mut sc, &[
        0x52, // push edx: y
        0x8B, 0x85, // mov eax, [ebp-0x260]
    ]);
    push_u32(&mut sc, 0xFFFF_FDA0);
    push_bytes(&mut sc, &[
        0x50, // push eax: x
        0x8B, 0x8D, // mov ecx, [ebp-0x258]
    ]);
    push_u32(&mut sc, 0xFFFF_FDA8);
    push_bytes(&mut sc, &[
        0x51, // push ecx: the length
        0x8B, 0x95, // mov edx, [ebp-0x238]
    ]);
    push_u32(&mut sc, 0xFFFF_FDC8);
    push_bytes(&mut sc, &[
        0x8B, 0x42, 0x60, // mov eax, [edx+0x60]
        0x50, // push eax: the name
        0x8B, 0x0D, // mov ecx, [surface]
    ]);
    push_u32(&mut sc, DRAW_SURFACE_GLOBAL_ADDR);
    push_bytes(&mut sc, &[0x51]);  // push ecx
    push_bytes(&mut sc, &[0xE8]);  // call the text routine
    push_u32(&mut sc, distance(cave + 208, TEXT_DRAW_FN));
    push_bytes(&mut sc, &[0x83, 0xC4, 0x20]);  // add esp, 0x20
    push_bytes(&mut sc, &[0xE9]);  // jmp behind the call
    push_u32(&mut sc, distance(cave + 216, NAME_RENDER_AFTER_CALL_ADDR));
    assert(sc@.len() == NAME_ORIGINAL);
    push_bytes(&mut sc, &[
        0x6A, 0x00, // push 0
        0x8B, 0x15, // mov edx, [black]
    ]);
    push_u32(&mut sc, BLACK_COLOR_GLOBAL_ADDR);
    push_bytes(&mut sc, &[0xE9]);  // jmp back
    push_u32(&mut sc, distance(cave + 229, NAME_RENDER_FALLTHROUGH_ADDR));
    sc
}

pub const OVERHEAD_ORIGINAL: u32 = 68;

pub const OVERHEAD_STORE: u32 = 72;

/// Gives the text over a marked monster the monster's color.
#[verifier::opaque]
pub open spec fn overhead_text_color_code(cave: u32, table: u32) -> Seq<u8> {
    let c = [
        0x52u8, // push edx
        0x8B, 0x55, 0xCC, // mov edx, [ebp-0x34]: the object
        0x85, 0xD2, // test edx, edx
    ]@;
    let c = code::jcc(c, 0x84, OVERHEAD_ORIGINAL as int);  // jz original
    let c = code::put(c, marker_check_code(table, 0x16, OVERHEAD_ORIGINAL - 12));
    let c = code::put(c, [0x66u8, 0x8B, 0x4A, 0x30]@);  // mov cx, [edx+0x30]
    let c = code::jmp(c, OVERHEAD_STORE as int);  // jmp store
    // overhead_original:
    let c = code::put(c, [0x66u8, 0x8B, 0x4D, 0x10]@);  // mov cx, [ebp+0x10]
    // overhead_store:
    let c = code::put(c, [
        0x5Au8, // pop edx
        0x66, 0x89, 0x88, 0x9C, 0x03, 0x00, 0x00, // mov [eax+0x39C], cx
    ]@);
    let c = code::put(c, [0xE9u8]@);  // jmp back
    let c = code::put32(c, code::rel32(cave + 85, OVERHEAD_TEXT_COLOR_FALLTHROUGH_ADDR as int));
    c
}

/// Builds [`overhead_text_color_code`].
pub fn build_overhead_text_color_shellcode(cave: u32, table: u32) -> (sc: Vec<u8>)
    requires
        cave + OVERHEAD_TEXT_COLOR_CODECAVE_SIZE <= u32::MAX,
    ensures
        sc@ == overhead_text_color_code(cave, table),
        sc@.len() == 85,
{
    reveal(overhead_text_color_code);
    let mut sc: Vec<u8> = start(&[
        0x52, // push edx
        0x8B, 0x55, 0xCC, // mov edx, [ebp-0x34]: the object
        0x85, 0xD2, // test edx, edx
    ]);
    emit_jcc32(&mut sc, 0x84, OVERHEAD_ORIGINAL);  // jz original
    push_bytes(&mut sc, emit_marker_table_check(table, 0x16, OVERHEAD_ORIGINAL - 12).as_slice());
    push_bytes(&mut sc, &[0x66, 0x8B, 0x4A, 0x30]);  // mov cx, [edx+0x30]
    emit_jmp32(&mut sc, OVERHEAD_STORE);  // jmp store
    assert(sc@.len() == OVERHEAD_ORIGINAL);
    push_bytes(&mut sc, &[0x66, 0x8B, 0x4D, 0x10]);  // mov cx, [ebp+0x10]
    assert(sc@.len() == OVERHEAD_STORE);
    push_bytes(&mut sc, &[
        0x5A, // pop edx
        0x66, 0x89, 0x88, 0x9C, 0x03, 0x00, 0x00, // mov [eax+0x39C], cx
    ]);
    push_bytes(&mut sc, &[0xE9]);  // jmp back
    push_u32(&mut sc, distance(cave + 85, OVERHEAD_TEXT_COLOR_FALLTHROUGH_ADDR));
    sc
}

pub const RESET_USE_COLOR: u32 = 132;

pub const RESET_STORE: u32 = 135;

pub const RESET_DONE: u32 = 142;

/// Where a text gets its default color, the text over a marked monster keeps the
/// monster's.
#[verifier::opaque]
pub open spec fn overhead_text_color_reset_code(cave: u32, table: u32) -> Seq<u8> {
    let c = [0x66u8, 0xA1]@;  // mov ax, [default color]
    let c = code::put32(c, OVERHEAD_DEFAULT_COLOR_ADDR);
    let c = code::put(c, [0x85u8, 0xD2]@);  // test edx, edx
    let c = code::jcc(c, 0x84, RESET_DONE as int);  // jz done
    let c = code::put(c, [
        0x8Bu8, 0x8A, 0x98, 0x03, 0x00, 0x00, // mov ecx, [edx+0x398]: the object
        0x85, 0xC9, // test ecx, ecx
    ]@);
    let c = code::jcc(c, 0x84, RESET_STORE as int);  // jz store
    let c = code::put(c, marker_check_code(table, 0x0E, RESET_STORE - 28));
    let c = code::put(c, [
        0x0Fu8, 0xB7, 0x49, 0x30, // movzx ecx, word [ecx+0x30]
        0x81, 0xF9, // cmp ecx, color
    ]@);
    let c = code::put32(c, DARK_RED as u32);
    let c = code::jcc(c, 0x84, RESET_USE_COLOR as int);  // je
    let c = code::put(c, [0x81u8, 0xF9]@);  // cmp ecx, color
    let c = code::put32(c, LIGHT_RED as u32);
    let c = code::jcc(c, 0x84, RESET_USE_COLOR as int);  // je
    let c = code::put(c, [0x81u8, 0xF9]@);  // cmp ecx, color
    let c = code::put32(c, BLUE as u32);
    let c = code::jcc(c, 0x84, RESET_USE_COLOR as int);  // je
    let c = code::put(c, [0x81u8, 0xF9]@);  // cmp ecx, color
    let c = code::put32(c, GREEN as u32);
    let c = code::jcc(c, 0x84, RESET_USE_COLOR as int);  // je
    let c = code::jmp(c, RESET_STORE as int);  // jmp store
    // reset_use_color:
    let c = code::put(c, [0x66u8, 0x89, 0xC8]@);  // mov ax, cx
    // reset_store:
    let c = code::put(c, [0x66u8, 0x89, 0x82, 0x9C, 0x03, 0x00, 0x00]@);  // mov [edx+0x39C], ax
    // reset_done:
    let c = code::put(c, [0xE9u8]@);  // jmp back
    let c = code::put32(c, code::rel32(cave + 147, OVERHEAD_TEXT_COLOR_RESET_FALLTHROUGH_ADDR as int));
    c
}

/// Builds [`overhead_text_color_reset_code`].
pub fn build_overhead_text_color_reset_shellcode(cave: u32, table: u32) -> (sc: Vec<u8>)
    requires
        cave + OVERHEAD_TEXT_COLOR_RESET_CODECAVE_SIZE <= u32::MAX,
    ensures
        sc@ == overhead_text_color_reset_code(cave, table),
        sc@.len() == 147,
{
    reveal(overhead_text_color_reset_code);
    let mut sc: Vec<u8> = start(&[0x66, 0xA1]);  // mov ax, [default color]
    push_u32(&mut sc, OVERHEAD_DEFAULT_COLOR_ADDR);
    push_bytes(&mut sc, &[0x85, 0xD2]);  // test edx, edx
    emit_jcc32(&mut sc, 0x84, RESET_DONE);  // jz done
    push_bytes(&mut sc, &[
        0x8B, 0x8A, 0x98, 0x03, 0x00, 0x00, // mov ecx, [edx+0x398]: the object
        0x85, 0xC9, // test ecx, ecx
    ]);
    emit_jcc32(&mut sc, 0x84, RESET_STORE);  // jz store
    push_bytes(&mut sc, emit_marker_table_check(table, 0x0E, RESET_STORE - 28).as_slice());
    push_bytes(&mut sc, &[
        0x0F, 0xB7, 0x49, 0x30, // movzx ecx, word [ecx+0x30]
        0x81, 0xF9, // cmp ecx, color
    ]);
    push_u32(&mut sc, DARK_RED as u32);
    emit_jcc32(&mut sc, 0x84, RESET_USE_COLOR);  // je
    push_bytes(&mut sc, &[0x81, 0xF9]);  // cmp ecx, color
    push_u32(&mut sc, LIGHT_RED as u32);
    emit_jcc32(&mut sc, 0x84, RESET_USE_COLOR);  // je
    push_bytes(&mut sc, &[0x81, 0xF9]);  // cmp ecx, color
    push_u32(&mut sc, BLUE as u32);
    emit_jcc32(&mut sc, 0x84, RESET_USE_COLOR);  // je
    push_bytes(&mut sc, &[0x81, 0xF9]);  // cmp ecx, color
    push_u32(&mut sc, GREEN as u32);
    emit_jcc32(&mut sc, 0x84, RESET_USE_COLOR);  // je
    emit_jmp32(&mut sc, RESET_STORE);  // jmp store
    assert(sc@.len() == RESET_USE_COLOR);
    push_bytes(&mut sc, &[0x66, 0x89, 0xC8]);  // mov ax, cx
    assert(sc@.len() == RESET_STORE);
    push_bytes(&mut sc, &[0x66, 0x89, 0x82, 0x9C, 0x03, 0x00, 0x00]);  // mov [edx+0x39C], ax
    assert(sc@.len() == RESET_DONE);
    push_bytes(&mut sc, &[0xE9]);  // jmp back
    push_u32(&mut sc, distance(cave + 147, OVERHEAD_TEXT_COLOR_RESET_FALLTHROUGH_ADDR));
    sc
}

pub const FIX_CHECK_ENTITY: u32 = 52;

pub const FIX_DONE: u32 = 123;

/// Makes the color of the selected object, where the object is marked, the outer
/// color of a text, and white the inner one.
#[verifier::opaque]
pub open spec fn color_fix_code(table: u32) -> Seq<u8> {
    let c = [
        0x8Bu8, 0x45, 0x1C, // mov eax, [ebp+0x1C]: the inner color
        0x3D, // cmp eax, color
    ]@;
    let c = code::put32(c, DARK_RED as u32);
    let c = code::jcc(c, 0x84, FIX_CHECK_ENTITY as int);  // je
    let c = code::put(c, [0x3Du8]@);  // cmp eax, color
    let c = code::put32(c, LIGHT_RED as u32);
    let c = code::jcc(c, 0x84, FIX_CHECK_ENTITY as int);  // je
    let c = code::put(c, [0x3Du8]@);  // cmp eax, color
    let c = code::put32(c, BLUE as u32);
    let c = code::jcc(c, 0x84, FIX_CHECK_ENTITY as int);  // je
    let c = code::put(c, [0x3Du8]@);  // cmp eax, color
    let c = code::put32(c, GREEN as u32);
    let c = code::jcc(c, 0x84, FIX_CHECK_ENTITY as int);  // je
    let c = code::jmp(c, FIX_DONE as int);  // jmp done
    // fix_check_entity:
    let c = code::put(c, [0x8Bu8, 0x15]@);  // mov edx, [selected]
    let c = code::put32(c, SELECTED_ENTITY_PTR_ADDR);
    let c = code::put(c, [0x85u8, 0xD2]@);  // test edx, edx
    let c = code::jcc(c, 0x84, FIX_DONE as int);  // jz done
    let c = code::put(c, marker_check_code(table, 0x16, FIX_DONE - 66));
    let c = code::put(c, [
        0x89u8, 0x45, 0x20, // mov [ebp+0x20], eax: the outer color
        0xC7, 0x45, 0x1C, // mov [ebp+0x1C], white
    ]@);
    let c = code::put32(c, DEFAULT_NAME_COLOR as u32);
    // fix_done:
    c
}

/// Emits [`color_fix_code`].
fn emit_color_fix(table: u32) -> (sc: Vec<u8>)
    ensures
        sc@ == color_fix_code(table),
        sc@.len() == 123,
{
    reveal(color_fix_code);
    let mut sc: Vec<u8> = start(&[
        0x8B, 0x45, 0x1C, // mov eax, [ebp+0x1C]: the inner color
        0x3D, // cmp eax, color
    ]);
    push_u32(&mut sc, DARK_RED as u32);
    emit_jcc32(&mut sc, 0x84, FIX_CHECK_ENTITY);  // je
    push_bytes(&mut sc, &[0x3D]);  // cmp eax, color
    push_u32(&mut sc, LIGHT_RED as u32);
    emit_jcc32(&mut sc, 0x84, FIX_CHECK_ENTITY);  // je
    push_bytes(&mut sc, &[0x3D]);  // cmp eax, color
    push_u32(&mut sc, BLUE as u32);
    emit_jcc32(&mut sc, 0x84, FIX_CHECK_ENTITY);  // je
    push_bytes(&mut sc, &[0x3D]);  // cmp eax, color
    push_u32(&mut sc, GREEN as u32);
    emit_jcc32(&mut sc, 0x84, FIX_CHECK_ENTITY);  // je
    emit_jmp32(&mut sc, FIX_DONE);  // jmp done
    assert(sc@.len() == FIX_CHECK_ENTITY);
    push_bytes(&mut sc, &[0x8B, 0x15]);  // mov edx, [selected]
    push_u32(&mut sc, SELECTED_ENTITY_PTR_ADDR);
    push_bytes(&mut sc, &[0x85, 0xD2]);  // test edx, edx
    emit_jcc32(&mut sc, 0x84, FIX_DONE);  // jz done
    push_bytes(&mut sc, emit_marker_table_check(table, 0x16, FIX_DONE - 66).as_slice());
    push_bytes(&mut sc, &[
        0x89, 0x45, 0x20, // mov [ebp+0x20], eax: the outer color
        0xC7, 0x45, 0x1C, // mov [ebp+0x1C], white
    ]);
    push_u32(&mut sc, DEFAULT_NAME_COLOR as u32);
    assert(sc@.len() == FIX_DONE);
    sc
}

/// Bytes of [`color_fix_code`].
pub const COLOR_FIX_LEN: u32 = 123;

/// Code `c`, and behind it a jump to `target` for each caller that `eax` may hold.
pub open spec fn callers_code(c: Seq<u8>, callers: Seq<u32>, target: int) -> Seq<u8>
    decreases callers.len(),
{
    if callers.len() == 0 {
        c
    } else {
        let c = callers_code(c, callers.drop_last(), target);
        let c = code::put(c, [0x3Du8]@);  // cmp eax, ret
        let c = code::put32(c, callers.last());
        code::jcc(c, 0x84, target)  // je
    }
}

/// The stolen bytes of a text routine, then [`color_fix_code`] for those callers that
/// draw a selected name, then the rest of the routine.
pub open spec fn text_draw_color_fix_code(
    cave: u32,
    table: u32,
    stolen: Seq<u8>,
    fallthrough: u32,
    callers: Seq<u32>,
) -> Seq<u8> {
    let check = stolen.len() as int + 3 + 11 * callers.len() + 5;
    let done = check + COLOR_FIX_LEN;
    let c = code::put(stolen, [0x8Bu8, 0x45, 0x04]@);  // mov eax, [ebp+4]: the caller
    let c = callers_code(c, callers, check);
    let c = code::jmp(c, done);  // jmp done
    let c = code::put(c, color_fix_code(table));
    let c = code::put(c, [0xE9u8]@);  // jmp back
    code::put32(c, code::rel32(cave + done + 5, fallthrough as int))
}

/// Builds [`text_draw_color_fix_code`].
pub fn build_text_draw_color_fix_shellcode(
    cave: u32,
    table: u32,
    stolen_bytes: &[u8],
    fallthrough_addr: u32,
    caller_returns: &[u32],
) -> (sc: Vec<u8>)
    requires
        cave + SELECTED_TEXT_CODECAVE_SIZE <= u32::MAX,
        stolen_bytes@.len() + 136 + 11 * caller_returns@.len() <= SELECTED_TEXT_CODECAVE_SIZE,
    ensures
        sc@ == text_draw_color_fix_code(
            cave,
            table,
            stolen_bytes@,
            fallthrough_addr,
            caller_returns@,
        ),
        sc@.len() == stolen_bytes@.len() + 136 + 11 * caller_returns@.len(),
{
    let n: u32 = caller_returns.len() as u32;
    let check: u32 = stolen_bytes.len() as u32 + 8 + 11 * n;
    let done: u32 = check + COLOR_FIX_LEN;
    let mut sc: Vec<u8> = start(stolen_bytes);
    push_bytes(&mut sc, &[0x8B, 0x45, 0x04]);
    let ghost head = sc@;
    let mut i: usize = 0;
    assert(caller_returns@.take(0).len() == 0);
    while i < caller_returns.len()
        invariant
            i <= caller_returns@.len(),
            head.len() == stolen_bytes@.len() + 3,
            stolen_bytes@.len() + 136 + 11 * caller_returns@.len() <= SELECTED_TEXT_CODECAVE_SIZE,
            sc@ == callers_code(head, caller_returns@.take(i as int), check as int),
            sc@.len() == head.len() + 11 * i,
        decreases caller_returns@.len() - i,
    {
        assert(caller_returns@.take(i + 1).drop_last() =~= caller_returns@.take(i as int));
        assert(caller_returns@.take(i + 1).last() == caller_returns@[i as int]);
        push_bytes(&mut sc, &[0x3D]);
        push_u32(&mut sc, caller_returns[i]);
        emit_jcc32(&mut sc, 0x84, check);
        i += 1;
    }
    assert(caller_returns@.take(caller_returns@.len() as int) =~= caller_returns@);
    emit_jmp32(&mut sc, done);
    push_bytes(&mut sc, emit_color_fix(table).as_slice());
    push_bytes(&mut sc, &[0xE9]);
    push_u32(&mut sc, distance(cave + done + 5, fallthrough_addr));
    sc
}

/// The first entries of the table of marked objects.
pub open spec fn marker_entries(addrs: Seq<u32>) -> Seq<u8>
    decreases addrs.len(),
{
    if addrs.len() == 0 {
        Seq::empty()
    } else {
        marker_entries(addrs.drop_last()) + code::le32(addrs.last())
    }
}

/// The objects that fit into the table.
pub open spec fn fitting(addrs: Seq<u32>) -> Seq<u32> {
    if addrs.len() > RENDER_MARKER_TABLE_CAPACITY {
        addrs.take(RENDER_MARKER_TABLE_CAPACITY as int)
    } else {
        addrs
    }
}

/// The table of marked objects: their count, their addresses, and zeros.
pub open spec fn marker_table(addrs: Seq<u32>) -> Seq<u8> {
    let marked = fitting(addrs);
    code::le32(marked.len() as u32) + marker_entries(marked) + Seq::new(
        (RENDER_MARKER_TABLE_BYTES - 4 - 4 * marked.len()) as nat,
        |i: int| 0u8,
    )
}

proof fn marker_entries_len(addrs: Seq<u32>)
    ensures
        marker_entries(addrs).len() == 4 * addrs.len(),
    decreases addrs.len(),
{
    reveal(code::le32);
    if addrs.len() > 0 {
        marker_entries_len(addrs.drop_last());
    }
}

/// Every object that fits is in the table, at its place, and the table has its size.
pub proof fn marked_objects_are_in_the_table(addrs: Seq<u32>, i: int)
    requires
        0 <= i < fitting(addrs).len(),
    ensures
        marker_table(addrs).len() == RENDER_MARKER_TABLE_BYTES,
        code::from_le32(marker_table(addrs).subrange(0, 4)) == fitting(addrs).len(),
        code::from_le32(marker_table(addrs).subrange(4 + 4 * i, 8 + 4 * i)) == addrs[i],
{
    let marked = fitting(addrs);
    marker_entries_len(marked);
    marker_entry_at(marked, i);
    reveal(code::le32);
    code::le32_round_trip(marked.len() as u32);
    code::le32_round_trip(marked[i]);
    let t = marker_table(addrs);
    assert(t.subrange(0, 4) =~= code::le32(marked.len() as u32));
    assert(t.subrange(4 + 4 * i, 8 + 4 * i) =~= marker_entries(marked).subrange(4 * i, 4 * i + 4));
}

proof fn marker_entry_at(addrs: Seq<u32>, i: int)
    requires
        0 <= i < addrs.len(),
    ensures
        marker_entries(addrs).len() == 4 * addrs.len(),
        marker_entries(addrs).subrange(4 * i, 4 * i + 4) == code::le32(addrs[i]),
    decreases addrs.len(),
{
    reveal(code::le32);
    let rest = addrs.drop_last();
    marker_entries_len(addrs);
    marker_entries_len(rest);
    if i < rest.len() {
        marker_entry_at(rest, i);
        assert(marker_entries(addrs).subrange(4 * i, 4 * i + 4) =~= marker_entries(rest).subrange(
            4 * i,
            4 * i + 4,
        ));
    } else {
        assert(marker_entries(addrs).subrange(4 * i, 4 * i + 4) =~= code::le32(addrs[i]));
    }
}

/// Builds the table of marked objects.
pub fn write_render_marker_table(entity_addrs: &[u32]) -> (raw: Vec<u8>)
    ensures
        raw@ == marker_table(entity_addrs@),
        raw@.len() == RENDER_MARKER_TABLE_BYTES,
{
    let count: usize = if entity_addrs.len() > RENDER_MARKER_TABLE_CAPACITY {
        RENDER_MARKER_TABLE_CAPACITY
    } else {
        entity_addrs.len()
    };
    let ghost marked = fitting(entity_addrs@);
    let mut raw: Vec<u8> = u32_bytes(count as u32);
    let ghost head = raw@;
    let mut i: usize = 0;
    assert(marked.take(0).len() == 0);
    assert(head + marker_entries(marked.take(0)) =~= head);
    reveal(code::le32);
    while i < count
        invariant
            i <= count == marked.len(),
            count <= entity_addrs@.len(),
            count <= RENDER_MARKER_TABLE_CAPACITY,
            marked == fitting(entity_addrs@),
            head == code::le32(count as u32),
            head.len() == 4,
            raw@ == head + marker_entries(marked.take(i as int)),
            raw@.len() == 4 + 4 * i,
        decreases count - i,
    {
        reveal(code::put);
        assert(marked.take(i + 1).drop_last() =~= marked.take(i as int));
        assert(marked.take(i + 1).last() == entity_addrs@[i as int]);
        push_u32(&mut raw, entity_addrs[i]);
        assert(raw@ =~= head + marker_entries(marked.take(i + 1)));
        i += 1;
    }
    assert(marked.take(marked.len() as int) =~= marked);
    let ghost filled = raw@;
    let mut k: usize = raw.len();
    assert(raw@ =~= filled + Seq::new(0, |j: int| 0u8));
    while k < RENDER_MARKER_TABLE_BYTES
        invariant
            filled.len() <= k <= RENDER_MARKER_TABLE_BYTES,
            raw@.len() == k,
            raw@ == filled + Seq::new((k - filled.len()) as nat, |j: int| 0u8),
        decreases RENDER_MARKER_TABLE_BYTES - k,
    {
        raw.push(0);
        assert(raw@ =~= filled + Seq::new((k + 1 - filled.len()) as nat, |j: int| 0u8));
        k += 1;
    }
    assert(raw@ =~= marker_table(entity_addrs@));
    raw
}

/// Whether a site holds a jump that an earlier run left there.
pub open spec fn legacy_jmp(current: Seq<u8>, original: Seq<u8>) -> bool {
    current != original && current.len() > 0 && current[0] == 0xE9
}

/// Whether a site holds a jump that an earlier run left there.
pub fn is_legacy_jmp_hook(current: &[u8], original: &[u8]) -> (r: bool)
    ensures
        r == legacy_jmp(current@, original@),
{
    !code::same_bytes(current, original) && current.len() > 0 && current[0] == 0xE9
}

/// What stands at the sites; `None` for one that could not be read.
#[derive(Debug)]
pub struct SiteReads {
    pub name_render: Option<Vec<u8>>,
    pub hover: Option<Vec<u8>>,
    pub overhead: Option<Vec<u8>>,
    pub overhead_reset: Option<Vec<u8>>,
    pub text_draw: Option<Vec<u8>>,
    pub text_draw_compact: Option<Vec<u8>>,
}

/// The sites, in the order in which they are looked at.
#[derive(Debug, Clone, Copy, PartialEq, Eq, Structural)]
pub enum Site {
    NameRender,
    Hover,
    Overhead,
    OverheadReset,
    TextDraw,
    TextDrawCompact,
}

/// Why the hooks cannot be put in.
#[derive(Debug, Clone, Copy, PartialEq, Eq, Structural)]
pub enum SiteFault {
    /// The site could not be read.
    Unreadable(Site),
    /// The site holds neither what it should nor what can be put right.
    Unexpected(Site),
    /// There is no cave for the site.
    NoCave(Site),
}

/// What is wrong with a site where `read` was read and `other` says what it may hold
/// beside its original bytes.
pub open spec fn fault_of(
    site: Site,
    read: Option<Vec<u8>>,
    original: Seq<u8>,
    other: bool,
) -> Option<SiteFault> {
    match read {
        None => Some(SiteFault::Unreadable(site)),
        Some(current) => if current@ == original || other {
            None
        } else {
            Some(SiteFault::Unexpected(site))
        },
    }
}

/// The same where an earlier run may have left a jump.
pub open spec fn legacy_fault(
    site: Site,
    read: Option<Vec<u8>>,
    original: Seq<u8>,
) -> Option<SiteFault> {
    fault_of(site, read, original, legacy_jmp(read->0@, original))
}

/// What is wrong with a site that needs a cave.
pub open spec fn cave_fault(site: Site, cave: Option<u32>) -> Option<SiteFault> {
    if cave is None {
        Some(SiteFault::NoCave(site))
    } else {
        None
    }
}

/// The first of these faults.
pub open spec fn first_fault(first: Option<SiteFault>, second: Option<SiteFault>) -> Option<
    SiteFault,
> {
    if first is Some {
        first
    } else {
        second
    }
}

/// What is wrong with the sites that are looked at before the caves of the text
/// routines are filled.
pub open spec fn early_fault(reads: SiteReads, caves: Caves) -> Option<SiteFault> {
    let name = fault_of(Site::NameRender, reads.name_render, NAME_RENDER_ORIGINAL_BYTES@, false);
    let name_cave = cave_fault(Site::NameRender, caves.name_render);
    let hover = fault_of(
        Site::Hover,
        reads.hover,
        HOVER_NAME_COLOR_ORIGINAL_BYTES@,
        reads.hover->0@ == HOVER_NAME_COLOR_FORCED_WHITE_BYTES@,
    );
    let overhead = legacy_fault(
        Site::Overhead,
        reads.overhead,
        OVERHEAD_TEXT_COLOR_ORIGINAL_BYTES@,
    );
    let overhead_reset = legacy_fault(
        Site::OverheadReset,
        reads.overhead_reset,
        OVERHEAD_TEXT_COLOR_RESET_ORIGINAL_BYTES@,
    );
    let text = legacy_fault(Site::TextDraw, reads.text_draw, TEXT_DRAW_FN_ORIGINAL_BYTES@);
    let compact = legacy_fault(
        Site::TextDrawCompact,
        reads.text_draw_compact,
        TEXT_DRAW_COMPACT_ORIGINAL_BYTES@,
    );
    first_fault(
        name,
        first_fault(
            name_cave,
            first_fault(
                hover,
                first_fault(overhead, first_fault(overhead_reset, first_fault(text, compact))),
            ),
        ),
    )
}

/// The first thing that is wrong.
pub open spec fn site_fault(reads: SiteReads, caves: Caves) -> Option<SiteFault> {
    first_fault(
        early_fault(reads, caves),
        first_fault(
            cave_fault(Site::TextDraw, caves.text_draw),
            cave_fault(Site::TextDrawCompact, caves.text_draw_compact),
        ),
    )
}

/// The write that puts a site right where it is not.
pub open spec fn put_right(addr: u32, current: Seq<u8>, original: Seq<u8>) -> Seq<(u32, Seq<u8>)> {
    if current == original {
        Seq::empty()
    } else {
        seq![(addr, original)]
    }
}

/// Where the table and the caves stand; `None` for a cave that could not be had.
#[derive(Debug, Clone, Copy, PartialEq, Eq, Structural)]
pub struct Caves {
    pub marker_table: u32,
    pub name_render: Option<u32>,
    pub text_draw: Option<u32>,
    pub text_draw_compact: Option<u32>,
}

/// Whether a cave, if there is one, lies within the address space.
pub open spec fn cave_fits(cave: Option<u32>, size: usize) -> bool {
    cave matches Some(at) ==> at + size <= u32::MAX
}

impl Caves {
    /// Every cave lies within the address space.
    pub open spec fn fit(&self) -> bool {
        &&& cave_fits(self.name_render, NAME_RENDER_CODECAVE_SIZE)
        &&& cave_fits(self.text_draw, SELECTED_TEXT_CODECAVE_SIZE)
        &&& cave_fits(self.text_draw_compact, SELECTED_TEXT_CODECAVE_SIZE)
    }
}

/// The code of the cave for the text routine.
pub open spec fn text_cave_code(caves: Caves) -> Seq<u8> {
    text_draw_color_fix_code(
        caves.text_draw->0,
        caves.marker_table,
        TEXT_DRAW_FN_ORIGINAL_BYTES@,
        TEXT_DRAW_FN_FALLTHROUGH_ADDR,
        SELECTED_TEXT_DRAW_RETURNS@,
    )
}

/// The code of the cave for the compact text routine.
pub open spec fn compact_cave_code(caves: Caves) -> Seq<u8> {
    text_draw_color_fix_code(
        caves.text_draw_compact->0,
        caves.marker_table,
        TEXT_DRAW_COMPACT_ORIGINAL_BYTES@,
        TEXT_DRAW_COMPACT_FALLTHROUGH_ADDR,
        SELECTED_COMPACT_TEXT_DRAW_RETURNS@,
    )
}

/// The writes that put the hooks in, in order, up to the first thing that is wrong.
pub open spec fn install_writes(reads: SiteReads, caves: Caves) -> Seq<(u32, Seq<u8>)> {
    let fault = site_fault(reads, caves);
    let table = seq![(caves.marker_table, marker_table(Seq::empty()))];
    let name = seq![
        (
            caves.name_render->0,
            name_render_code(caves.name_render->0, caves.marker_table),
        ),
        (
            NAME_RENDER_HOOK_ADDR,
            hook::hook_patch(
                NAME_RENDER_HOOK_ADDR,
                caves.name_render->0,
                NAME_RENDER_HOOK_LEN as nat,
            ),
        ),
    ];
    let hover = put_right(
        HOVER_NAME_COLOR_ADDR,
        reads.hover->0@,
        HOVER_NAME_COLOR_ORIGINAL_BYTES@,
    );
    let overhead = put_right(
        OVERHEAD_TEXT_COLOR_HOOK_ADDR,
        reads.overhead->0@,
        OVERHEAD_TEXT_COLOR_ORIGINAL_BYTES@,
    );
    let overhead_reset = put_right(
        OVERHEAD_TEXT_COLOR_RESET_HOOK_ADDR,
        reads.overhead_reset->0@,
        OVERHEAD_TEXT_COLOR_RESET_ORIGINAL_BYTES@,
    );
    let text = put_right(TEXT_DRAW_FN, reads.text_draw->0@, TEXT_DRAW_FN_ORIGINAL_BYTES@);
    let compact = put_right(
        TEXT_DRAW_COMPACT_FN,
        reads.text_draw_compact->0@,
        TEXT_DRAW_COMPACT_ORIGINAL_BYTES@,
    );
    let put = table + name + hover + overhead + overhead_reset + text + compact;
    let text_code = seq![(caves.text_draw->0, text_cave_code(caves))];
    let selected = seq![
        (caves.text_draw_compact->0, compact_cave_code(caves)),
        (
            TEXT_DRAW_FN,
            hook::hook_patch(TEXT_DRAW_FN, caves.text_draw->0, TEXT_DRAW_FN_HOOK_LEN as nat),
        ),
        (
            TEXT_DRAW_COMPACT_FN,
            hook::hook_patch(
                TEXT_DRAW_COMPACT_FN,
                caves.text_draw_compact->0,
                TEXT_DRAW_COMPACT_HOOK_LEN as nat,
            ),
        ),
    ];
    match fault {
        Some(SiteFault::NoCave(Site::TextDraw)) => put,
        Some(SiteFault::NoCave(Site::TextDrawCompact)) => put + text_code,
        Some(SiteFault::NoCave(_)) => table,
        Some(SiteFault::Unreadable(site)) | Some(SiteFault::Unexpected(site)) => match site {
            Site::NameRender => table,
            Site::Hover => table + name,
            Site::Overhead => table + name + hover,
            Site::OverheadReset => table + name + hover + overhead,
            Site::TextDraw => table + name + hover + overhead + overhead_reset,
            Site::TextDrawCompact => table + name + hover + overhead + overhead_reset + text,
        },
        None => put + text_code + selected,
    }
}

/// What has to be remembered of the hooks.
#[derive(Debug)]
pub struct HookState {
    pub name_patch: Vec<u8>,
    pub text_patch: Vec<u8>,
    pub compact_patch: Vec<u8>,
}

impl HookState {
    /// Whether this is the state of hooks with these caves.
    pub open spec fn is_for(&self, caves: Caves) -> bool {
        &&& self.name_patch@ == hook::hook_patch(
            NAME_RENDER_HOOK_ADDR,
            caves.name_render->0,
            NAME_RENDER_HOOK_LEN as nat,
        )
        &&& self.text_patch@ == hook::hook_patch(
            TEXT_DRAW_FN,
            caves.text_draw->0,
            TEXT_DRAW_FN_HOOK_LEN as nat,
        )
        &&& self.compact_patch@ == hook::hook_patch(
            TEXT_DRAW_COMPACT_FN,
            caves.text_draw_compact->0,
            TEXT_DRAW_COMPACT_HOOK_LEN as nat,
        )
    }
}

/// Whether the hooks are in.
pub fn is_installed(state: &Option<HookState>) -> (r: bool)
    ensures
        r == (*state is Some),
{
    state.is_some()
}

fn push_patch(writes: &mut Vec<Patch>, addr: u32, bytes: Vec<u8>)
    ensures
        hook::patch_views(final(writes)@) == hook::patch_views(old(writes)@) + seq![(addr, bytes@)],
{
    let ghost before = writes@;
    writes.push(Patch { addr, bytes });
    assert(hook::patch_views(writes@) =~= hook::patch_views(before) + seq![(addr, bytes@)]);
}

fn push_right(writes: &mut Vec<Patch>, addr: u32, current: &[u8], original: &[u8])
    ensures
        hook::patch_views(final(writes)@) == hook::patch_views(old(writes)@) + put_right(
            addr,
            current@,
            original@,
        ),
{
    if code::same_bytes(current, original) {
        assert(hook::patch_views(writes@) =~= hook::patch_views(writes@) + put_right(
            addr,
            current@,
            original@,
        ));
    } else {
        push_patch(writes, addr, bytes_of(original));
    }
}

/// Puts a site right that may hold a jump of an earlier run.
fn restore_legacy_jmp_hook_if_present(
    writes: &mut Vec<Patch>,
    site: Site,
    addr: u32,
    read: &Option<Vec<u8>>,
    original: &[u8],
) -> (r: Result<(), SiteFault>)
    ensures
        match r {
            Ok(_) => {
                &&& legacy_fault(site, *read, original@) is None
                &&& hook::patch_views(final(writes)@) == hook::patch_views(old(writes)@)
                    + put_right(addr, read->0@, original@)
            },
            Err(fault) => {
                &&& legacy_fault(site, *read, original@) == Some(fault)
                &&& final(writes)@ == old(writes)@
            },
        },
{
    match read {
        None => Err(SiteFault::Unreadable(site)),
        Some(current) => {
            if !code::same_bytes(current.as_slice(), original) && !is_legacy_jmp_hook(
                current.as_slice(),
                original,
            ) {
                return Err(SiteFault::Unexpected(site));
            }
            push_right(writes, addr, current.as_slice(), original);
            Ok(())
        },
    }
}

/// Puts the reading of the color under the mouse right.
fn install_hover_name_patch(writes: &mut Vec<Patch>, read: &Option<Vec<u8>>) -> (r: Result<
    (),
    SiteFault,
>)
    ensures
        ({
            let fault = fault_of(
                Site::Hover,
                *read,
                HOVER_NAME_COLOR_ORIGINAL_BYTES@,
                read->0@ == HOVER_NAME_COLOR_FORCED_WHITE_BYTES@,
            );
            match r {
                Ok(_) => {
                    &&& fault is None
                    &&& hook::patch_views(final(writes)@) == hook::patch_views(old(writes)@)
                        + put_right(
                        HOVER_NAME_COLOR_ADDR,
                        read->0@,
                        HOVER_NAME_COLOR_ORIGINAL_BYTES@,
                    )
                },
                Err(f) => fault == Some(f) && final(writes)@ == old(writes)@,
            }
        }),
{
    match read {
        None => Err(SiteFault::Unreadable(Site::Hover)),
        Some(current) => {
            let bytes: &[u8] = current.as_slice();
            if !code::same_bytes(bytes, HOVER_NAME_COLOR_ORIGINAL_BYTES.as_slice())
                && !code::same_bytes(bytes, HOVER_NAME_COLOR_FORCED_WHITE_BYTES.as_slice()) {
                return Err(SiteFault::Unexpected(Site::Hover));
            }
            push_right(
                writes,
                HOVER_NAME_COLOR_ADDR,
                bytes,
                HOVER_NAME_COLOR_ORIGINAL_BYTES.as_slice(),
            );
            Ok(())
        },
    }
}

/// Hooks the drawing of a name; gives the bytes that stand at the site afterwards.
fn install_name_render_hook(
    writes: &mut Vec<Patch>,
    read: &Option<Vec<u8>>,
    cave: Option<u32>,
    render_marker_table: u32,
) -> (r: Result<Vec<u8>, SiteFault>)
    requires
        cave_fits(cave, NAME_RENDER_CODECAVE_SIZE),
    ensures
        ({
            let fault = first_fault(
                fault_of(Site::NameRender, *read, NAME_RENDER_ORIGINAL_BYTES@, false),
                cave_fault(Site::NameRender, cave),
            );
            match r {
                Ok(patch) => {
                    &&& fault is None
                    &&& patch@ == hook::hook_patch(
                        NAME_RENDER_HOOK_ADDR,
                        cave->0,
                        NAME_RENDER_HOOK_LEN as nat,
                    )
                    &&& hook::patch_views(final(writes)@) == hook::patch_views(old(writes)@) + seq![
                        (cave->0, name_render_code(cave->0, render_marker_table)),
                        (NAME_RENDER_HOOK_ADDR, patch@),
                    ]
                },
                Err(f) => fault == Some(f) && final(writes)@ == old(writes)@,
            }
        }),
{
    match read {
        None => Err(SiteFault::Unreadable(Site::NameRender)),
        Some(current) => {
            if !code::same_bytes(current.as_slice(), NAME_RENDER_ORIGINAL_BYTES.as_slice()) {
                return Err(SiteFault::Unexpected(Site::NameRender));
            }
            let at: u32 = match cave {
                Some(at) => at,
                None => return Err(SiteFault::NoCave(Site::NameRender)),
            };
            let ghost before = hook::patch_views(writes@);
            push_patch(writes, at, build_name_render_shellcode(at, render_marker_table));
            let patch: Vec<u8> = build_hook_patch::<NAME_RENDER_HOOK_LEN>(
                NAME_RENDER_HOOK_ADDR,
                at,
            );
            push_patch(writes, NAME_RENDER_HOOK_ADDR, bytes_of(patch.as_slice()));
            assert(hook::patch_views(writes@) =~= before + seq![
                (at, name_render_code(at, render_marker_table)),
                (NAME_RENDER_HOOK_ADDR, patch@),
            ]);
            Ok(patch)
        },
    }
}

/// Hooks the two text routines; gives the bytes that stand at the sites afterwards.
fn install_selected_name_color_hooks(writes: &mut Vec<Patch>, caves: &Caves) -> (r: Result<
    (Vec<u8>, Vec<u8>),
    SiteFault,
>)
    requires
        caves.fit(),
    ensures
        ({
            let fault = first_fault(
                cave_fault(Site::TextDraw, caves.text_draw),
                cave_fault(Site::TextDrawCompact, caves.text_draw_compact),
            );
            let before = hook::patch_views(old(writes)@);
            let after = hook::patch_views(final(writes)@);
            let text_code = seq![(caves.text_draw->0, text_cave_code(*caves))];
            match r {
                Ok(patches) => {
                    &&& fault is None
                    &&& patches.0@ == hook::hook_patch(
                        TEXT_DRAW_FN,
                        caves.text_draw->0,
                        TEXT_DRAW_FN_HOOK_LEN as nat,
                    )
                    &&& patches.1@ == hook::hook_patch(
                        TEXT_DRAW_COMPACT_FN,
                        caves.text_draw_compact->0,
                        TEXT_DRAW_COMPACT_HOOK_LEN as nat,
                    )
                    &&& after == before + text_code + seq![
                        (caves.text_draw_compact->0, compact_cave_code(*caves)),
                        (TEXT_DRAW_FN, patches.0@),
                        (TEXT_DRAW_COMPACT_FN, patches.1@),
                    ]
                },
                Err(f) => {
                    &&& fault == Some(f)
                    &&& after == if caves.text_draw is None {
                        before
                    } else {
                        before + text_code
                    }
                },
            }
        }),
{
    let ghost before = hook::patch_views(writes@);
    let text_cave: u32 = match caves.text_draw {
        Some(at) => at,
        None => return Err(SiteFault::NoCave(Site::TextDraw)),
    };
    push_patch(
        writes,
        text_cave,
        build_text_draw_color_fix_shellcode(
            text_cave,
            caves.marker_table,
            TEXT_DRAW_FN_ORIGINAL_BYTES.as_slice(),
            TEXT_DRAW_FN_FALLTHROUGH_ADDR,
            SELECTED_TEXT_DRAW_RETURNS.as_slice(),
        ),
    );
    let compact_cave: u32 = match caves.text_draw_compact {
        Some(at) => at,
        None => return Err(SiteFault::NoCave(Site::TextDrawCompact)),
    };
    push_patch(
        writes,
        compact_cave,
        build_text_draw_color_fix_shellcode(
            compact_cave,
            caves.marker_table,
            TEXT_DRAW_COMPACT_ORIGINAL_BYTES.as_slice(),
            TEXT_DRAW_COMPACT_FALLTHROUGH_ADDR,
            SELECTED_COMPACT_TEXT_DRAW_RETURNS.as_slice(),
        ),
    );
    let text_patch: Vec<u8> = build_hook_patch::<TEXT_DRAW_FN_HOOK_LEN>(TEXT_DRAW_FN, text_cave);
    push_patch(writes, TEXT_DRAW_FN, bytes_of(text_patch.as_slice()));
    let compact_patch: Vec<u8> = build_hook_patch::<TEXT_DRAW_COMPACT_HOOK_LEN>(
        TEXT_DRAW_COMPACT_FN,
        compact_cave,
    );
    push_patch(writes, TEXT_DRAW_COMPACT_FN, bytes_of(compact_patch.as_slice()));
    assert(hook::patch_views(writes@) =~= before + seq![
        (text_cave, text_cave_code(*caves)),
    ] + seq![
        (compact_cave, compact_cave_code(*caves)),
        (TEXT_DRAW_FN, text_patch@),
        (TEXT_DRAW_COMPACT_FN, compact_patch@),
    ]);
    Ok((text_patch, compact_patch))
}

/// The writes that put the hooks in, in order, and the state to keep: where something
/// is wrong, there is none, and only what goes before that is written.
#[derive(Debug)]
pub struct InstallPlan {
    pub writes: Vec<Patch>,
    pub state: Result<HookState, SiteFault>,
}

fn planned(reads: &SiteReads, caves: &Caves, writes: &mut Vec<Patch>) -> (r: Result<
    HookState,
    SiteFault,
>)
    requires
        caves.fit(),
        old(writes)@.len() == 0,
    ensures
        hook::patch_views(final(writes)@) == install_writes(*reads, *caves),
        match r {
            Ok(state) => site_fault(*reads, *caves) is None && state.is_for(*caves),
            Err(fault) => site_fault(*reads, *caves) == Some(fault),
        },
{
    let none: Vec<u32> = Vec::new();
    assert(none@ =~= Seq::<u32>::empty());
    assert(hook::patch_views(writes@) =~= Seq::<(u32, Seq<u8>)>::empty());
    push_patch(writes, caves.marker_table, write_render_marker_table(none.as_slice()));
    assert(hook::patch_views(writes@) =~= seq![
        (caves.marker_table, marker_table(Seq::<u32>::empty())),
    ]);
    let name_patch: Vec<u8> = match install_name_render_hook(
        writes,
        &reads.name_render,
        caves.name_render,
        caves.marker_table,
    ) {
        Ok(patch) => patch,
        Err(fault) => return Err(fault),
    };
    if let Err(fault) = install_hover_name_patch(writes, &reads.hover) {
        return Err(fault);
    }
    if let Err(fault) = restore_legacy_jmp_hook_if_present(
        writes,
        Site::Overhead,
        OVERHEAD_TEXT_COLOR_HOOK_ADDR,
        &reads.overhead,
        OVERHEAD_TEXT_COLOR_ORIGINAL_BYTES.as_slice(),
    ) {
        return Err(fault);
    }
    if let Err(fault) = restore_legacy_jmp_hook_if_present(
        writes,
        Site::OverheadReset,
        OVERHEAD_TEXT_COLOR_RESET_HOOK_ADDR,
        &reads.overhead_reset,
        OVERHEAD_TEXT_COLOR_RESET_ORIGINAL_BYTES.as_slice(),
    ) {
        return Err(fault);
    }
    if let Err(fault) = restore_legacy_jmp_hook_if_present(
        writes,
        Site::TextDraw,
        TEXT_DRAW_FN,
        &reads.text_draw,
        TEXT_DRAW_FN_ORIGINAL_BYTES.as_slice(),
    ) {
        return Err(fault);
    }
    if let Err(fault) = restore_legacy_jmp_hook_if_present(
        writes,
        Site::TextDrawCompact,
        TEXT_DRAW_COMPACT_FN,
        &reads.text_draw_compact,
        TEXT_DRAW_COMPACT_ORIGINAL_BYTES.as_slice(),
    ) {
        return Err(fault);
    }
    match install_selected_name_color_hooks(writes, caves) {
        Ok((text_patch, compact_patch)) => Ok(HookState { name_patch, text_patch, compact_patch }),
        Err(fault) => Err(fault),
    }
}

/// Plans to put the hooks in; there is no plan where they are in.
pub fn install(state: &Option<HookState>, reads: &SiteReads, caves: &Caves) -> (r: Option<
    InstallPlan,
>)
    requires
        *state is None ==> caves.fit(),
    ensures
        r is None <==> *state is Some,
        r matches Some(plan) ==> {
            &&& hook::patch_views(plan.writes@) == install_writes(*reads, *caves)
            &&& match plan.state {
                Ok(new) => site_fault(*reads, *caves) is None && new.is_for(*caves),
                Err(fault) => site_fault(*reads, *caves) == Some(fault),
            }
        },
{
    if is_installed(state) {
        return None;
    }
    let mut writes: Vec<Patch> = Vec::new();
    let state: Result<HookState, SiteFault> = planned(reads, caves, &mut writes);
    Some(InstallPlan { writes, state })
}

/// The sites that get their original bytes back, in order.
pub open spec fn restore_sites(state: HookState) -> Seq<(u32, Seq<u8>, Seq<u8>)> {
    seq![
        (TEXT_DRAW_FN, TEXT_DRAW_FN_ORIGINAL_BYTES@, state.text_patch@),
        (TEXT_DRAW_COMPACT_FN, TEXT_DRAW_COMPACT_ORIGINAL_BYTES@, state.compact_patch@),
        (
            HOVER_NAME_COLOR_ADDR,
            HOVER_NAME_COLOR_ORIGINAL_BYTES@,
            HOVER_NAME_COLOR_FORCED_WHITE_BYTES@,
        ),
        (NAME_RENDER_HOOK_ADDR, NAME_RENDER_ORIGINAL_BYTES@, state.name_patch@),
    ]
}

/// Whether a cave stands elsewhere than the sites.
pub open spec fn apart(cave: u32) -> bool {
    &&& cave != NAME_RENDER_HOOK_ADDR
    &&& cave != HOVER_NAME_COLOR_ADDR
    &&& cave != OVERHEAD_TEXT_COLOR_HOOK_ADDR
    &&& cave != OVERHEAD_TEXT_COLOR_RESET_HOOK_ADDR
    &&& cave != TEXT_DRAW_FN
    &&& cave != TEXT_DRAW_COMPACT_FN
}

/// Whether these are the bytes that stand at the sites.
pub open spec fn reads_of(mem: Map<u32, Seq<u8>>, reads: SiteReads) -> bool {
    &&& reads.name_render matches Some(b) && mem[NAME_RENDER_HOOK_ADDR] == b@
    &&& reads.hover matches Some(b) && mem[HOVER_NAME_COLOR_ADDR] == b@
    &&& reads.overhead matches Some(b) && mem[OVERHEAD_TEXT_COLOR_HOOK_ADDR] == b@
    &&& reads.overhead_reset matches Some(b) && mem[OVERHEAD_TEXT_COLOR_RESET_HOOK_ADDR] == b@
    &&& reads.text_draw matches Some(b) && mem[TEXT_DRAW_FN] == b@
    &&& reads.text_draw_compact matches Some(b) && mem[TEXT_DRAW_COMPACT_FN] == b@
}

/// Whether every site holds its original bytes.
pub open spec fn all_original(mem: Map<u32, Seq<u8>>) -> bool {
    &&& mem[NAME_RENDER_HOOK_ADDR] == NAME_RENDER_ORIGINAL_BYTES@
    &&& mem[HOVER_NAME_COLOR_ADDR] == HOVER_NAME_COLOR_ORIGINAL_BYTES@
    &&& mem[OVERHEAD_TEXT_COLOR_HOOK_ADDR] == OVERHEAD_TEXT_COLOR_ORIGINAL_BYTES@
    &&& mem[OVERHEAD_TEXT_COLOR_RESET_HOOK_ADDR] == OVERHEAD_TEXT_COLOR_RESET_ORIGINAL_BYTES@
    &&& mem[TEXT_DRAW_FN] == TEXT_DRAW_FN_ORIGINAL_BYTES@
    &&& mem[TEXT_DRAW_COMPACT_FN] == TEXT_DRAW_COMPACT_ORIGINAL_BYTES@
}

proof fn put_right_writes(mem: Map<u32, Seq<u8>>, addr: u32, original: Seq<u8>)
    ensures
        ({
            let after = hook::after_writes(mem, put_right(addr, mem[addr], original));
            &&& after[addr] == original
            &&& forall|at: u32| at != addr ==> #[trigger] after[at] == mem[at]
        }),
{
    reveal_with_fuel(hook::after_writes, 2);
}

/// Once the hooks are in and out again, every site holds its original bytes, also one
/// that held a jump of an earlier run or the forced color.
pub proof fn removal_undoes_the_hooks(
    state: HookState,
    reads: SiteReads,
    caves: Caves,
    mem: Map<u32, Seq<u8>>,
)
    requires
        reads_of(mem, reads),
        site_fault(reads, caves) is None,
        state.is_for(caves),
        apart(caves.marker_table),
        apart(caves.name_render->0),
        apart(caves.text_draw->0),
        apart(caves.text_draw_compact->0),
    ensures
        all_original(
            hook::after_restores(
                hook::after_writes(mem, install_writes(reads, caves)),
                restore_sites(state),
            ),
        ),
{
    let table = seq![(caves.marker_table, marker_table(Seq::empty()))];
    let name = seq![
        (caves.name_render->0, name_render_code(caves.name_render->0, caves.marker_table)),
        (NAME_RENDER_HOOK_ADDR, state.name_patch@),
    ];
    let hover = put_right(
        HOVER_NAME_COLOR_ADDR,
        mem[HOVER_NAME_COLOR_ADDR],
        HOVER_NAME_COLOR_ORIGINAL_BYTES@,
    );
    let overhead = put_right(
        OVERHEAD_TEXT_COLOR_HOOK_ADDR,
        mem[OVERHEAD_TEXT_COLOR_HOOK_ADDR],
        OVERHEAD_TEXT_COLOR_ORIGINAL_BYTES@,
    );
    let reset = put_right(
        OVERHEAD_TEXT_COLOR_RESET_HOOK_ADDR,
        mem[OVERHEAD_TEXT_COLOR_RESET_HOOK_ADDR],
        OVERHEAD_TEXT_COLOR_RESET_ORIGINAL_BYTES@,
    );
    let text = put_right(TEXT_DRAW_FN, mem[TEXT_DRAW_FN], TEXT_DRAW_FN_ORIGINAL_BYTES@);
    let compact = put_right(
        TEXT_DRAW_COMPACT_FN,
        mem[TEXT_DRAW_COMPACT_FN],
        TEXT_DRAW_COMPACT_ORIGINAL_BYTES@,
    );
    let text_code = seq![(caves.text_draw->0, text_cave_code(caves))];
    let selected = seq![
        (caves.text_draw_compact->0, compact_cave_code(caves)),
        (TEXT_DRAW_FN, state.text_patch@),
        (TEXT_DRAW_COMPACT_FN, state.compact_patch@),
    ];
    let w1 = table + name;
    let w2 = w1 + hover;
    let w3 = w2 + overhead;
    let w4 = w3 + reset;
    let w5 = w4 + text;
    let w6 = w5 + compact;
    let w7 = w6 + text_code;
    assert(install_writes(reads, caves) == w7 + selected);
    hook::writes_follow_each_other(mem, table, name);
    hook::writes_follow_each_other(mem, w1, hover);
    hook::writes_follow_each_other(mem, w2, overhead);
    hook::writes_follow_each_other(mem, w3, reset);
    hook::writes_follow_each_other(mem, w4, text);
    hook::writes_follow_each_other(mem, w5, compact);
    hook::writes_follow_each_other(mem, w6, text_code);
    hook::writes_follow_each_other(mem, w7, selected);
    reveal_with_fuel(hook::after_writes, 4);
    let m1 = hook::after_writes(mem, w1);
    put_right_writes(m1, HOVER_NAME_COLOR_ADDR, HOVER_NAME_COLOR_ORIGINAL_BYTES@);
    let m2 = hook::after_writes(mem, w2);
    put_right_writes(m2, OVERHEAD_TEXT_COLOR_HOOK_ADDR, OVERHEAD_TEXT_COLOR_ORIGINAL_BYTES@);
    let m3 = hook::after_writes(mem, w3);
    put_right_writes(
        m3,
        OVERHEAD_TEXT_COLOR_RESET_HOOK_ADDR,
        OVERHEAD_TEXT_COLOR_RESET_ORIGINAL_BYTES@,
    );
    let m4 = hook::after_writes(mem, w4);
    put_right_writes(m4, TEXT_DRAW_FN, TEXT_DRAW_FN_ORIGINAL_BYTES@);
    let m5 = hook::after_writes(mem, w5);
    put_right_writes(m5, TEXT_DRAW_COMPACT_FN, TEXT_DRAW_COMPACT_ORIGINAL_BYTES@);
    reveal_with_fuel(hook::after_restores, 5);
}

fn restores(state: &HookState) -> (r: Vec<Restore>)
    ensures
        hook::restore_views(r@) == restore_sites(*state),
{
    let mut r: Vec<Restore> = Vec::new();
    r.push(
        Restore {
            addr: TEXT_DRAW_FN,
            original: bytes_of(TEXT_DRAW_FN_ORIGINAL_BYTES.as_slice()),
            patch: bytes_of(state.text_patch.as_slice()),
        },
    );
    r.push(
        Restore {
            addr: TEXT_DRAW_COMPACT_FN,
            original: bytes_of(TEXT_DRAW_COMPACT_ORIGINAL_BYTES.as_slice()),
            patch: bytes_of(state.compact_patch.as_slice()),
        },
    );
    r.push(
        Restore {
            addr: HOVER_NAME_COLOR_ADDR,
            original: bytes_of(HOVER_NAME_COLOR_ORIGINAL_BYTES.as_slice()),
            patch: bytes_of(HOVER_NAME_COLOR_FORCED_WHITE_BYTES.as_slice()),
        },
    );
    r.push(
        Restore {
            addr: NAME_RENDER_HOOK_ADDR,
            original: bytes_of(NAME_RENDER_ORIGINAL_BYTES.as_slice()),
            patch: bytes_of(state.name_patch.as_slice()),
        },
    );
    assert(hook::restore_views(r@) =~= restore_sites(*state));
    r
}

/// The sites to put back to take the hooks out, in order, none where they are not in;
/// the hooks count as out from now on.
pub fn uninstall(state: &mut Option<HookState>) -> (r: Vec<Restore>)
    ensures
        *final(state) == hook::after_uninstall(*old(state)),
        hook::restore_views(r@) == match *old(state) {
            Some(s) => restore_sites(s),
            None => Seq::empty(),
        },
{
    match state.take() {
        Some(s) => restores(&s),
        None => {
            let none: Vec<Restore> = Vec::new();
            assert(hook::restore_views(none@) =~= Seq::<(u32, Seq<u8>, Seq<u8>)>::empty());
            none
        },
    }
}

} // verus!
