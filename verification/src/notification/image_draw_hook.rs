//! Drawing pictures through the client's own drawing function.
//!
//! The start of that function is redirected into a cave.  The cave remembers the
//! surface and the geometry of the first call, draws the pictures of its list
//! with them, and then carries out the call.

use vstd::prelude::*;

use crate::code;
use crate::code::distance;
use crate::code::emit_call32;
use crate::code::emit_jcc32;
use crate::code::emit_jump8;
use crate::code::push_bytes;
use crate::code::push_u32;
use crate::code::same_bytes;
use crate::code::start;
use crate::hook;
use crate::hook::build_hook_patch;
use crate::hook::Patch;

verus! {

broadcast use crate::code::group_code_len;

pub const HOOK_ADDR: u32 = 0x0042F450;

/// `push ebp; mov ebp, esp; push ecx; mov [ebp-4], ecx`
pub const ORIGINAL_PROLOGUE: [u8; 7] = [0x55, 0x8B, 0xEC, 0x51, 0x89, 0x4D, 0xFC];

pub const HOOK_LEN: usize = 7;

pub const RESUME_ADDR: u32 = 0x0042F457;

/// How often the function was called.
pub const OFF_INVOCATIONS: u32 = 0x000;

/// 1 once surface and geometry are known.
pub const OFF_STOLEN_FLAG: u32 = 0x004;

pub const OFF_STOLEN_DST_SURF_OBJ: u32 = 0x008;

pub const OFF_STOLEN_DESCRIPTOR: u32 = 0x00C;

pub const OFF_DRAW_COUNT: u32 = 0x040;

pub const OFF_DRAW_LIST: u32 = 0x044;

/// The picture element that is drawn.
pub const OFF_TEMPLATE: u32 = 0x200;

pub const OFF_SHELLCODE: u32 = 0x280;

pub const CAVE_SIZE: usize = 0x600;

pub const DRAW_ENTRY_BYTES: usize = 12;

/// How many entries the list has room for.
pub const MAX_DRAW_CMDS: usize = 37;

/// Makes the template the picture that `esi` points at.
pub open spec fn fill_template_code(cave: u32) -> Seq<u8> {
    let c = [0xA1u8]@;  // mov eax, [stolen_dst_surf_obj]
    let c = code::put32(c, (cave + OFF_STOLEN_DST_SURF_OBJ) as u32);
    let c = code::put(c, [0xA3u8]@);  // mov [template+0x1C], eax
    let c = code::put32(c, (cave + OFF_TEMPLATE + 0x1C) as u32);
    let c = code::put(c, [0xA1u8]@);  // mov eax, [stolen_descriptor+0]
    let c = code::put32(c, (cave + OFF_STOLEN_DESCRIPTOR) as u32);
    let c = code::put(c, [0xA3u8]@);  // mov [template+0x3C], eax
    let c = code::put32(c, (cave + OFF_TEMPLATE + 0x3C) as u32);
    let c = code::put(c, [0xA1u8]@);  // mov eax, [stolen_descriptor+4]
    let c = code::put32(c, (cave + OFF_STOLEN_DESCRIPTOR + 4) as u32);
    let c = code::put(c, [0xA3u8]@);  // mov [template+0x40], eax
    let c = code::put32(c, (cave + OFF_TEMPLATE + 0x40) as u32);
    let c = code::put(c, [0xA1u8]@);  // mov eax, [stolen_descriptor+8]
    let c = code::put32(c, (cave + OFF_STOLEN_DESCRIPTOR + 8) as u32);
    let c = code::put(c, [0xA3u8]@);  // mov [template+0x44], eax
    let c = code::put32(c, (cave + OFF_TEMPLATE + 0x44) as u32);
    let c = code::put(c, [0xA1u8]@);  // mov eax, [stolen_descriptor+12]
    let c = code::put32(c, (cave + OFF_STOLEN_DESCRIPTOR + 12) as u32);
    let c = code::put(c, [0xA3u8]@);  // mov [template+0x48], eax
    let c = code::put32(c, (cave + OFF_TEMPLATE + 0x48) as u32);
    let c = code::put(c, [0xC6u8, 0x05]@);  // mov byte [template+0x2D], 0
    let c = code::put32(c, (cave + OFF_TEMPLATE + 0x2D) as u32);
    let c = code::put(c, [
        0x00u8,
        0x0F, 0xB7, 0x06, // movzx eax, word [esi]: the picture
        0xA3, // mov [template+0x20], eax
    ]@);
    let c = code::put32(c, (cave + OFF_TEMPLATE + 0x20) as u32);
    let c = code::put(c, [
        0x8Bu8, 0x46, 0x04, // mov eax, [esi+4]: x
        0xA3, // mov [template+0x04], eax
    ]@);
    let c = code::put32(c, (cave + OFF_TEMPLATE + 0x04) as u32);
    let c = code::put(c, [
        0x8Bu8, 0x46, 0x08, // mov eax, [esi+8]: y
        0xA3, // mov [template+0x08], eax
    ]@);
    let c = code::put32(c, (cave + OFF_TEMPLATE + 0x08) as u32);
    let c = code::put(c, [0xB9u8]@);  // mov ecx, template
    let c = code::put32(c, (cave + OFF_TEMPLATE) as u32);
    c
}

/// Emits [`fill_template_code`].
fn emit_fill_template(cave: u32) -> (sc: Vec<u8>)
    requires
        cave + CAVE_SIZE <= u32::MAX,
    ensures
        sc@ == fill_template_code(cave),
        sc@.len() == 86,
{
    let mut sc: Vec<u8> = start(&[0xA1]);  // mov eax, [stolen_dst_surf_obj]
    push_u32(&mut sc, cave + OFF_STOLEN_DST_SURF_OBJ);
    push_bytes(&mut sc, &[0xA3]);  // mov [template+0x1C], eax
    push_u32(&mut sc, cave + OFF_TEMPLATE + 0x1C);
    push_bytes(&mut sc, &[0xA1]);  // mov eax, [stolen_descriptor+0]
    push_u32(&mut sc, cave + OFF_STOLEN_DESCRIPTOR);
    push_bytes(&mut sc, &[0xA3]);  // mov [template+0x3C], eax
    push_u32(&mut sc, cave + OFF_TEMPLATE + 0x3C);
    push_bytes(&mut sc, &[0xA1]);  // mov eax, [stolen_descriptor+4]
    push_u32(&mut sc, cave + OFF_STOLEN_DESCRIPTOR + 4);
    push_bytes(&mut sc, &[0xA3]);  // mov [template+0x40], eax
    push_u32(&mut sc, cave + OFF_TEMPLATE + 0x40);
    push_bytes(&mut sc, &[0xA1]);  // mov eax, [stolen_descriptor+8]
    push_u32(&mut sc, cave + OFF_STOLEN_DESCRIPTOR + 8);
    push_bytes(&mut sc, &[0xA3]);  // mov [template+0x44], eax
    push_u32(&mut sc, cave + OFF_TEMPLATE + 0x44);
    push_bytes(&mut sc, &[0xA1]);  // mov eax, [stolen_descriptor+12]
    push_u32(&mut sc, cave + OFF_STOLEN_DESCRIPTOR + 12);
    push_bytes(&mut sc, &[0xA3]);  // mov [template+0x48], eax
    push_u32(&mut sc, cave + OFF_TEMPLATE + 0x48);
    push_bytes(&mut sc, &[0xC6, 0x05]);  // mov byte [template+0x2D], 0
    push_u32(&mut sc, cave + OFF_TEMPLATE + 0x2D);
    push_bytes(&mut sc, &[
        0x00,
        0x0F, 0xB7, 0x06, // movzx eax, word [esi]: the picture
        0xA3, // mov [template+0x20], eax
    ]);
    push_u32(&mut sc, cave + OFF_TEMPLATE + 0x20);
    push_bytes(&mut sc, &[
        0x8B, 0x46, 0x04, // mov eax, [esi+4]: x
        0xA3, // mov [template+0x04], eax
    ]);
    push_u32(&mut sc, cave + OFF_TEMPLATE + 0x04);
    push_bytes(&mut sc, &[
        0x8B, 0x46, 0x08, // mov eax, [esi+8]: y
        0xA3, // mov [template+0x08], eax
    ]);
    push_u32(&mut sc, cave + OFF_TEMPLATE + 0x08);
    push_bytes(&mut sc, &[0xB9]);  // mov ecx, template
    push_u32(&mut sc, cave + OFF_TEMPLATE);
    sc
}

pub const POST_STEAL: u32 = 72;

pub const DRAW_LOOP: u32 = 91;

pub const DRAW_DONE: u32 = 192;

pub const TRAMPOLINE: u32 = 194;

/// Remembers where the client draws, draws the list, and goes on with the function
/// that was called.
pub open spec fn draw_hook_code(cave: u32) -> Seq<u8> {
    let c = [
        0x60u8, 0x9C, // pushad; pushfd
        0xF0, 0xFF, 0x05, // lock inc [invocations]
    ]@;
    let c = code::put32(c, (cave + OFF_INVOCATIONS) as u32);
    let c = code::put(c, [0x83u8, 0x3D]@);  // cmp dword [stolen_flag], 0
    let c = code::put32(c, (cave + OFF_STOLEN_FLAG) as u32);
    let c = code::put(c, [0x00u8]@);
    let c = code::jump8(c, 0x75, POST_STEAL as int);
    let c = code::put(c, [
        0x8Bu8, 0x5C, 0x24, 0x1C, // mov ebx, [esp+28]: the caller's ecx
        0x8B, 0x43, 0x1C, // mov eax, [ebx+0x1C]
        0xA3, // mov [stolen_dst_surf_obj], eax
    ]@);
    let c = code::put32(c, (cave + OFF_STOLEN_DST_SURF_OBJ) as u32);
    let c = code::put(c, [
        0x8Bu8, 0x43, 0x3C, // mov eax, [ebx+0x3C]
        0xA3, // mov [stolen_descriptor+0], eax
    ]@);
    let c = code::put32(c, (cave + OFF_STOLEN_DESCRIPTOR) as u32);
    let c = code::put(c, [
        0x8Bu8, 0x43, 0x40, // mov eax, [ebx+0x40]
        0xA3, // mov [stolen_descriptor+4], eax
    ]@);
    let c = code::put32(c, (cave + OFF_STOLEN_DESCRIPTOR + 4) as u32);
    let c = code::put(c, [
        0x8Bu8, 0x43, 0x44, // mov eax, [ebx+0x44]
        0xA3, // mov [stolen_descriptor+8], eax
    ]@);
    let c = code::put32(c, (cave + OFF_STOLEN_DESCRIPTOR + 8) as u32);
    let c = code::put(c, [
        0x8Bu8, 0x43, 0x48, // mov eax, [ebx+0x48]
        0xA3, // mov [stolen_descriptor+12], eax
    ]@);
    let c = code::put32(c, (cave + OFF_STOLEN_DESCRIPTOR + 12) as u32);
    let c = code::put(c, [0xC7u8, 0x05]@);  // mov dword [stolen_flag], 1
    let c = code::put32(c, (cave + OFF_STOLEN_FLAG) as u32);
    let c = code::put32(c, 1);
    // post_steal:
    let c = code::put(c, [0x8Bu8, 0x3D]@);  // mov edi, [draw_count]
    let c = code::put32(c, (cave + OFF_DRAW_COUNT) as u32);
    let c = code::put(c, [0x85u8, 0xFF]@);  // test edi, edi
    let c = code::jcc(c, 0x84, DRAW_DONE as int);
    let c = code::put(c, [0xBEu8]@);  // mov esi, draw_list
    let c = code::put32(c, (cave + OFF_DRAW_LIST) as u32);
    // draw_loop:
    let c = code::put(c, fill_template_code(cave));
    let c = code::call(c, TRAMPOLINE as int);
    let c = code::put(c, [
        0x83u8, 0xC6, 0x0C, // add esi, 12
        0x4F, // dec edi
    ]@);
    let c = code::jcc(c, 0x85, DRAW_LOOP as int);
    // draw_done:
    let c = code::put(c, [0x9Du8, 0x61]@);  // popfd; popad
    // trampoline:
    let c = code::put(c, [
        0x55u8, // push ebp
        0x8B, 0xEC, // mov ebp, esp
        0x51, // push ecx
        0x89, 0x4D, 0xFC, // mov [ebp-4], ecx
    ]@);
    let c = code::put(c, [0xE9u8]@);  // jmp to the rest of the function
    let c = code::put32(c, code::rel32(cave + OFF_SHELLCODE + 206, RESUME_ADDR as int));
    c
}

/// Builds the code of a cave at `cave`.
#[verifier::rlimit(30)]
pub fn build_shellcode(cave: u32) -> (sc: Vec<u8>)
    requires
        cave + CAVE_SIZE <= u32::MAX,
    ensures
        sc@ == draw_hook_code(cave),
        sc@.len() == 206,
        sc@.len() <= CAVE_SIZE - OFF_SHELLCODE,
{
    let mut sc: Vec<u8> = start(&[
        0x60, 0x9C, // pushad; pushfd
        0xF0, 0xFF, 0x05, // lock inc [invocations]
    ]);
    push_u32(&mut sc, cave + OFF_INVOCATIONS);
    push_bytes(&mut sc, &[0x83, 0x3D]);  // cmp dword [stolen_flag], 0
    push_u32(&mut sc, cave + OFF_STOLEN_FLAG);
    push_bytes(&mut sc, &[0x00]);
    emit_jump8(&mut sc, 0x75, POST_STEAL);
    push_bytes(&mut sc, &[
        0x8B, 0x5C, 0x24, 0x1C, // mov ebx, [esp+28]: the caller's ecx
        0x8B, 0x43, 0x1C, // mov eax, [ebx+0x1C]
        0xA3, // mov [stolen_dst_surf_obj], eax
    ]);
    push_u32(&mut sc, cave + OFF_STOLEN_DST_SURF_OBJ);
    push_bytes(&mut sc, &[
        0x8B, 0x43, 0x3C, // mov eax, [ebx+0x3C]
        0xA3, // mov [stolen_descriptor+0], eax
    ]);
    push_u32(&mut sc, cave + OFF_STOLEN_DESCRIPTOR);
    push_bytes(&mut sc, &[
        0x8B, 0x43, 0x40, // mov eax, [ebx+0x40]
        0xA3, // mov [stolen_descriptor+4], eax
    ]);
    push_u32(&mut sc, cave + OFF_STOLEN_DESCRIPTOR + 4);
    push_bytes(&mut sc, &[
        0x8B, 0x43, 0x44, // mov eax, [ebx+0x44]
        0xA3, // mov [stolen_descriptor+8], eax
    ]);
    push_u32(&mut sc, cave + OFF_STOLEN_DESCRIPTOR + 8);
    push_bytes(&mut sc, &[
        0x8B, 0x43, 0x48, // mov eax, [ebx+0x48]
        0xA3, // mov [stolen_descriptor+12], eax
    ]);
    push_u32(&mut sc, cave + OFF_STOLEN_DESCRIPTOR + 12);
    push_bytes(&mut sc, &[0xC7, 0x05]);  // mov dword [stolen_flag], 1
    push_u32(&mut sc, cave + OFF_STOLEN_FLAG);
    push_u32(&mut sc, 1);
    assert(sc@.len() == POST_STEAL);
    push_bytes(&mut sc, &[0x8B, 0x3D]);  // mov edi, [draw_count]
    push_u32(&mut sc, cave + OFF_DRAW_COUNT);
    push_bytes(&mut sc, &[0x85, 0xFF]);  // test edi, edi
    emit_jcc32(&mut sc, 0x84, DRAW_DONE);
    push_bytes(&mut sc, &[0xBE]);  // mov esi, draw_list
    push_u32(&mut sc, cave + OFF_DRAW_LIST);
    assert(sc@.len() == DRAW_LOOP);
    push_bytes(&mut sc, emit_fill_template(cave).as_slice());
    emit_call32(&mut sc, TRAMPOLINE);
    push_bytes(&mut sc, &[
        0x83, 0xC6, 0x0C, // add esi, 12
        0x4F, // dec edi
    ]);
    emit_jcc32(&mut sc, 0x85, DRAW_LOOP);
    assert(sc@.len() == DRAW_DONE);
    push_bytes(&mut sc, &[0x9D, 0x61]);  // popfd; popad
    assert(sc@.len() == TRAMPOLINE);
    push_bytes(&mut sc, &[
        0x55, // push ebp
        0x8B, 0xEC, // mov ebp, esp
        0x51, // push ecx
        0x89, 0x4D, 0xFC, // mov [ebp-4], ecx
    ]);
    push_bytes(&mut sc, &[0xE9]);  // jmp to the rest of the function
    push_u32(&mut sc, distance(cave + OFF_SHELLCODE + 206, RESUME_ADDR));
    sc
}

/// An installed hook.
#[derive(Debug, Clone, Copy, PartialEq, Eq, Structural)]
pub struct ImageDrawHandle {
    pub cave: u32,
}

/// Whether the function starts as expected.
pub fn prologue_is_original(bytes: &[u8]) -> (r: bool)
    ensures
        r == (bytes@ == ORIGINAL_PROLOGUE@),
{
    same_bytes(bytes, &ORIGINAL_PROLOGUE)
}

/// The writes that put the hook in: the cave is zeroed, then gets its code, then
/// the function is redirected.
pub fn install(cave: u32) -> (r: (Vec<Patch>, ImageDrawHandle))
    requires
        cave + CAVE_SIZE <= u32::MAX,
    ensures
        hook::patch_views(r.0@) == seq![
            (cave, Seq::new(0x600, |i: int| 0u8)),
            ((cave + OFF_SHELLCODE) as u32, draw_hook_code(cave)),
            (HOOK_ADDR, hook::hook_patch(HOOK_ADDR, (cave + OFF_SHELLCODE) as u32, 7)),
        ],
        r.1.cave == cave,
{
    let zeros: Vec<u8> = vec![0u8; CAVE_SIZE];
    assert(zeros@ =~= Seq::new(0x600, |i: int| 0u8));
    let sc: Vec<u8> = build_shellcode(cave);
    let jump: Vec<u8> = build_hook_patch::<7>(HOOK_ADDR, cave + OFF_SHELLCODE);
    let ghost sc_view = sc@;
    let ghost jump_view = jump@;
    let writes: Vec<Patch> = vec![
        Patch { addr: cave, bytes: zeros },
        Patch { addr: cave + OFF_SHELLCODE, bytes: sc },
        Patch { addr: HOOK_ADDR, bytes: jump },
    ];
    assert(hook::patch_views(writes@) =~= seq![
        (cave, Seq::new(0x600, |i: int| 0u8)),
        ((cave + OFF_SHELLCODE) as u32, sc_view),
        (HOOK_ADDR, jump_view),
    ]);
    (writes, ImageDrawHandle { cave })
}

/// How many bytes of entries go into the list.
pub open spec fn usable_bytes(serialized_len: int) -> int {
    if serialized_len - 4 <= MAX_DRAW_CMDS * DRAW_ENTRY_BYTES {
        serialized_len - 4
    } else {
        MAX_DRAW_CMDS * DRAW_ENTRY_BYTES
    }
}

/// The writes that bring a list into the cave: a count of 0 first, so that nobody
/// draws half a list, then the entries that there is room for, then their count.
pub fn update_list(cave: u32, serialized: &[u8]) -> (r: Vec<Patch>)
    requires
        cave + CAVE_SIZE <= u32::MAX,
    ensures
        serialized@.len() < 4 ==> r@.len() == 0,
        serialized@.len() >= 4 ==> ({
            let n = usable_bytes(serialized@.len() as int);
            let zero = ((cave + OFF_DRAW_COUNT) as u32, code::le32(0));
            let entries = (
                (cave + OFF_DRAW_LIST) as u32,
                serialized@.subrange(4, 4 + n),
            );
            let count = ((cave + OFF_DRAW_COUNT) as u32, code::le32((n / 12) as u32));
            hook::patch_views(r@) == if n > 0 {
                seq![zero, entries, count]
            } else {
                seq![zero, count]
            }
        }),
{
    let mut writes: Vec<Patch> = Vec::new();
    if serialized.len() < 4 {
        return writes;
    }
    let room: usize = MAX_DRAW_CMDS * DRAW_ENTRY_BYTES;
    let usable: usize = if serialized.len() - 4 <= room {
        serialized.len() - 4
    } else {
        room
    };
    let zero: Vec<u8> = code::u32_bytes(0);
    let count: Vec<u8> = code::u32_bytes((usable / DRAW_ENTRY_BYTES) as u32);
    let ghost zero_view = zero@;
    let ghost count_view = count@;
    writes.push(Patch { addr: cave + OFF_DRAW_COUNT, bytes: zero });
    if usable > 0 {
        let entries: Vec<u8> = start(vstd::slice::slice_subrange(serialized, 4, 4 + usable));
        let ghost entries_view = entries@;
        writes.push(Patch { addr: cave + OFF_DRAW_LIST, bytes: entries });
        writes.push(Patch { addr: cave + OFF_DRAW_COUNT, bytes: count });
        assert(hook::patch_views(writes@) =~= seq![
            ((cave + OFF_DRAW_COUNT) as u32, zero_view),
            ((cave + OFF_DRAW_LIST) as u32, entries_view),
            ((cave + OFF_DRAW_COUNT) as u32, count_view),
        ]);
    } else {
        writes.push(Patch { addr: cave + OFF_DRAW_COUNT, bytes: count });
        assert(hook::patch_views(writes@) =~= seq![
            ((cave + OFF_DRAW_COUNT) as u32, zero_view),
            ((cave + OFF_DRAW_COUNT) as u32, count_view),
        ]);
    }
    writes
}

/// The counters of the cave, where all three could be read: calls, the flag, and
/// the length of the list.
pub fn read_diag(invocations: Option<u32>, stolen: Option<u32>, count: Option<u32>) -> (r: Option<
    (u32, u32, u32),
>)
    ensures
        r is Some <==> invocations is Some && stolen is Some && count is Some,
        r matches Some(t) ==> t == (invocations->0, stolen->0, count->0),
{
    match (invocations, stolen, count) {
        (Some(i), Some(s), Some(c)) => Some((i, s, c)),
        _ => None,
    }
}

} // verus!
