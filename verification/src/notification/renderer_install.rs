//! Drawing at the end of another hook's cave.
//!
//! A cave of another hook ends each of its paths with a jump to the client's
//! drawing function.  Those jumps are redirected to a wrapper that first draws
//! the list of notifications.

use vstd::prelude::*;

use super::renderer;
use crate::code;
use crate::code::distance;
use crate::code::push_bytes;
use crate::code::push_u32;
use crate::code::read_u32_le;
use crate::code::start;
use crate::hook;
use crate::hook::Patch;

verus! {

broadcast use crate::code::group_code_len;

/// The call through which the other hook is entered.
pub const IMG_HOVER_HOOK_SITE: u32 = 0x00491174;

pub const IMG_HOVER_CAVE_SIZE: usize = 0x200;

/// Where the other cave's jumps lead.
pub const ORIGINAL_DRAW_FN: u32 = 0x00759BF0;

pub const LIST_CAVE_SIZE: usize = 0x400;

/// How many entries the list has room for.
pub const MAX_DRAW_CMDS: usize = 85;

pub const OFF_DIAG_INVOCATIONS: u32 = 0x80;

pub const OFF_DIAG_LAST_COUNT: u32 = 0x84;

pub const OFF_DIAG_GSR_NULL: u32 = 0x88;

pub const OFF_DIAG_BLITS: u32 = 0x8C;

/// Counts the call and notes the length of the list, then draws it.
pub open spec fn draw_loop_with_diag_code(list_cave: u32, cave: u32) -> Seq<u8> {
    let c = [0xF0u8, 0xFF, 0x05]@;  // lock inc [invocations]
    let c = code::put32(c, (cave + OFF_DIAG_INVOCATIONS) as u32);
    let c = code::put(c, [
        0x50u8, // push eax
        0xA1, // mov eax, [list_cave]
    ]@);
    let c = code::put32(c, list_cave);
    let c = code::put(c, [0xA3u8]@);  // mov [last_count], eax
    let c = code::put32(c, (cave + OFF_DIAG_LAST_COUNT) as u32);
    let c = code::put(c, [0x58u8]@);  // pop eax
    let c = code::put(c, renderer::draw_loop_code(list_cave));
    c
}

/// Code that draws the list at `list_cave` and keeps counters in `cave`.
pub fn build_draw_loop_with_diag(list_cave: u32, cave: u32) -> (sc: Vec<u8>)
    requires
        cave + 256 <= u32::MAX,
    ensures
        sc@ == draw_loop_with_diag_code(list_cave, cave),
        sc@.len() == 92,
        sc@.len() <= OFF_DIAG_INVOCATIONS,
{
    let mut sc: Vec<u8> = start(&[0xF0, 0xFF, 0x05]);  // lock inc [invocations]
    push_u32(&mut sc, cave + OFF_DIAG_INVOCATIONS);
    push_bytes(&mut sc, &[
        0x50, // push eax
        0xA1, // mov eax, [list_cave]
    ]);
    push_u32(&mut sc, list_cave);
    push_bytes(&mut sc, &[0xA3]);  // mov [last_count], eax
    push_u32(&mut sc, cave + OFF_DIAG_LAST_COUNT);
    push_bytes(&mut sc, &[0x58]);  // pop eax
    push_bytes(&mut sc, renderer::build_draw_loop_shellcode(list_cave).as_slice());
    sc
}

/// Draws the list, then goes on with the function that was called.
pub open spec fn wrapper_code(wrapper_addr: u32, notif_draw_cave: u32) -> Seq<u8> {
    let c = [0xE8u8]@;  // call the drawing code
    let c = code::put32(c, code::rel32(wrapper_addr + 5, notif_draw_cave as int));
    let c = code::put(c, [0xE9u8]@);  // jmp to the function that was called
    let c = code::put32(c, code::rel32(wrapper_addr + 10, ORIGINAL_DRAW_FN as int));
    c
}

/// Code, for `wrapper_addr`, that draws the list and goes on.
pub fn build_wrapper(wrapper_addr: u32, notif_draw_cave: u32) -> (sc: Vec<u8>)
    requires
        wrapper_addr + 10 <= u32::MAX,
    ensures
        sc@ == wrapper_code(wrapper_addr, notif_draw_cave),
        sc@.len() == 10,
{
    let mut sc: Vec<u8> = start(&[0xE8]);  // call the drawing code
    push_u32(&mut sc, distance(wrapper_addr + 5, notif_draw_cave));
    push_bytes(&mut sc, &[0xE9]);  // jmp to the function that was called
    push_u32(&mut sc, distance(wrapper_addr + 10, ORIGINAL_DRAW_FN));
    sc
}

/// The caves of an installed renderer, and the jumps that it redirected.
#[derive(Debug)]
pub struct RendererHandle {
    pub list_cave: u32,
    pub notif_draw_cave: u32,
    pub wrapper_cave: u32,
    pub img_hover_cave: u32,
    pub patched_exits: Vec<u32>,
}

/// The cave of the other hook, from the call at its site; `None` where no call
/// stands there.
pub fn img_hover_cave(hook_bytes: &[u8]) -> (r: Option<u32>)
    requires
        hook_bytes@.len() >= 5,
    ensures
        r is Some <==> hook_bytes@[0] == 0xE8,
        r matches Some(cave) ==> cave == (IMG_HOVER_HOOK_SITE + 5 + code::from_le32(
            hook_bytes@.subrange(1, 5),
        )) % 0x1_0000_0000,
{
    if hook_bytes[0] != 0xE8 {
        return None;
    }
    Some((IMG_HOVER_HOOK_SITE + 5).wrapping_add(read_u32_le(hook_bytes, 1)))
}

/// Whether a jump to the drawing function stands at `i` in a cave at `cave`.
pub open spec fn is_exit(cave: u32, bytes: Seq<u8>, i: int) -> bool {
    &&& 0 <= i
    &&& i + 5 <= bytes.len()
    &&& bytes[i] == 0xE9
    &&& (cave + i + 5 + code::from_le32(bytes.subrange(i + 1, i + 5))) % 0x1_0000_0000
        == ORIGINAL_DRAW_FN
}

/// The jumps to the drawing function at or behind `i`, where the bytes of a jump
/// that was found are not searched again.
pub open spec fn exits_from(cave: u32, bytes: Seq<u8>, i: int) -> Seq<int>
    decreases bytes.len() - i,
{
    if i < 0 || i + 5 > bytes.len() {
        Seq::empty()
    } else if is_exit(cave, bytes, i) {
        seq![i] + exits_from(cave, bytes, i + 5)
    } else {
        exits_from(cave, bytes, i + 1)
    }
}

/// The offsets of the jumps in the other hook's cave.
pub fn find_exits(cave: u32, bytes: &[u8]) -> (r: Vec<usize>)
    requires
        cave + bytes@.len() <= u32::MAX,
    ensures
        r@.map_values(|x: usize| x as int) == exits_from(cave, bytes@, 0),
        forall|k: int| 0 <= k < r@.len() ==> is_exit(cave, bytes@, #[trigger] r@[k] as int),
{
    let mut out: Vec<usize> = Vec::new();
    let mut i: usize = 0;
    let ghost all = exits_from(cave, bytes@, 0);
    assert(out@.map_values(|x: usize| x as int) + all =~= all);
    while bytes.len() >= 5 && i <= bytes.len() - 5
        invariant
            cave + bytes@.len() <= u32::MAX,
            i <= bytes@.len(),
            all == out@.map_values(|x: usize| x as int) + exits_from(cave, bytes@, i as int),
            forall|k: int| 0 <= k < out@.len() ==> is_exit(cave, bytes@, #[trigger] out@[k] as int),
        decreases bytes@.len() - i,
    {
        let ghost before = out@.map_values(|x: usize| x as int);
        if bytes[i] == 0xE9 {
            let next_ip: u32 = cave + i as u32 + 5;
            let target: u32 = next_ip.wrapping_add(read_u32_le(bytes, i + 1));
            if target == ORIGINAL_DRAW_FN {
                out.push(i);
                assert(is_exit(cave, bytes@, i as int));
                assert(out@.map_values(|x: usize| x as int) =~= before.push(i as int));
                assert(before + exits_from(cave, bytes@, i as int) =~= before.push(i as int)
                    + exits_from(cave, bytes@, i + 5));
                i += 5;
                continue;
            }
        }
        assert(!is_exit(cave, bytes@, i as int));
        i += 1;
    }
    assert(exits_from(cave, bytes@, i as int) =~= Seq::empty());
    assert(out@.map_values(|x: usize| x as int) =~= all);
    out
}

/// The write that redirects one jump to the wrapper.
pub fn exit_patch(cave: u32, offset: usize, wrapper_cave: u32) -> (r: Patch)
    requires
        cave + offset + 5 <= u32::MAX,
    ensures
        r@ == (
            (cave + offset + 1) as u32,
            code::le32(code::rel32(cave + offset + 5, wrapper_cave as int)),
        ),
{
    let exit_addr: u32 = cave + offset as u32;
    Patch { addr: exit_addr + 1, bytes: code::u32_bytes(distance(exit_addr + 5, wrapper_cave)) }
}

/// The writes that fill the three caves, in order: the list, the drawing code and
/// the wrapper.
pub fn install(list_cave: u32, notif_draw_cave: u32, wrapper_cave: u32) -> (r: Vec<Patch>)
    requires
        notif_draw_cave + 256 <= u32::MAX,
        wrapper_cave + 16 <= u32::MAX,
    ensures
        hook::patch_views(r@) == seq![
            (list_cave, Seq::new(0x400, |i: int| 0u8)),
            (notif_draw_cave, Seq::new(256, |i: int| 0u8)),
            (notif_draw_cave, draw_loop_with_diag_code(list_cave, notif_draw_cave)),
            (wrapper_cave, wrapper_code(wrapper_cave, notif_draw_cave)),
        ],
{
    let zeros: Vec<u8> = vec![0u8; LIST_CAVE_SIZE];
    assert(zeros@ =~= Seq::new(0x400, |i: int| 0u8));
    let zeros2: Vec<u8> = vec![0u8; 256];
    assert(zeros2@ =~= Seq::new(256, |i: int| 0u8));
    let draw: Vec<u8> = build_draw_loop_with_diag(list_cave, notif_draw_cave);
    let wrapper: Vec<u8> = build_wrapper(wrapper_cave, notif_draw_cave);
    let ghost draw_view = draw@;
    let ghost wrapper_view = wrapper@;
    let writes: Vec<Patch> = vec![
        Patch { addr: list_cave, bytes: zeros },
        Patch { addr: notif_draw_cave, bytes: zeros2 },
        Patch { addr: notif_draw_cave, bytes: draw },
        Patch { addr: wrapper_cave, bytes: wrapper },
    ];
    assert(hook::patch_views(writes@) =~= seq![
        (list_cave, Seq::new(0x400, |i: int| 0u8)),
        (notif_draw_cave, Seq::new(256, |i: int| 0u8)),
        (notif_draw_cave, draw_view),
        (wrapper_cave, wrapper_view),
    ]);
    writes
}

/// The counters of the drawing code, where all four could be read.
pub fn read_diag(
    invocations: Option<u32>,
    last_count: Option<u32>,
    gsr_null: Option<u32>,
    blits: Option<u32>,
) -> (r: Option<(u32, u32, u32, u32)>)
    ensures
        r is Some <==> invocations is Some && last_count is Some && gsr_null is Some && blits is Some,
        r matches Some(t) ==> t == (invocations->0, last_count->0, gsr_null->0, blits->0),
{
    match (invocations, last_count, gsr_null, blits) {
        (Some(i), Some(l), Some(g), Some(b)) => Some((i, l, g, b)),
        _ => None,
    }
}

/// The writes that bring a list into the list cave: a count of 0, then as many of
/// the bytes behind the count as there is room for, then the count.
pub fn update_list(list_cave: u32, serialized: &[u8]) -> (r: Vec<Patch>)
    requires
        list_cave + LIST_CAVE_SIZE <= u32::MAX,
    ensures
        serialized@.len() < 4 ==> r@.len() == 0,
        serialized@.len() >= 4 ==> ({
            let n = if serialized@.len() <= LIST_CAVE_SIZE {
                serialized@.len() as int
            } else {
                LIST_CAVE_SIZE as int
            };
            let zero = (list_cave, code::le32(0));
            let entries = ((list_cave + 4) as u32, serialized@.subrange(4, n));
            let count = (list_cave, serialized@.subrange(0, 4));
            hook::patch_views(r@) == if n > 4 {
                seq![zero, entries, count]
            } else {
                seq![zero, count]
            }
        }),
{
    let mut writes: Vec<Patch> = Vec::new();
    if serialized.len() < 4 {
        return writes;
    }
    let usable: usize = if serialized.len() <= LIST_CAVE_SIZE {
        serialized.len()
    } else {
        LIST_CAVE_SIZE
    };
    let zero: Vec<u8> = code::u32_bytes(0);
    let count: Vec<u8> = start(vstd::slice::slice_subrange(serialized, 0, 4));
    let ghost zero_view = zero@;
    let ghost count_view = count@;
    writes.push(Patch { addr: list_cave, bytes: zero });
    if usable > 4 {
        let entries: Vec<u8> = start(vstd::slice::slice_subrange(serialized, 4, usable));
        let ghost entries_view = entries@;
        writes.push(Patch { addr: list_cave + 4, bytes: entries });
        writes.push(Patch { addr: list_cave, bytes: count });
        assert(hook::patch_views(writes@) =~= seq![
            (list_cave, zero_view),
            ((list_cave + 4) as u32, entries_view),
            (list_cave, count_view),
        ]);
    } else {
        writes.push(Patch { addr: list_cave, bytes: count });
        assert(hook::patch_views(writes@) =~= seq![
            (list_cave, zero_view),
            (list_cave, count_view),
        ]);
    }
    writes
}

} // verus!
