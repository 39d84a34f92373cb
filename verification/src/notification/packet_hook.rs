//! Catching item and drop packets.
//!
//! Packets with a number above 183 fall through a range check in the client.  The
//! jump that takes them out is redirected into a cave that copies the packets of
//! interest into a ring of slots; the assistant drains the ring.
//!
//! The cave: code, then counters from 0x100, a ring of the last sixteen packet
//! numbers at 0x120, and sixteen slots of eighty bytes from 0x200.  A slot is a
//! packet number, a flag, two unused bytes and the payload.

use vstd::prelude::*;

use super::dispatcher;
use crate::code;
use crate::code::distance;
use crate::code::emit_jcc32;
use crate::code::emit_jmp32;
use crate::code::push_bytes;
use crate::code::push_u32;
use crate::code::same_bytes;
use crate::code::start;
use crate::hook;
use crate::hook::bytes_of;
use crate::hook::Patch;

verus! {

broadcast use crate::code::group_code_len;

/// The jump that takes packets above the range out.
pub const HOOK_ADDR: u32 = 0x0053938E;

/// `ja 0x541596`
pub const ORIGINAL_BYTES: [u8; 6] = [0x0F, 0x87, 0x02, 0x82, 0x00, 0x00];

pub const NOP_HANDLER_ADDR: u32 = 0x00541596;

/// Where the packet number stands, from `ebp`.
pub const OPCODE_EBP_OFFSET: i32 = -0x60f4;

/// [`OPCODE_EBP_OFFSET`] as an operand.
pub const OPCODE_EBP_OPERAND: u32 = 0xFFFF_9F0C;

/// Where the pointer to the payload stands, from `ebp`.
pub const PACKET_PTR_EBP_OFFSET: i32 = 8;

pub const SUB_ID_ITEMBOARD: u8 = 190;

pub const SUB_ID_SHOWDROP: u8 = 192;

pub const CODECAVE_SIZE: usize = 0x800;

pub const OFF_TAIL: u32 = 0x100;

pub const OFF_HEAD: u32 = 0x104;

pub const OFF_TOTAL_HITS: u32 = 0x108;

pub const OFF_PACKETBOX_HITS: u32 = 0x10C;

pub const OFF_SUB_ID_TMP: u32 = 0x110;

pub const OFF_OPCODE_RING: u32 = 0x120;

pub const OPCODE_RING_LEN: u32 = 16;

pub const OFF_RING: u32 = 0x200;

pub const RING_SLOTS: u32 = 16;

pub const SLOT_SIZE: u32 = 80;

pub const SLOT_PAYLOAD_MAX: u32 = 76;

pub const PUSH: u32 = 64;

pub const NOP_PATH: u32 = 121;

/// Counts the packet, and copies an item or drop packet into the next slot of the
/// ring.
pub open spec fn cave_code(cave: u32) -> Seq<u8> {
    let c = [0xF0u8, 0xFF, 0x05]@;  // lock inc [total_hits]
    let c = code::put32(c, (cave + OFF_TOTAL_HITS) as u32);
    let c = code::put(c, [0xA1u8]@);  // mov eax, [total_hits]
    let c = code::put32(c, (cave + OFF_TOTAL_HITS) as u32);
    let c = code::put(c, [
        0x83u8, 0xE8, 0x01, // sub eax, 1
        0x83, 0xE0, 0x0F, // and eax, 0x0F
        0x8A, 0x4D, 0xF3, // mov cl, [ebp-0x0D]: the packet number
        0x88, 0x88, // mov [eax+opcode_ring], cl
    ]@);
    let c = code::put32(c, (cave + OFF_OPCODE_RING) as u32);
    let c = code::put(c, [0x81u8, 0xBD]@);  // cmp dword [ebp-0x60F4], 190
    let c = code::put32(c, OPCODE_EBP_OPERAND);
    let c = code::put32(c, SUB_ID_ITEMBOARD as u32);
    let c = code::jcc(c, 0x84, PUSH as int);
    let c = code::put(c, [0x81u8, 0xBD]@);  // cmp dword [ebp-0x60F4], 192
    let c = code::put32(c, OPCODE_EBP_OPERAND);
    let c = code::put32(c, SUB_ID_SHOWDROP as u32);
    let c = code::jcc(c, 0x84, PUSH as int);
    let c = code::jmp(c, NOP_PATH as int);
    // push:
    let c = code::put(c, [0xF0u8, 0xFF, 0x05]@);  // lock inc [packetbox_hits]
    let c = code::put32(c, (cave + OFF_PACKETBOX_HITS) as u32);
    let c = code::put(c, [
        0x60u8, 0x9C, // pushad; pushfd
        0x8B, 0x0D, // mov ecx, [tail]
    ]@);
    let c = code::put32(c, (cave + OFF_TAIL) as u32);
    let c = code::put(c, [0xFFu8, 0x05]@);  // inc dword [tail]
    let c = code::put32(c, (cave + OFF_TAIL) as u32);
    let c = code::put(c, [
        0x83u8, 0xE1, 0x0F, // and ecx, 0x0F
        0x6B, 0xC9, 0x50, // imul ecx, ecx, 80
        0x81, 0xC1, // add ecx, ring
    ]@);
    let c = code::put32(c, (cave + OFF_RING) as u32);
    let c = code::put(c, [
        0x8Au8, 0x45, 0xF3, // mov al, [ebp-0x0D]
        0x88, 0x01, // mov [ecx], al
        0xC6, 0x41, 0x01, 0x01, // mov byte [ecx+1], 1
        0x8B, 0x75, 0x08, // mov esi, [ebp+8]: the payload
        0x8D, 0x79, 0x04, // lea edi, [ecx+4]
        0xB9, // mov ecx, 76
    ]@);
    let c = code::put32(c, SLOT_PAYLOAD_MAX);
    let c = code::put(c, [
        0xF3u8, 0xA4, // rep movsb
        0x9D, 0x61, // popfd; popad
    ]@);
    // nop_path:
    let c = code::put(c, [0xE9u8]@);  // jmp to where the packet would have gone
    let c = code::put32(c, code::rel32(cave + 126, NOP_HANDLER_ADDR as int));
    c
}

/// Builds the code of a cave at `cave`.
#[verifier::rlimit(20)]
pub fn build_shellcode(cave: u32) -> (sc: Vec<u8>)
    requires
        cave + CODECAVE_SIZE <= u32::MAX,
    ensures
        sc@ == cave_code(cave),
        sc@.len() == 126,
        sc@.len() < OFF_TAIL,
{
    let mut sc: Vec<u8> = start(&[0xF0, 0xFF, 0x05]);  // lock inc [total_hits]
    push_u32(&mut sc, cave + OFF_TOTAL_HITS);
    push_bytes(&mut sc, &[0xA1]);  // mov eax, [total_hits]
    push_u32(&mut sc, cave + OFF_TOTAL_HITS);
    push_bytes(&mut sc, &[
        0x83, 0xE8, 0x01, // sub eax, 1
        0x83, 0xE0, 0x0F, // and eax, 0x0F
        0x8A, 0x4D, 0xF3, // mov cl, [ebp-0x0D]: the packet number
        0x88, 0x88, // mov [eax+opcode_ring], cl
    ]);
    push_u32(&mut sc, cave + OFF_OPCODE_RING);
    push_bytes(&mut sc, &[0x81, 0xBD]);  // cmp dword [ebp-0x60F4], 190
    push_u32(&mut sc, OPCODE_EBP_OPERAND);
    push_u32(&mut sc, SUB_ID_ITEMBOARD as u32);
    emit_jcc32(&mut sc, 0x84, PUSH);
    push_bytes(&mut sc, &[0x81, 0xBD]);  // cmp dword [ebp-0x60F4], 192
    push_u32(&mut sc, OPCODE_EBP_OPERAND);
    push_u32(&mut sc, SUB_ID_SHOWDROP as u32);
    emit_jcc32(&mut sc, 0x84, PUSH);
    emit_jmp32(&mut sc, NOP_PATH);
    assert(sc@.len() == PUSH);
    push_bytes(&mut sc, &[0xF0, 0xFF, 0x05]);  // lock inc [packetbox_hits]
    push_u32(&mut sc, cave + OFF_PACKETBOX_HITS);
    push_bytes(&mut sc, &[
        0x60, 0x9C, // pushad; pushfd
        0x8B, 0x0D, // mov ecx, [tail]
    ]);
    push_u32(&mut sc, cave + OFF_TAIL);
    push_bytes(&mut sc, &[0xFF, 0x05]);  // inc dword [tail]
    push_u32(&mut sc, cave + OFF_TAIL);
    push_bytes(&mut sc, &[
        0x83, 0xE1, 0x0F, // and ecx, 0x0F
        0x6B, 0xC9, 0x50, // imul ecx, ecx, 80
        0x81, 0xC1, // add ecx, ring
    ]);
    push_u32(&mut sc, cave + OFF_RING);
    push_bytes(&mut sc, &[
        0x8A, 0x45, 0xF3, // mov al, [ebp-0x0D]
        0x88, 0x01, // mov [ecx], al
        0xC6, 0x41, 0x01, 0x01, // mov byte [ecx+1], 1
        0x8B, 0x75, 0x08, // mov esi, [ebp+8]: the payload
        0x8D, 0x79, 0x04, // lea edi, [ecx+4]
        0xB9, // mov ecx, 76
    ]);
    push_u32(&mut sc, SLOT_PAYLOAD_MAX);
    push_bytes(&mut sc, &[
        0xF3, 0xA4, // rep movsb
        0x9D, 0x61, // popfd; popad
    ]);
    assert(sc@.len() == NOP_PATH);
    push_bytes(&mut sc, &[0xE9]);  // jmp to where the packet would have gone
    push_u32(&mut sc, distance(cave + 126, NOP_HANDLER_ADDR));
    sc
}

/// The jump of the hook site, with `cave` as its target.
pub open spec fn hook_bytes(cave: u32) -> Seq<u8> {
    code::put32([0x0Fu8, 0x87]@, code::rel32(HOOK_ADDR + 6, cave as int))
}

/// An installed hook, and the number of the next slot to drain.
#[derive(Debug)]
pub struct PacketHookHandle {
    pub cave_addr: u32,
    pub original_bytes: [u8; 6],
    pub local_head: u32,
}

/// The writes that put the hook in, in order, and the handle to keep.
#[derive(Debug)]
pub struct InstallPlan {
    pub writes: Vec<Patch>,
    pub handle: PacketHookHandle,
}

/// Whether the hook site holds the jump that is to be redirected.
pub fn site_is_original(live: &[u8]) -> (r: bool)
    ensures
        r == (live@ == ORIGINAL_BYTES@),
{
    same_bytes(live, &ORIGINAL_BYTES)
}

/// The writes that put the hook in: the cave is zeroed, then gets its code, then
/// the jump is redirected.
pub fn install(cave: u32) -> (plan: InstallPlan)
    requires
        cave + CODECAVE_SIZE <= u32::MAX,
    ensures
        hook::patch_views(plan.writes@) == seq![
            (cave, Seq::new(0x800, |i: int| 0u8)),
            (cave, cave_code(cave)),
            (HOOK_ADDR, hook_bytes(cave)),
        ],
        plan.handle == (PacketHookHandle {
            cave_addr: cave,
            original_bytes: ORIGINAL_BYTES,
            local_head: 0,
        }),
{
    let zeros: Vec<u8> = vec![0u8; CODECAVE_SIZE];
    assert(zeros@ =~= Seq::new(0x800, |i: int| 0u8));
    let sc: Vec<u8> = build_shellcode(cave);
    let mut jump: Vec<u8> = start(&[0x0F, 0x87]);
    push_u32(&mut jump, distance(HOOK_ADDR + 6, cave));
    let ghost sc_view = sc@;
    let writes: Vec<Patch> = vec![
        Patch { addr: cave, bytes: zeros },
        Patch { addr: cave, bytes: sc },
        Patch { addr: HOOK_ADDR, bytes: jump },
    ];
    assert(hook::patch_views(writes@) =~= seq![
        (cave, Seq::new(0x800, |i: int| 0u8)),
        (cave, sc_view),
        (HOOK_ADDR, hook_bytes(cave)),
    ]);
    InstallPlan {
        writes,
        handle: PacketHookHandle {
            cave_addr: cave,
            original_bytes: ORIGINAL_BYTES,
            local_head: 0,
        },
    }
}

/// The write that takes the hook out.
pub fn uninstall(handle: &PacketHookHandle) -> (r: Patch)
    ensures
        r@ == (HOOK_ADDR, handle.original_bytes@),
{
    Patch { addr: HOOK_ADDR, bytes: bytes_of(&handle.original_bytes) }
}

/// A counter that was read from the cave, 0 where nothing could be read.
pub fn counter_value(bytes: Option<&[u8]>) -> (r: u32)
    requires
        bytes matches Some(b) ==> b@.len() >= 4,
    ensures
        r == (match bytes {
            Some(b) => code::from_le32(b@.subrange(0, 4)),
            None => 0u32,
        }),
{
    match bytes {
        Some(b) => code::read_u32_le(b, 0),
        None => 0,
    }
}

/// How many slots have been written since `head`, where `tail` is the number of
/// the next one to be written.
pub open spec fn lag(head: u32, tail: u32) -> int {
    (tail - head) % 0x1_0000_0000
}

/// The first slot that can still be read: where more than [`RING_SLOTS`] have been
/// written the older ones are lost.
pub open spec fn first_slot(head: u32, tail: u32) -> u32 {
    if lag(head, tail) > RING_SLOTS {
        ((tail - RING_SLOTS) % 0x1_0000_0000) as u32
    } else {
        head
    }
}

/// How many slots can be read.
pub open spec fn readable(head: u32, tail: u32) -> int {
    if lag(head, tail) > RING_SLOTS {
        RING_SLOTS as int
    } else {
        lag(head, tail)
    }
}

/// The packet in a slot, its number first.  An item packet ends with the zero of
/// its name (or where the slot ends); a drop packet has five bytes.
pub open spec fn packet_of(slot: Seq<u8>) -> Seq<u8> {
    let payload = slot.skip(4);
    seq![slot[0]] + if slot[0] == SUB_ID_ITEMBOARD {
        payload.take(2) + match dispatcher::first_zero(payload.skip(2)) {
            Some(n) => payload.skip(2).take(n as int + 1),
            None => payload.skip(2),
        }
    } else if slot[0] == SUB_ID_SHOWDROP {
        payload.take(5)
    } else {
        Seq::empty()
    }
}

/// The packets in the slots that are marked as filled.
pub open spec fn packets_of(slots: Seq<Vec<u8>>) -> Seq<Seq<u8>>
    decreases slots.len(),
{
    if slots.len() == 0 {
        Seq::empty()
    } else {
        let rest = packets_of(slots.drop_last());
        if slots.last()@[1] == 1 {
            rest.push(packet_of(slots.last()@))
        } else {
            rest
        }
    }
}

/// The contents of each vector.
pub open spec fn views(v: Seq<Vec<u8>>) -> Seq<Seq<u8>> {
    Seq::new(v.len(), |i: int| v[i]@)
}

/// A drain gives no more packets than there are slots, and once every readable slot
/// has been read nothing is left to drain.
pub proof fn drain_catches_up(head: u32, tail: u32, slots: Seq<Vec<u8>>)
    requires
        slots.len() == readable(head, tail),
    ensures
        packets_of(slots).len() <= RING_SLOTS,
        (first_slot(head, tail) + slots.len()) % 0x1_0000_0000 == tail,
        readable(tail, tail) == 0,
{
    packets_are_no_more_than_slots(slots);
}

proof fn packets_are_no_more_than_slots(slots: Seq<Vec<u8>>)
    ensures
        packets_of(slots).len() <= slots.len(),
    decreases slots.len(),
{
    if slots.len() > 0 {
        packets_are_no_more_than_slots(slots.drop_last());
    }
}

/// A packet that went through a slot is understood as it would have been had it
/// been read where the client received it.
pub proof fn slots_keep_the_packet(slot: Seq<u8>)
    requires
        slot.len() == SLOT_SIZE,
        slot[0] == SUB_ID_ITEMBOARD || slot[0] == SUB_ID_SHOWDROP,
    ensures
        dispatcher::parsed(packet_of(slot)) == dispatcher::parsed(seq![slot[0]] + slot.skip(4)),
{
    let whole = seq![slot[0]] + slot.skip(4);
    let cut = packet_of(slot);
    if slot[0] == SUB_ID_ITEMBOARD {
        let name = slot.skip(4).skip(2);
        dispatcher::first_zero_is_first(name);
        assert(whole.skip(3) =~= name);
        assert(whole.subrange(1, 3) =~= cut.subrange(1, 3));
        match dispatcher::first_zero(name) {
            Some(n) => {
                assert(cut.skip(3) =~= name.take(n as int + 1));
                dispatcher::first_zero_is_first(cut.skip(3));
                assert(cut.skip(3)[n as int] == 0);
                assert(dispatcher::first_zero(cut.skip(3)) == Some(n));
                let m = if n < 64 {
                    n as int
                } else {
                    64
                };
                assert(cut.subrange(3, 3 + m) =~= whole.subrange(3, 3 + m));
            },
            None => {
                assert(cut =~= whole);
            },
        }
    } else {
        assert(whole.subrange(2, 6) =~= cut.subrange(2, 6));
    }
}

/// Which slots to read.
#[derive(Debug, Clone, Copy, PartialEq, Eq, Structural)]
pub struct DrainPlan {
    /// Number of the first slot.
    pub first: u32,
    /// How many slots.
    pub count: u32,
    /// How many packets are lost.
    pub lost: u32,
}

/// Decides which slots to read, where `tail` was read from the cave.
pub fn drain_plan(handle: &PacketHookHandle, tail: u32) -> (r: DrainPlan)
    ensures
        r.first == first_slot(handle.local_head, tail),
        r.count == readable(handle.local_head, tail),
        r.lost == lag(handle.local_head, tail) - readable(handle.local_head, tail),
{
    let behind: u32 = tail.wrapping_sub(handle.local_head);
    if behind > RING_SLOTS {
        DrainPlan { first: tail.wrapping_sub(RING_SLOTS), count: RING_SLOTS, lost: behind - RING_SLOTS }
    } else {
        DrainPlan { first: handle.local_head, count: behind, lost: 0 }
    }
}

/// The address of a slot.
pub fn slot_addr(cave: u32, number: u32) -> (r: u32)
    requires
        cave + CODECAVE_SIZE <= u32::MAX,
    ensures
        r == cave + OFF_RING + (number % RING_SLOTS) * SLOT_SIZE,
        cave + OFF_RING <= r,
        r + SLOT_SIZE <= cave + CODECAVE_SIZE,
{
    cave + OFF_RING + (number % RING_SLOTS) * SLOT_SIZE
}

/// The packet in a slot.
pub fn slot_packet(slot: &[u8]) -> (r: Vec<u8>)
    requires
        slot@.len() == SLOT_SIZE,
    ensures
        r@ == packet_of(slot@),
{
    let mut out: Vec<u8> = Vec::new();
    out.push(slot[0]);
    let ghost payload = slot@.skip(4);
    if slot[0] == SUB_ID_ITEMBOARD {
        out.push(slot[4]);
        out.push(slot[5]);
        let ghost name = payload.skip(2);
        let ghost head = out@;
        assert(head =~= seq![slot@[0]] + payload.take(2));
        let mut i: usize = 6;
        while i < slot.len()
            invariant
                slot@.len() == SLOT_SIZE,
                slot@[0] == SUB_ID_ITEMBOARD,
                payload == slot@.skip(4),
                name == payload.skip(2),
                head == seq![slot@[0]] + payload.take(2),
                6 <= i <= slot@.len(),
                out@ == head + name.take(i - 6),
                forall|k: int| 0 <= k < i - 6 ==> name[k] != 0,
            decreases slot@.len() - i,
        {
            out.push(slot[i]);
            assert((head + name.take(i - 6)).push(name[i - 6]) =~= head + name.take(i - 5));
            if slot[i] == 0 {
                proof {
                    dispatcher::first_zero_is_first(name);
                    assert(name[i - 6] == 0);
                    assert(dispatcher::first_zero(name) == Some((i - 6) as nat));
                    assert(out@ =~= packet_of(slot@));
                }
                return out;
            }
            i += 1;
        }
        proof {
            dispatcher::first_zero_is_first(name);
            assert(name.take(name.len() as int) =~= name);
            assert(out@ =~= packet_of(slot@));
        }
    } else if slot[0] == SUB_ID_SHOWDROP {
        out.push(slot[4]);
        out.push(slot[5]);
        out.push(slot[6]);
        out.push(slot[7]);
        out.push(slot[8]);
        assert(out@ =~= packet_of(slot@));
    } else {
        assert(out@ =~= packet_of(slot@));
    }
    out
}

/// Takes the packets out of the slots that were read, which are the first ones of
/// the plan, in order, up to the first that could not be read.
pub fn drain(handle: &mut PacketHookHandle, tail: u32, slots: &Vec<Vec<u8>>) -> (r: Vec<Vec<u8>>)
    requires
        slots@.len() <= readable(old(handle).local_head, tail),
        forall|i: int| 0 <= i < slots@.len() ==> (#[trigger] slots@[i])@.len() == SLOT_SIZE,
    ensures
        views(r@) == packets_of(slots@),
        final(handle).local_head == (first_slot(old(handle).local_head, tail) + slots@.len())
            % 0x1_0000_0000,
        final(handle).cave_addr == old(handle).cave_addr,
        final(handle).original_bytes == old(handle).original_bytes,
{
    let plan = drain_plan(handle, tail);
    let mut out: Vec<Vec<u8>> = Vec::new();
    let mut i: usize = 0;
    assert(views(out@) =~= packets_of(slots@.take(0)));
    while i < slots.len()
        invariant
            i <= slots@.len(),
            forall|k: int| 0 <= k < slots@.len() ==> (#[trigger] slots@[k])@.len() == SLOT_SIZE,
            views(out@) == packets_of(slots@.take(i as int)),
        decreases slots@.len() - i,
    {
        assert(slots@.take(i + 1).drop_last() =~= slots@.take(i as int));
        let ghost before = out@;
        if slots[i][1] == 1 {
            out.push(slot_packet(slots[i].as_slice()));
            assert(views(out@) =~= views(before).push(packet_of(slots@[i as int]@)));
        }
        i += 1;
    }
    assert(slots@.take(slots@.len() as int) =~= slots@);
    handle.local_head = plan.first.wrapping_add(slots.len() as u32);
    out
}

} // verus!
