//! Acting in the client: small pieces of code that use an item, cast a skill or
//! send a packet, each run once in a thread of the client.

use vstd::prelude::*;

use crate::address::C_CHAT_OPCODE;
use crate::address::C_DELETE_ITEM;
use crate::address::SEND_PACKET_DATA;
use crate::address::SPELL_BOOK_CAST;
use crate::address::SPELL_BOOK_PTR;
use crate::code;
use crate::code::push_bytes;
use crate::code::push_u32;
use crate::code::same_bytes;
use crate::code::start;

verus! {

broadcast use crate::code::group_code_len;

/// Shortest time between two drinks, in nanoseconds.
pub const DRINK_COOLDOWN: u64 = 500_000_000;

/// How long to wait for a remote thread, in milliseconds.
pub const THREAD_WAIT_MS: u32 = 5_000;

/// Room for one piece of code.
pub const SHELLCODE_SIZE: usize = 128;

/// Where the client keeps the id of the current target.
pub const TARGET_ID_ADDR: u32 = 0x0097C910;

/// Where the client keeps the player's own id.
pub const SELF_CHAR_ID_ADDR: u32 = 0x00ABF4B4;

/// Address of the text "cccd".
pub const FMT_CCCD_ADDR: u32 = 0x008EF028;

/// Packet number of a skill.
pub const C_SKILL_OPCODE: u8 = 0x06;

/// Packet number of using an item on something.
pub const II_OPCODE: u8 = 0xA4;

/// How a skill finds its target.
#[derive(Debug, Clone, Copy, PartialEq, Eq, Structural)]
pub enum SkillTargetMode {
    /// The player becomes the target, then the spell book casts.
    SelfCast,
    /// The spell book casts on whatever is the target.
    NoSpec,
    /// The given id becomes the target, then the spell book casts.
    Explicit(u32),
    /// The skill packet is sent directly, with the player as its target.
    ForceSelfPacket,
    /// The skill packet is sent directly, with the given id as its target.
    ForceTargetPacket(u32),
}

/// Calls the function at `fn_addr` with one argument.
pub open spec fn one_arg_call_code(fn_addr: u32, arg: u32) -> Seq<u8> {
    let c = [
        0x60u8, // pushad
        0x68, // push arg
    ]@;
    let c = code::put32(c, arg);
    let c = code::put(c, [0xB8u8]@);  // mov eax, fn_addr
    let c = code::put32(c, fn_addr);
    let c = code::put(c, [
        0xFFu8, 0xD0, // call eax
        0x83, 0xC4, 0x04, // add esp, 4
        0x61, 0xC3, // popad; ret
    ]@);
    c
}

/// Code that calls the function at `fn_addr` with one argument.
pub fn build_one_arg_call_shellcode(fn_addr: u32, arg: u32) -> (sc: Vec<u8>)
    ensures
        sc@ == one_arg_call_code(fn_addr, arg),
        sc@.len() == 18,
{
    let mut sc: Vec<u8> = start(&[
        0x60, // pushad
        0x68, // push arg
    ]);
    push_u32(&mut sc, arg);
    push_bytes(&mut sc, &[0xB8]);  // mov eax, fn_addr
    push_u32(&mut sc, fn_addr);
    push_bytes(&mut sc, &[
        0xFF, 0xD0, // call eax
        0x83, 0xC4, 0x04, // add esp, 4
        0x61, 0xC3, // popad; ret
    ]);
    sc
}

/// Saves the current target.
pub open spec fn save_target_code() -> Seq<u8> {
    let c = [
        0x60u8, // pushad
        0xA1, // mov eax, [target_id]
    ]@;
    let c = code::put32(c, TARGET_ID_ADDR);
    let c = code::put(c, [0x50u8]@);  // push eax
    c
}

/// Emits [`save_target_code`].
fn emit_save_target() -> (sc: Vec<u8>)
    ensures
        sc@ == save_target_code(),
        sc@.len() == 7,
{
    let mut sc: Vec<u8> = start(&[
        0x60, // pushad
        0xA1, // mov eax, [target_id]
    ]);
    push_u32(&mut sc, TARGET_ID_ADDR);
    push_bytes(&mut sc, &[0x50]);  // push eax
    sc
}

/// Makes the player the target.
pub open spec fn target_self_code() -> Seq<u8> {
    let c = [0xA1u8]@;  // mov eax, [self_id]
    let c = code::put32(c, SELF_CHAR_ID_ADDR);
    let c = code::put(c, [0xA3u8]@);  // mov [target_id], eax
    let c = code::put32(c, TARGET_ID_ADDR);
    c
}

/// Emits [`target_self_code`].
fn emit_target_self() -> (sc: Vec<u8>)
    ensures
        sc@ == target_self_code(),
        sc@.len() == 10,
{
    let mut sc: Vec<u8> = start(&[0xA1]);  // mov eax, [self_id]
    push_u32(&mut sc, SELF_CHAR_ID_ADDR);
    push_bytes(&mut sc, &[0xA3]);  // mov [target_id], eax
    push_u32(&mut sc, TARGET_ID_ADDR);
    sc
}

/// Makes `id` the target.
pub open spec fn target_id_code(id: u32) -> Seq<u8> {
    let c = [0xC7u8, 0x05]@;  // mov dword [target_id], id
    let c = code::put32(c, TARGET_ID_ADDR);
    let c = code::put32(c, id);
    c
}

/// Emits [`target_id_code`].
fn emit_target_id(id: u32) -> (sc: Vec<u8>)
    ensures
        sc@ == target_id_code(id),
        sc@.len() == 10,
{
    let mut sc: Vec<u8> = start(&[0xC7, 0x05]);  // mov dword [target_id], id
    push_u32(&mut sc, TARGET_ID_ADDR);
    push_u32(&mut sc, id);
    sc
}

/// Casts through the spell book, then puts the saved target back.
pub open spec fn cast_and_restore_target_code(packed_skill_id: u32) -> Seq<u8> {
    let c = [
        0x6Au8, 0x01, // push 1: cast by hand
        0x68, // push packed_skill_id
    ]@;
    let c = code::put32(c, packed_skill_id);
    let c = code::put(c, [0x8Bu8, 0x0D]@);  // mov ecx, [spell_book]
    let c = code::put32(c, SPELL_BOOK_PTR);
    let c = code::put(c, [0xB8u8]@);  // mov eax, spell_book_cast
    let c = code::put32(c, SPELL_BOOK_CAST);
    let c = code::put(c, [
        0xFFu8, 0xD0, // call eax
        0x58, // pop eax
        0xA3, // mov [target_id], eax
    ]@);
    let c = code::put32(c, TARGET_ID_ADDR);
    let c = code::put(c, [0x61u8, 0xC3]@);  // popad; ret
    c
}

/// Emits [`cast_and_restore_target_code`].
fn emit_cast_and_restore_target(packed_skill_id: u32) -> (sc: Vec<u8>)
    ensures
        sc@ == cast_and_restore_target_code(packed_skill_id),
        sc@.len() == 28,
{
    let mut sc: Vec<u8> = start(&[
        0x6A, 0x01, // push 1: cast by hand
        0x68, // push packed_skill_id
    ]);
    push_u32(&mut sc, packed_skill_id);
    push_bytes(&mut sc, &[0x8B, 0x0D]);  // mov ecx, [spell_book]
    push_u32(&mut sc, SPELL_BOOK_PTR);
    push_bytes(&mut sc, &[0xB8]);  // mov eax, spell_book_cast
    push_u32(&mut sc, SPELL_BOOK_CAST);
    push_bytes(&mut sc, &[
        0xFF, 0xD0, // call eax
        0x58, // pop eax
        0xA3, // mov [target_id], eax
    ]);
    push_u32(&mut sc, TARGET_ID_ADDR);
    push_bytes(&mut sc, &[0x61, 0xC3]);  // popad; ret
    sc
}

/// Sends the skill packet directly, with the player as its target.
pub open spec fn force_self_packet_code(packed_skill_id: u32) -> Seq<u8> {
    let c = [
        0x60u8, // pushad
        0xFF, 0x35, // push [self_id]
    ]@;
    let c = code::put32(c, SELF_CHAR_ID_ADDR);
    let c = code::put(c, [0x68u8]@);  // push skill_low
    let c = code::put32(c, packed_skill_id % 8);
    let c = code::put(c, [0x68u8]@);  // push skill_high
    let c = code::put32(c, packed_skill_id / 8);
    let c = code::put(c, [
        0x6Au8, C_SKILL_OPCODE, // push opcode
        0x68, // push "cccd"
    ]@);
    let c = code::put32(c, FMT_CCCD_ADDR);
    let c = code::put(c, [0xB8u8]@);  // mov eax, SendPacketData
    let c = code::put32(c, SEND_PACKET_DATA);
    let c = code::put(c, [
        0xFFu8, 0xD0, // call eax
        0x83, 0xC4, 0x14, // add esp, 0x14
        0x61, 0xC3, // popad; ret
    ]@);
    c
}

/// Code that sends the skill packet with the player as its target.
pub fn build_force_self_packet_shellcode(packed_skill_id: u32) -> (sc: Vec<u8>)
    ensures
        sc@ == force_self_packet_code(packed_skill_id),
        sc@.len() == 36,
{
    let mut sc: Vec<u8> = start(&[
        0x60, // pushad
        0xFF, 0x35, // push [self_id]
    ]);
    push_u32(&mut sc, SELF_CHAR_ID_ADDR);
    push_bytes(&mut sc, &[0x68]);  // push skill_low
    push_u32(&mut sc, packed_skill_id % 8);
    push_bytes(&mut sc, &[0x68]);  // push skill_high
    push_u32(&mut sc, packed_skill_id / 8);
    push_bytes(&mut sc, &[
        0x6A, C_SKILL_OPCODE, // push opcode
        0x68, // push "cccd"
    ]);
    push_u32(&mut sc, FMT_CCCD_ADDR);
    push_bytes(&mut sc, &[0xB8]);  // mov eax, SendPacketData
    push_u32(&mut sc, SEND_PACKET_DATA);
    push_bytes(&mut sc, &[
        0xFF, 0xD0, // call eax
        0x83, 0xC4, 0x14, // add esp, 0x14
        0x61, 0xC3, // popad; ret
    ]);
    sc
}

/// Sends the skill packet directly, with `target_id` as its target.
pub open spec fn force_target_packet_code(packed_skill_id: u32, target_id: u32) -> Seq<u8> {
    let c = [
        0x60u8, // pushad
        0x68, // push target_id
    ]@;
    let c = code::put32(c, target_id);
    let c = code::put(c, [0x68u8]@);  // push skill_low
    let c = code::put32(c, packed_skill_id % 8);
    let c = code::put(c, [0x68u8]@);  // push skill_high
    let c = code::put32(c, packed_skill_id / 8);
    let c = code::put(c, [
        0x6Au8, C_SKILL_OPCODE, // push opcode
        0x68, // push "cccd"
    ]@);
    let c = code::put32(c, FMT_CCCD_ADDR);
    let c = code::put(c, [0xB8u8]@);  // mov eax, SendPacketData
    let c = code::put32(c, SEND_PACKET_DATA);
    let c = code::put(c, [
        0xFFu8, 0xD0, // call eax
        0x83, 0xC4, 0x14, // add esp, 0x14
        0x61, 0xC3, // popad; ret
    ]@);
    c
}

/// Code that sends the skill packet with `target_id` as its target.
pub fn build_force_target_packet_shellcode(packed_skill_id: u32, target_id: u32) -> (sc: Vec<u8>)
    ensures
        sc@ == force_target_packet_code(packed_skill_id, target_id),
        sc@.len() == 35,
{
    let mut sc: Vec<u8> = start(&[
        0x60, // pushad
        0x68, // push target_id
    ]);
    push_u32(&mut sc, target_id);
    push_bytes(&mut sc, &[0x68]);  // push skill_low
    push_u32(&mut sc, packed_skill_id % 8);
    push_bytes(&mut sc, &[0x68]);  // push skill_high
    push_u32(&mut sc, packed_skill_id / 8);
    push_bytes(&mut sc, &[
        0x6A, C_SKILL_OPCODE, // push opcode
        0x68, // push "cccd"
    ]);
    push_u32(&mut sc, FMT_CCCD_ADDR);
    push_bytes(&mut sc, &[0xB8]);  // mov eax, SendPacketData
    push_u32(&mut sc, SEND_PACKET_DATA);
    push_bytes(&mut sc, &[
        0xFF, 0xD0, // call eax
        0x83, 0xC4, 0x14, // add esp, 0x14
        0x61, 0xC3, // popad; ret
    ]);
    sc
}

/// Sends the packet that deletes `count` of an item.
pub open spec fn delete_packet_code(item_obj_id: u32, count: u32) -> Seq<u8> {
    let c = [
        0x60u8, // pushad
        0x68, // push count
    ]@;
    let c = code::put32(c, count);
    let c = code::put(c, [0x68u8]@);  // push item_obj_id
    let c = code::put32(c, item_obj_id);
    let c = code::put(c, [0x68u8]@);  // push opcode
    let c = code::put32(c, C_DELETE_ITEM as u32);
    let c = code::put(c, [
        0xE8u8, 0x00, 0x00, 0x00, 0x00, // call $+5
        0x5E, // pop esi
        0x83, 0xC6, 0x11, // add esi, 17
        0x56, // push esi: "cdd"
        0xB8, // mov eax, SendPacketData
    ]@);
    let c = code::put32(c, SEND_PACKET_DATA);
    let c = code::put(c, [
        0xFFu8, 0xD0, // call eax
        0x83, 0xC4, 0x10, // add esp, 0x10
        0x61, 0xC3, // popad; ret
        0x63, 0x64, 0x64, 0x00, // "cdd\0"
    ]@);
    c
}

/// Code that sends the packet that deletes `count` of an item.
pub fn build_delete_packet_shellcode(item_obj_id: u32, count: u32) -> (sc: Vec<u8>)
    ensures
        sc@ == delete_packet_code(item_obj_id, count),
        sc@.len() == 42,
{
    let mut sc: Vec<u8> = start(&[
        0x60, // pushad
        0x68, // push count
    ]);
    push_u32(&mut sc, count);
    push_bytes(&mut sc, &[0x68]);  // push item_obj_id
    push_u32(&mut sc, item_obj_id);
    push_bytes(&mut sc, &[0x68]);  // push opcode
    push_u32(&mut sc, C_DELETE_ITEM as u32);
    push_bytes(&mut sc, &[
        0xE8, 0x00, 0x00, 0x00, 0x00, // call $+5
        0x5E, // pop esi
        0x83, 0xC6, 0x11, // add esi, 17
        0x56, // push esi: "cdd"
        0xB8, // mov eax, SendPacketData
    ]);
    push_u32(&mut sc, SEND_PACKET_DATA);
    push_bytes(&mut sc, &[
        0xFF, 0xD0, // call eax
        0x83, 0xC4, 0x10, // add esp, 0x10
        0x61, 0xC3, // popad; ret
        0x63, 0x64, 0x64, 0x00, // "cdd\0"
    ]);
    sc
}

/// Sends the packet that uses one item on another: the source comes first in the
/// packet, then the target.
pub open spec fn whetstone_packet_code(whetstone_item_param: u32, weapon_item_param: u32) -> Seq<u8> {
    let c = [
        0x60u8, // pushad
        0x68, // push target
    ]@;
    let c = code::put32(c, weapon_item_param);
    let c = code::put(c, [0x68u8]@);  // push source
    let c = code::put32(c, whetstone_item_param);
    let c = code::put(c, [0x68u8]@);  // push opcode
    let c = code::put32(c, II_OPCODE as u32);
    let c = code::put(c, [
        0xE8u8, 0x00, 0x00, 0x00, 0x00, // call $+5
        0x5E, // pop esi
        0x83, 0xC6, 0x11, // add esi, 17
        0x56, // push esi: "cdd"
        0xB8, // mov eax, SendPacketData
    ]@);
    let c = code::put32(c, SEND_PACKET_DATA);
    let c = code::put(c, [
        0xFFu8, 0xD0, // call eax
        0x83, 0xC4, 0x10, // add esp, 0x10
        0x61, 0xC3, // popad; ret
        0x63, 0x64, 0x64, 0x00, // "cdd\0"
    ]@);
    c
}

/// Code that uses the whetstone on the weapon.
pub fn build_whetstone_packet_shellcode(whetstone_item_param: u32, weapon_item_param: u32) -> (sc: Vec<u8>)
    ensures
        sc@ == whetstone_packet_code(whetstone_item_param, weapon_item_param),
        sc@.len() == 42,
{
    let mut sc: Vec<u8> = start(&[
        0x60, // pushad
        0x68, // push target
    ]);
    push_u32(&mut sc, weapon_item_param);
    push_bytes(&mut sc, &[0x68]);  // push source
    push_u32(&mut sc, whetstone_item_param);
    push_bytes(&mut sc, &[0x68]);  // push opcode
    push_u32(&mut sc, II_OPCODE as u32);
    push_bytes(&mut sc, &[
        0xE8, 0x00, 0x00, 0x00, 0x00, // call $+5
        0x5E, // pop esi
        0x83, 0xC6, 0x11, // add esi, 17
        0x56, // push esi: "cdd"
        0xB8, // mov eax, SendPacketData
    ]);
    push_u32(&mut sc, SEND_PACKET_DATA);
    push_bytes(&mut sc, &[
        0xFF, 0xD0, // call eax
        0x83, 0xC4, 0x10, // add esp, 0x10
        0x61, 0xC3, // popad; ret
        0x63, 0x64, 0x64, 0x00, // "cdd\0"
    ]);
    sc
}

/// Sends the packet that reads a scroll with the text that stands behind this
/// code.
pub open spec fn transform_call_code(scroll_item_param: u32) -> Seq<u8> {
    let c = [
        0x60u8, // pushad
        0xE8, 0x00, 0x00, 0x00, 0x00, // call $+5
        0x5E, // pop esi
        0x8D, 0x86, 0x29, 0x00, 0x00, 0x00, // lea eax, [esi+41]: the option
        0x50, // push eax
        0x68, // push scroll_item_param
    ]@;
    let c = code::put32(c, scroll_item_param);
    let c = code::put(c, [0x68u8]@);  // push opcode
    let c = code::put32(c, II_OPCODE as u32);
    let c = code::put(c, [
        0x8Du8, 0x86, 0x25, 0x00, 0x00, 0x00, // lea eax, [esi+37]: "cds"
        0x50, // push eax
        0xB8, // mov eax, SendPacketData
    ]@);
    let c = code::put32(c, SEND_PACKET_DATA);
    let c = code::put(c, [
        0xFFu8, 0xD0, // call eax
        0x83, 0xC4, 0x10, // add esp, 0x10
        0x61, 0xC3, // popad; ret
        0x63, 0x64, 0x73, 0x00, // "cds\0"
    ]@);
    c
}

/// Emits [`transform_call_code`].
fn emit_transform_call(scroll_item_param: u32) -> (sc: Vec<u8>)
    ensures
        sc@ == transform_call_code(scroll_item_param),
        sc@.len() == 47,
{
    let mut sc: Vec<u8> = start(&[
        0x60, // pushad
        0xE8, 0x00, 0x00, 0x00, 0x00, // call $+5
        0x5E, // pop esi
        0x8D, 0x86, 0x29, 0x00, 0x00, 0x00, // lea eax, [esi+41]: the option
        0x50, // push eax
        0x68, // push scroll_item_param
    ]);
    push_u32(&mut sc, scroll_item_param);
    push_bytes(&mut sc, &[0x68]);  // push opcode
    push_u32(&mut sc, II_OPCODE as u32);
    push_bytes(&mut sc, &[
        0x8D, 0x86, 0x25, 0x00, 0x00, 0x00, // lea eax, [esi+37]: "cds"
        0x50, // push eax
        0xB8, // mov eax, SendPacketData
    ]);
    push_u32(&mut sc, SEND_PACKET_DATA);
    push_bytes(&mut sc, &[
        0xFF, 0xD0, // call eax
        0x83, 0xC4, 0x10, // add esp, 0x10
        0x61, 0xC3, // popad; ret
        0x63, 0x64, 0x73, 0x00, // "cds\0"
    ]);
    sc
}

/// Sends the chat packet with the text that stands behind this code.
pub open spec fn chat_call_code(channel: u8) -> Seq<u8> {
    let c = [
        0x60u8, // pushad
        0xE8, 0x00, 0x00, 0x00, 0x00, // call $+5
        0x5E, // pop esi
        0x8D, 0x86, 0x29, 0x00, 0x00, 0x00, // lea eax, [esi+41]: the message
        0x50, // push eax
        0x68, // push channel
    ]@;
    let c = code::put32(c, channel as u32);
    let c = code::put(c, [0x68u8]@);  // push opcode
    let c = code::put32(c, C_CHAT_OPCODE as u32);
    let c = code::put(c, [
        0x8Du8, 0x86, 0x25, 0x00, 0x00, 0x00, // lea eax, [esi+37]: "ccs"
        0x50, // push eax
        0xB8, // mov eax, SendPacketData
    ]@);
    let c = code::put32(c, SEND_PACKET_DATA);
    let c = code::put(c, [
        0xFFu8, 0xD0, // call eax
        0x83, 0xC4, 0x10, // add esp, 0x10
        0x61, 0xC3, // popad; ret
        0x63, 0x63, 0x73, 0x00, // "ccs\0"
    ]@);
    c
}

/// Emits [`chat_call_code`].
fn emit_chat_call(channel: u8) -> (sc: Vec<u8>)
    ensures
        sc@ == chat_call_code(channel),
        sc@.len() == 47,
{
    let mut sc: Vec<u8> = start(&[
        0x60, // pushad
        0xE8, 0x00, 0x00, 0x00, 0x00, // call $+5
        0x5E, // pop esi
        0x8D, 0x86, 0x29, 0x00, 0x00, 0x00, // lea eax, [esi+41]: the message
        0x50, // push eax
        0x68, // push channel
    ]);
    push_u32(&mut sc, channel as u32);
    push_bytes(&mut sc, &[0x68]);  // push opcode
    push_u32(&mut sc, C_CHAT_OPCODE as u32);
    push_bytes(&mut sc, &[
        0x8D, 0x86, 0x25, 0x00, 0x00, 0x00, // lea eax, [esi+37]: "ccs"
        0x50, // push eax
        0xB8, // mov eax, SendPacketData
    ]);
    push_u32(&mut sc, SEND_PACKET_DATA);
    push_bytes(&mut sc, &[
        0xFF, 0xD0, // call eax
        0x83, 0xC4, 0x10, // add esp, 0x10
        0x61, 0xC3, // popad; ret
        0x63, 0x63, 0x73, 0x00, // "ccs\0"
    ]);
    sc
}

/// Casts a skill.
pub open spec fn skill_code(packed_skill_id: u32, target_mode: SkillTargetMode) -> Seq<u8> {
    match target_mode {
        SkillTargetMode::SelfCast => code::put(
            code::put(save_target_code(), target_self_code()),
            cast_and_restore_target_code(packed_skill_id),
        ),
        SkillTargetMode::NoSpec => code::put(
            save_target_code(),
            cast_and_restore_target_code(packed_skill_id),
        ),
        SkillTargetMode::Explicit(id) => code::put(
            code::put(save_target_code(), target_id_code(id)),
            cast_and_restore_target_code(packed_skill_id),
        ),
        SkillTargetMode::ForceSelfPacket => force_self_packet_code(packed_skill_id),
        SkillTargetMode::ForceTargetPacket(id) => force_target_packet_code(packed_skill_id, id),
    }
}

/// How long the code for a skill is.
pub open spec fn skill_code_len(target_mode: SkillTargetMode) -> nat {
    match target_mode {
        SkillTargetMode::SelfCast => 45,
        SkillTargetMode::NoSpec => 35,
        SkillTargetMode::Explicit(_) => 45,
        SkillTargetMode::ForceSelfPacket => 36,
        SkillTargetMode::ForceTargetPacket(_) => 35,
    }
}

/// Reads a scroll with an option.
pub open spec fn transform_packet_code(scroll_item_param: u32, option: Seq<u8>) -> Seq<u8> {
    code::put(code::put(transform_call_code(scroll_item_param), option), [0u8]@)
}

/// Says a message, given in the client's encoding, on a channel.
pub open spec fn chat_packet_code(channel: u8, message: Seq<u8>) -> Seq<u8> {
    code::put(code::put(chat_call_code(channel), message), [0u8]@)
}

/// The text of a piece of code stands where its operand says, and ends in a zero.
pub proof fn text_operands_point_at_the_text(scroll_item_param: u32, channel: u8, text: Seq<u8>)
    ensures
        transform_packet_code(scroll_item_param, text).len() == 48 + text.len(),
        transform_packet_code(scroll_item_param, text).subrange(47, 47 + text.len() as int) == text,
        transform_packet_code(scroll_item_param, text).last() == 0,
        chat_packet_code(channel, text).len() == 48 + text.len(),
        chat_packet_code(channel, text).subrange(47, 47 + text.len() as int) == text,
        chat_packet_code(channel, text).last() == 0,
{
    assert(transform_call_code(scroll_item_param).len() == 47);
    assert(chat_call_code(channel).len() == 47);
    reveal(code::put);
    assert(transform_packet_code(scroll_item_param, text).subrange(47, 47 + text.len() as int)
        =~= text);
    assert(chat_packet_code(channel, text).subrange(47, 47 + text.len() as int) =~= text);
}

/// Code that uses an inventory entry.
pub fn build_shellcode(use_item_addr: u32, item_entry: u32) -> (sc: Vec<u8>)
    ensures
        sc@ == one_arg_call_code(use_item_addr, item_entry),
        sc@.len() == 18,
{
    build_one_arg_call_shellcode(use_item_addr, item_entry)
}

/// Code that casts a skill.
pub fn build_skill_shellcode(packed_skill_id: u32, target_mode: SkillTargetMode) -> (sc: Vec<u8>)
    ensures
        sc@ == skill_code(packed_skill_id, target_mode),
        sc@.len() == skill_code_len(target_mode),
        sc@.len() <= SHELLCODE_SIZE,
{
    match target_mode {
        SkillTargetMode::ForceSelfPacket => {
            return build_force_self_packet_shellcode(packed_skill_id);
        },
        SkillTargetMode::ForceTargetPacket(target_id) => {
            return build_force_target_packet_shellcode(packed_skill_id, target_id);
        },
        _ => {},
    }
    let mut sc: Vec<u8> = emit_save_target();
    match target_mode {
        SkillTargetMode::SelfCast => push_bytes(&mut sc, emit_target_self().as_slice()),
        SkillTargetMode::Explicit(id) => push_bytes(&mut sc, emit_target_id(id).as_slice()),
        _ => {},
    }
    push_bytes(&mut sc, emit_cast_and_restore_target(packed_skill_id).as_slice());
    sc
}

/// Code that reads the scroll with the option.
pub fn build_transform_packet_shellcode(scroll_item_param: u32, option_string: &str) -> (sc: Vec<
    u8,
>)
    ensures
        sc@ == transform_packet_code(scroll_item_param, vstd::utf8::encode_utf8(option_string@)),
        sc@.len() == 48 + vstd::utf8::encode_utf8(option_string@).len(),
{
    let mut sc: Vec<u8> = emit_transform_call(scroll_item_param);
    push_bytes(&mut sc, option_string.as_bytes());
    push_bytes(&mut sc, &[0]);
    sc
}

/// What `encoding_rs` makes of a text in Big5.
pub uninterp spec fn big5_bytes(text: Seq<char>) -> Seq<u8>;

/// Encodes a text in Big5 with `encoding_rs::BIG5.encode`.  The result depends on
/// the text alone and is named [`big5_bytes`]; a text that is plain ASCII stays as
/// it is, and how characters outside Big5 are replaced is left to that function.
#[verifier::external_body]
fn big5_encode(text: &str) -> (r: Vec<u8>)
    ensures
        r@ == big5_bytes(text@),
        (forall|i: int| 0 <= i < text@.len() ==> (#[trigger] text@[i] as u32) < 0x80) ==> r@
            == Seq::new(text@.len(), |i: int| text@[i] as u8),
{
    encoding_rs::BIG5.encode(text).0.into_owned()
}

/// Code that says a message that is given in the client's encoding.
pub fn build_encoded_chat_packet_shellcode(channel: u8, message: &[u8]) -> (sc: Vec<u8>)
    ensures
        sc@ == chat_packet_code(channel, message@),
        sc@.len() == 48 + message@.len(),
{
    let mut sc: Vec<u8> = emit_chat_call(channel);
    push_bytes(&mut sc, message);
    push_bytes(&mut sc, &[0]);
    sc
}

/// Code that says a message on a channel.
pub fn build_chat_packet_shellcode(channel: u8, message: &str) -> (sc: Vec<u8>)
    ensures
        sc@ == chat_packet_code(channel, big5_bytes(message@)),
        sc@.len() == 48 + big5_bytes(message@).len(),
{
    let encoded: Vec<u8> = big5_encode(message);
    build_encoded_chat_packet_shellcode(channel, encoded.as_slice())
}

/// Why nothing was sent to the client.
#[derive(Debug, Clone, Copy, PartialEq, Eq, Structural)]
pub enum CallError {
    /// The last drink was less than the cooldown ago; so many milliseconds are
    /// left.
    CoolingDown(u64),
    /// The function to call could not be read.
    Unreadable,
    /// The function to call does not start with the bytes first seen.
    Changed,
    /// The code does not fit into the room for it.
    TooLong(usize),
}

/// How the first bytes of the function to call compare to those first seen.
#[derive(Debug, Clone, Copy, PartialEq, Eq, Structural)]
pub enum PrologueCheck {
    First,
    Same,
    Changed,
}

/// A call that can be made.
#[derive(Debug)]
pub struct ItemCall {
    pub code: Vec<u8>,
    pub prologue: PrologueCheck,
}

/// Nanoseconds from `then` to `now`, 0 where the clock has gone back.
pub open spec fn elapsed(then: u64, now: u64) -> int {
    if now >= then {
        now - then
    } else {
        0
    }
}

/// The means of acting in the client: the function that uses an item, the time of
/// the last drink and the bytes with which that function was first seen to start.
#[derive(Debug)]
pub struct DrinkHandle {
    pub use_item_addr: u32,
    pub last_drink: Option<u64>,
    pub prologue_snapshot: Option<Vec<u8>>,
}

impl DrinkHandle {
    /// Whether a drink at `now` comes too early.
    pub open spec fn cooling_down(&self, now: u64) -> bool {
        match self.last_drink {
            Some(t) => elapsed(t, now) < DRINK_COOLDOWN,
            None => false,
        }
    }

    /// How `prologue` compares to the bytes first seen.
    pub open spec fn check_of(&self, prologue: Seq<u8>) -> PrologueCheck {
        match self.prologue_snapshot {
            None => PrologueCheck::First,
            Some(s) => if s@ == prologue {
                PrologueCheck::Same
            } else {
                PrologueCheck::Changed
            },
        }
    }

    /// The state after an item was used at `now` (as a drink, if `drink`), with
    /// the function found to start with `prologue`.
    pub open spec fn after_use(
        &self,
        next: DrinkHandle,
        drink: bool,
        now: u64,
        prologue: Option<Seq<u8>>,
    ) -> bool {
        &&& next.use_item_addr == self.use_item_addr
        &&& next.last_drink == if drink && !self.cooling_down(now) {
            Some(now)
        } else {
            self.last_drink
        }
        &&& match (self.prologue_snapshot, prologue) {
            (None, Some(p)) if !(drink && self.cooling_down(now)) => next.prologue_snapshot
                matches Some(s) && s@ == p,
            _ => next.prologue_snapshot == self.prologue_snapshot,
        }
    }

    pub fn new(use_item_addr: u32) -> (r: Self)
        ensures
            r.use_item_addr == use_item_addr,
            r.last_drink == None::<u64>,
            r.prologue_snapshot == None::<Vec<u8>>,
    {
        DrinkHandle { use_item_addr, last_drink: None, prologue_snapshot: None }
    }

    pub fn use_item_addr(&self) -> (r: u32)
        ensures
            r == self.use_item_addr,
    {
        self.use_item_addr
    }

    /// Drinks a potion, unless the last drink is too recent or the function to call
    /// has changed.
    pub fn execute_drink(&mut self, item_entry: u32, now: u64, prologue: Option<&[u8]>) -> (r: Result<
        ItemCall,
        CallError,
    >)
        ensures
            old(self).after_use(
                *final(self),
                true,
                now,
                match prologue {
                    Some(p) => Some(p@),
                    None => None,
                },
            ),
            !(r matches Err(CallError::TooLong(_))),
            r matches Err(CallError::CoolingDown(left)) ==> old(self).cooling_down(now) && left == (
            DRINK_COOLDOWN - elapsed(old(self).last_drink->0, now)) / 1_000_000,
            r == Err::<ItemCall, CallError>(CallError::Unreadable) <==> !old(self).cooling_down(now)
                && prologue is None,
            r == Err::<ItemCall, CallError>(CallError::Changed) <==> !old(self).cooling_down(now)
                && prologue is Some && old(self).check_of(prologue->0@) == PrologueCheck::Changed,
            r matches Ok(call) ==> call.code@ == one_arg_call_code(
                old(self).use_item_addr,
                item_entry,
            ) && call.prologue == old(self).check_of(prologue->0@),
            r is Ok <==> !old(self).cooling_down(now) && prologue is Some && old(self).check_of(
                prologue->0@,
            ) != PrologueCheck::Changed,
    {
        self.execute_internal(item_entry, true, now, prologue)
    }

    /// Uses an item without regard to the cooldown, unless the function to call has
    /// changed.
    pub fn execute_use_item(&mut self, item_entry: u32, now: u64, prologue: Option<&[u8]>) -> (r: Result<
        ItemCall,
        CallError,
    >)
        ensures
            old(self).after_use(
                *final(self),
                false,
                now,
                match prologue {
                    Some(p) => Some(p@),
                    None => None,
                },
            ),
            r is Err ==> r->Err_0 == if prologue is None {
                CallError::Unreadable
            } else {
                CallError::Changed
            },
            r is Ok <==> prologue is Some && old(self).check_of(prologue->0@)
                != PrologueCheck::Changed,
            r matches Ok(call) ==> call.code@ == one_arg_call_code(
                old(self).use_item_addr,
                item_entry,
            ) && call.prologue == old(self).check_of(prologue->0@),
    {
        self.execute_internal(item_entry, false, now, prologue)
    }

    fn execute_internal(
        &mut self,
        item_entry: u32,
        respect_cooldown: bool,
        now: u64,
        prologue: Option<&[u8]>,
    ) -> (r: Result<ItemCall, CallError>)
        ensures
            old(self).after_use(
                *final(self),
                respect_cooldown,
                now,
                match prologue {
                    Some(p) => Some(p@),
                    None => None,
                },
            ),
            r matches Err(CallError::CoolingDown(left)) ==> respect_cooldown && old(
                self,
            ).cooling_down(now) && left == (DRINK_COOLDOWN - elapsed(old(self).last_drink->0, now))
                / 1_000_000,
            r == Err::<ItemCall, CallError>(CallError::Unreadable) <==> !(respect_cooldown && old(
                self,
            ).cooling_down(now)) && prologue is None,
            r == Err::<ItemCall, CallError>(CallError::Changed) <==> !(respect_cooldown && old(
                self,
            ).cooling_down(now)) && prologue is Some && old(self).check_of(prologue->0@)
                == PrologueCheck::Changed,
            !(r matches Err(CallError::TooLong(_))),
            r matches Ok(call) ==> call.code@ == one_arg_call_code(
                old(self).use_item_addr,
                item_entry,
            ) && call.prologue == old(self).check_of(prologue->0@),
            r is Ok <==> !(respect_cooldown && old(self).cooling_down(now)) && prologue is Some
                && old(self).check_of(prologue->0@) != PrologueCheck::Changed,
    {
        if respect_cooldown {
            if let Some(t) = self.last_drink {
                let elapsed: u64 = now.saturating_sub(t);
                if elapsed < DRINK_COOLDOWN {
                    return Err(CallError::CoolingDown((DRINK_COOLDOWN - elapsed) / 1_000_000));
                }
            }
            self.last_drink = Some(now);
        }
        let current: &[u8] = match prologue {
            Some(p) => p,
            None => {
                return Err(CallError::Unreadable);
            },
        };
        let check = match &self.prologue_snapshot {
            None => PrologueCheck::First,
            Some(s) => if same_bytes(s.as_slice(), current) {
                PrologueCheck::Same
            } else {
                return Err(CallError::Changed);
            },
        };
        if let PrologueCheck::First = check {
            self.prologue_snapshot = Some(start(current));
        }
        Ok(ItemCall { code: build_shellcode(self.use_item_addr, item_entry), prologue: check })
    }

    /// The code that deletes `count` of an item.
    pub fn execute_delete(&self, item_obj_id: u32, count: u32) -> (sc: Vec<u8>)
        ensures
            sc@ == delete_packet_code(item_obj_id, count),
            sc@.len() <= SHELLCODE_SIZE,
    {
        build_delete_packet_shellcode(item_obj_id, count)
    }

    /// The code that uses a whetstone on the wielded weapon.
    pub fn execute_use_on_wielded(&self, whetstone_item_param: u32, weapon_item_param: u32) -> (sc:
        Vec<u8>)
        ensures
            sc@ == whetstone_packet_code(whetstone_item_param, weapon_item_param),
            sc@.len() <= SHELLCODE_SIZE,
    {
        build_whetstone_packet_shellcode(whetstone_item_param, weapon_item_param)
    }

    /// The code that reads a scroll with an option, which must fit into the room
    /// for code.
    pub fn execute_transform_scroll(&self, scroll_item_param: u32, option_string: &str) -> (r: Result<
        Vec<u8>,
        CallError,
    >)
        ensures
            r is Ok <==> vstd::utf8::encode_utf8(option_string@).len() <= 80,
            r matches Ok(sc) ==> sc@ == transform_packet_code(
                scroll_item_param,
                vstd::utf8::encode_utf8(option_string@),
            ),
            r matches Err(e) ==> e matches CallError::TooLong(n) && n == 48
                + vstd::utf8::encode_utf8(option_string@).len(),
    {
        let sc: Vec<u8> = build_transform_packet_shellcode(scroll_item_param, option_string);
        if sc.len() > SHELLCODE_SIZE {
            return Err(CallError::TooLong(sc.len()));
        }
        Ok(sc)
    }

    /// The code that says a message, which must fit into the room for code.
    pub fn execute_chat(&self, channel: u8, message: &str) -> (r: Result<Vec<u8>, CallError>)
        ensures
            r is Ok <==> big5_bytes(message@).len() <= 80,
            r matches Ok(sc) ==> sc@ == chat_packet_code(channel, big5_bytes(message@)),
            r matches Err(e) ==> e matches CallError::TooLong(n) && n == 48 + big5_bytes(
                message@,
            ).len(),
    {
        let encoded: Vec<u8> = big5_encode(message);
        self.execute_encoded_chat(channel, encoded.as_slice())
    }

    /// As [`DrinkHandle::execute_chat`], for a message that is given in the
    /// client's encoding.
    pub fn execute_encoded_chat(&self, channel: u8, message: &[u8]) -> (r: Result<
        Vec<u8>,
        CallError,
    >)
        ensures
            r is Ok <==> message@.len() <= 80,
            r matches Ok(sc) ==> sc@ == chat_packet_code(channel, message@),
            r matches Err(e) ==> e matches CallError::TooLong(n) && n == 48 + message@.len(),
    {
        let sc: Vec<u8> = build_encoded_chat_packet_shellcode(channel, message);
        if sc.len() > SHELLCODE_SIZE {
            return Err(CallError::TooLong(sc.len()));
        }
        Ok(sc)
    }

    /// The code that casts a skill.
    pub fn execute_skill(&self, packed_skill_id: u32, target_mode: SkillTargetMode) -> (sc: Vec<u8>)
        ensures
            sc@ == skill_code(packed_skill_id, target_mode),
            sc@.len() <= SHELLCODE_SIZE,
    {
        build_skill_shellcode(packed_skill_id, target_mode)
    }
}

} // verus!
