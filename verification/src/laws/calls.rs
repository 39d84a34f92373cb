//! What the pieces of code do that are run in the client.

use vstd::prelude::*;

use crate::address;
use crate::chat;
use crate::code;
use crate::drink_hook as drink;
use crate::drink_hook::SkillTargetMode;
use crate::x86;
use crate::x86::Cpu;

verus! {

/// The start of a piece of code, with room on the stack; the function that it calls
/// takes `pops` bytes off the stack.
pub open spec fn ready(s: Cpu, pops: u32) -> bool {
    &&& s.ip == 0
    &&& !s.returned
    &&& s.replies.len() > 0
    &&& s.replies[0].pops == pops
    &&& 0x100 <= s.r.esp
}

/// Whether a piece of code has made one call, to `target`, with `args` on the stack.
pub open spec fn called(s: Cpu, e: Cpu, target: u32, args: Seq<u32>) -> bool {
    &&& e.calls.len() == s.calls.len() + 1
    &&& e.calls.drop_last() == s.calls
    &&& e.calls.last().target == target
    &&& e.calls.last().stack.len() >= args.len()
    &&& forall|i: int| 0 <= i < args.len() ==> e.calls.last().stack[i] == #[trigger] args[i]
}

/// Whether a piece of code has come back with everything as it was, but for what lies
/// below the top of the stack.
pub open spec fn came_back(s: Cpu, e: Cpu) -> bool {
    &&& e.returned
    &&& e.r == s.r
    &&& forall|a: u32| a < s.r.esp - 0x100 || s.r.esp <= a ==> #[trigger] e.mem[a] == s.mem[a]
}

/// Whether the cells from `at` on hold registers, as one instruction saves them.
pub open spec fn saved(mem: Map<u32, u32>, at: int, r: x86::Regs) -> bool {
    &&& mem[at as u32] == r.edi
    &&& mem[(at + 4) as u32] == r.esi
    &&& mem[(at + 8) as u32] == r.ebp
    &&& mem[(at + 16) as u32] == r.ebx
    &&& mem[(at + 20) as u32] == r.edx
    &&& mem[(at + 24) as u32] == r.ecx
    &&& mem[(at + 28) as u32] == r.eax
}

/// Saving the registers.
pub proof fn registers_are_saved(c: Seq<u8>, s: Cpu)
    requires
        0 <= s.ip < c.len(),
        !s.returned,
        c[s.ip] == 0x60,
        0x100 <= s.r.esp,
    ensures
        ({
            let e = x86::step(c, s);
            &&& e == (Cpu {
                ip: s.ip + 1,
                r: x86::Regs { esp: (s.r.esp - 32) as u32, ..s.r },
                mem: e.mem,
                ..s
            })
            &&& saved(e.mem, s.r.esp - 32, s.r)
            &&& forall|a: u32|
                a < s.r.esp - 32 || s.r.esp <= a ==> #[trigger] e.mem[a] == s.mem[a]
        }),
{
    broadcast use crate::x86::group_cells;

    x86::ins_pushad(c, s);
}

/// Taking the registers back.
pub proof fn registers_come_back(c: Seq<u8>, s: Cpu, r: x86::Regs)
    requires
        0 <= s.ip < c.len(),
        !s.returned,
        c[s.ip] == 0x61,
        s.r.esp + 32 == r.esp,
        saved(s.mem, s.r.esp as int, r),
    ensures
        x86::step(c, s) == (Cpu { ip: s.ip + 1, r, ..s }),
{
    broadcast use crate::x86::group_cells;

    x86::ins_popad(c, s);
}

#[verifier::rlimit(50)]
proof fn one_arg_call_code_bytes(c: Seq<u8>, fn_addr: u32, arg: u32)
    requires
        x86::starts(c, drink::one_arg_call_code(fn_addr, arg)),
    ensures
        c.len() >= 18,
        c[0] == 0x60,
        c[1] == 0x68,
        x86::word_at(c, 2) == arg,
        c[6] == 0xB8,
        x86::word_at(c, 7) == fn_addr,
        c[11] == 0xFF,
        c[12] == 0xD0,
        c[13] == 0x83,
        c[14] == 0xC4,
        c[15] == 0x04,
        c[16] == 0x61,
        c[17] == 0xC3,
{
    broadcast use crate::code::group_code_len;

    let c0 = [ 0x60u8, 0x68, ]@;
    let c1 = code::put32(c0, arg);
    let c2 = code::put(c1, [0xB8u8]@);
    let c3 = code::put32(c2, fn_addr);
    let c4 = code::put(c3, [ 0xFFu8, 0xD0, 0x83, 0xC4, 0x04, 0x61, 0xC3, ]@);
    assert(x86::starts(c, c4));
    x86::piece(c, c3, [ 0xFFu8, 0xD0, 0x83, 0xC4, 0x04, 0x61, 0xC3, ]@);
    x86::piece32(c, c2, fn_addr);
    x86::piece(c, c1, [0xB8u8]@);
    x86::piece32(c, c0, arg);
    assert forall|k: int| 0 <= k < c0.len() implies #[trigger] c[k] == c0[k] by {
        assert(c.take(c0.len() as int)[k] == c0[k]);
    }
}

/// The function is called with its argument, and nothing else happens.
#[verifier::rlimit(50)]
pub proof fn one_argument_is_passed(fn_addr: u32, arg: u32, s: Cpu)
    requires
        ready(s, 0),
    ensures
        ({
            let e = x86::run(drink::one_arg_call_code(fn_addr, arg), s, 7);
            &&& called(s, e, fn_addr, seq![arg])
            &&& came_back(s, e)
        }),
{
    let c = drink::one_arg_call_code(fn_addr, arg);
    broadcast use {crate::x86::group_cells, crate::code::group_code_len};

    assert(x86::starts(c, drink::one_arg_call_code(fn_addr, arg))) by {
        reveal(code::put);
        assert(c.take(drink::one_arg_call_code(fn_addr, arg).len() as int) =~= drink::one_arg_call_code(fn_addr, arg));
    }
    one_arg_call_code_bytes(c, fn_addr, arg);
    reveal_with_fuel(x86::run, 8);
    let s0 = s;
    registers_are_saved(c, s0);
    let s1 = x86::step(c, s0);
    assert(s1.ip == 1);
    x86::ins_push_word(c, s1);
    let s2 = x86::step(c, s1);
    assert(s2.ip == 6);
    x86::ins_mov_word(c, s2);
    let s3 = x86::step(c, s2);
    assert(s3.ip == 11);
    x86::names_reg(c, 12, 2, 0);
    x86::ins_call(c, s3);
    let s4 = x86::step(c, s3);
    assert(s4.ip == 13);
    x86::names_reg(c, 14, 0, 4);
    x86::ins_alu_byte(c, s4);
    let s5 = x86::step(c, s4);
    assert(s5.ip == 16);
    registers_come_back(c, s5, s.r);
    let s6 = x86::step(c, s5);
    assert(s6.ip == 17);
    x86::ins_ret(c, s6);
    let s7 = x86::step(c, s6);
    assert(s7.ip == 17);
    assert(s7.calls.drop_last() =~= s.calls);
}

#[verifier::rlimit(50)]
proof fn force_self_packet_code_bytes(c: Seq<u8>, skill: u32)
    requires
        x86::starts(c, drink::force_self_packet_code(skill)),
    ensures
        c.len() >= 36,
        c[0] == 0x60,
        c[1] == 0xFF,
        c[2] == 0x35,
        x86::word_at(c, 3) == drink::SELF_CHAR_ID_ADDR,
        c[7] == 0x68,
        x86::word_at(c, 8) == skill % 8,
        c[12] == 0x68,
        x86::word_at(c, 13) == skill / 8,
        c[17] == 0x6A,
        c[18] == drink::C_SKILL_OPCODE,
        c[19] == 0x68,
        x86::word_at(c, 20) == drink::FMT_CCCD_ADDR,
        c[24] == 0xB8,
        x86::word_at(c, 25) == address::SEND_PACKET_DATA,
        c[29] == 0xFF,
        c[30] == 0xD0,
        c[31] == 0x83,
        c[32] == 0xC4,
        c[33] == 0x14,
        c[34] == 0x61,
        c[35] == 0xC3,
{
    broadcast use crate::code::group_code_len;

    let c0 = [ 0x60u8, 0xFF, 0x35, ]@;
    let c1 = code::put32(c0, drink::SELF_CHAR_ID_ADDR);
    let c2 = code::put(c1, [0x68u8]@);
    let c3 = code::put32(c2, skill % 8);
    let c4 = code::put(c3, [0x68u8]@);
    let c5 = code::put32(c4, skill / 8);
    let c6 = code::put(c5, [ 0x6Au8, drink::C_SKILL_OPCODE, 0x68, ]@);
    let c7 = code::put32(c6, drink::FMT_CCCD_ADDR);
    let c8 = code::put(c7, [0xB8u8]@);
    let c9 = code::put32(c8, address::SEND_PACKET_DATA);
    let c10 = code::put(c9, [ 0xFFu8, 0xD0, 0x83, 0xC4, 0x14, 0x61, 0xC3, ]@);
    assert(x86::starts(c, c10));
    x86::piece(c, c9, [ 0xFFu8, 0xD0, 0x83, 0xC4, 0x14, 0x61, 0xC3, ]@);
    x86::piece32(c, c8, address::SEND_PACKET_DATA);
    x86::piece(c, c7, [0xB8u8]@);
    x86::piece32(c, c6, drink::FMT_CCCD_ADDR);
    x86::piece(c, c5, [ 0x6Au8, drink::C_SKILL_OPCODE, 0x68, ]@);
    x86::piece32(c, c4, skill / 8);
    x86::piece(c, c3, [0x68u8]@);
    x86::piece32(c, c2, skill % 8);
    x86::piece(c, c1, [0x68u8]@);
    x86::piece32(c, c0, drink::SELF_CHAR_ID_ADDR);
    assert forall|k: int| 0 <= k < c0.len() implies #[trigger] c[k] == c0[k] by {
        assert(c.take(c0.len() as int)[k] == c0[k]);
    }
}

/// The skill is sent with the player as its target: where it stands in the book of skills,
/// the page and the line, and whom it is for.
#[verifier::rlimit(50)]
pub proof fn skills_are_sent_for_oneself(skill: u32, s: Cpu)
    requires
        ready(s, 0),
        s.r.esp <= 0x00AB_F4B4 || 0x00AB_F4B4 + 0x100 <= s.r.esp,
    ensures
        ({
            let e = x86::run(drink::force_self_packet_code(skill), s, 11);
            &&& called(
                s,
                e,
                0x0058_0E50,
                seq![
                    0x008E_F028u32,
                    0x06,
                    (skill as int / 8) as u32,
                    (skill as int % 8) as u32,
                    s.mem[0x00AB_F4B4],
                ],
            )
            &&& came_back(s, e)
        }),
{
    let c = drink::force_self_packet_code(skill);
    broadcast use {crate::x86::group_cells, crate::code::group_code_len};

    assert(x86::starts(c, drink::force_self_packet_code(skill))) by {
        reveal(code::put);
        assert(c.take(drink::force_self_packet_code(skill).len() as int) =~= drink::force_self_packet_code(skill));
    }
    force_self_packet_code_bytes(c, skill);
    reveal_with_fuel(x86::run, 12);
    let s0 = s;
    registers_are_saved(c, s0);
    let s1 = x86::step(c, s0);
    assert(s1.ip == 1);
    x86::names_cell(c, 2, 6);
    x86::ins_push_place(c, s1);
    let s2 = x86::step(c, s1);
    assert(s2.ip == 7);
    x86::ins_push_word(c, s2);
    let s3 = x86::step(c, s2);
    assert(s3.ip == 12);
    x86::ins_push_word(c, s3);
    let s4 = x86::step(c, s3);
    assert(s4.ip == 17);
    x86::ins_push_byte(c, s4);
    let s5 = x86::step(c, s4);
    assert(s5.ip == 19);
    x86::ins_push_word(c, s5);
    let s6 = x86::step(c, s5);
    assert(s6.ip == 24);
    x86::ins_mov_word(c, s6);
    let s7 = x86::step(c, s6);
    assert(s7.ip == 29);
    x86::names_reg(c, 30, 2, 0);
    x86::ins_call(c, s7);
    let s8 = x86::step(c, s7);
    assert(s8.ip == 31);
    x86::names_reg(c, 32, 0, 4);
    x86::ins_alu_byte(c, s8);
    let s9 = x86::step(c, s8);
    assert(s9.ip == 34);
    registers_come_back(c, s9, s.r);
    let s10 = x86::step(c, s9);
    assert(s10.ip == 35);
    x86::ins_ret(c, s10);
    let s11 = x86::step(c, s10);
    assert(s11.ip == 35);
    assert(s11.calls.drop_last() =~= s.calls);
}

#[verifier::rlimit(50)]
proof fn force_target_packet_code_bytes(c: Seq<u8>, skill: u32, target: u32)
    requires
        x86::starts(c, drink::force_target_packet_code(skill, target)),
    ensures
        c.len() >= 35,
        c[0] == 0x60,
        c[1] == 0x68,
        x86::word_at(c, 2) == target,
        c[6] == 0x68,
        x86::word_at(c, 7) == skill % 8,
        c[11] == 0x68,
        x86::word_at(c, 12) == skill / 8,
        c[16] == 0x6A,
        c[17] == drink::C_SKILL_OPCODE,
        c[18] == 0x68,
        x86::word_at(c, 19) == drink::FMT_CCCD_ADDR,
        c[23] == 0xB8,
        x86::word_at(c, 24) == address::SEND_PACKET_DATA,
        c[28] == 0xFF,
        c[29] == 0xD0,
        c[30] == 0x83,
        c[31] == 0xC4,
        c[32] == 0x14,
        c[33] == 0x61,
        c[34] == 0xC3,
{
    broadcast use crate::code::group_code_len;

    let c0 = [ 0x60u8, 0x68, ]@;
    let c1 = code::put32(c0, target);
    let c2 = code::put(c1, [0x68u8]@);
    let c3 = code::put32(c2, skill % 8);
    let c4 = code::put(c3, [0x68u8]@);
    let c5 = code::put32(c4, skill / 8);
    let c6 = code::put(c5, [ 0x6Au8, drink::C_SKILL_OPCODE, 0x68, ]@);
    let c7 = code::put32(c6, drink::FMT_CCCD_ADDR);
    let c8 = code::put(c7, [0xB8u8]@);
    let c9 = code::put32(c8, address::SEND_PACKET_DATA);
    let c10 = code::put(c9, [ 0xFFu8, 0xD0, 0x83, 0xC4, 0x14, 0x61, 0xC3, ]@);
    assert(x86::starts(c, c10));
    x86::piece(c, c9, [ 0xFFu8, 0xD0, 0x83, 0xC4, 0x14, 0x61, 0xC3, ]@);
    x86::piece32(c, c8, address::SEND_PACKET_DATA);
    x86::piece(c, c7, [0xB8u8]@);
    x86::piece32(c, c6, drink::FMT_CCCD_ADDR);
    x86::piece(c, c5, [ 0x6Au8, drink::C_SKILL_OPCODE, 0x68, ]@);
    x86::piece32(c, c4, skill / 8);
    x86::piece(c, c3, [0x68u8]@);
    x86::piece32(c, c2, skill % 8);
    x86::piece(c, c1, [0x68u8]@);
    x86::piece32(c, c0, target);
    assert forall|k: int| 0 <= k < c0.len() implies #[trigger] c[k] == c0[k] by {
        assert(c.take(c0.len() as int)[k] == c0[k]);
    }
}

/// The skill is sent for a target.
#[verifier::rlimit(50)]
pub proof fn skills_are_sent_for_a_target(skill: u32, target: u32, s: Cpu)
    requires
        ready(s, 0),
    ensures
        ({
            let e = x86::run(drink::force_target_packet_code(skill, target), s, 11);
            &&& called(
                s,
                e,
                0x0058_0E50,
                seq![
                    0x008E_F028u32,
                    0x06,
                    (skill as int / 8) as u32,
                    (skill as int % 8) as u32,
                    target,
                ],
            )
            &&& came_back(s, e)
        }),
{
    let c = drink::force_target_packet_code(skill, target);
    broadcast use {crate::x86::group_cells, crate::code::group_code_len};

    assert(x86::starts(c, drink::force_target_packet_code(skill, target))) by {
        reveal(code::put);
        assert(c.take(drink::force_target_packet_code(skill, target).len() as int) =~= drink::force_target_packet_code(skill, target));
    }
    force_target_packet_code_bytes(c, skill, target);
    reveal_with_fuel(x86::run, 12);
    let s0 = s;
    registers_are_saved(c, s0);
    let s1 = x86::step(c, s0);
    assert(s1.ip == 1);
    x86::ins_push_word(c, s1);
    let s2 = x86::step(c, s1);
    assert(s2.ip == 6);
    x86::ins_push_word(c, s2);
    let s3 = x86::step(c, s2);
    assert(s3.ip == 11);
    x86::ins_push_word(c, s3);
    let s4 = x86::step(c, s3);
    assert(s4.ip == 16);
    x86::ins_push_byte(c, s4);
    let s5 = x86::step(c, s4);
    assert(s5.ip == 18);
    x86::ins_push_word(c, s5);
    let s6 = x86::step(c, s5);
    assert(s6.ip == 23);
    x86::ins_mov_word(c, s6);
    let s7 = x86::step(c, s6);
    assert(s7.ip == 28);
    x86::names_reg(c, 29, 2, 0);
    x86::ins_call(c, s7);
    let s8 = x86::step(c, s7);
    assert(s8.ip == 30);
    x86::names_reg(c, 31, 0, 4);
    x86::ins_alu_byte(c, s8);
    let s9 = x86::step(c, s8);
    assert(s9.ip == 33);
    registers_come_back(c, s9, s.r);
    let s10 = x86::step(c, s9);
    assert(s10.ip == 34);
    x86::ins_ret(c, s10);
    let s11 = x86::step(c, s10);
    assert(s11.ip == 34);
    assert(s11.calls.drop_last() =~= s.calls);
}

#[verifier::rlimit(50)]
proof fn delete_packet_code_bytes(c: Seq<u8>, item: u32, count: u32)
    requires
        x86::starts(c, drink::delete_packet_code(item, count)),
    ensures
        c.len() >= 42,
        c[0] == 0x60,
        c[1] == 0x68,
        x86::word_at(c, 2) == count,
        c[6] == 0x68,
        x86::word_at(c, 7) == item,
        c[11] == 0x68,
        x86::word_at(c, 12) == address::C_DELETE_ITEM as u32,
        c[16] == 0xE8,
        c[17] == 0x00,
        c[18] == 0x00,
        c[19] == 0x00,
        c[20] == 0x00,
        c[21] == 0x5E,
        c[22] == 0x83,
        c[23] == 0xC6,
        c[24] == 0x11,
        c[25] == 0x56,
        c[26] == 0xB8,
        x86::word_at(c, 27) == address::SEND_PACKET_DATA,
        c[31] == 0xFF,
        c[32] == 0xD0,
        c[33] == 0x83,
        c[34] == 0xC4,
        c[35] == 0x10,
        c[36] == 0x61,
        c[37] == 0xC3,
        c[38] == 0x63,
        c[39] == 0x64,
        c[40] == 0x64,
        c[41] == 0x00,
{
    broadcast use crate::code::group_code_len;

    let c0 = [ 0x60u8, 0x68, ]@;
    let c1 = code::put32(c0, count);
    let c2 = code::put(c1, [0x68u8]@);
    let c3 = code::put32(c2, item);
    let c4 = code::put(c3, [0x68u8]@);
    let c5 = code::put32(c4, address::C_DELETE_ITEM as u32);
    let c6 = code::put(c5, [ 0xE8u8, 0x00, 0x00, 0x00, 0x00, 0x5E, 0x83, 0xC6, 0x11, 0x56, 0xB8, ]@);
    let c7 = code::put32(c6, address::SEND_PACKET_DATA);
    let c8 = code::put(c7, [ 0xFFu8, 0xD0, 0x83, 0xC4, 0x10, 0x61, 0xC3, 0x63, 0x64, 0x64, 0x00, ]@);
    assert(x86::starts(c, c8));
    x86::piece(c, c7, [ 0xFFu8, 0xD0, 0x83, 0xC4, 0x10, 0x61, 0xC3, 0x63, 0x64, 0x64, 0x00, ]@);
    x86::piece32(c, c6, address::SEND_PACKET_DATA);
    x86::piece(c, c5, [ 0xE8u8, 0x00, 0x00, 0x00, 0x00, 0x5E, 0x83, 0xC6, 0x11, 0x56, 0xB8, ]@);
    x86::piece32(c, c4, address::C_DELETE_ITEM as u32);
    x86::piece(c, c3, [0x68u8]@);
    x86::piece32(c, c2, item);
    x86::piece(c, c1, [0x68u8]@);
    x86::piece32(c, c0, count);
    assert forall|k: int| 0 <= k < c0.len() implies #[trigger] c[k] == c0[k] by {
        assert(c.take(c0.len() as int)[k] == c0[k]);
    }
}

/// So many of an item are deleted: the packet is of the form "cdd", which stands behind
/// the code.
#[verifier::rlimit(50)]
pub proof fn items_are_deleted(item: u32, count: u32, s: Cpu)
    requires
        ready(s, 0),
    ensures
        ({
            let e = x86::run(drink::delete_packet_code(item, count), s, 13);
            &&& called(s, e, 0x0058_0E50, seq![x86::wrap(s.origin + 38), 0x8A, item, count])
            &&& drink::delete_packet_code(item, count).subrange(38, 42) =~= seq![0x63u8, 0x64, 0x64, 0x00]
            &&& came_back(s, e)
        }),
{
    let c = drink::delete_packet_code(item, count);
    broadcast use {crate::x86::group_cells, crate::code::group_code_len};

    x86::wraps_add(s.origin + 21, 17);
    assert(x86::starts(c, drink::delete_packet_code(item, count))) by {
        reveal(code::put);
        assert(c.take(drink::delete_packet_code(item, count).len() as int) =~= drink::delete_packet_code(item, count));
    }
    delete_packet_code_bytes(c, item, count);
    reveal_with_fuel(x86::run, 14);
    let s0 = s;
    registers_are_saved(c, s0);
    let s1 = x86::step(c, s0);
    assert(s1.ip == 1);
    x86::ins_push_word(c, s1);
    let s2 = x86::step(c, s1);
    assert(s2.ip == 6);
    x86::ins_push_word(c, s2);
    let s3 = x86::step(c, s2);
    assert(s3.ip == 11);
    x86::ins_push_word(c, s3);
    let s4 = x86::step(c, s3);
    assert(s4.ip == 16);
    x86::ins_call_in(c, s4);
    let s5 = x86::step(c, s4);
    assert(s5.ip == 21);
    x86::ins_pop_reg(c, s5);
    let s6 = x86::step(c, s5);
    assert(s6.ip == 22);
    x86::names_reg(c, 23, 0, 6);
    x86::ins_alu_byte(c, s6);
    let s7 = x86::step(c, s6);
    assert(s7.ip == 25);
    x86::ins_push_reg(c, s7);
    let s8 = x86::step(c, s7);
    assert(s8.ip == 26);
    x86::ins_mov_word(c, s8);
    let s9 = x86::step(c, s8);
    assert(s9.ip == 31);
    x86::names_reg(c, 32, 2, 0);
    x86::ins_call(c, s9);
    let s10 = x86::step(c, s9);
    assert(s10.ip == 33);
    x86::names_reg(c, 34, 0, 4);
    x86::ins_alu_byte(c, s10);
    let s11 = x86::step(c, s10);
    assert(s11.ip == 36);
    registers_come_back(c, s11, s.r);
    let s12 = x86::step(c, s11);
    assert(s12.ip == 37);
    x86::ins_ret(c, s12);
    let s13 = x86::step(c, s12);
    assert(s13.ip == 37);
    assert(s13.calls.drop_last() =~= s.calls);
}

#[verifier::rlimit(50)]
proof fn whetstone_packet_code_bytes(c: Seq<u8>, stone: u32, weapon: u32)
    requires
        x86::starts(c, drink::whetstone_packet_code(stone, weapon)),
    ensures
        c.len() >= 42,
        c[0] == 0x60,
        c[1] == 0x68,
        x86::word_at(c, 2) == weapon,
        c[6] == 0x68,
        x86::word_at(c, 7) == stone,
        c[11] == 0x68,
        x86::word_at(c, 12) == drink::II_OPCODE as u32,
        c[16] == 0xE8,
        c[17] == 0x00,
        c[18] == 0x00,
        c[19] == 0x00,
        c[20] == 0x00,
        c[21] == 0x5E,
        c[22] == 0x83,
        c[23] == 0xC6,
        c[24] == 0x11,
        c[25] == 0x56,
        c[26] == 0xB8,
        x86::word_at(c, 27) == address::SEND_PACKET_DATA,
        c[31] == 0xFF,
        c[32] == 0xD0,
        c[33] == 0x83,
        c[34] == 0xC4,
        c[35] == 0x10,
        c[36] == 0x61,
        c[37] == 0xC3,
        c[38] == 0x63,
        c[39] == 0x64,
        c[40] == 0x64,
        c[41] == 0x00,
{
    broadcast use crate::code::group_code_len;

    let c0 = [ 0x60u8, 0x68, ]@;
    let c1 = code::put32(c0, weapon);
    let c2 = code::put(c1, [0x68u8]@);
    let c3 = code::put32(c2, stone);
    let c4 = code::put(c3, [0x68u8]@);
    let c5 = code::put32(c4, drink::II_OPCODE as u32);
    let c6 = code::put(c5, [ 0xE8u8, 0x00, 0x00, 0x00, 0x00, 0x5E, 0x83, 0xC6, 0x11, 0x56, 0xB8, ]@);
    let c7 = code::put32(c6, address::SEND_PACKET_DATA);
    let c8 = code::put(c7, [ 0xFFu8, 0xD0, 0x83, 0xC4, 0x10, 0x61, 0xC3, 0x63, 0x64, 0x64, 0x00, ]@);
    assert(x86::starts(c, c8));
    x86::piece(c, c7, [ 0xFFu8, 0xD0, 0x83, 0xC4, 0x10, 0x61, 0xC3, 0x63, 0x64, 0x64, 0x00, ]@);
    x86::piece32(c, c6, address::SEND_PACKET_DATA);
    x86::piece(c, c5, [ 0xE8u8, 0x00, 0x00, 0x00, 0x00, 0x5E, 0x83, 0xC6, 0x11, 0x56, 0xB8, ]@);
    x86::piece32(c, c4, drink::II_OPCODE as u32);
    x86::piece(c, c3, [0x68u8]@);
    x86::piece32(c, c2, stone);
    x86::piece(c, c1, [0x68u8]@);
    x86::piece32(c, c0, weapon);
    assert forall|k: int| 0 <= k < c0.len() implies #[trigger] c[k] == c0[k] by {
        assert(c.take(c0.len() as int)[k] == c0[k]);
    }
}

/// One item is used on another: the packet is of the form "cdd", which stands behind the
/// code.
#[verifier::rlimit(50)]
pub proof fn one_item_is_used_on_another(stone: u32, weapon: u32, s: Cpu)
    requires
        ready(s, 0),
    ensures
        ({
            let e = x86::run(drink::whetstone_packet_code(stone, weapon), s, 13);
            &&& called(s, e, 0x0058_0E50, seq![x86::wrap(s.origin + 38), 0xA4, stone, weapon])
            &&& drink::whetstone_packet_code(stone, weapon).subrange(38, 42) =~= seq![
                0x63u8,
                0x64,
                0x64,
                0x00,
            ]
            &&& came_back(s, e)
        }),
{
    let c = drink::whetstone_packet_code(stone, weapon);
    broadcast use {crate::x86::group_cells, crate::code::group_code_len};

    x86::wraps_add(s.origin + 21, 17);
    assert(x86::starts(c, drink::whetstone_packet_code(stone, weapon))) by {
        reveal(code::put);
        assert(c.take(drink::whetstone_packet_code(stone, weapon).len() as int) =~= drink::whetstone_packet_code(stone, weapon));
    }
    whetstone_packet_code_bytes(c, stone, weapon);
    reveal_with_fuel(x86::run, 14);
    let s0 = s;
    registers_are_saved(c, s0);
    let s1 = x86::step(c, s0);
    assert(s1.ip == 1);
    x86::ins_push_word(c, s1);
    let s2 = x86::step(c, s1);
    assert(s2.ip == 6);
    x86::ins_push_word(c, s2);
    let s3 = x86::step(c, s2);
    assert(s3.ip == 11);
    x86::ins_push_word(c, s3);
    let s4 = x86::step(c, s3);
    assert(s4.ip == 16);
    x86::ins_call_in(c, s4);
    let s5 = x86::step(c, s4);
    assert(s5.ip == 21);
    x86::ins_pop_reg(c, s5);
    let s6 = x86::step(c, s5);
    assert(s6.ip == 22);
    x86::names_reg(c, 23, 0, 6);
    x86::ins_alu_byte(c, s6);
    let s7 = x86::step(c, s6);
    assert(s7.ip == 25);
    x86::ins_push_reg(c, s7);
    let s8 = x86::step(c, s7);
    assert(s8.ip == 26);
    x86::ins_mov_word(c, s8);
    let s9 = x86::step(c, s8);
    assert(s9.ip == 31);
    x86::names_reg(c, 32, 2, 0);
    x86::ins_call(c, s9);
    let s10 = x86::step(c, s9);
    assert(s10.ip == 33);
    x86::names_reg(c, 34, 0, 4);
    x86::ins_alu_byte(c, s10);
    let s11 = x86::step(c, s10);
    assert(s11.ip == 36);
    registers_come_back(c, s11, s.r);
    let s12 = x86::step(c, s11);
    assert(s12.ip == 37);
    x86::ins_ret(c, s12);
    let s13 = x86::step(c, s12);
    assert(s13.ip == 37);
    assert(s13.calls.drop_last() =~= s.calls);
}

#[verifier::rlimit(50)]
proof fn transform_call_code_bytes(c: Seq<u8>, scroll: u32)
    requires
        x86::starts(c, drink::transform_call_code(scroll)),
    ensures
        c.len() >= 47,
        c[0] == 0x60,
        c[1] == 0xE8,
        c[2] == 0x00,
        c[3] == 0x00,
        c[4] == 0x00,
        c[5] == 0x00,
        c[6] == 0x5E,
        c[7] == 0x8D,
        c[8] == 0x86,
        c[9] == 0x29,
        c[10] == 0x00,
        c[11] == 0x00,
        c[12] == 0x00,
        c[13] == 0x50,
        c[14] == 0x68,
        x86::word_at(c, 15) == scroll,
        c[19] == 0x68,
        x86::word_at(c, 20) == drink::II_OPCODE as u32,
        c[24] == 0x8D,
        c[25] == 0x86,
        c[26] == 0x25,
        c[27] == 0x00,
        c[28] == 0x00,
        c[29] == 0x00,
        c[30] == 0x50,
        c[31] == 0xB8,
        x86::word_at(c, 32) == address::SEND_PACKET_DATA,
        c[36] == 0xFF,
        c[37] == 0xD0,
        c[38] == 0x83,
        c[39] == 0xC4,
        c[40] == 0x10,
        c[41] == 0x61,
        c[42] == 0xC3,
        c[43] == 0x63,
        c[44] == 0x64,
        c[45] == 0x73,
        c[46] == 0x00,
{
    broadcast use crate::code::group_code_len;

    let c0 = [ 0x60u8, 0xE8, 0x00, 0x00, 0x00, 0x00, 0x5E, 0x8D, 0x86, 0x29, 0x00, 0x00, 0x00, 0x50, 0x68, ]@;
    let c1 = code::put32(c0, scroll);
    let c2 = code::put(c1, [0x68u8]@);
    let c3 = code::put32(c2, drink::II_OPCODE as u32);
    let c4 = code::put(c3, [ 0x8Du8, 0x86, 0x25, 0x00, 0x00, 0x00, 0x50, 0xB8, ]@);
    let c5 = code::put32(c4, address::SEND_PACKET_DATA);
    let c6 = code::put(c5, [ 0xFFu8, 0xD0, 0x83, 0xC4, 0x10, 0x61, 0xC3, 0x63, 0x64, 0x73, 0x00, ]@);
    assert(x86::starts(c, c6));
    x86::piece(c, c5, [ 0xFFu8, 0xD0, 0x83, 0xC4, 0x10, 0x61, 0xC3, 0x63, 0x64, 0x73, 0x00, ]@);
    x86::piece32(c, c4, address::SEND_PACKET_DATA);
    x86::piece(c, c3, [ 0x8Du8, 0x86, 0x25, 0x00, 0x00, 0x00, 0x50, 0xB8, ]@);
    x86::piece32(c, c2, drink::II_OPCODE as u32);
    x86::piece(c, c1, [0x68u8]@);
    x86::piece32(c, c0, scroll);
    assert forall|k: int| 0 <= k < c0.len() implies #[trigger] c[k] == c0[k] by {
        assert(c.take(c0.len() as int)[k] == c0[k]);
    }
}

/// A scroll is read with an option: the packet is of the form "cds", which stands behind
/// the code, and the option behind that.
#[verifier::rlimit(50)]
pub proof fn scrolls_are_read_with_an_option(scroll: u32, option: Seq<u8>, s: Cpu)
    requires
        ready(s, 0),
    ensures
        ({
            let e = x86::run(drink::transform_packet_code(scroll, option), s, 14);
            &&& called(
                s,
                e,
                0x0058_0E50,
                seq![x86::wrap(s.origin + 43), 0xA4, scroll, x86::wrap(s.origin + 47)],
            )
            &&& drink::transform_packet_code(scroll, option).subrange(43, 47) =~= seq![
                0x63u8,
                0x64,
                0x73,
                0x00,
            ]
            &&& drink::transform_packet_code(scroll, option).skip(47) =~= option.push(0)
            &&& came_back(s, e)
        }),
{
    let c = drink::transform_packet_code(scroll, option);
    broadcast use {crate::x86::group_cells, crate::code::group_code_len};

    x86::wraps_add(s.origin + 6, 37);
    x86::wraps_add(s.origin + 6, 41);
    assert(x86::starts(c, drink::transform_call_code(scroll))) by {
        reveal(code::put);
        assert(c.take(drink::transform_call_code(scroll).len() as int) =~= drink::transform_call_code(scroll));
    }
    transform_call_code_bytes(c, scroll);
    reveal_with_fuel(x86::run, 15);
    let s0 = s;
    registers_are_saved(c, s0);
    let s1 = x86::step(c, s0);
    assert(s1.ip == 1);
    x86::ins_call_in(c, s1);
    let s2 = x86::step(c, s1);
    assert(s2.ip == 6);
    x86::ins_pop_reg(c, s2);
    let s3 = x86::step(c, s2);
    assert(s3.ip == 7);
    x86::names_far(c, 8, 0, 6);
    x86::ins_lea(c, s3);
    let s4 = x86::step(c, s3);
    assert(s4.ip == 13);
    x86::ins_push_reg(c, s4);
    let s5 = x86::step(c, s4);
    assert(s5.ip == 14);
    x86::ins_push_word(c, s5);
    let s6 = x86::step(c, s5);
    assert(s6.ip == 19);
    x86::ins_push_word(c, s6);
    let s7 = x86::step(c, s6);
    assert(s7.ip == 24);
    x86::names_far(c, 25, 0, 6);
    x86::ins_lea(c, s7);
    let s8 = x86::step(c, s7);
    assert(s8.ip == 30);
    x86::ins_push_reg(c, s8);
    let s9 = x86::step(c, s8);
    assert(s9.ip == 31);
    x86::ins_mov_word(c, s9);
    let s10 = x86::step(c, s9);
    assert(s10.ip == 36);
    x86::names_reg(c, 37, 2, 0);
    x86::ins_call(c, s10);
    let s11 = x86::step(c, s10);
    assert(s11.ip == 38);
    x86::names_reg(c, 39, 0, 4);
    x86::ins_alu_byte(c, s11);
    let s12 = x86::step(c, s11);
    assert(s12.ip == 41);
    registers_come_back(c, s12, s.r);
    let s13 = x86::step(c, s12);
    assert(s13.ip == 42);
    x86::ins_ret(c, s13);
    let s14 = x86::step(c, s13);
    assert(s14.ip == 42);
    assert(c.skip(47) =~= option.push(0)) by {
        drink::text_operands_point_at_the_text(scroll, 0, option);
        reveal(code::put);
    }
    assert(s14.calls.drop_last() =~= s.calls);
}

#[verifier::rlimit(50)]
proof fn chat_call_code_bytes(c: Seq<u8>, channel: u8)
    requires
        x86::starts(c, drink::chat_call_code(channel)),
    ensures
        c.len() >= 47,
        c[0] == 0x60,
        c[1] == 0xE8,
        c[2] == 0x00,
        c[3] == 0x00,
        c[4] == 0x00,
        c[5] == 0x00,
        c[6] == 0x5E,
        c[7] == 0x8D,
        c[8] == 0x86,
        c[9] == 0x29,
        c[10] == 0x00,
        c[11] == 0x00,
        c[12] == 0x00,
        c[13] == 0x50,
        c[14] == 0x68,
        x86::word_at(c, 15) == channel as u32,
        c[19] == 0x68,
        x86::word_at(c, 20) == address::C_CHAT_OPCODE as u32,
        c[24] == 0x8D,
        c[25] == 0x86,
        c[26] == 0x25,
        c[27] == 0x00,
        c[28] == 0x00,
        c[29] == 0x00,
        c[30] == 0x50,
        c[31] == 0xB8,
        x86::word_at(c, 32) == address::SEND_PACKET_DATA,
        c[36] == 0xFF,
        c[37] == 0xD0,
        c[38] == 0x83,
        c[39] == 0xC4,
        c[40] == 0x10,
        c[41] == 0x61,
        c[42] == 0xC3,
        c[43] == 0x63,
        c[44] == 0x63,
        c[45] == 0x73,
        c[46] == 0x00,
{
    broadcast use crate::code::group_code_len;

    let c0 = [ 0x60u8, 0xE8, 0x00, 0x00, 0x00, 0x00, 0x5E, 0x8D, 0x86, 0x29, 0x00, 0x00, 0x00, 0x50, 0x68, ]@;
    let c1 = code::put32(c0, channel as u32);
    let c2 = code::put(c1, [0x68u8]@);
    let c3 = code::put32(c2, address::C_CHAT_OPCODE as u32);
    let c4 = code::put(c3, [ 0x8Du8, 0x86, 0x25, 0x00, 0x00, 0x00, 0x50, 0xB8, ]@);
    let c5 = code::put32(c4, address::SEND_PACKET_DATA);
    let c6 = code::put(c5, [ 0xFFu8, 0xD0, 0x83, 0xC4, 0x10, 0x61, 0xC3, 0x63, 0x63, 0x73, 0x00, ]@);
    assert(x86::starts(c, c6));
    x86::piece(c, c5, [ 0xFFu8, 0xD0, 0x83, 0xC4, 0x10, 0x61, 0xC3, 0x63, 0x63, 0x73, 0x00, ]@);
    x86::piece32(c, c4, address::SEND_PACKET_DATA);
    x86::piece(c, c3, [ 0x8Du8, 0x86, 0x25, 0x00, 0x00, 0x00, 0x50, 0xB8, ]@);
    x86::piece32(c, c2, address::C_CHAT_OPCODE as u32);
    x86::piece(c, c1, [0x68u8]@);
    x86::piece32(c, c0, channel as u32);
    assert forall|k: int| 0 <= k < c0.len() implies #[trigger] c[k] == c0[k] by {
        assert(c.take(c0.len() as int)[k] == c0[k]);
    }
}

/// A message is said on a channel: the packet is of the form "ccs", which stands behind
/// the code, and the message behind that.
#[verifier::rlimit(50)]
pub proof fn messages_are_said_on_a_channel(channel: u8, message: Seq<u8>, s: Cpu)
    requires
        ready(s, 0),
    ensures
        ({
            let e = x86::run(drink::chat_packet_code(channel, message), s, 14);
            &&& called(
                s,
                e,
                0x0058_0E50,
                seq![x86::wrap(s.origin + 43), 0x88, channel as u32, x86::wrap(s.origin + 47)],
            )
            &&& drink::chat_packet_code(channel, message).subrange(43, 47) =~= seq![
                0x63u8,
                0x63,
                0x73,
                0x00,
            ]
            &&& drink::chat_packet_code(channel, message).skip(47) =~= message.push(0)
            &&& came_back(s, e)
        }),
{
    let c = drink::chat_packet_code(channel, message);
    broadcast use {crate::x86::group_cells, crate::code::group_code_len};

    x86::wraps_add(s.origin + 6, 37);
    x86::wraps_add(s.origin + 6, 41);
    assert(x86::starts(c, drink::chat_call_code(channel))) by {
        reveal(code::put);
        assert(c.take(drink::chat_call_code(channel).len() as int) =~= drink::chat_call_code(channel));
    }
    chat_call_code_bytes(c, channel);
    reveal_with_fuel(x86::run, 15);
    let s0 = s;
    registers_are_saved(c, s0);
    let s1 = x86::step(c, s0);
    assert(s1.ip == 1);
    x86::ins_call_in(c, s1);
    let s2 = x86::step(c, s1);
    assert(s2.ip == 6);
    x86::ins_pop_reg(c, s2);
    let s3 = x86::step(c, s2);
    assert(s3.ip == 7);
    x86::names_far(c, 8, 0, 6);
    x86::ins_lea(c, s3);
    let s4 = x86::step(c, s3);
    assert(s4.ip == 13);
    x86::ins_push_reg(c, s4);
    let s5 = x86::step(c, s4);
    assert(s5.ip == 14);
    x86::ins_push_word(c, s5);
    let s6 = x86::step(c, s5);
    assert(s6.ip == 19);
    x86::ins_push_word(c, s6);
    let s7 = x86::step(c, s6);
    assert(s7.ip == 24);
    x86::names_far(c, 25, 0, 6);
    x86::ins_lea(c, s7);
    let s8 = x86::step(c, s7);
    assert(s8.ip == 30);
    x86::ins_push_reg(c, s8);
    let s9 = x86::step(c, s8);
    assert(s9.ip == 31);
    x86::ins_mov_word(c, s9);
    let s10 = x86::step(c, s9);
    assert(s10.ip == 36);
    x86::names_reg(c, 37, 2, 0);
    x86::ins_call(c, s10);
    let s11 = x86::step(c, s10);
    assert(s11.ip == 38);
    x86::names_reg(c, 39, 0, 4);
    x86::ins_alu_byte(c, s11);
    let s12 = x86::step(c, s11);
    assert(s12.ip == 41);
    registers_come_back(c, s12, s.r);
    let s13 = x86::step(c, s12);
    assert(s13.ip == 42);
    x86::ins_ret(c, s13);
    let s14 = x86::step(c, s13);
    assert(s14.ip == 42);
    assert(c.skip(47) =~= message.push(0)) by {
        drink::text_operands_point_at_the_text(0, channel, message);
        reveal(code::put);
    }
    assert(s14.calls.drop_last() =~= s.calls);
}

#[verifier::rlimit(50)]
proof fn chat_dispatch_code_bytes(c: Seq<u8>, at: u32, source: u16, color: u16)
    requires
        x86::starts(c, chat::chat_dispatch_code(at, source, color)),
    ensures
        c.len() >= 37,
        c[0] == 0x68,
        c[1] == 0x00,
        c[2] == 0x00,
        c[3] == 0x00,
        c[4] == 0x00,
        c[5] == 0x6A,
        c[6] == 0xFF,
        c[7] == 0x68,
        x86::word_at(c, 8) == color as u32,
        c[12] == 0x68,
        x86::word_at(c, 13) == source as u32,
        c[17] == 0x68,
        x86::word_at(c, 18) == at,
        c[22] == 0xB8,
        x86::word_at(c, 23) == chat::CHAT_DISPATCH_FN,
        c[27] == 0xFF,
        c[28] == 0xD0,
        c[29] == 0x83,
        c[30] == 0xC4,
        c[31] == 0x14,
        c[32] == 0x33,
        c[33] == 0xC0,
        c[34] == 0xC2,
        c[35] == 0x04,
        c[36] == 0x00,
{
    broadcast use crate::code::group_code_len;

    let c0 = [ 0x68u8, 0x00, 0x00, 0x00, 0x00, 0x6A, 0xFF, 0x68, ]@;
    let c1 = code::put32(c0, color as u32);
    let c2 = code::put(c1, [0x68u8]@);
    let c3 = code::put32(c2, source as u32);
    let c4 = code::put(c3, [0x68u8]@);
    let c5 = code::put32(c4, at);
    let c6 = code::put(c5, [0xB8u8]@);
    let c7 = code::put32(c6, chat::CHAT_DISPATCH_FN);
    let c8 = code::put(c7, [ 0xFFu8, 0xD0, 0x83, 0xC4, 0x14, 0x33, 0xC0, 0xC2, 0x04, 0x00, ]@);
    assert(x86::starts(c, c8));
    x86::piece(c, c7, [ 0xFFu8, 0xD0, 0x83, 0xC4, 0x14, 0x33, 0xC0, 0xC2, 0x04, 0x00, ]@);
    x86::piece32(c, c6, chat::CHAT_DISPATCH_FN);
    x86::piece(c, c5, [0xB8u8]@);
    x86::piece32(c, c4, at);
    x86::piece(c, c3, [0x68u8]@);
    x86::piece32(c, c2, source as u32);
    x86::piece(c, c1, [0x68u8]@);
    x86::piece32(c, c0, color as u32);
    assert forall|k: int| 0 <= k < c0.len() implies #[trigger] c[k] == c0[k] by {
        assert(c.take(c0.len() as int)[k] == c0[k]);
    }
}

/// A chat line is shown: the text, its source and its color, on no channel; the function
/// comes back with 0.
#[verifier::rlimit(50)]
pub proof fn chat_lines_are_shown(at: u32, source: u16, color: u16, s: Cpu)
    requires
        ready(s, 0),
    ensures
        ({
            let e = x86::run(chat::chat_dispatch_code(at, source, color), s, 10);
            &&& called(
                s,
                e,
                0x0043_7500,
                seq![at, source as u32, color as u32, 0xFFFF_FFFF, 0],
            )
            &&& e.returned
            &&& e.r.eax == 0
            &&& e.r.esp == s.r.esp
            &&& e.r.ebx == s.r.ebx && e.r.esi == s.r.esi && e.r.edi == s.r.edi && e.r.ebp == s.r.ebp
        }),
{
    let c = chat::chat_dispatch_code(at, source, color);
    broadcast use {crate::x86::group_cells, crate::code::group_code_len};

    assert(x86::wrap(-1) == 0xFFFF_FFFF) by {
        reveal(x86::wrap);
    }
    assert(x86::starts(c, chat::chat_dispatch_code(at, source, color))) by {
        reveal(code::put);
        assert(c.take(chat::chat_dispatch_code(at, source, color).len() as int) =~= chat::chat_dispatch_code(at, source, color));
    }
    chat_dispatch_code_bytes(c, at, source, color);
    reveal_with_fuel(x86::run, 11);
    let s0 = s;
    x86::ins_push_word(c, s0);
    let s1 = x86::step(c, s0);
    assert(s1.ip == 5);
    x86::ins_push_byte(c, s1);
    let s2 = x86::step(c, s1);
    assert(s2.ip == 7);
    x86::ins_push_word(c, s2);
    let s3 = x86::step(c, s2);
    assert(s3.ip == 12);
    x86::ins_push_word(c, s3);
    let s4 = x86::step(c, s3);
    assert(s4.ip == 17);
    x86::ins_push_word(c, s4);
    let s5 = x86::step(c, s4);
    assert(s5.ip == 22);
    x86::ins_mov_word(c, s5);
    let s6 = x86::step(c, s5);
    assert(s6.ip == 27);
    x86::names_reg(c, 28, 2, 0);
    x86::ins_call(c, s6);
    let s7 = x86::step(c, s6);
    assert(s7.ip == 29);
    x86::names_reg(c, 30, 0, 4);
    x86::ins_alu_byte(c, s7);
    let s8 = x86::step(c, s7);
    assert(s8.ip == 32);
    x86::names_reg(c, 33, 0, 0);
    x86::ins_alu_from(c, s8);
    let s9 = x86::step(c, s8);
    assert(s9.ip == 34);
    x86::ins_ret(c, s9);
    let s10 = x86::step(c, s9);
    assert(s10.ip == 34);
    let z = s8.r.eax;
    assert(z ^ z == 0) by (bit_vector);
    assert(s10.calls.drop_last() =~= s.calls);
}

#[verifier::rlimit(50)]
proof fn save_target_code_bytes(c: Seq<u8>)
    requires
        x86::starts(c, drink::save_target_code()),
    ensures
        c.len() >= 7,
        c[0] == 0x60,
        c[1] == 0xA1,
        x86::word_at(c, 2) == drink::TARGET_ID_ADDR,
        c[6] == 0x50,
{
    broadcast use crate::code::group_code_len;

    let c0 = [ 0x60u8, 0xA1, ]@;
    let c1 = code::put32(c0, drink::TARGET_ID_ADDR);
    let c2 = code::put(c1, [0x50u8]@);
    assert(x86::starts(c, c2));
    x86::piece(c, c1, [0x50u8]@);
    x86::piece32(c, c0, drink::TARGET_ID_ADDR);
    assert forall|k: int| 0 <= k < c0.len() implies #[trigger] c[k] == c0[k] by {
        assert(c.take(c0.len() as int)[k] == c0[k]);
    }
}

#[verifier::rlimit(50)]
proof fn target_self_code_bytes(c: Seq<u8>)
    requires
        x86::starts(c, drink::target_self_code()),
    ensures
        c.len() >= 10,
        c[0] == 0xA1,
        x86::word_at(c, 1) == drink::SELF_CHAR_ID_ADDR,
        c[5] == 0xA3,
        x86::word_at(c, 6) == drink::TARGET_ID_ADDR,
{
    broadcast use crate::code::group_code_len;

    let c0 = [0xA1u8]@;
    let c1 = code::put32(c0, drink::SELF_CHAR_ID_ADDR);
    let c2 = code::put(c1, [0xA3u8]@);
    let c3 = code::put32(c2, drink::TARGET_ID_ADDR);
    assert(x86::starts(c, c3));
    x86::piece32(c, c2, drink::TARGET_ID_ADDR);
    x86::piece(c, c1, [0xA3u8]@);
    x86::piece32(c, c0, drink::SELF_CHAR_ID_ADDR);
    assert forall|k: int| 0 <= k < c0.len() implies #[trigger] c[k] == c0[k] by {
        assert(c.take(c0.len() as int)[k] == c0[k]);
    }
}

#[verifier::rlimit(50)]
proof fn target_id_code_bytes(c: Seq<u8>, target: u32)
    requires
        x86::starts(c, drink::target_id_code(target)),
    ensures
        c.len() >= 10,
        c[0] == 0xC7,
        c[1] == 0x05,
        x86::word_at(c, 2) == drink::TARGET_ID_ADDR,
        x86::word_at(c, 6) == target,
{
    broadcast use crate::code::group_code_len;

    let c0 = [0xC7u8, 0x05]@;
    let c1 = code::put32(c0, drink::TARGET_ID_ADDR);
    let c2 = code::put32(c1, target);
    assert(x86::starts(c, c2));
    x86::piece32(c, c1, target);
    x86::piece32(c, c0, drink::TARGET_ID_ADDR);
    assert forall|k: int| 0 <= k < c0.len() implies #[trigger] c[k] == c0[k] by {
        assert(c.take(c0.len() as int)[k] == c0[k]);
    }
}

#[verifier::rlimit(50)]
proof fn cast_and_restore_target_code_bytes(c: Seq<u8>, skill: u32)
    requires
        x86::starts(c, drink::cast_and_restore_target_code(skill)),
    ensures
        c.len() >= 28,
        c[0] == 0x6A,
        c[1] == 0x01,
        c[2] == 0x68,
        x86::word_at(c, 3) == skill,
        c[7] == 0x8B,
        c[8] == 0x0D,
        x86::word_at(c, 9) == address::SPELL_BOOK_PTR,
        c[13] == 0xB8,
        x86::word_at(c, 14) == address::SPELL_BOOK_CAST,
        c[18] == 0xFF,
        c[19] == 0xD0,
        c[20] == 0x58,
        c[21] == 0xA3,
        x86::word_at(c, 22) == drink::TARGET_ID_ADDR,
        c[26] == 0x61,
        c[27] == 0xC3,
{
    broadcast use crate::code::group_code_len;

    let c0 = [ 0x6Au8, 0x01, 0x68, ]@;
    let c1 = code::put32(c0, skill);
    let c2 = code::put(c1, [0x8Bu8, 0x0D]@);
    let c3 = code::put32(c2, address::SPELL_BOOK_PTR);
    let c4 = code::put(c3, [0xB8u8]@);
    let c5 = code::put32(c4, address::SPELL_BOOK_CAST);
    let c6 = code::put(c5, [ 0xFFu8, 0xD0, 0x58, 0xA3, ]@);
    let c7 = code::put32(c6, drink::TARGET_ID_ADDR);
    let c8 = code::put(c7, [0x61u8, 0xC3]@);
    assert(x86::starts(c, c8));
    x86::piece(c, c7, [0x61u8, 0xC3]@);
    x86::piece32(c, c6, drink::TARGET_ID_ADDR);
    x86::piece(c, c5, [ 0xFFu8, 0xD0, 0x58, 0xA3, ]@);
    x86::piece32(c, c4, address::SPELL_BOOK_CAST);
    x86::piece(c, c3, [0xB8u8]@);
    x86::piece32(c, c2, address::SPELL_BOOK_PTR);
    x86::piece(c, c1, [0x8Bu8, 0x0D]@);
    x86::piece32(c, c0, skill);
    assert forall|k: int| 0 <= k < c0.len() implies #[trigger] c[k] == c0[k] by {
        assert(c.take(c0.len() as int)[k] == c0[k]);
    }
}

/// Whether the cells of the target, of the player's number and of the spell book lie
/// apart from the stack.
pub open spec fn apart(s: Cpu) -> bool {
    &&& s.r.esp <= 0x0097_C910 || 0x0097_C910 + 0x100 <= s.r.esp
    &&& s.r.esp <= 0x00AB_F4B4 || 0x00AB_F4B4 + 0x100 <= s.r.esp
    &&& s.r.esp <= 0x00C3_1324 || 0x00C3_1324 + 0x100 <= s.r.esp
}

/// The spell book casts a skill by hand while the player is the target; afterwards the
/// target is what it was.
#[verifier::rlimit(50)]
pub proof fn self_casts_aim_at_oneself(skill: u32, s: Cpu)
    requires
        ready(s, 8),
        apart(s),
    ensures
        ({
            let e = x86::run(drink::skill_code(skill, SkillTargetMode::SelfCast), s, 14);
            &&& called(s, e, 0x0073_ECE0, seq![skill, 1u32])
            &&& e.calls.last().ecx == s.mem[0x00C3_1324]
            &&& e.calls.last().mem[0x0097_C910] == s.mem[0x00AB_F4B4]
            &&& came_back(s, e)
        }),
{
    let c = drink::skill_code(skill, SkillTargetMode::SelfCast);
    broadcast use {crate::x86::group_cells, crate::code::group_code_len};

    let save = drink::save_target_code();
    let cast = drink::cast_and_restore_target_code(skill);
    let aim = drink::target_self_code();
    let head = code::put(save, aim);
    assert(save.take(save.len() as int) =~= save);
    assert(cast.take(cast.len() as int) =~= cast);
    assert(aim.take(aim.len() as int) =~= aim);
    assert(c.take(c.len() as int) =~= c);
    save_target_code_bytes(save);
    cast_and_restore_target_code_bytes(cast, skill);
    target_self_code_bytes(aim);
    x86::piece_inside(c, head, cast);
    x86::piece_inside(c, save, aim);
    save_target_code_bytes(c);
    reveal_with_fuel(x86::run, 15);
    let s0 = s;
    registers_are_saved(c, s0);
    let s1 = x86::step(c, s0);
    assert(s1.ip == 1);
    x86::ins_load_eax(c, s1);
    let s2 = x86::step(c, s1);
    assert(s2.ip == 6);
    x86::ins_push_reg(c, s2);
    let s3 = x86::step(c, s2);
    assert(s3.ip == 7);
    x86::ins_load_eax(c, s3);
    let s4 = x86::step(c, s3);
    assert(s4.ip == 12);
    x86::ins_store_eax(c, s4);
    let s5 = x86::step(c, s4);
    assert(s5.ip == 17);
    x86::ins_push_byte(c, s5);
    let s6 = x86::step(c, s5);
    assert(s6.ip == 19);
    x86::ins_push_word(c, s6);
    let s7 = x86::step(c, s6);
    assert(s7.ip == 24);
    x86::names_cell(c, 25, 1);
    x86::ins_load(c, s7);
    let s8 = x86::step(c, s7);
    assert(s8.ip == 30);
    x86::ins_mov_word(c, s8);
    let s9 = x86::step(c, s8);
    assert(s9.ip == 35);
    x86::names_reg(c, 36, 2, 0);
    x86::ins_call(c, s9);
    let s10 = x86::step(c, s9);
    assert(s10.ip == 37);
    x86::ins_pop_reg(c, s10);
    let s11 = x86::step(c, s10);
    assert(s11.ip == 38);
    x86::ins_store_eax(c, s11);
    let s12 = x86::step(c, s11);
    assert(s12.ip == 43);
    registers_come_back(c, s12, s.r);
    let s13 = x86::step(c, s12);
    assert(s13.ip == 44);
    x86::ins_ret(c, s13);
    let s14 = x86::step(c, s13);
    assert(s14.ip == 44);
    assert(s14.calls.drop_last() =~= s.calls);
}

/// The spell book casts a skill by hand on whatever is the target.
#[verifier::rlimit(50)]
pub proof fn casts_without_aim_keep_the_target(skill: u32, s: Cpu)
    requires
        ready(s, 8),
        apart(s),
    ensures
        ({
            let e = x86::run(drink::skill_code(skill, SkillTargetMode::NoSpec), s, 12);
            &&& called(s, e, 0x0073_ECE0, seq![skill, 1u32])
            &&& e.calls.last().ecx == s.mem[0x00C3_1324]
            &&& e.calls.last().mem[0x0097_C910] == s.mem[0x0097_C910]
            &&& came_back(s, e)
        }),
{
    let c = drink::skill_code(skill, SkillTargetMode::NoSpec);
    broadcast use {crate::x86::group_cells, crate::code::group_code_len};

    let save = drink::save_target_code();
    let cast = drink::cast_and_restore_target_code(skill);
    let head = save;
    assert(save.take(save.len() as int) =~= save);
    assert(cast.take(cast.len() as int) =~= cast);
    assert(c.take(c.len() as int) =~= c);
    save_target_code_bytes(save);
    cast_and_restore_target_code_bytes(cast, skill);
    x86::piece_inside(c, head, cast);
    save_target_code_bytes(c);
    reveal_with_fuel(x86::run, 13);
    let s0 = s;
    registers_are_saved(c, s0);
    let s1 = x86::step(c, s0);
    assert(s1.ip == 1);
    x86::ins_load_eax(c, s1);
    let s2 = x86::step(c, s1);
    assert(s2.ip == 6);
    x86::ins_push_reg(c, s2);
    let s3 = x86::step(c, s2);
    assert(s3.ip == 7);
    x86::ins_push_byte(c, s3);
    let s4 = x86::step(c, s3);
    assert(s4.ip == 9);
    x86::ins_push_word(c, s4);
    let s5 = x86::step(c, s4);
    assert(s5.ip == 14);
    x86::names_cell(c, 15, 1);
    x86::ins_load(c, s5);
    let s6 = x86::step(c, s5);
    assert(s6.ip == 20);
    x86::ins_mov_word(c, s6);
    let s7 = x86::step(c, s6);
    assert(s7.ip == 25);
    x86::names_reg(c, 26, 2, 0);
    x86::ins_call(c, s7);
    let s8 = x86::step(c, s7);
    assert(s8.ip == 27);
    x86::ins_pop_reg(c, s8);
    let s9 = x86::step(c, s8);
    assert(s9.ip == 28);
    x86::ins_store_eax(c, s9);
    let s10 = x86::step(c, s9);
    assert(s10.ip == 33);
    registers_come_back(c, s10, s.r);
    let s11 = x86::step(c, s10);
    assert(s11.ip == 34);
    x86::ins_ret(c, s11);
    let s12 = x86::step(c, s11);
    assert(s12.ip == 34);
    assert(s12.calls.drop_last() =~= s.calls);
}

/// The spell book casts a skill by hand while the one that is meant is the target;
/// afterwards the target is what it was.
#[verifier::rlimit(50)]
pub proof fn explicit_casts_aim_at_their_target(skill: u32, target: u32, s: Cpu)
    requires
        ready(s, 8),
        apart(s),
    ensures
        ({
            let e = x86::run(drink::skill_code(skill, SkillTargetMode::Explicit(target)), s, 13);
            &&& called(s, e, 0x0073_ECE0, seq![skill, 1u32])
            &&& e.calls.last().ecx == s.mem[0x00C3_1324]
            &&& e.calls.last().mem[0x0097_C910] == target
            &&& came_back(s, e)
        }),
{
    let c = drink::skill_code(skill, SkillTargetMode::Explicit(target));
    broadcast use {crate::x86::group_cells, crate::code::group_code_len};

    let save = drink::save_target_code();
    let cast = drink::cast_and_restore_target_code(skill);
    let aim = drink::target_id_code(target);
    let head = code::put(save, aim);
    assert(save.take(save.len() as int) =~= save);
    assert(cast.take(cast.len() as int) =~= cast);
    assert(aim.take(aim.len() as int) =~= aim);
    assert(c.take(c.len() as int) =~= c);
    save_target_code_bytes(save);
    cast_and_restore_target_code_bytes(cast, skill);
    target_id_code_bytes(aim, target);
    x86::piece_inside(c, head, cast);
    x86::piece_inside(c, save, aim);
    save_target_code_bytes(c);
    reveal_with_fuel(x86::run, 14);
    let s0 = s;
    registers_are_saved(c, s0);
    let s1 = x86::step(c, s0);
    assert(s1.ip == 1);
    x86::ins_load_eax(c, s1);
    let s2 = x86::step(c, s1);
    assert(s2.ip == 6);
    x86::ins_push_reg(c, s2);
    let s3 = x86::step(c, s2);
    assert(s3.ip == 7);
    x86::names_cell(c, 8, 0);
    x86::ins_store_word(c, s3);
    let s4 = x86::step(c, s3);
    assert(s4.ip == 17);
    x86::ins_push_byte(c, s4);
    let s5 = x86::step(c, s4);
    assert(s5.ip == 19);
    x86::ins_push_word(c, s5);
    let s6 = x86::step(c, s5);
    assert(s6.ip == 24);
    x86::names_cell(c, 25, 1);
    x86::ins_load(c, s6);
    let s7 = x86::step(c, s6);
    assert(s7.ip == 30);
    x86::ins_mov_word(c, s7);
    let s8 = x86::step(c, s7);
    assert(s8.ip == 35);
    x86::names_reg(c, 36, 2, 0);
    x86::ins_call(c, s8);
    let s9 = x86::step(c, s8);
    assert(s9.ip == 37);
    x86::ins_pop_reg(c, s9);
    let s10 = x86::step(c, s9);
    assert(s10.ip == 38);
    x86::ins_store_eax(c, s10);
    let s11 = x86::step(c, s10);
    assert(s11.ip == 43);
    registers_come_back(c, s11, s.r);
    let s12 = x86::step(c, s11);
    assert(s12.ip == 44);
    x86::ins_ret(c, s12);
    let s13 = x86::step(c, s12);
    assert(s13.ip == 44);
    assert(s13.calls.drop_last() =~= s.calls);
}

/// Packets that are sent directly are those of the same skill and target.
pub proof fn forced_skills_are_packets(skill: u32, target: u32)
    ensures
        drink::skill_code(skill, SkillTargetMode::ForceSelfPacket)
            == drink::force_self_packet_code(skill),
        drink::skill_code(skill, SkillTargetMode::ForceTargetPacket(target))
            == drink::force_target_packet_code(skill, target),
{
}

/// A drink comes too early within half a second of the last one, and is remembered where
/// it does not; using an item otherwise changes nothing of that.
pub proof fn drinks_rest_for_half_a_second(
    h: drink::DrinkHandle,
    next: drink::DrinkHandle,
    last: u64,
    now: u64,
    prologue: Option<Seq<u8>>,
)
    requires
        h.last_drink == Some(last),
    ensures
        h.cooling_down(now) <==> now < last + 500_000_000,
        h.after_use(next, true, now, prologue) ==> next.last_drink == Some(
            if now < last + 500_000_000 {
                last
            } else {
                now
            },
        ),
        h.after_use(next, false, now, prologue) ==> next.last_drink == Some(last),
        h.after_use(next, false, now, prologue) || h.after_use(next, true, now, prologue)
            ==> next.use_item_addr == h.use_item_addr,
        h.after_use(next, false, now, prologue) && h.prologue_snapshot is Some
            ==> next.prologue_snapshot == h.prologue_snapshot,
        h.after_use(next, false, now, prologue) && h.prologue_snapshot is None && prologue is Some
            ==> (next.prologue_snapshot matches Some(p) && p@ == prologue->0),
{
}

/// Bytes are new where none were seen before, and changed where others were.
pub proof fn prologues_are_compared_to_the_first(
    h: drink::DrinkHandle,
    seen: Vec<u8>,
    prologue: Seq<u8>,
)
    ensures
        h.prologue_snapshot is None ==> h.check_of(prologue) == drink::PrologueCheck::First,
        h.prologue_snapshot == Some(seen) ==> (h.check_of(prologue) == drink::PrologueCheck::Same
            <==> seen@ == prologue),
        h.prologue_snapshot == Some(seen) && seen@ != prologue ==> h.check_of(prologue)
            == drink::PrologueCheck::Changed,
{
}

} // verus!
