//! What the hooks do: hits, packets and pictures.

use vstd::prelude::*;

use crate::attack_damage_hook as attack;
use crate::code;
use crate::notification::image_draw_hook as images;
use crate::notification::packet_hook as packets;
use crate::notification::renderer;
use crate::x86;
use crate::x86::Cpu;

verus! {

#[verifier::rlimit(50)]
proof fn attacker_filter_code_bytes(c: Seq<u8>, skip: int)
    requires
        x86::starts(c, attack::attacker_filter_code(skip)),
        -0x6000_0000 <= skip <= 0x6000_0000,
    ensures
        c.len() >= 49,
        c[0] == 0x8B,
        c[1] == 0x0D,
        x86::word_at(c, 2) == attack::SELF_CHAR_ID_ADDR,
        c[6] == 0x39,
        c[7] == 0xCA,
        c[8] == 0x0F,
        c[9] == 0x84,
        x86::far(c, 10) == attack::FILTER_OK as int,
        c[14] == 0xA1,
        x86::word_at(c, 15) == attack::LOCAL_PLAYER_PTR_ADDR,
        c[19] == 0x85,
        c[20] == 0xC0,
        c[21] == 0x0F,
        c[22] == 0x84,
        x86::far(c, 23) == skip,
        c[27] == 0x8B,
        c[28] == 0x48,
        c[29] == attack::LOCAL_PLAYER_ID_OFFSET,
        c[30] == 0x39,
        c[31] == 0xCA,
        c[32] == 0x0F,
        c[33] == 0x84,
        x86::far(c, 34) == attack::FILTER_OK as int,
        c[38] == 0x8B,
        c[39] == 0x48,
        c[40] == attack::LOCAL_PLAYER_ALT_ID_OFFSET,
        c[41] == 0x39,
        c[42] == 0xCA,
        c[43] == 0x0F,
        c[44] == 0x85,
        x86::far(c, 45) == skip,
{
    broadcast use crate::code::group_code_len;

    let c0 = [0x8Bu8, 0x0D]@;
    let c1 = code::put32(c0, attack::SELF_CHAR_ID_ADDR);
    let c2 = code::put(c1, [0x39u8, 0xCA]@);
    let c3 = code::jcc(c2, 0x84, attack::FILTER_OK as int);
    let c4 = code::put(c3, [0xA1u8]@);
    let c5 = code::put32(c4, attack::LOCAL_PLAYER_PTR_ADDR);
    let c6 = code::put(c5, [0x85u8, 0xC0]@);
    let c7 = code::jcc(c6, 0x84, skip);
    let c8 = code::put(c7, [0x8Bu8, 0x48, attack::LOCAL_PLAYER_ID_OFFSET, 0x39, 0xCA]@);
    let c9 = code::jcc(c8, 0x84, attack::FILTER_OK as int);
    let c10 = code::put(c9, [0x8Bu8, 0x48, attack::LOCAL_PLAYER_ALT_ID_OFFSET, 0x39, 0xCA]@);
    let c11 = code::jcc(c10, 0x85, skip);
    assert(x86::starts(c, c11));
    x86::piece_jcc(c, c10, 0x85, skip);
    x86::piece(c, c9, [0x8Bu8, 0x48, attack::LOCAL_PLAYER_ALT_ID_OFFSET, 0x39, 0xCA]@);
    x86::piece_jcc(c, c8, 0x84, attack::FILTER_OK as int);
    x86::piece(c, c7, [0x8Bu8, 0x48, attack::LOCAL_PLAYER_ID_OFFSET, 0x39, 0xCA]@);
    x86::piece_jcc(c, c6, 0x84, skip);
    x86::piece(c, c5, [0x85u8, 0xC0]@);
    x86::piece32(c, c4, attack::LOCAL_PLAYER_PTR_ADDR);
    x86::piece(c, c3, [0xA1u8]@);
    x86::piece_jcc(c, c2, 0x84, attack::FILTER_OK as int);
    x86::piece(c, c1, [0x39u8, 0xCA]@);
    x86::piece32(c, c0, attack::SELF_CHAR_ID_ADDR);
    assert forall|k: int| 0 <= k < c0.len() implies #[trigger] c[k] == c0[k] by {
        assert(c.take(c0.len() as int)[k] == c0[k]);
    }
}

/// A hit counts as the player's where the attacker has the player's number, or one of the
/// two of the player's object; every other hit is left out.
#[verifier::rlimit(50)]
pub proof fn only_own_hits_count(skip: int, s: Cpu) -> (m: nat)
    requires
        49 < skip <= 0x6000_0000,
        s.ip == 0,
        !s.returned,
    ensures
        ({
            let player = s.mem[0x00C2_D2B8];
            let own = s.r.edx == s.mem[0x00AB_F4B4] || player != 0 && (s.r.edx
                == s.mem[x86::wrap(player + 0x0C)] || s.r.edx == s.mem[x86::wrap(player + 0x14)]);
            let e = x86::run(attack::attacker_filter_code(skip), s, m);
            &&& e.ip == if own {
                49
            } else {
                skip
            }
            &&& e == (Cpu {
                ip: e.ip,
                f: e.f,
                r: x86::Regs { eax: e.r.eax, ecx: e.r.ecx, ..s.r },
                ..s
            })
        }),
{
    let c = attack::attacker_filter_code(skip);
    broadcast use {crate::x86::group_cells, crate::code::group_code_len};

    assert(c.take(c.len() as int) =~= c);
    attacker_filter_code_bytes(c, skip);
    let s0 = s;
    x86::names_cell(c, 1, 1);
    x86::ins_load(c, s0);
    let s1 = x86::step(c, s0);
    assert(s1.ip == 6);
    x86::names_reg(c, 7, 1, 2);
    x86::ins_alu_into(c, s1);
    let s2 = x86::step(c, s1);
    assert(s2.ip == 8);
    x86::ins_branch(c, s2);
    let s3 = x86::step(c, s2);
    assert(x86::run(c, s, 3) == s3) by {
        reveal_with_fuel(x86::run, 4);
    }
    if s3.ip != 14 {
        3
    } else {
        x86::ins_load_eax(c, s3);
        let s4 = x86::step(c, s3);
        assert(s4.ip == 19);
        x86::names_reg(c, 20, 0, 0);
        x86::ins_test(c, s4);
        let s5 = x86::step(c, s4);
        assert(s5.ip == 21);
        x86::ins_branch(c, s5);
        let s6 = x86::step(c, s5);
        assert(x86::run(c, s, 6) == s6) by {
            reveal_with_fuel(x86::run, 7);
        }
        if s6.ip != 27 {
            6
        } else {
            x86::names_near(c, 28, 1, 0);
            x86::ins_load(c, s6);
            let s7 = x86::step(c, s6);
            assert(s7.ip == 30);
            x86::names_reg(c, 31, 1, 2);
            x86::ins_alu_into(c, s7);
            let s8 = x86::step(c, s7);
            assert(s8.ip == 32);
            x86::ins_branch(c, s8);
            let s9 = x86::step(c, s8);
            assert(x86::run(c, s, 9) == s9) by {
                reveal_with_fuel(x86::run, 10);
            }
            if s9.ip != 38 {
                9
            } else {
                x86::names_near(c, 39, 1, 0);
                x86::ins_load(c, s9);
                let s10 = x86::step(c, s9);
                assert(s10.ip == 41);
                x86::names_reg(c, 42, 1, 2);
                x86::ins_alu_into(c, s10);
                let s11 = x86::step(c, s10);
                assert(s11.ip == 43);
                x86::ins_branch(c, s11);
                let s12 = x86::step(c, s11);
                assert(x86::run(c, s, 12) == s12) by {
                    reveal_with_fuel(x86::run, 13);
                }
                12
            }
        }
    }
}

#[verifier::rlimit(50)]
proof fn overhead_text_call_code_bytes(c: Seq<u8>, cave: u32)
    requires
        x86::starts(c, attack::overhead_text_call_code(cave)),
    ensures
        c.len() >= 32,
        c[0] == 0x6A,
        c[1] == 0x00,
        c[2] == 0x6A,
        c[3] == 0x00,
        c[4] == 0x6A,
        c[5] == 0x01,
        c[6] == 0x68,
        x86::word_at(c, 7) == attack::DAMAGE_TEXT_COLOR,
        c[11] == 0x68,
        x86::word_at(c, 12) == attack::data_addr(cave, attack::TEXT_BUFFER),
        c[16] == 0xFF,
        c[17] == 0x35,
        x86::word_at(c, 18) == attack::data_addr(cave, attack::CURRENT_TARGET),
        c[22] == 0xB8,
        x86::word_at(c, 23) == attack::OVERHEAD_TEXT_FN,
        c[27] == 0xFF,
        c[28] == 0xD0,
        c[29] == 0x83,
        c[30] == 0xC4,
        c[31] == 0x18,
{
    broadcast use crate::code::group_code_len;

    let c0 = [ 0x6Au8, 0x00, 0x6A, 0x00, 0x6A, 0x01, 0x68, ]@;
    let c1 = code::put32(c0, attack::DAMAGE_TEXT_COLOR);
    let c2 = code::put(c1, [0x68u8]@);
    let c3 = code::put32(c2, attack::data_addr(cave, attack::TEXT_BUFFER));
    let c4 = code::put(c3, [0xFFu8, 0x35]@);
    let c5 = code::put32(c4, attack::data_addr(cave, attack::CURRENT_TARGET));
    let c6 = code::put(c5, [0xB8u8]@);
    let c7 = code::put32(c6, attack::OVERHEAD_TEXT_FN);
    let c8 = code::put(c7, [ 0xFFu8, 0xD0, 0x83, 0xC4, 0x18, ]@);
    assert(x86::starts(c, c8));
    x86::piece(c, c7, [ 0xFFu8, 0xD0, 0x83, 0xC4, 0x18, ]@);
    x86::piece32(c, c6, attack::OVERHEAD_TEXT_FN);
    x86::piece(c, c5, [0xB8u8]@);
    x86::piece32(c, c4, attack::data_addr(cave, attack::CURRENT_TARGET));
    x86::piece(c, c3, [0xFFu8, 0x35]@);
    x86::piece32(c, c2, attack::data_addr(cave, attack::TEXT_BUFFER));
    x86::piece(c, c1, [0x68u8]@);
    x86::piece32(c, c0, attack::DAMAGE_TEXT_COLOR);
    assert forall|k: int| 0 <= k < c0.len() implies #[trigger] c[k] == c0[k] by {
        assert(c.take(c0.len() as int)[k] == c0[k]);
    }
}

/// The text that was made is shown in red over the target.
#[verifier::rlimit(50)]
pub proof fn hits_are_shown_over_the_target(cave: u32, s: Cpu)
    requires
        cave + attack::CODE_LEN <= u32::MAX,
        s.ip == 0,
        !s.returned,
        s.replies.len() > 0,
        s.replies[0].pops == 0,
        0x100 <= s.r.esp,
        s.r.esp <= cave || cave + attack::CODE_LEN + 0x100 <= s.r.esp,
    ensures
        ({
            let e = x86::run(attack::overhead_text_call_code(cave), s, 9);
            &&& e.ip == 32
            &&& e.calls.len() == s.calls.len() + 1
            &&& e.calls.last().target == 0x0042_B7B0
            &&& e.calls.last().stack =~= seq![
                s.mem[(cave + attack::CURRENT_TARGET) as u32],
                (cave + attack::TEXT_BUFFER) as u32,
                0xF800,
                1,
                0,
                0,
            ]
            &&& e.r.esp == s.r.esp && e.r.ebx == s.r.ebx && e.r.esi == s.r.esi
            &&& e.r.edi == s.r.edi && e.r.ebp == s.r.ebp
        }),
{
    let c = attack::overhead_text_call_code(cave);
    broadcast use {crate::x86::group_cells, crate::code::group_code_len};

    assert(c.take(c.len() as int) =~= c);
    overhead_text_call_code_bytes(c, cave);
    reveal_with_fuel(x86::run, 10);
    let s0 = s;
    x86::ins_push_byte(c, s0);
    let s1 = x86::step(c, s0);
    assert(s1.ip == 2);
    x86::ins_push_byte(c, s1);
    let s2 = x86::step(c, s1);
    assert(s2.ip == 4);
    x86::ins_push_byte(c, s2);
    let s3 = x86::step(c, s2);
    assert(s3.ip == 6);
    x86::ins_push_word(c, s3);
    let s4 = x86::step(c, s3);
    assert(s4.ip == 11);
    x86::ins_push_word(c, s4);
    let s5 = x86::step(c, s4);
    assert(s5.ip == 16);
    x86::names_cell(c, 17, 6);
    x86::ins_push_place(c, s5);
    let s6 = x86::step(c, s5);
    assert(s6.ip == 22);
    x86::ins_mov_word(c, s6);
    let s7 = x86::step(c, s6);
    assert(s7.ip == 27);
    x86::names_reg(c, 28, 2, 0);
    x86::ins_call(c, s7);
    let s8 = x86::step(c, s7);
    assert(s8.ip == 29);
    x86::names_reg(c, 30, 0, 4);
    x86::ins_alu_byte(c, s8);
    let s9 = x86::step(c, s8);
    assert(s9.ip == 32);
}

#[verifier::rlimit(50)]
proof fn draw_loop_code_bytes(c: Seq<u8>, list: u32)
    requires
        x86::starts(c, renderer::draw_loop_code(list)),
    ensures
        c.len() >= 73,
        c[0] == 0x60,
        c[1] == 0x9C,
        c[2] == 0xBE,
        x86::word_at(c, 3) == list,
        c[7] == 0x8B,
        c[8] == 0x3E,
        c[9] == 0x83,
        c[10] == 0xC6,
        c[11] == 0x04,
        c[12] == 0x85,
        c[13] == 0xFF,
        c[14] == 0x0F,
        c[15] == 0x84,
        x86::far(c, 16) == renderer::LOOP_END as int,
        c[20] == 0x0F,
        c[21] == 0xB7,
        c[22] == 0x06,
        c[23] == 0x50,
        c[24] == 0xB9,
        x86::word_at(c, 25) == renderer::PNG_SURF_MANAGER,
        c[29] == 0xB8,
        x86::word_at(c, 30) == renderer::GET_SURF_RESOURCE,
        c[34] == 0xFF,
        c[35] == 0xD0,
        c[36] == 0x85,
        c[37] == 0xC0,
        c[38] == 0x74,
        x86::near(c, 39) == renderer::LOOP_SKIP as int,
        c[40] == 0xFF,
        c[41] == 0x76,
        c[42] == 0x08,
        c[43] == 0xFF,
        c[44] == 0x76,
        c[45] == 0x04,
        c[46] == 0x6A,
        c[47] == 0x00,
        c[48] == 0x6A,
        c[49] == 0x00,
        c[50] == 0x50,
        c[51] == 0xB9,
        x86::word_at(c, 52) == renderer::BLIT_B,
        c[56] == 0xFF,
        c[57] == 0xD1,
        c[58] == 0x83,
        c[59] == 0xC4,
        c[60] == 0x14,
        c[61] == 0x83,
        c[62] == 0xC6,
        c[63] == 0x0C,
        c[64] == 0x4F,
        c[65] == 0xE9,
        x86::far(c, 66) == renderer::LOOP_START as int,
        c[70] == 0x9D,
        c[71] == 0x61,
        c[72] == 0xC3,
{
    broadcast use crate::code::group_code_len;

    let c0 = [ 0x60u8, 0x9C, 0xBE, ]@;
    let c1 = code::put32(c0, list);
    let c2 = code::put(c1, [ 0x8Bu8, 0x3E, 0x83, 0xC6, 0x04, ]@);
    let c3 = code::put(c2, [0x85u8, 0xFF]@);
    let c4 = code::jcc(c3, 0x84, renderer::LOOP_END as int);
    let c5 = code::put(c4, [ 0x0Fu8, 0xB7, 0x06, 0x50, 0xB9, ]@);
    let c6 = code::put32(c5, renderer::PNG_SURF_MANAGER);
    let c7 = code::put(c6, [0xB8u8]@);
    let c8 = code::put32(c7, renderer::GET_SURF_RESOURCE);
    let c9 = code::put(c8, [ 0xFFu8, 0xD0, 0x85, 0xC0, ]@);
    let c10 = code::jump8(c9, 0x74, renderer::LOOP_SKIP as int);
    let c11 = code::put(c10, [ 0xFFu8, 0x76, 0x08, 0xFF, 0x76, 0x04, 0x6A, 0x00, 0x6A, 0x00, 0x50, 0xB9, ]@);
    let c12 = code::put32(c11, renderer::BLIT_B);
    let c13 = code::put(c12, [ 0xFFu8, 0xD1, 0x83, 0xC4, 0x14, ]@);
    let c14 = code::put(c13, [ 0x83u8, 0xC6, 0x0C, 0x4F, ]@);
    let c15 = code::jmp(c14, renderer::LOOP_START as int);
    let c16 = code::put(c15, [0x9Du8, 0x61, 0xC3]@);
    assert(x86::starts(c, c16));
    x86::piece(c, c15, [0x9Du8, 0x61, 0xC3]@);
    x86::piece_jmp(c, c14, renderer::LOOP_START as int);
    x86::piece(c, c13, [ 0x83u8, 0xC6, 0x0C, 0x4F, ]@);
    x86::piece(c, c12, [ 0xFFu8, 0xD1, 0x83, 0xC4, 0x14, ]@);
    x86::piece32(c, c11, renderer::BLIT_B);
    x86::piece(c, c10, [ 0xFFu8, 0x76, 0x08, 0xFF, 0x76, 0x04, 0x6A, 0x00, 0x6A, 0x00, 0x50, 0xB9, ]@);
    x86::piece_jump8(c, c9, 0x74, renderer::LOOP_SKIP as int);
    x86::piece(c, c8, [ 0xFFu8, 0xD0, 0x85, 0xC0, ]@);
    x86::piece32(c, c7, renderer::GET_SURF_RESOURCE);
    x86::piece(c, c6, [0xB8u8]@);
    x86::piece32(c, c5, renderer::PNG_SURF_MANAGER);
    x86::piece(c, c4, [ 0x0Fu8, 0xB7, 0x06, 0x50, 0xB9, ]@);
    x86::piece_jcc(c, c3, 0x84, renderer::LOOP_END as int);
    x86::piece(c, c2, [0x85u8, 0xFF]@);
    x86::piece(c, c1, [ 0x8Bu8, 0x3E, 0x83, 0xC6, 0x04, ]@);
    x86::piece32(c, c0, list);
    assert forall|k: int| 0 <= k < c0.len() implies #[trigger] c[k] == c0[k] by {
        assert(c.take(c0.len() as int)[k] == c0[k]);
    }
}

/// One picture of the list is drawn: the client is asked for it, and where it has it, it is
/// drawn at its place; the next one follows.
#[verifier::rlimit(50)]
pub proof fn each_picture_is_drawn_at_its_place(list: u32, s: Cpu)
    requires
        s.ip == 12,
        !s.returned,
        s.r.edi > 0,
        s.replies.len() > 1,
        s.replies[0].pops == 4,
        s.replies[1].pops == 0,
        0x100 <= s.r.esp,
        s.r.esi + 12 <= u32::MAX,
        s.r.esp <= s.r.esi || s.r.esi + 12 + 0x100 <= s.r.esp,
    ensures
        ({
            let found = s.replies[0].eax != 0;
            let e = x86::run(
                renderer::draw_loop_code(list),
                s,
                if found {
                    20
                } else {
                    12
                },
            );
            let ask = e.calls[s.calls.len() as int];
            &&& e.ip == 12
            &&& e.r.esi == s.r.esi + 12
            &&& e.r.edi == s.r.edi - 1
            &&& e.r.esp == s.r.esp
            &&& !e.returned
            &&& ask.target == renderer::GET_SURF_RESOURCE
            &&& ask.ecx == renderer::PNG_SURF_MANAGER
            &&& ask.stack[0] == s.mem16[s.r.esi]
            &&& e.calls.len() == s.calls.len() + if found {
                2int
            } else {
                1
            }
            &&& found ==> e.calls.last().target == renderer::BLIT_B && e.calls.last().stack.take(5)
                =~= seq![
                s.replies[0].eax,
                0,
                0,
                s.mem[(s.r.esi + 4) as u32],
                s.mem[(s.r.esi + 8) as u32],
            ]
        }),
{
    let c = renderer::draw_loop_code(list);
    broadcast use {crate::x86::group_cells, crate::code::group_code_len};

    assert(c.take(c.len() as int) =~= c);
    draw_loop_code_bytes(c, list);
    assert(x86::wrap(-1) == 0xFFFF_FFFF) by {
        reveal(x86::wrap);
    }
    reveal_with_fuel(x86::run, 21);
    let s0 = s;
    x86::names_reg(c, 13, 7, 7);
    x86::ins_test(c, s0);
    let s1 = x86::step(c, s0);
    assert(s1.ip == 14);
    x86::ins_branch(c, s1);
    let s2 = x86::step(c, s1);
    assert(s2.ip == 20);
    x86::names_pointed(c, 22, 0, 6);
    x86::ins_load16(c, s2);
    let s3 = x86::step(c, s2);
    assert(s3.ip == 23);
    x86::ins_push_reg(c, s3);
    let s4 = x86::step(c, s3);
    assert(s4.ip == 24);
    x86::ins_mov_word(c, s4);
    let s5 = x86::step(c, s4);
    assert(s5.ip == 29);
    x86::ins_mov_word(c, s5);
    let s6 = x86::step(c, s5);
    assert(s6.ip == 34);
    x86::names_reg(c, 35, 2, 0);
    x86::ins_call(c, s6);
    let s7 = x86::step(c, s6);
    assert(s7.ip == 36);
    x86::names_reg(c, 37, 0, 0);
    x86::ins_test(c, s7);
    let s8 = x86::step(c, s7);
    assert(s8.ip == 38);
    x86::ins_branch_near(c, s8);
    let s9 = x86::step(c, s8);
    if s.replies[0].eax == 0 {
        assert(s9.ip == 61);
        x86::names_reg(c, 62, 0, 6);
        x86::ins_alu_byte(c, s9);
        let s10 = x86::step(c, s9);
        assert(s10.ip == 64);
        x86::ins_dec_reg(c, s10);
        let s11 = x86::step(c, s10);
        assert(s11.ip == 65);
        x86::ins_jump(c, s11);
        let s12 = x86::step(c, s11);
        assert(s12.ip == 12);
    } else {
        assert(s9.ip == 40);
        x86::names_near(c, 41, 6, 6);
        x86::ins_push_place(c, s9);
        let s10 = x86::step(c, s9);
        assert(s10.ip == 43);
        x86::names_near(c, 44, 6, 6);
        x86::ins_push_place(c, s10);
        let s11 = x86::step(c, s10);
        assert(s11.ip == 46);
        x86::ins_push_byte(c, s11);
        let s12 = x86::step(c, s11);
        assert(s12.ip == 48);
        x86::ins_push_byte(c, s12);
        let s13 = x86::step(c, s12);
        assert(s13.ip == 50);
        x86::ins_push_reg(c, s13);
        let s14 = x86::step(c, s13);
        assert(s14.ip == 51);
        x86::ins_mov_word(c, s14);
        let s15 = x86::step(c, s14);
        assert(s15.ip == 56);
        x86::names_reg(c, 57, 2, 1);
        x86::ins_call(c, s15);
        let s16 = x86::step(c, s15);
        assert(s16.ip == 58);
        x86::names_reg(c, 59, 0, 4);
        x86::ins_alu_byte(c, s16);
        let s17 = x86::step(c, s16);
        assert(s17.ip == 61);
        x86::names_reg(c, 62, 0, 6);
        x86::ins_alu_byte(c, s17);
        let s18 = x86::step(c, s17);
        assert(s18.ip == 64);
        x86::ins_dec_reg(c, s18);
        let s19 = x86::step(c, s18);
        assert(s19.ip == 65);
        x86::ins_jump(c, s19);
        let s20 = x86::step(c, s19);
        assert(s20.ip == 12);
    }
}

/// The loop starts with the first picture of the list and ends where none is left, with
/// everything as it was.
#[verifier::rlimit(50)]
pub proof fn drawing_starts_and_ends(list: u32, s: Cpu)
    requires
        s.ip == 0,
        !s.returned,
        0x100 <= s.r.esp,
        list + 4 <= u32::MAX,
        s.r.esp <= list || list + 0x100 <= s.r.esp,
    ensures
        ({
            let e = x86::run(renderer::draw_loop_code(list), s, 5);
            &&& e.ip == 12
            &&& e.r.edi == s.mem[list]
            &&& e.r.esi == list + 4
            &&& e.r.esp == s.r.esp - 36
            &&& e.r.ebp == s.r.ebp
            &&& e.mem[e.r.esp] == s.f.word()
            &&& crate::laws::calls::saved(e.mem, s.r.esp - 32, s.r)
        }),
{
    let c = renderer::draw_loop_code(list);
    broadcast use {crate::x86::group_cells, crate::code::group_code_len};

    assert(c.take(c.len() as int) =~= c);
    draw_loop_code_bytes(c, list);
    reveal_with_fuel(x86::run, 6);
    let s0 = s;
    x86::ins_pushad(c, s0);
    let s1 = x86::step(c, s0);
    assert(s1.ip == 1);
    x86::ins_pushfd(c, s1);
    let s2 = x86::step(c, s1);
    assert(s2.ip == 2);
    x86::ins_mov_word(c, s2);
    let s3 = x86::step(c, s2);
    assert(s3.ip == 7);
    x86::names_pointed(c, 8, 7, 6);
    x86::ins_load(c, s3);
    let s4 = x86::step(c, s3);
    assert(s4.ip == 9);
    x86::names_reg(c, 10, 0, 6);
    x86::ins_alu_byte(c, s4);
    let s5 = x86::step(c, s4);
    assert(s5.ip == 12);
}

/// Once no picture is left, flags and registers are taken back.
#[verifier::rlimit(50)]
pub proof fn drawing_ends_as_it_started(list: u32, r: x86::Regs, f: x86::Flags, s: Cpu)
    requires
        s.ip == 12,
        !s.returned,
        s.r.edi == 0,
        s.r.esp + 36 == r.esp,
        s.mem[s.r.esp] == f.word(),
        crate::laws::calls::saved(s.mem, s.r.esp + 4, r),
    ensures
        ({
            let e = x86::run(renderer::draw_loop_code(list), s, 5);
            &&& e.returned
            &&& e.r == r
            &&& e.f == f
            &&& e.calls == s.calls
            &&& e.mem == s.mem
        }),
{
    let c = renderer::draw_loop_code(list);
    broadcast use {crate::x86::group_cells, crate::code::group_code_len};

    assert(c.take(c.len() as int) =~= c);
    draw_loop_code_bytes(c, list);
    reveal_with_fuel(x86::run, 6);
    let s0 = s;
    x86::names_reg(c, 13, 7, 7);
    x86::ins_test(c, s0);
    let s1 = x86::step(c, s0);
    assert(s1.ip == 14);
    x86::ins_branch(c, s1);
    let s2 = x86::step(c, s1);
    assert(s2.ip == 70);
    x86::ins_popfd(c, s2);
    let s3 = x86::step(c, s2);
    assert(s3.ip == 71);
    x86::ins_popad(c, s3);
    let s4 = x86::step(c, s3);
    assert(s4.ip == 72);
    x86::ins_ret(c, s4);
    let s5 = x86::step(c, s4);
    assert(s5.ip == 72);
}

#[verifier::rlimit(40)]
proof fn cave_code_bytes(c: Seq<u8>, cave: u32)
    requires
        x86::starts(c, packets::cave_code(cave)),
    ensures
        c.len() >= 126,
        c[0] == 0xF0,
        c[1] == 0xFF,
        c[2] == 0x05,
        x86::word_at(c, 3) == (cave + packets::OFF_TOTAL_HITS) as u32,
        c[7] == 0xA1,
        x86::word_at(c, 8) == (cave + packets::OFF_TOTAL_HITS) as u32,
        c[12] == 0x83,
        c[13] == 0xE8,
        c[14] == 0x01,
        c[15] == 0x83,
        c[16] == 0xE0,
        c[17] == 0x0F,
        c[18] == 0x8A,
        c[19] == 0x4D,
        c[20] == 0xF3,
        c[21] == 0x88,
        c[22] == 0x88,
        x86::word_at(c, 23) == (cave + packets::OFF_OPCODE_RING) as u32,
        c[27] == 0x81,
        c[28] == 0xBD,
        x86::word_at(c, 29) == packets::OPCODE_EBP_OPERAND,
        x86::word_at(c, 33) == packets::SUB_ID_ITEMBOARD as u32,
        c[37] == 0x0F,
        c[38] == 0x84,
        x86::far(c, 39) == packets::PUSH as int,
        c[43] == 0x81,
        c[44] == 0xBD,
        x86::word_at(c, 45) == packets::OPCODE_EBP_OPERAND,
        x86::word_at(c, 49) == packets::SUB_ID_SHOWDROP as u32,
        c[53] == 0x0F,
        c[54] == 0x84,
        x86::far(c, 55) == packets::PUSH as int,
        c[59] == 0xE9,
        x86::far(c, 60) == packets::NOP_PATH as int,
        c[64] == 0xF0,
        c[65] == 0xFF,
        c[66] == 0x05,
        x86::word_at(c, 67) == (cave + packets::OFF_PACKETBOX_HITS) as u32,
        c[71] == 0x60,
        c[72] == 0x9C,
        c[73] == 0x8B,
        c[74] == 0x0D,
        x86::word_at(c, 75) == (cave + packets::OFF_TAIL) as u32,
        c[79] == 0xFF,
        c[80] == 0x05,
        x86::word_at(c, 81) == (cave + packets::OFF_TAIL) as u32,
        c[85] == 0x83,
        c[86] == 0xE1,
        c[87] == 0x0F,
        c[88] == 0x6B,
        c[89] == 0xC9,
        c[90] == 0x50,
        c[91] == 0x81,
        c[92] == 0xC1,
        x86::word_at(c, 93) == (cave + packets::OFF_RING) as u32,
        c[97] == 0x8A,
        c[98] == 0x45,
        c[99] == 0xF3,
        c[100] == 0x88,
        c[101] == 0x01,
        c[102] == 0xC6,
        c[103] == 0x41,
        c[104] == 0x01,
        c[105] == 0x01,
        c[106] == 0x8B,
        c[107] == 0x75,
        c[108] == 0x08,
        c[109] == 0x8D,
        c[110] == 0x79,
        c[111] == 0x04,
        c[112] == 0xB9,
        x86::word_at(c, 113) == packets::SLOT_PAYLOAD_MAX,
        c[117] == 0xF3,
        c[118] == 0xA4,
        c[119] == 0x9D,
        c[120] == 0x61,
        c[121] == 0xE9,
        x86::word_at(c, 122) == code::rel32(cave + 126, packets::NOP_HANDLER_ADDR as int),
{
    broadcast use crate::code::group_code_len;

    let c0 = [0xF0u8, 0xFF, 0x05]@;
    let c1 = code::put32(c0, (cave + packets::OFF_TOTAL_HITS) as u32);
    let c2 = code::put(c1, [0xA1u8]@);
    let c3 = code::put32(c2, (cave + packets::OFF_TOTAL_HITS) as u32);
    let c4 = code::put(c3, [ 0x83u8, 0xE8, 0x01, 0x83, 0xE0, 0x0F, 0x8A, 0x4D, 0xF3, 0x88, 0x88, ]@);
    let c5 = code::put32(c4, (cave + packets::OFF_OPCODE_RING) as u32);
    let c6 = code::put(c5, [0x81u8, 0xBD]@);
    let c7 = code::put32(c6, packets::OPCODE_EBP_OPERAND);
    let c8 = code::put32(c7, packets::SUB_ID_ITEMBOARD as u32);
    let c9 = code::jcc(c8, 0x84, packets::PUSH as int);
    let c10 = code::put(c9, [0x81u8, 0xBD]@);
    let c11 = code::put32(c10, packets::OPCODE_EBP_OPERAND);
    let c12 = code::put32(c11, packets::SUB_ID_SHOWDROP as u32);
    let c13 = code::jcc(c12, 0x84, packets::PUSH as int);
    let c14 = code::jmp(c13, packets::NOP_PATH as int);
    let c15 = code::put(c14, [0xF0u8, 0xFF, 0x05]@);
    let c16 = code::put32(c15, (cave + packets::OFF_PACKETBOX_HITS) as u32);
    let c17 = code::put(c16, [ 0x60u8, 0x9C, 0x8B, 0x0D, ]@);
    let c18 = code::put32(c17, (cave + packets::OFF_TAIL) as u32);
    let c19 = code::put(c18, [0xFFu8, 0x05]@);
    let c20 = code::put32(c19, (cave + packets::OFF_TAIL) as u32);
    let c21 = code::put(c20, [ 0x83u8, 0xE1, 0x0F, 0x6B, 0xC9, 0x50, 0x81, 0xC1, ]@);
    let c22 = code::put32(c21, (cave + packets::OFF_RING) as u32);
    let c23 = code::put(c22, [ 0x8Au8, 0x45, 0xF3, 0x88, 0x01, 0xC6, 0x41, 0x01, 0x01, 0x8B, 0x75, 0x08, 0x8D, 0x79, 0x04, 0xB9, ]@);
    let c24 = code::put32(c23, packets::SLOT_PAYLOAD_MAX);
    let c25 = code::put(c24, [ 0xF3u8, 0xA4, 0x9D, 0x61, ]@);
    let c26 = code::put(c25, [0xE9u8]@);
    let c27 = code::put32(c26, code::rel32(cave + 126, packets::NOP_HANDLER_ADDR as int));
    assert(x86::starts(c, c27));
    x86::piece32(c, c26, code::rel32(cave + 126, packets::NOP_HANDLER_ADDR as int));
    x86::piece(c, c25, [0xE9u8]@);
    x86::piece(c, c24, [ 0xF3u8, 0xA4, 0x9D, 0x61, ]@);
    x86::piece32(c, c23, packets::SLOT_PAYLOAD_MAX);
    x86::piece(c, c22, [ 0x8Au8, 0x45, 0xF3, 0x88, 0x01, 0xC6, 0x41, 0x01, 0x01, 0x8B, 0x75, 0x08, 0x8D, 0x79, 0x04, 0xB9, ]@);
    x86::piece32(c, c21, (cave + packets::OFF_RING) as u32);
    x86::piece(c, c20, [ 0x83u8, 0xE1, 0x0F, 0x6B, 0xC9, 0x50, 0x81, 0xC1, ]@);
    x86::piece32(c, c19, (cave + packets::OFF_TAIL) as u32);
    x86::piece(c, c18, [0xFFu8, 0x05]@);
    x86::piece32(c, c17, (cave + packets::OFF_TAIL) as u32);
    x86::piece(c, c16, [ 0x60u8, 0x9C, 0x8B, 0x0D, ]@);
    x86::piece32(c, c15, (cave + packets::OFF_PACKETBOX_HITS) as u32);
    x86::piece(c, c14, [0xF0u8, 0xFF, 0x05]@);
    x86::piece_jmp(c, c13, packets::NOP_PATH as int);
    x86::piece_jcc(c, c12, 0x84, packets::PUSH as int);
    x86::piece32(c, c11, packets::SUB_ID_SHOWDROP as u32);
    x86::piece32(c, c10, packets::OPCODE_EBP_OPERAND);
    x86::piece(c, c9, [0x81u8, 0xBD]@);
    x86::piece_jcc(c, c8, 0x84, packets::PUSH as int);
    x86::piece32(c, c7, packets::SUB_ID_ITEMBOARD as u32);
    x86::piece32(c, c6, packets::OPCODE_EBP_OPERAND);
    x86::piece(c, c5, [0x81u8, 0xBD]@);
    x86::piece32(c, c4, (cave + packets::OFF_OPCODE_RING) as u32);
    x86::piece(c, c3, [ 0x83u8, 0xE8, 0x01, 0x83, 0xE0, 0x0F, 0x8A, 0x4D, 0xF3, 0x88, 0x88, ]@);
    x86::piece32(c, c2, (cave + packets::OFF_TOTAL_HITS) as u32);
    x86::piece(c, c1, [0xA1u8]@);
    x86::piece32(c, c0, (cave + packets::OFF_TOTAL_HITS) as u32);
    assert forall|k: int| 0 <= k < c0.len() implies #[trigger] c[k] == c0[k] by {
        assert(c.take(c0.len() as int)[k] == c0[k]);
    }
}

proof fn sixteenth(x: u32)
    ensures
        x & 0x0F == x % 16,
{
    assert(x & 0x0F == x % 16) by (bit_vector);
}

/// The packet is counted, and its number noted.
#[verifier::rlimit(50)]
proof fn the_number_is_noted(cave: u32, s: Cpu)
    requires
        cave + 0x800 <= u32::MAX,
        s.ip == 0,
        !s.returned,
    ensures
        ({
            let e = x86::run(packets::cave_code(cave), s, 7);
            let total = s.mem[(cave + 0x108) as u32];
            e == (Cpu {
                ip: 27,
                f: e.f,
                r: x86::Regs { eax: e.r.eax, ecx: e.r.ecx, ..s.r },
                mem: s.mem.insert((cave + 0x108) as u32, x86::wrap(total + 1)),
                mem8: s.mem8.insert(
                    (cave + 0x120 + total % 16) as u32,
                    s.mem8[x86::wrap(s.r.ebp - 13)],
                ),
                ..s
            })
        }),
{
    let c = packets::cave_code(cave);
    broadcast use {crate::x86::group_cells, crate::code::group_code_len};

    assert(c.take(c.len() as int) =~= c);
    cave_code_bytes(c, cave);
    let total = s.mem[(cave + 0x108) as u32];
    x86::wraps_add(total + 1, -1);
    sixteenth(total);
    assert(x86::wrap(1) == 1 && x86::wrap(15) == 15);
    reveal_with_fuel(x86::run, 8);
    let s0 = s;
    x86::ins_lock(c, s0);
    let s1 = x86::step(c, s0);
    assert(s1.ip == 1);
    x86::names_cell(c, 2, 0);
    x86::ins_inc(c, s1);
    let s2 = x86::step(c, s1);
    assert(s2.ip == 7);
    x86::ins_load_eax(c, s2);
    let s3 = x86::step(c, s2);
    assert(s3.ip == 12);
    x86::names_reg(c, 13, 5, 0);
    x86::ins_alu_byte(c, s3);
    let s4 = x86::step(c, s3);
    assert(s4.ip == 15);
    x86::names_reg(c, 16, 4, 0);
    assert(s4.r.eax == total);
    x86::ins_alu_byte(c, s4);
    let s5 = x86::step(c, s4);
    assert(s5.ip == 18);
    x86::names_near(c, 19, 1, 5);
    assert(s5.r.eax == total % 16);
    x86::low_bytes_are_kept(s5.r, 1, s.mem8[x86::wrap(s.r.ebp - 13)]);
    x86::ins_load8(c, s5);
    let s6 = x86::step(c, s5);
    assert(s6.ip == 21);
    x86::names_far(c, 22, 1, 0);
    x86::ins_store8(c, s6);
    let s7 = x86::step(c, s6);
    assert(s7.ip == 27);
}

#[verifier::rlimit(50)]
proof fn the_kind_is_told(cave: u32, s: Cpu) -> (m: nat)
    requires
        s.ip == 27,
        !s.returned,
    ensures
        ({
            let e = x86::run(packets::cave_code(cave), s, m);
            let kind = s.mem[x86::wrap(s.r.ebp - 0x60F4)];
            &&& e.ip == if kind == 190 || kind == 192 {
                64int
            } else {
                121
            }
            &&& e == (Cpu { ip: e.ip, f: e.f, ..s })
        }),
{
    let c = packets::cave_code(cave);
    broadcast use {crate::x86::group_cells, crate::code::group_code_len};

    assert(c.take(c.len() as int) =~= c);
    cave_code_bytes(c, cave);
    x86::wraps_around(s.r.ebp + 0xFFFF_9F0C);
    let s0 = s;
    x86::names_far(c, 28, 7, 5);
    x86::ins_alu_word(c, s0);
    let s1 = x86::step(c, s0);
    assert(s1.ip == 37);
    x86::ins_branch(c, s1);
    let s2 = x86::step(c, s1);
    assert(x86::run(c, s, 2) == s2) by {
        reveal_with_fuel(x86::run, 3);
    }
    if s2.ip != 43 {
        2
    } else {
        x86::names_far(c, 44, 7, 5);
        x86::ins_alu_word(c, s2);
        let s3 = x86::step(c, s2);
        assert(s3.ip == 53);
        x86::ins_branch(c, s3);
        let s4 = x86::step(c, s3);
        assert(x86::run(c, s, 4) == s4) by {
            reveal_with_fuel(x86::run, 5);
        }
        if s4.ip != 59 {
            4
        } else {
            x86::ins_jump(c, s4);
            let s5 = x86::step(c, s4);
            assert(x86::run(c, s, 5) == s5) by {
                reveal_with_fuel(x86::run, 6);
            }
            5
        }
    }
}

/// Every packet is counted, and its number noted in the ring of sixteen; items and drops
/// go on to be kept, everything else leads out.
#[verifier::rlimit(50)]
pub proof fn packets_are_counted_and_noted(cave: u32, s: Cpu) -> (m: nat)
    requires
        cave + 0x800 <= u32::MAX,
        s.ip == 0,
        !s.returned,
        x86::wrap(s.r.ebp - 0x60F4) != cave + 0x108,
    ensures
        ({
            let e = x86::run(packets::cave_code(cave), s, m);
            let total = s.mem[(cave + 0x108) as u32];
            let kind = s.mem[x86::wrap(s.r.ebp - 0x60F4)];
            &&& e.ip == if kind == 190 || kind == 192 {
                64int
            } else {
                121
            }
            &&& e.mem == s.mem.insert((cave + 0x108) as u32, x86::wrap(total + 1))
            &&& e.mem8 == s.mem8.insert(
                (cave + 0x120 + total % 16) as u32,
                s.mem8[x86::wrap(s.r.ebp - 13)],
            )
            &&& e.r.esp == s.r.esp && e.r.ebp == s.r.ebp && e.r.ebx == s.r.ebx
            &&& e.r.edx == s.r.edx && e.r.esi == s.r.esi && e.r.edi == s.r.edi
            &&& e.origin == s.origin && !e.returned && e.calls == s.calls
        }),
{
    let c = packets::cave_code(cave);
    the_number_is_noted(cave, s);
    let t = x86::run(c, s, 7);
    let k = the_kind_is_told(cave, t);
    x86::runs_follow_each_other(c, s, 7, k);
    7 + k
}

/// The next slot is found and counted.
#[verifier::rlimit(40)]
proof fn the_next_slot_is_taken(cave: u32, s: Cpu)
    requires
        s.ip == 64,
        cave + 0x800 <= u32::MAX,
        !s.returned,
        0x100 <= s.r.esp,
        s.r.esp <= cave || cave + 0x900 <= s.r.esp,
        s.r.esp <= s.r.ebp,
        s.r.ebp + 8 <= u32::MAX,
        s.r.ebp + 8 < cave || cave + 0x800 <= s.r.ebp + 8,
    ensures
        ({
            let e = x86::run(packets::cave_code(cave), s, 9);
            let tail = s.mem[(cave + 0x100) as u32];
            &&& e.ip == 97
            &&& e == (Cpu {
                ip: 97,
                f: e.f,
                r: x86::Regs {
                    ecx: (cave + 0x200 + 80 * (tail % 16)) as u32,
                    esp: (s.r.esp - 36) as u32,
                    ..s.r
                },
                mem: e.mem,
                ..s
            })
            &&& crate::laws::calls::saved(e.mem, s.r.esp - 32, s.r)
            &&& e.mem[(cave + 0x100) as u32] == x86::wrap(tail + 1)
            &&& e.mem[(cave + 0x10C) as u32] == x86::wrap(s.mem[(cave + 0x10C) as u32] + 1)
            &&& e.mem[(s.r.ebp + 8) as u32] == s.mem[(s.r.ebp + 8) as u32]
        }),
{
    let c = packets::cave_code(cave);
    broadcast use {crate::x86::group_cells, crate::code::group_code_len};

    assert(c.take(c.len() as int) =~= c);
    cave_code_bytes(c, cave);
    let tail = s.mem[(cave + 0x100) as u32];
    sixteenth(tail);
    assert(x86::wrap(15) == 15);
    x86::small_products(c, 90, tail % 16, 80);
    reveal_with_fuel(x86::run, 10);
    let s0 = s;
    x86::ins_lock(c, s0);
    let s1 = x86::step(c, s0);
    assert(s1.ip == 65);
    x86::names_cell(c, 66, 0);
    x86::ins_inc(c, s1);
    let s2 = x86::step(c, s1);
    assert(s2.ip == 71);
    crate::laws::calls::registers_are_saved(c, s2);
    let s3 = x86::step(c, s2);
    assert(s3.ip == 72);
    x86::ins_pushfd(c, s3);
    let s4 = x86::step(c, s3);
    assert(s4.ip == 73);
    x86::names_cell(c, 74, 1);
    x86::ins_load(c, s4);
    let s5 = x86::step(c, s4);
    assert(s5.ip == 79);
    x86::names_cell(c, 80, 0);
    x86::ins_inc(c, s5);
    let s6 = x86::step(c, s5);
    assert(s6.ip == 85);
    x86::names_reg(c, 86, 4, 1);
    x86::ins_alu_byte(c, s6);
    let s7 = x86::step(c, s6);
    assert(s7.ip == 88);
    x86::names_reg(c, 89, 1, 1);
    x86::ins_mul_byte(c, s7);
    let s8 = x86::step(c, s7);
    assert(s8.ip == 91);
    x86::names_reg(c, 92, 0, 1);
    x86::ins_alu_word(c, s8);
    let s9 = x86::step(c, s8);
    assert(s9.ip == 97);
}

/// The slot gets the packet's number and a mark.
#[verifier::rlimit(50)]
proof fn the_slot_is_marked(cave: u32, slot: int, s: Cpu)
    requires
        cave + 0x800 <= u32::MAX,
        cave + 0x200 <= slot <= cave + 0x200 + 80 * 15,
        s.ip == 97,
        !s.returned,
        s.r.ecx == slot,
        0x100 <= s.r.ebp,
    ensures
        ({
            let e = x86::run(packets::cave_code(cave), s, 3);
            e == (Cpu {
                ip: 106,
                r: x86::Regs { eax: e.r.eax, ..s.r },
                mem8: s.mem8.insert(slot as u32, s.mem8[(s.r.ebp - 13) as u32]).insert(
                    (slot + 1) as u32,
                    1,
                ),
                ..s
            })
        }),
{
    let c = packets::cave_code(cave);
    broadcast use {crate::x86::group_cells, crate::code::group_code_len};

    assert(c.take(c.len() as int) =~= c);
    cave_code_bytes(c, cave);
    x86::low_bytes_are_kept(s.r, 0, s.mem8[(s.r.ebp - 13) as u32]);
    reveal_with_fuel(x86::run, 4);
    let s0 = s;
    x86::names_near(c, 98, 0, 5);
    x86::ins_load8(c, s0);
    let s1 = x86::step(c, s0);
    assert(s1.ip == 100);
    x86::names_pointed(c, 101, 0, 1);
    x86::ins_store8(c, s1);
    let s2 = x86::step(c, s1);
    assert(s2.ip == 102);
    x86::names_near(c, 103, 0, 1);
    x86::ins_store_byte(c, s2);
    let s3 = x86::step(c, s2);
    assert(s3.ip == 106);
}

/// The slot gets what the packet says.
#[verifier::rlimit(50)]
proof fn the_slot_is_filled(cave: u32, slot: int, s: Cpu, i: int)
    requires
        cave + 0x800 <= u32::MAX,
        cave + 0x200 <= slot <= cave + 0x200 + 80 * 15,
        s.ip == 106,
        !s.returned,
        s.r.ecx == slot,
        s.r.ebp + 8 <= u32::MAX,
        s.mem[(s.r.ebp + 8) as u32] + 76 <= u32::MAX,
        0 <= i < 76,
    ensures
        ({
            let e = x86::run(packets::cave_code(cave), s, 4);
            let payload = s.mem[(s.r.ebp + 8) as u32];
            &&& e.ip == 119
            &&& e.mem == s.mem && e.r.esp == s.r.esp && !e.returned && e.calls == s.calls
            &&& e.mem8[slot as u32] == s.mem8[slot as u32]
            &&& e.mem8[(slot + 1) as u32] == s.mem8[(slot + 1) as u32]
            &&& e.mem8[(slot + 4 + i) as u32] == s.mem8[(payload + i) as u32]
        }),
{
    let c = packets::cave_code(cave);
    broadcast use {crate::x86::group_cells, crate::code::group_code_len};

    assert(c.take(c.len() as int) =~= c);
    cave_code_bytes(c, cave);
    reveal_with_fuel(x86::run, 5);
    let s0 = s;
    x86::names_near(c, 107, 6, 5);
    x86::ins_load(c, s0);
    let s1 = x86::step(c, s0);
    assert(s1.ip == 109);
    x86::names_near(c, 110, 7, 1);
    x86::ins_lea(c, s1);
    let s2 = x86::step(c, s1);
    assert(s2.ip == 112);
    x86::ins_mov_word(c, s2);
    let s3 = x86::step(c, s2);
    assert(s3.ip == 117);
    assert(s3.r.edi == slot + 4 && s3.r.ecx == 76);
    x86::bytes_are_copied(s3, i, slot as u32);
    x86::bytes_are_copied(s3, i, (slot + 1) as u32);
    x86::ins_copy(c, s3);
    let s4 = x86::step(c, s3);
    assert(s4.ip == 119);
}

#[verifier::rlimit(50)]
proof fn the_kept_packet_is_left(cave: u32, r: x86::Regs, s: Cpu)
    requires
        s.ip == 119,
        !s.returned,
        s.r.esp + 36 == r.esp,
        crate::laws::calls::saved(s.mem, s.r.esp + 4, r),
    ensures
        ({
            let e = x86::run(packets::cave_code(cave), s, 2);
            e == (Cpu { ip: 121, r, f: e.f, ..s })
        }),
{
    let c = packets::cave_code(cave);
    broadcast use {crate::x86::group_cells, crate::code::group_code_len};

    assert(c.take(c.len() as int) =~= c);
    cave_code_bytes(c, cave);
    reveal_with_fuel(x86::run, 3);
    let s0 = s;
    x86::ins_popfd(c, s0);
    let s1 = x86::step(c, s0);
    assert(s1.ip == 120);
    crate::laws::calls::registers_come_back(c, s1, r);
    let s2 = x86::step(c, s1);
    assert(s2.ip == 121);
}

/// An item or a drop is kept in the next of the sixteen slots: its number, a mark, and the
/// first 76 bytes of what it says; the slot is counted, and the registers are as they were.
#[verifier::rlimit(50)]
pub proof fn packets_are_kept_in_the_next_slot(cave: u32, s: Cpu, i: int)
    requires
        s.ip == 64,
        cave + 0x800 <= u32::MAX,
        !s.returned,
        0x100 <= s.r.esp,
        s.r.esp <= cave || cave + 0x900 <= s.r.esp,
        s.r.esp <= s.r.ebp,
        s.r.ebp + 8 <= u32::MAX,
        s.r.ebp + 8 < cave || cave + 0x800 <= s.r.ebp + 8,
        0x100 <= s.r.ebp,
        s.mem[(s.r.ebp + 8) as u32] + 76 <= cave || cave + 0x800 <= s.mem[(s.r.ebp + 8) as u32],
        s.mem[(s.r.ebp + 8) as u32] + 76 <= u32::MAX,
        0 <= i < 76,
    ensures
        ({
            let e = x86::run(packets::cave_code(cave), s, 18);
            let tail = s.mem[(cave + 0x100) as u32];
            let payload = s.mem[(s.r.ebp + 8) as u32];
            let slot = cave + 0x200 + 80 * (tail % 16);
            &&& e.ip == 121
            &&& e.r == s.r
            &&& !e.returned && e.calls == s.calls
            &&& e.mem[(cave + 0x100) as u32] == x86::wrap(tail + 1)
            &&& e.mem[(cave + 0x10C) as u32] == x86::wrap(s.mem[(cave + 0x10C) as u32] + 1)
            &&& e.mem8[slot as u32] == s.mem8[(s.r.ebp - 13) as u32]
            &&& e.mem8[(slot + 1) as u32] == 1
            &&& e.mem8[(slot + 4 + i) as u32] == s.mem8[(payload + i) as u32]
        }),
{
    let c = packets::cave_code(cave);
    let tail = s.mem[(cave + 0x100) as u32];
    the_next_slot_is_taken(cave, s);
    let t1 = x86::run(c, s, 9);
    let slot = cave + 0x200 + 80 * (tail % 16);
    the_slot_is_marked(cave, slot, t1);
    let t2 = x86::run(c, t1, 3);
    the_slot_is_filled(cave, slot, t2, i);
    let t3 = x86::run(c, t2, 4);
    the_kept_packet_is_left(cave, s.r, t3);
    x86::runs_follow_each_other(c, s, 9, 3);
    x86::runs_follow_each_other(c, s, 12, 4);
    x86::runs_follow_each_other(c, s, 16, 2);
}

/// And the packet goes where it would have gone.
#[verifier::rlimit(50)]
pub proof fn packets_go_where_they_would_have_gone(cave: u32, s: Cpu)
    requires
        s.ip == 121,
        !s.returned,
    ensures
        ({
            let e = x86::run(packets::cave_code(cave), s, 1);
            &&& x86::wrap(cave + e.ip) == 0x0054_1596
            &&& e == (Cpu { ip: e.ip, ..s })
        }),
{
    let c = packets::cave_code(cave);
    broadcast use {crate::x86::group_cells, crate::code::group_code_len};

    assert(c.take(c.len() as int) =~= c);
    cave_code_bytes(c, cave);
    x86::rel_leads(cave + 126, packets::NOP_HANDLER_ADDR);
    reveal_with_fuel(x86::run, 2);
    let s0 = s;
    x86::ins_jump(c, s0);
    let s1 = x86::step(c, s0);
}

#[verifier::rlimit(50)]
proof fn fill_template_code_bytes(c: Seq<u8>, cave: u32)
    requires
        x86::starts(c, images::fill_template_code(cave)),
    ensures
        c.len() >= 86,
        c[0] == 0xA1,
        x86::word_at(c, 1) == (cave + images::OFF_STOLEN_DST_SURF_OBJ) as u32,
        c[5] == 0xA3,
        x86::word_at(c, 6) == (cave + images::OFF_TEMPLATE + 0x1C) as u32,
        c[10] == 0xA1,
        x86::word_at(c, 11) == (cave + images::OFF_STOLEN_DESCRIPTOR) as u32,
        c[15] == 0xA3,
        x86::word_at(c, 16) == (cave + images::OFF_TEMPLATE + 0x3C) as u32,
        c[20] == 0xA1,
        x86::word_at(c, 21) == (cave + images::OFF_STOLEN_DESCRIPTOR + 4) as u32,
        c[25] == 0xA3,
        x86::word_at(c, 26) == (cave + images::OFF_TEMPLATE + 0x40) as u32,
        c[30] == 0xA1,
        x86::word_at(c, 31) == (cave + images::OFF_STOLEN_DESCRIPTOR + 8) as u32,
        c[35] == 0xA3,
        x86::word_at(c, 36) == (cave + images::OFF_TEMPLATE + 0x44) as u32,
        c[40] == 0xA1,
        x86::word_at(c, 41) == (cave + images::OFF_STOLEN_DESCRIPTOR + 12) as u32,
        c[45] == 0xA3,
        x86::word_at(c, 46) == (cave + images::OFF_TEMPLATE + 0x48) as u32,
        c[50] == 0xC6,
        c[51] == 0x05,
        x86::word_at(c, 52) == (cave + images::OFF_TEMPLATE + 0x2D) as u32,
        c[56] == 0x00,
        c[57] == 0x0F,
        c[58] == 0xB7,
        c[59] == 0x06,
        c[60] == 0xA3,
        x86::word_at(c, 61) == (cave + images::OFF_TEMPLATE + 0x20) as u32,
        c[65] == 0x8B,
        c[66] == 0x46,
        c[67] == 0x04,
        c[68] == 0xA3,
        x86::word_at(c, 69) == (cave + images::OFF_TEMPLATE + 0x04) as u32,
        c[73] == 0x8B,
        c[74] == 0x46,
        c[75] == 0x08,
        c[76] == 0xA3,
        x86::word_at(c, 77) == (cave + images::OFF_TEMPLATE + 0x08) as u32,
        c[81] == 0xB9,
        x86::word_at(c, 82) == (cave + images::OFF_TEMPLATE) as u32,
{
    broadcast use crate::code::group_code_len;

    let c0 = [0xA1u8]@;
    let c1 = code::put32(c0, (cave + images::OFF_STOLEN_DST_SURF_OBJ) as u32);
    let c2 = code::put(c1, [0xA3u8]@);
    let c3 = code::put32(c2, (cave + images::OFF_TEMPLATE + 0x1C) as u32);
    let c4 = code::put(c3, [0xA1u8]@);
    let c5 = code::put32(c4, (cave + images::OFF_STOLEN_DESCRIPTOR) as u32);
    let c6 = code::put(c5, [0xA3u8]@);
    let c7 = code::put32(c6, (cave + images::OFF_TEMPLATE + 0x3C) as u32);
    let c8 = code::put(c7, [0xA1u8]@);
    let c9 = code::put32(c8, (cave + images::OFF_STOLEN_DESCRIPTOR + 4) as u32);
    let c10 = code::put(c9, [0xA3u8]@);
    let c11 = code::put32(c10, (cave + images::OFF_TEMPLATE + 0x40) as u32);
    let c12 = code::put(c11, [0xA1u8]@);
    let c13 = code::put32(c12, (cave + images::OFF_STOLEN_DESCRIPTOR + 8) as u32);
    let c14 = code::put(c13, [0xA3u8]@);
    let c15 = code::put32(c14, (cave + images::OFF_TEMPLATE + 0x44) as u32);
    let c16 = code::put(c15, [0xA1u8]@);
    let c17 = code::put32(c16, (cave + images::OFF_STOLEN_DESCRIPTOR + 12) as u32);
    let c18 = code::put(c17, [0xA3u8]@);
    let c19 = code::put32(c18, (cave + images::OFF_TEMPLATE + 0x48) as u32);
    let c20 = code::put(c19, [0xC6u8, 0x05]@);
    let c21 = code::put32(c20, (cave + images::OFF_TEMPLATE + 0x2D) as u32);
    let c22 = code::put(c21, [ 0x00u8, 0x0F, 0xB7, 0x06, 0xA3, ]@);
    let c23 = code::put32(c22, (cave + images::OFF_TEMPLATE + 0x20) as u32);
    let c24 = code::put(c23, [ 0x8Bu8, 0x46, 0x04, 0xA3, ]@);
    let c25 = code::put32(c24, (cave + images::OFF_TEMPLATE + 0x04) as u32);
    let c26 = code::put(c25, [ 0x8Bu8, 0x46, 0x08, 0xA3, ]@);
    let c27 = code::put32(c26, (cave + images::OFF_TEMPLATE + 0x08) as u32);
    let c28 = code::put(c27, [0xB9u8]@);
    let c29 = code::put32(c28, (cave + images::OFF_TEMPLATE) as u32);
    assert(x86::starts(c, c29));
    x86::piece32(c, c28, (cave + images::OFF_TEMPLATE) as u32);
    x86::piece(c, c27, [0xB9u8]@);
    x86::piece32(c, c26, (cave + images::OFF_TEMPLATE + 0x08) as u32);
    x86::piece(c, c25, [ 0x8Bu8, 0x46, 0x08, 0xA3, ]@);
    x86::piece32(c, c24, (cave + images::OFF_TEMPLATE + 0x04) as u32);
    x86::piece(c, c23, [ 0x8Bu8, 0x46, 0x04, 0xA3, ]@);
    x86::piece32(c, c22, (cave + images::OFF_TEMPLATE + 0x20) as u32);
    x86::piece(c, c21, [ 0x00u8, 0x0F, 0xB7, 0x06, 0xA3, ]@);
    x86::piece32(c, c20, (cave + images::OFF_TEMPLATE + 0x2D) as u32);
    x86::piece(c, c19, [0xC6u8, 0x05]@);
    x86::piece32(c, c18, (cave + images::OFF_TEMPLATE + 0x48) as u32);
    x86::piece(c, c17, [0xA3u8]@);
    x86::piece32(c, c16, (cave + images::OFF_STOLEN_DESCRIPTOR + 12) as u32);
    x86::piece(c, c15, [0xA1u8]@);
    x86::piece32(c, c14, (cave + images::OFF_TEMPLATE + 0x44) as u32);
    x86::piece(c, c13, [0xA3u8]@);
    x86::piece32(c, c12, (cave + images::OFF_STOLEN_DESCRIPTOR + 8) as u32);
    x86::piece(c, c11, [0xA1u8]@);
    x86::piece32(c, c10, (cave + images::OFF_TEMPLATE + 0x40) as u32);
    x86::piece(c, c9, [0xA3u8]@);
    x86::piece32(c, c8, (cave + images::OFF_STOLEN_DESCRIPTOR + 4) as u32);
    x86::piece(c, c7, [0xA1u8]@);
    x86::piece32(c, c6, (cave + images::OFF_TEMPLATE + 0x3C) as u32);
    x86::piece(c, c5, [0xA3u8]@);
    x86::piece32(c, c4, (cave + images::OFF_STOLEN_DESCRIPTOR) as u32);
    x86::piece(c, c3, [0xA1u8]@);
    x86::piece32(c, c2, (cave + images::OFF_TEMPLATE + 0x1C) as u32);
    x86::piece(c, c1, [0xA3u8]@);
    x86::piece32(c, c0, (cave + images::OFF_STOLEN_DST_SURF_OBJ) as u32);
    assert forall|k: int| 0 <= k < c0.len() implies #[trigger] c[k] == c0[k] by {
        assert(c.take(c0.len() as int)[k] == c0[k]);
    }
}

/// The template gets the surface and the descriptor that were kept, and the picture and
/// the place of the entry.
#[verifier::rlimit(50)]
pub proof fn templates_are_filled(cave: u32, s: Cpu)
    requires
        cave + 0x600 <= u32::MAX,
        s.ip == 0,
        !s.returned,
        s.r.esi + 8 <= u32::MAX,
        s.r.esi + 8 < cave + 0x200 || cave + 0x280 <= s.r.esi,
    ensures
        ({
            let e = x86::run(images::fill_template_code(cave), s, 18);
            &&& e.ip == 86
            &&& e.r.ecx == cave + 0x200
            &&& e.r.esi == s.r.esi && e.r.edi == s.r.edi && e.r.esp == s.r.esp
            &&& e.mem[(cave + 0x200 + 0x1C) as u32] == s.mem[(cave + 0x08) as u32]
            &&& e.mem[(cave + 0x200 + 0x3C) as u32] == s.mem[(cave + 0x0C) as u32]
            &&& e.mem[(cave + 0x200 + 0x40) as u32] == s.mem[(cave + 0x10) as u32]
            &&& e.mem[(cave + 0x200 + 0x44) as u32] == s.mem[(cave + 0x14) as u32]
            &&& e.mem[(cave + 0x200 + 0x48) as u32] == s.mem[(cave + 0x18) as u32]
            &&& e.mem8[(cave + 0x200 + 0x2D) as u32] == 0
            &&& e.mem[(cave + 0x200 + 0x20) as u32] == s.mem16[s.r.esi]
            &&& e.mem[(cave + 0x200 + 0x4) as u32] == s.mem[(s.r.esi + 4) as u32]
            &&& e.mem[(cave + 0x200 + 0x8) as u32] == s.mem[(s.r.esi + 8) as u32]
        }),
{
    let c = images::fill_template_code(cave);
    broadcast use {crate::x86::group_cells, crate::code::group_code_len};

    assert(c.take(c.len() as int) =~= c);
    fill_template_code_bytes(c, cave);
    reveal_with_fuel(x86::run, 19);
    let s0 = s;
    x86::ins_load_eax(c, s0);
    let s1 = x86::step(c, s0);
    assert(s1.ip == 5);
    x86::ins_store_eax(c, s1);
    let s2 = x86::step(c, s1);
    assert(s2.ip == 10);
    x86::ins_load_eax(c, s2);
    let s3 = x86::step(c, s2);
    assert(s3.ip == 15);
    x86::ins_store_eax(c, s3);
    let s4 = x86::step(c, s3);
    assert(s4.ip == 20);
    x86::ins_load_eax(c, s4);
    let s5 = x86::step(c, s4);
    assert(s5.ip == 25);
    x86::ins_store_eax(c, s5);
    let s6 = x86::step(c, s5);
    assert(s6.ip == 30);
    x86::ins_load_eax(c, s6);
    let s7 = x86::step(c, s6);
    assert(s7.ip == 35);
    x86::ins_store_eax(c, s7);
    let s8 = x86::step(c, s7);
    assert(s8.ip == 40);
    x86::ins_load_eax(c, s8);
    let s9 = x86::step(c, s8);
    assert(s9.ip == 45);
    x86::ins_store_eax(c, s9);
    let s10 = x86::step(c, s9);
    assert(s10.ip == 50);
    x86::names_cell(c, 51, 0);
    x86::ins_store_byte(c, s10);
    let s11 = x86::step(c, s10);
    assert(s11.ip == 57);
    x86::names_pointed(c, 59, 0, 6);
    x86::ins_load16(c, s11);
    let s12 = x86::step(c, s11);
    assert(s12.ip == 60);
    x86::ins_store_eax(c, s12);
    let s13 = x86::step(c, s12);
    assert(s13.ip == 65);
    x86::names_near(c, 66, 0, 6);
    x86::ins_load(c, s13);
    let s14 = x86::step(c, s13);
    assert(s14.ip == 68);
    x86::ins_store_eax(c, s14);
    let s15 = x86::step(c, s14);
    assert(s15.ip == 73);
    x86::names_near(c, 74, 0, 6);
    x86::ins_load(c, s15);
    let s16 = x86::step(c, s15);
    assert(s16.ip == 76);
    x86::ins_store_eax(c, s16);
    let s17 = x86::step(c, s16);
    assert(s17.ip == 81);
    x86::ins_mov_word(c, s17);
    let s18 = x86::step(c, s17);
    assert(s18.ip == 86);
}

} // verus!
