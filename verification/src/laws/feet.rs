//! What the code does that shows hits at the feet of their target.

use vstd::prelude::*;

use crate::attack_damage_feet_hook as feet;
use crate::code;
use crate::x86;
use crate::x86::Cpu;

verus! {

#[verifier::rlimit(50)]
proof fn position_remote_code_bytes(c: Seq<u8>, cave: u32)
    requires
        x86::starts(c, feet::position_remote_code(cave)),
    ensures
        c.len() >= 61,
        c[0] == 0x89,
        c[1] == 0x81,
        c[2] == 0x80,
        c[3] == 0x03,
        c[4] == 0x00,
        c[5] == 0x00,
        c[6] == 0x66,
        c[7] == 0x81,
        c[8] == 0x7D,
        c[9] == 0x10,
        c[10] == feet::DAMAGE_COLOR_LO,
        c[11] == feet::DAMAGE_COLOR_HI,
        c[12] == 0x75,
        c[13] == 0x2A,
        c[14] == 0x8B,
        c[15] == 0x91,
        c[16] == 0x98,
        c[17] == 0x03,
        c[18] == 0x00,
        c[19] == 0x00,
        c[20] == 0x85,
        c[21] == 0xD2,
        c[22] == 0x74,
        c[23] == 0x20,
        c[24] == 0x0F,
        c[25] == 0xBE,
        c[26] == 0x42,
        c[27] == 0x1D,
        c[28] == 0x6B,
        c[29] == 0xC0,
        c[30] == 0x18,
        c[31] == 0x8B,
        c[32] == 0x92,
        c[33] == 0x8C,
        c[34] == 0x00,
        c[35] == 0x00,
        c[36] == 0x00,
        c[37] == 0x85,
        c[38] == 0xD2,
        c[39] == 0x74,
        c[40] == 0x0F,
        c[41] == 0x8B,
        c[42] == 0x54,
        c[43] == 0x02,
        c[44] == 0x14,
        c[45] == 0xF7,
        c[46] == 0xDA,
        c[47] == 0x83,
        c[48] == 0xC2,
        c[49] == feet::FEET_PAD,
        c[50] == 0x01,
        c[51] == 0x91,
        c[52] == 0x80,
        c[53] == 0x03,
        c[54] == 0x00,
        c[55] == 0x00,
        c[56] == 0xE9,
        x86::word_at(c, 57) == code::rel32(cave + feet::REMOTE_OFFSET + 61, feet::RETURN_AFTER_POSITION as int),
{
    broadcast use crate::code::group_code_len;

    let c0 = [ 0x89u8, 0x81, 0x80, 0x03, 0x00, 0x00, 0x66, 0x81, 0x7D, 0x10, feet::DAMAGE_COLOR_LO, feet::DAMAGE_COLOR_HI, 0x75, 0x2A, 0x8B, 0x91, 0x98, 0x03, 0x00, 0x00, 0x85, 0xD2, 0x74, 0x20, 0x0F, 0xBE, 0x42, 0x1D, 0x6B, 0xC0, 0x18, 0x8B, 0x92, 0x8C, 0x00, 0x00, 0x00, 0x85, 0xD2, 0x74, 0x0F, 0x8B, 0x54, 0x02, 0x14, 0xF7, 0xDA, 0x83, 0xC2, feet::FEET_PAD, 0x01, 0x91, 0x80, 0x03, 0x00, 0x00, ]@;
    let c1 = code::put(c0, [0xE9u8]@);
    let c2 = code::put32(c1, code::rel32(cave + feet::REMOTE_OFFSET + 61, feet::RETURN_AFTER_POSITION as int));
    assert(x86::starts(c, c2));
    x86::piece32(c, c1, code::rel32(cave + feet::REMOTE_OFFSET + 61, feet::RETURN_AFTER_POSITION as int));
    x86::piece(c, c0, [0xE9u8]@);
    assert forall|k: int| 0 <= k < c0.len() implies #[trigger] c[k] == c0[k] by {
        assert(c.take(c0.len() as int)[k] == c0[k]);
    }
}

/// A text is placed where it was to be; a red one over an object that has a picture is moved
/// to the feet of the picture, and a little below.
#[verifier::rlimit(50)]
pub proof fn others_texts_stand_at_their_feet(cave: u32, s: Cpu) -> (m: nat)
    requires
        s.ip == 0,
        !s.returned,
        s.r.ecx + 0x39C <= u32::MAX,
        s.r.ecx + 0x380 != x86::wrap(s.mem[(s.r.ecx + 0x398) as u32] + 0x8C),
    ensures
        ({
            let text = s.r.ecx;
            let red = s.mem16[x86::wrap(s.r.ebp + 0x10)] == 0xF800;
            let obj = s.mem[(text + 0x398) as u32];
            let frames = s.mem[x86::wrap(obj + 0x8C)];
            let turn = x86::wrap(x86::signed(x86::wrap(x86::signed8(s.mem8[x86::wrap(obj + 0x1D)])))
                * 24);
            let mem = s.mem.insert((text + 0x380) as u32, s.r.eax);
            let height = mem[x86::wrap(frames + turn + 0x14)];
            let e = x86::run(feet::position_remote_code(cave), s, m);
            &&& x86::wrap(cave + feet::REMOTE_OFFSET + e.ip) == 0x0042_BA01
            &&& e.mem[(text + 0x380) as u32] == if red && obj != 0 && frames != 0 {
                x86::wrap(s.r.eax + x86::wrap(x86::wrap(-height) + 0x20))
            } else {
                s.r.eax
            }
            &&& e.r.esp == s.r.esp && e.r.ebp == s.r.ebp && !e.returned
        }),
{
    let c = feet::position_remote_code(cave);
    broadcast use {crate::x86::group_cells, crate::code::group_code_len};

    assert(c.take(c.len() as int) =~= c);
    position_remote_code_bytes(c, cave);
    assert(code::from_le16(c.subrange(10, 12)) == 0xF800) by {
        let w = c.subrange(10, 12);
        assert(w[0] == 0 && w[1] == 0xF8);
    }
    x86::rel_leads(cave + feet::REMOTE_OFFSET + 61, feet::RETURN_AFTER_POSITION);
    let s0 = s;
    x86::names_far(c, 1, 0, 1);
    x86::ins_store(c, s0);
    let s1 = x86::step(c, s0);
    assert(s1.ip == 6);
    x86::names_near(c, 8, 7, 5);
    x86::ins_compare_half(c, s1);
    let s2 = x86::step(c, s1);
    assert(s2.ip == 12);
    x86::ins_branch_near(c, s2);
    let s3 = x86::step(c, s2);
    if s3.ip != 14 {
        assert(s3.ip == 56);
        x86::ins_jump(c, s3);
        let s4 = x86::step(c, s3);
        assert(x86::run(c, s, 4) == s4) by {
            reveal_with_fuel(x86::run, 5);
        }
        4
    } else {
        x86::names_far(c, 15, 2, 1);
        x86::ins_load(c, s3);
        let s4 = x86::step(c, s3);
        assert(s4.ip == 20);
        x86::names_reg(c, 21, 2, 2);
        x86::ins_test(c, s4);
        let s5 = x86::step(c, s4);
        assert(s5.ip == 22);
        x86::ins_branch_near(c, s5);
        let s6 = x86::step(c, s5);
        if s6.ip != 24 {
            assert(s6.ip == 56);
            x86::ins_jump(c, s6);
            let s7 = x86::step(c, s6);
            assert(x86::run(c, s, 7) == s7) by {
                reveal_with_fuel(x86::run, 8);
            }
            7
        } else {
            x86::names_near(c, 26, 0, 2);
            x86::ins_load_signed8(c, s6);
            let s7 = x86::step(c, s6);
            assert(s7.ip == 28);
            x86::names_reg(c, 29, 0, 0);
            x86::ins_mul_byte(c, s7);
            let s8 = x86::step(c, s7);
            assert(s8.ip == 31);
            x86::names_far(c, 32, 2, 2);
            x86::ins_load(c, s8);
            let s9 = x86::step(c, s8);
            assert(s9.ip == 37);
            x86::names_reg(c, 38, 2, 2);
            x86::ins_test(c, s9);
            let s10 = x86::step(c, s9);
            assert(s10.ip == 39);
            x86::ins_branch_near(c, s10);
            let s11 = x86::step(c, s10);
            if s11.ip != 41 {
                assert(s11.ip == 56);
                x86::ins_jump(c, s11);
                let s12 = x86::step(c, s11);
                assert(x86::run(c, s, 12) == s12) by {
                    reveal_with_fuel(x86::run, 13);
                }
                12
            } else {
                x86::names_indexed_near(c, 42, 2, 2, 0);
                x86::ins_load(c, s11);
                let s12 = x86::step(c, s11);
                assert(s12.ip == 45);
                x86::names_reg(c, 46, 3, 2);
                x86::ins_negate(c, s12);
                let s13 = x86::step(c, s12);
                assert(s13.ip == 47);
                x86::names_reg(c, 48, 0, 2);
                x86::ins_alu_byte(c, s13);
                let s14 = x86::step(c, s13);
                assert(s14.ip == 50);
                x86::names_far(c, 51, 2, 1);
                x86::ins_alu_into(c, s14);
                let s15 = x86::step(c, s14);
                assert(s15.ip == 56);
                x86::ins_jump(c, s15);
                let s16 = x86::step(c, s15);
                assert(x86::run(c, s, 16) == s16) by {
                    reveal_with_fuel(x86::run, 17);
                }
                16
            }
        }
    }
}

#[verifier::rlimit(50)]
proof fn position_local_code_bytes(c: Seq<u8>, cave: u32)
    requires
        x86::starts(c, feet::position_local_code(cave)),
    ensures
        c.len() >= 61,
        c[0] == 0x89,
        c[1] == 0x8A,
        c[2] == 0x80,
        c[3] == 0x03,
        c[4] == 0x00,
        c[5] == 0x00,
        c[6] == 0x66,
        c[7] == 0x81,
        c[8] == 0x7D,
        c[9] == 0x10,
        c[10] == feet::DAMAGE_COLOR_LO,
        c[11] == feet::DAMAGE_COLOR_HI,
        c[12] == 0x75,
        c[13] == 0x2A,
        c[14] == 0x8B,
        c[15] == 0x8A,
        c[16] == 0x98,
        c[17] == 0x03,
        c[18] == 0x00,
        c[19] == 0x00,
        c[20] == 0x85,
        c[21] == 0xC9,
        c[22] == 0x74,
        c[23] == 0x20,
        c[24] == 0x0F,
        c[25] == 0xBE,
        c[26] == 0x41,
        c[27] == 0x1D,
        c[28] == 0x6B,
        c[29] == 0xC0,
        c[30] == 0x18,
        c[31] == 0x8B,
        c[32] == 0x89,
        c[33] == 0x8C,
        c[34] == 0x00,
        c[35] == 0x00,
        c[36] == 0x00,
        c[37] == 0x85,
        c[38] == 0xC9,
        c[39] == 0x74,
        c[40] == 0x0F,
        c[41] == 0x8B,
        c[42] == 0x4C,
        c[43] == 0x01,
        c[44] == 0x14,
        c[45] == 0xF7,
        c[46] == 0xD9,
        c[47] == 0x83,
        c[48] == 0xC1,
        c[49] == feet::FEET_PAD,
        c[50] == 0x01,
        c[51] == 0x8A,
        c[52] == 0x80,
        c[53] == 0x03,
        c[54] == 0x00,
        c[55] == 0x00,
        c[56] == 0xE9,
        x86::word_at(c, 57) == code::rel32(cave + feet::LOCAL_OFFSET + 61, feet::RETURN_AFTER_POSITION as int),
{
    broadcast use crate::code::group_code_len;

    let c0 = [ 0x89u8, 0x8A, 0x80, 0x03, 0x00, 0x00, 0x66, 0x81, 0x7D, 0x10, feet::DAMAGE_COLOR_LO, feet::DAMAGE_COLOR_HI, 0x75, 0x2A, 0x8B, 0x8A, 0x98, 0x03, 0x00, 0x00, 0x85, 0xC9, 0x74, 0x20, 0x0F, 0xBE, 0x41, 0x1D, 0x6B, 0xC0, 0x18, 0x8B, 0x89, 0x8C, 0x00, 0x00, 0x00, 0x85, 0xC9, 0x74, 0x0F, 0x8B, 0x4C, 0x01, 0x14, 0xF7, 0xD9, 0x83, 0xC1, feet::FEET_PAD, 0x01, 0x8A, 0x80, 0x03, 0x00, 0x00, ]@;
    let c1 = code::put(c0, [0xE9u8]@);
    let c2 = code::put32(c1, code::rel32(cave + feet::LOCAL_OFFSET + 61, feet::RETURN_AFTER_POSITION as int));
    assert(x86::starts(c, c2));
    x86::piece32(c, c1, code::rel32(cave + feet::LOCAL_OFFSET + 61, feet::RETURN_AFTER_POSITION as int));
    x86::piece(c, c0, [0xE9u8]@);
    assert forall|k: int| 0 <= k < c0.len() implies #[trigger] c[k] == c0[k] by {
        assert(c.take(c0.len() as int)[k] == c0[k]);
    }
}

/// As for others, for a text over the player.
#[verifier::rlimit(50)]
pub proof fn own_texts_stand_at_the_feet(cave: u32, s: Cpu) -> (m: nat)
    requires
        s.ip == 0,
        !s.returned,
        s.r.edx + 0x39C <= u32::MAX,
        s.r.edx + 0x380 != x86::wrap(s.mem[(s.r.edx + 0x398) as u32] + 0x8C),
    ensures
        ({
            let text = s.r.edx;
            let red = s.mem16[x86::wrap(s.r.ebp + 0x10)] == 0xF800;
            let obj = s.mem[(text + 0x398) as u32];
            let frames = s.mem[x86::wrap(obj + 0x8C)];
            let turn = x86::wrap(x86::signed(x86::wrap(x86::signed8(s.mem8[x86::wrap(obj + 0x1D)])))
                * 24);
            let mem = s.mem.insert((text + 0x380) as u32, s.r.ecx);
            let height = mem[x86::wrap(frames + turn + 0x14)];
            let e = x86::run(feet::position_local_code(cave), s, m);
            &&& x86::wrap(cave + feet::LOCAL_OFFSET + e.ip) == 0x0042_BA01
            &&& e.mem[(text + 0x380) as u32] == if red && obj != 0 && frames != 0 {
                x86::wrap(s.r.ecx + x86::wrap(x86::wrap(-height) + 0x20))
            } else {
                s.r.ecx
            }
            &&& e.r.esp == s.r.esp && e.r.ebp == s.r.ebp && !e.returned
        }),
{
    let c = feet::position_local_code(cave);
    broadcast use {crate::x86::group_cells, crate::code::group_code_len};

    assert(c.take(c.len() as int) =~= c);
    position_local_code_bytes(c, cave);
    assert(code::from_le16(c.subrange(10, 12)) == 0xF800) by {
        let w = c.subrange(10, 12);
        assert(w[0] == 0 && w[1] == 0xF8);
    }
    x86::rel_leads(cave + feet::LOCAL_OFFSET + 61, feet::RETURN_AFTER_POSITION);
    let s0 = s;
    x86::names_far(c, 1, 1, 2);
    x86::ins_store(c, s0);
    let s1 = x86::step(c, s0);
    assert(s1.ip == 6);
    x86::names_near(c, 8, 7, 5);
    x86::ins_compare_half(c, s1);
    let s2 = x86::step(c, s1);
    assert(s2.ip == 12);
    x86::ins_branch_near(c, s2);
    let s3 = x86::step(c, s2);
    if s3.ip != 14 {
        assert(s3.ip == 56);
        x86::ins_jump(c, s3);
        let s4 = x86::step(c, s3);
        assert(x86::run(c, s, 4) == s4) by {
            reveal_with_fuel(x86::run, 5);
        }
        4
    } else {
        x86::names_far(c, 15, 1, 2);
        x86::ins_load(c, s3);
        let s4 = x86::step(c, s3);
        assert(s4.ip == 20);
        x86::names_reg(c, 21, 1, 1);
        x86::ins_test(c, s4);
        let s5 = x86::step(c, s4);
        assert(s5.ip == 22);
        x86::ins_branch_near(c, s5);
        let s6 = x86::step(c, s5);
        if s6.ip != 24 {
            assert(s6.ip == 56);
            x86::ins_jump(c, s6);
            let s7 = x86::step(c, s6);
            assert(x86::run(c, s, 7) == s7) by {
                reveal_with_fuel(x86::run, 8);
            }
            7
        } else {
            x86::names_near(c, 26, 0, 1);
            x86::ins_load_signed8(c, s6);
            let s7 = x86::step(c, s6);
            assert(s7.ip == 28);
            x86::names_reg(c, 29, 0, 0);
            x86::ins_mul_byte(c, s7);
            let s8 = x86::step(c, s7);
            assert(s8.ip == 31);
            x86::names_far(c, 32, 1, 1);
            x86::ins_load(c, s8);
            let s9 = x86::step(c, s8);
            assert(s9.ip == 37);
            x86::names_reg(c, 38, 1, 1);
            x86::ins_test(c, s9);
            let s10 = x86::step(c, s9);
            assert(s10.ip == 39);
            x86::ins_branch_near(c, s10);
            let s11 = x86::step(c, s10);
            if s11.ip != 41 {
                assert(s11.ip == 56);
                x86::ins_jump(c, s11);
                let s12 = x86::step(c, s11);
                assert(x86::run(c, s, 12) == s12) by {
                    reveal_with_fuel(x86::run, 13);
                }
                12
            } else {
                x86::names_indexed_near(c, 42, 1, 1, 0);
                x86::ins_load(c, s11);
                let s12 = x86::step(c, s11);
                assert(s12.ip == 45);
                x86::names_reg(c, 46, 3, 1);
                x86::ins_negate(c, s12);
                let s13 = x86::step(c, s12);
                assert(s13.ip == 47);
                x86::names_reg(c, 48, 0, 1);
                x86::ins_alu_byte(c, s13);
                let s14 = x86::step(c, s13);
                assert(s14.ip == 50);
                x86::names_far(c, 51, 1, 2);
                x86::ins_alu_into(c, s14);
                let s15 = x86::step(c, s14);
                assert(s15.ip == 56);
                x86::ins_jump(c, s15);
                let s16 = x86::step(c, s15);
                assert(x86::run(c, s, 16) == s16) by {
                    reveal_with_fuel(x86::run, 17);
                }
                16
            }
        }
    }
}

#[verifier::rlimit(50)]
proof fn post_ac80_code_bytes(c: Seq<u8>, cave: u32)
    requires
        x86::starts(c, feet::post_ac80_code(cave)),
    ensures
        c.len() >= 31,
        c[0] == 0x8B,
        c[1] == 0x55,
        c[2] == 0xE0,
        c[3] == 0x66,
        c[4] == 0x81,
        c[5] == 0xBA,
        c[6] == 0x9C,
        c[7] == 0x03,
        c[8] == 0x00,
        c[9] == 0x00,
        c[10] == feet::DAMAGE_COLOR_LO,
        c[11] == feet::DAMAGE_COLOR_HI,
        c[12] == 0x75,
        c[13] == 0x07,
        c[14] == 0xC6,
        c[15] == 0x82,
        c[16] == 0x6A,
        c[17] == 0x03,
        c[18] == 0x00,
        c[19] == 0x00,
        c[20] == 0x04,
        c[21] == 0x0F,
        c[22] == 0xB6,
        c[23] == 0xC0,
        c[24] == 0x85,
        c[25] == 0xC0,
        c[26] == 0xE9,
        x86::word_at(c, 27) == code::rel32(cave + feet::POST_AC80_OFFSET + 31, feet::RETURN_AFTER_POST_AC80 as int),
{
    broadcast use crate::code::group_code_len;

    let c0 = [ 0x8Bu8, 0x55, 0xE0, 0x66, 0x81, 0xBA, 0x9C, 0x03, 0x00, 0x00, feet::DAMAGE_COLOR_LO, feet::DAMAGE_COLOR_HI, 0x75, 0x07, 0xC6, 0x82, 0x6A, 0x03, 0x00, 0x00, 0x04, 0x0F, 0xB6, 0xC0, 0x85, 0xC0, ]@;
    let c1 = code::put(c0, [0xE9u8]@);
    let c2 = code::put32(c1, code::rel32(cave + feet::POST_AC80_OFFSET + 31, feet::RETURN_AFTER_POST_AC80 as int));
    assert(x86::starts(c, c2));
    x86::piece32(c, c1, code::rel32(cave + feet::POST_AC80_OFFSET + 31, feet::RETURN_AFTER_POST_AC80 as int));
    x86::piece(c, c0, [0xE9u8]@);
    assert forall|k: int| 0 <= k < c0.len() implies #[trigger] c[k] == c0[k] by {
        assert(c.take(c0.len() as int)[k] == c0[k]);
    }
}

/// A red text is marked with a 4, and no other is touched; what was there before the hook is
/// done after it.
#[verifier::rlimit(50)]
pub proof fn red_texts_are_marked(cave: u32, s: Cpu) -> (m: nat)
    requires
        s.ip == 0,
        !s.returned,
    ensures
        ({
            let e = x86::run(feet::post_ac80_code(cave), s, m);
            &&& x86::wrap(cave + feet::POST_AC80_OFFSET + e.ip) == 0x0042_BB00
            &&& e.r.edx == s.mem[x86::wrap(s.r.ebp - 0x20)]
            &&& e.mem8 == if s.mem16[x86::wrap(e.r.edx + 0x39C)] == 0xF800 {
                s.mem8.insert(x86::wrap(e.r.edx + 0x36A), 4)
            } else {
                s.mem8
            }
            &&& e.r.eax == s.r.eax % 256
            &&& e.f.zf == (s.r.eax % 256 == 0)
            &&& e.r.esp == s.r.esp && e.r.ebp == s.r.ebp && e.mem == s.mem && !e.returned
        }),
{
    let c = feet::post_ac80_code(cave);
    broadcast use {crate::x86::group_cells, crate::code::group_code_len};

    assert(c.take(c.len() as int) =~= c);
    post_ac80_code_bytes(c, cave);
    assert(code::from_le16(c.subrange(10, 12)) == 0xF800) by {
        let w = c.subrange(10, 12);
        assert(w[0] == 0 && w[1] == 0xF8);
    }
    x86::rel_leads(cave + feet::POST_AC80_OFFSET + 31, feet::RETURN_AFTER_POST_AC80);
    let s0 = s;
    x86::names_near(c, 1, 2, 5);
    x86::ins_load(c, s0);
    let s1 = x86::step(c, s0);
    assert(s1.ip == 3);
    x86::names_far(c, 5, 7, 2);
    x86::ins_compare_half(c, s1);
    let s2 = x86::step(c, s1);
    assert(s2.ip == 12);
    x86::ins_branch_near(c, s2);
    let s3 = x86::step(c, s2);
    if s3.ip != 14 {
        assert(s3.ip == 21);
        x86::ins_low_byte(c, s3);
        let s4 = x86::step(c, s3);
        assert(s4.ip == 24);
        x86::names_reg(c, 25, 0, 0);
        x86::ins_test(c, s4);
        let s5 = x86::step(c, s4);
        assert(s5.ip == 26);
        x86::ins_jump(c, s5);
        let s6 = x86::step(c, s5);
        assert(x86::run(c, s, 6) == s6) by {
            reveal_with_fuel(x86::run, 7);
        }
        6
    } else {
        x86::names_far(c, 15, 0, 2);
        x86::ins_store_byte(c, s3);
        let s4 = x86::step(c, s3);
        assert(s4.ip == 21);
        x86::ins_low_byte(c, s4);
        let s5 = x86::step(c, s4);
        assert(s5.ip == 24);
        x86::names_reg(c, 25, 0, 0);
        x86::ins_test(c, s5);
        let s6 = x86::step(c, s5);
        assert(s6.ip == 26);
        x86::ins_jump(c, s6);
        let s7 = x86::step(c, s6);
        assert(x86::run(c, s, 7) == s7) by {
            reveal_with_fuel(x86::run, 8);
        }
        7
    }
}

#[verifier::rlimit(50)]
proof fn ac80_reset_code_bytes(c: Seq<u8>, cave: u32)
    requires
        x86::starts(c, feet::ac80_reset_code(cave)),
    ensures
        c.len() >= 23,
        c[0] == 0x66,
        c[1] == 0x81,
        c[2] == 0xB9,
        c[3] == 0x9C,
        c[4] == 0x03,
        c[5] == 0x00,
        c[6] == 0x00,
        c[7] == feet::DAMAGE_COLOR_LO,
        c[8] == feet::DAMAGE_COLOR_HI,
        c[9] == 0x74,
        c[10] == 0x07,
        c[11] == 0xC6,
        c[12] == 0x81,
        c[13] == 0x6A,
        c[14] == 0x03,
        c[15] == 0x00,
        c[16] == 0x00,
        c[17] == 0x00,
        c[18] == 0xE9,
        x86::word_at(c, 19) == code::rel32(cave + feet::AC80_RESET_OFFSET + 23, feet::RETURN_AFTER_AC80_RESET as int),
{
    broadcast use crate::code::group_code_len;

    let c0 = [ 0x66u8, 0x81, 0xB9, 0x9C, 0x03, 0x00, 0x00, feet::DAMAGE_COLOR_LO, feet::DAMAGE_COLOR_HI, 0x74, 0x07, 0xC6, 0x81, 0x6A, 0x03, 0x00, 0x00, 0x00, ]@;
    let c1 = code::put(c0, [0xE9u8]@);
    let c2 = code::put32(c1, code::rel32(cave + feet::AC80_RESET_OFFSET + 23, feet::RETURN_AFTER_AC80_RESET as int));
    assert(x86::starts(c, c2));
    x86::piece32(c, c1, code::rel32(cave + feet::AC80_RESET_OFFSET + 23, feet::RETURN_AFTER_AC80_RESET as int));
    x86::piece(c, c0, [0xE9u8]@);
    assert forall|k: int| 0 <= k < c0.len() implies #[trigger] c[k] == c0[k] by {
        assert(c.take(c0.len() as int)[k] == c0[k]);
    }
}

/// The mark of a red text stays; that of any other is taken off.
#[verifier::rlimit(50)]
pub proof fn marks_of_red_texts_stay(cave: u32, s: Cpu) -> (m: nat)
    requires
        s.ip == 0,
        !s.returned,
    ensures
        ({
            let e = x86::run(feet::ac80_reset_code(cave), s, m);
            &&& x86::wrap(cave + feet::AC80_RESET_OFFSET + e.ip) == 0x0042_AE13
            &&& e.mem8 == if s.mem16[x86::wrap(s.r.ecx + 0x39C)] == 0xF800 {
                s.mem8
            } else {
                s.mem8.insert(x86::wrap(s.r.ecx + 0x36A), 0)
            }
            &&& e.r.esp == s.r.esp && e.r.ebp == s.r.ebp && e.mem == s.mem && !e.returned
        }),
{
    let c = feet::ac80_reset_code(cave);
    broadcast use {crate::x86::group_cells, crate::code::group_code_len};

    assert(c.take(c.len() as int) =~= c);
    ac80_reset_code_bytes(c, cave);
    assert(code::from_le16(c.subrange(7, 9)) == 0xF800) by {
        let w = c.subrange(7, 9);
        assert(w[0] == 0 && w[1] == 0xF8);
    }
    x86::rel_leads(cave + feet::AC80_RESET_OFFSET + 23, feet::RETURN_AFTER_AC80_RESET);
    let s0 = s;
    x86::names_far(c, 2, 7, 1);
    x86::ins_compare_half(c, s0);
    let s1 = x86::step(c, s0);
    assert(s1.ip == 9);
    x86::ins_branch_near(c, s1);
    let s2 = x86::step(c, s1);
    if s2.ip != 11 {
        assert(s2.ip == 18);
        x86::ins_jump(c, s2);
        let s3 = x86::step(c, s2);
        assert(x86::run(c, s, 3) == s3) by {
            reveal_with_fuel(x86::run, 4);
        }
        3
    } else {
        x86::names_far(c, 12, 0, 1);
        x86::ins_store_byte(c, s2);
        let s3 = x86::step(c, s2);
        assert(s3.ip == 18);
        x86::ins_jump(c, s3);
        let s4 = x86::step(c, s3);
        assert(x86::run(c, s, 4) == s4) by {
            reveal_with_fuel(x86::run, 5);
        }
        4
    }
}

} // verus!
