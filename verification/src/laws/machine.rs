//! What the code that goes into the client does.

use vstd::prelude::*;

use crate::attack_damage_hook as attack;
use crate::attack_damage_hook::LastHitState;
use crate::code;
use crate::x86;
use crate::x86::Cpu;

verus! {

#[verifier::rlimit(50)]
proof fn update_target_total_code_bytes(cave: u32)
    ensures
        ({
            let c = attack::update_target_total_code(cave);
            &&& c.len() == 80
            &&& c[0] == 0x51
            &&& c[1] == 0x52
            &&& c[2] == 0xFF
            &&& c[3] == 0x15
            &&& x86::word_at(c, 4) == attack::data_addr(cave, attack::GET_TICK_COUNT_PTR)
            &&& c[8] == 0x5A
            &&& c[9] == 0x59
            &&& c[10] == 0x89
            &&& c[11] == 0xC3
            &&& c[12] == 0x2B
            &&& c[13] == 0x1D
            &&& x86::word_at(c, 14) == attack::data_addr(cave, attack::LAST_TICK)
            &&& c[18] == 0x3B
            &&& c[19] == 0x0D
            &&& x86::word_at(c, 20) == attack::data_addr(cave, attack::LAST_TARGET)
            &&& c[24] == 0x0F
            &&& c[25] == 0x85
            &&& x86::far(c, 26) == attack::TOTAL_RESET as int
            &&& c[30] == 0x81
            &&& c[31] == 0xFB
            &&& x86::word_at(c, 32) == attack::ACCUMULATOR_TIMEOUT_MS
            &&& c[36] == 0x0F
            &&& c[37] == 0x87
            &&& x86::far(c, 38) == attack::TOTAL_RESET as int
            &&& c[42] == 0x01
            &&& c[43] == 0x15
            &&& x86::word_at(c, 44) == attack::data_addr(cave, attack::LAST_TOTAL)
            &&& c[48] == 0xE9
            &&& x86::far(c, 49) == attack::TOTAL_COMMIT as int
            &&& c[53] == 0x89
            &&& c[54] == 0x0D
            &&& x86::word_at(c, 55) == attack::data_addr(cave, attack::LAST_TARGET)
            &&& c[59] == 0x89
            &&& c[60] == 0x15
            &&& x86::word_at(c, 61) == attack::data_addr(cave, attack::LAST_TOTAL)
            &&& c[65] == 0xA3
            &&& x86::word_at(c, 66) == attack::data_addr(cave, attack::LAST_TICK)
            &&& c[70] == 0xA1
            &&& x86::word_at(c, 71) == attack::data_addr(cave, attack::LAST_TOTAL)
            &&& c[75] == 0xA3
            &&& x86::word_at(c, 76) == attack::data_addr(cave, attack::TOTAL_DAMAGE)
        }),
{
    broadcast use crate::code::group_code_len;

    let c = attack::update_target_total_code(cave);
    let c0 = [ 0x51u8, 0x52, 0xFF, 0x15, ]@;
    let c1 = code::put32(c0, attack::data_addr(cave, attack::GET_TICK_COUNT_PTR));
    let c2 = code::put(c1, [ 0x5Au8, 0x59, 0x89, 0xC3, 0x2B, 0x1D, ]@);
    let c3 = code::put32(c2, attack::data_addr(cave, attack::LAST_TICK));
    let c4 = code::put(c3, [0x3Bu8, 0x0D]@);
    let c5 = code::put32(c4, attack::data_addr(cave, attack::LAST_TARGET));
    let c6 = code::jcc(c5, 0x85, attack::TOTAL_RESET as int);
    let c7 = code::put(c6, [0x81u8, 0xFB]@);
    let c8 = code::put32(c7, attack::ACCUMULATOR_TIMEOUT_MS);
    let c9 = code::jcc(c8, 0x87, attack::TOTAL_RESET as int);
    let c10 = code::put(c9, [0x01u8, 0x15]@);
    let c11 = code::put32(c10, attack::data_addr(cave, attack::LAST_TOTAL));
    let c12 = code::jmp(c11, attack::TOTAL_COMMIT as int);
    let c13 = code::put(c12, [0x89u8, 0x0D]@);
    let c14 = code::put32(c13, attack::data_addr(cave, attack::LAST_TARGET));
    let c15 = code::put(c14, [0x89u8, 0x15]@);
    let c16 = code::put32(c15, attack::data_addr(cave, attack::LAST_TOTAL));
    let c17 = code::put(c16, [0xA3u8]@);
    let c18 = code::put32(c17, attack::data_addr(cave, attack::LAST_TICK));
    let c19 = code::put(c18, [0xA1u8]@);
    let c20 = code::put32(c19, attack::data_addr(cave, attack::LAST_TOTAL));
    let c21 = code::put(c20, [0xA3u8]@);
    let c22 = code::put32(c21, attack::data_addr(cave, attack::TOTAL_DAMAGE));
    assert(c == c22);
    assert(c.take(c.len() as int) =~= c);
    x86::piece32(c, c21, attack::data_addr(cave, attack::TOTAL_DAMAGE));
    x86::piece(c, c20, [0xA3u8]@);
    x86::piece32(c, c19, attack::data_addr(cave, attack::LAST_TOTAL));
    x86::piece(c, c18, [0xA1u8]@);
    x86::piece32(c, c17, attack::data_addr(cave, attack::LAST_TICK));
    x86::piece(c, c16, [0xA3u8]@);
    x86::piece32(c, c15, attack::data_addr(cave, attack::LAST_TOTAL));
    x86::piece(c, c14, [0x89u8, 0x15]@);
    x86::piece32(c, c13, attack::data_addr(cave, attack::LAST_TARGET));
    x86::piece(c, c12, [0x89u8, 0x0D]@);
    x86::piece_jmp(c, c11, attack::TOTAL_COMMIT as int);
    x86::piece32(c, c10, attack::data_addr(cave, attack::LAST_TOTAL));
    x86::piece(c, c9, [0x01u8, 0x15]@);
    x86::piece_jcc(c, c8, 0x87, attack::TOTAL_RESET as int);
    x86::piece32(c, c7, attack::ACCUMULATOR_TIMEOUT_MS);
    x86::piece(c, c6, [0x81u8, 0xFB]@);
    x86::piece_jcc(c, c5, 0x85, attack::TOTAL_RESET as int);
    x86::piece32(c, c4, attack::data_addr(cave, attack::LAST_TARGET));
    x86::piece(c, c3, [0x3Bu8, 0x0D]@);
    x86::piece32(c, c2, attack::data_addr(cave, attack::LAST_TICK));
    x86::piece(c, c1, [ 0x5Au8, 0x59, 0x89, 0xC3, 0x2B, 0x1D, ]@);
    x86::piece32(c, c0, attack::data_addr(cave, attack::GET_TICK_COUNT_PTR));
    assert forall|k: int| 0 <= k < c0.len() implies #[trigger] c[k] == c0[k] by {
        assert(c.take(c0.len() as int)[k] == c0[k]);
    }
}

/// The accumulator that stands in a cave.
pub open spec fn accumulator(cave: u32, s: Cpu) -> LastHitState {
    LastHitState {
        target_id: s.mem[attack::data_addr(cave, attack::LAST_TARGET)],
        total: s.mem[attack::data_addr(cave, attack::LAST_TOTAL)],
        tick: s.mem[attack::data_addr(cave, attack::LAST_TICK)],
    }
}

/// Up to the comparison with the last target: the clock has been asked, and `ecx` and
/// `edx` hold what they held before.
#[verifier::rlimit(50)]
proof fn the_clock_is_asked(cave: u32, s: Cpu)
    requires
        cave + attack::CODE_LEN <= u32::MAX,
        s.ip == 0,
        !s.returned,
        s.replies.len() > 0,
        s.replies[0].pops == 0,
        8 <= s.r.esp,
        s.r.esp <= cave || cave + attack::CODE_LEN + 8 <= s.r.esp,
    ensures
        ({
            let e = x86::run(attack::update_target_total_code(cave), s, 6);
            &&& e.ip == 12
            &&& !e.returned
            &&& e.r == (x86::Regs {
                eax: s.replies[0].eax,
                ebx: s.replies[0].eax,
                ..s.r
            })
            &&& e.mem == s.mem.insert((s.r.esp - 4) as u32, s.r.ecx).insert(
                (s.r.esp - 8) as u32,
                s.r.edx,
            )
        }),
{
    update_target_total_code_bytes(cave);
    let c = attack::update_target_total_code(cave);
    broadcast use crate::x86::group_cells;

    reveal_with_fuel(x86::run, 7);
    let s0 = s;
    x86::ins_push_reg(c, s0);
    let s1 = x86::step(c, s0);
    assert(s1.ip == 1);
    x86::ins_push_reg(c, s1);
    let s2 = x86::step(c, s1);
    assert(s2.ip == 2);
    x86::names_cell(c, 3, 2);
    x86::ins_call(c, s2);
    let s3 = x86::step(c, s2);
    assert(s3.ip == 8);
    x86::ins_pop_reg(c, s3);
    let s4 = x86::step(c, s3);
    assert(s4.ip == 9);
    x86::ins_pop_reg(c, s4);
    let s5 = x86::step(c, s4);
    assert(s5.ip == 10);
    x86::names_reg(c, 11, 0, 3);
    x86::ins_store(c, s5);
    let s6 = x86::step(c, s5);
    assert(s6.ip == 12);
}

#[verifier::rlimit(50)]
proof fn the_hit_is_compared(cave: u32, s: Cpu)
    requires
        cave + attack::CODE_LEN <= u32::MAX,
        s.ip == 12,
        !s.returned,
    ensures
        ({
            let e = x86::run(attack::update_target_total_code(cave), s, 2);
            &&& e.ip == 24
            &&& !e.returned
            &&& e.r == (x86::Regs {
                ebx: x86::wrap(s.r.ebx - accumulator(cave, s).tick),
                ..s.r
            })
            &&& e.mem == s.mem
            &&& e.f.zf == (s.r.ecx == accumulator(cave, s).target_id)
        }),
{
    update_target_total_code_bytes(cave);
    let c = attack::update_target_total_code(cave);
    broadcast use crate::x86::group_cells;

    reveal_with_fuel(x86::run, 3);
    let s0 = s;
    x86::names_cell(c, 13, 3);
    x86::ins_alu_from(c, s0);
    let s1 = x86::step(c, s0);
    assert(s1.ip == 18);
    x86::names_cell(c, 19, 1);
    x86::ins_alu_from(c, s1);
    let s2 = x86::step(c, s1);
    assert(s2.ip == 24);
}

/// The end of the block: the time is kept and the total shown.
#[verifier::rlimit(50)]
proof fn the_total_is_shown(cave: u32, s: Cpu)
    requires
        cave + attack::CODE_LEN <= u32::MAX,
        s.ip == 65,
        !s.returned,
    ensures
        ({
            let e = x86::run(attack::update_target_total_code(cave), s, 3);
            let total = s.mem[attack::data_addr(cave, attack::LAST_TOTAL)];
            &&& e.ip == 80
            &&& e.r == (x86::Regs { eax: total, ..s.r })
            &&& e.mem == s.mem.insert(attack::data_addr(cave, attack::LAST_TICK), s.r.eax).insert(
                attack::data_addr(cave, attack::TOTAL_DAMAGE),
                total,
            )
        }),
{
    update_target_total_code_bytes(cave);
    let c = attack::update_target_total_code(cave);
    broadcast use crate::x86::group_cells;

    reveal_with_fuel(x86::run, 4);
    let s0 = s;
    x86::ins_store_eax(c, s0);
    let s1 = x86::step(c, s0);
    assert(s1.ip == 70);
    x86::ins_load_eax(c, s1);
    let s2 = x86::step(c, s1);
    assert(s2.ip == 75);
    x86::ins_store_eax(c, s2);
    let s3 = x86::step(c, s2);
    assert(s3.ip == 80);
}

/// A new total.
#[verifier::rlimit(50)]
proof fn a_total_starts(cave: u32, s: Cpu)
    requires
        cave + attack::CODE_LEN <= u32::MAX,
        s.ip == 53,
        !s.returned,
    ensures
        ({
            let e = x86::run(attack::update_target_total_code(cave), s, 2);
            &&& e.ip == 65
            &&& !e.returned
            &&& e.r == s.r
            &&& e.mem == s.mem.insert(attack::data_addr(cave, attack::LAST_TARGET), s.r.ecx).insert(
                attack::data_addr(cave, attack::LAST_TOTAL),
                s.r.edx,
            )
        }),
{
    update_target_total_code_bytes(cave);
    let c = attack::update_target_total_code(cave);
    broadcast use crate::x86::group_cells;

    reveal_with_fuel(x86::run, 3);
    let s0 = s;
    x86::names_cell(c, 54, 1);
    x86::ins_store(c, s0);
    let s1 = x86::step(c, s0);
    assert(s1.ip == 59);
    x86::names_cell(c, 60, 2);
    x86::ins_store(c, s1);
    let s2 = x86::step(c, s1);
    assert(s2.ip == 65);
}

/// The same target: the time decides.
#[verifier::rlimit(50)]
proof fn the_time_is_compared(cave: u32, s: Cpu)
    requires
        cave + attack::CODE_LEN <= u32::MAX,
        s.ip == 30,
        !s.returned,
    ensures
        s.r.ebx > 8000 ==> {
            let e = x86::run(attack::update_target_total_code(cave), s, 2);
            e.ip == 53 && !e.returned && e.r == s.r && e.mem == s.mem
        },
        s.r.ebx <= 8000 ==> {
            let e = x86::run(attack::update_target_total_code(cave), s, 4);
            let total = attack::data_addr(cave, attack::LAST_TOTAL);
            &&& e.ip == 65
            &&& !e.returned
            &&& e.r == s.r
            &&& e.mem == s.mem.insert(total, x86::wrap(s.mem[total] + s.r.edx))
        },
{
    update_target_total_code_bytes(cave);
    let c = attack::update_target_total_code(cave);
    broadcast use crate::x86::group_cells;

    reveal_with_fuel(x86::run, 5);
    let s0 = s;
    x86::names_reg(c, 31, 7, 3);
    x86::ins_alu_word(c, s0);
    let s1 = x86::step(c, s0);
    assert(s1.ip == 36);
    x86::ins_branch(c, s1);
    let s2 = x86::step(c, s1);
    if s.r.ebx <= 8000 {
        assert(s2.ip == 42);
        x86::names_cell(c, 43, 2);
        x86::ins_alu_into(c, s2);
        let s3 = x86::step(c, s2);
        assert(s3.ip == 48);
        x86::ins_jump(c, s3);
        let s4 = x86::step(c, s3);
        assert(s4.ip == 65);
    }
}

/// The code books a hit as [`attack::update_total_state`] does: with the target in `ecx`,
/// the damage in `edx` and the time that the clock gives, the accumulator in the cave
/// becomes what it is after that hit, and its total is what is shown.  A hit on the last
/// target within eight seconds is added, any other starts a new total.
#[verifier::rlimit(50)]
pub proof fn each_hit_is_booked(cave: u32, s: Cpu)
    requires
        cave + attack::CODE_LEN <= u32::MAX,
        s.ip == 0,
        !s.returned,
        s.replies.len() > 0,
        s.replies[0].pops == 0,
        8 <= s.r.esp,
        s.r.esp <= cave || cave + attack::CODE_LEN + 8 <= s.r.esp,
    ensures
        ({
            let e = x86::run(attack::update_target_total_code(cave), s, 16);
            let was = accumulator(cave, s);
            let now = s.replies[0].eax;
            let total = e.mem[attack::data_addr(cave, attack::TOTAL_DAMAGE)];
            &&& e.ip == attack::update_target_total_code(cave).len()
            &&& accumulator(cave, e) == attack::after_hit(was, s.r.ecx, s.r.edx, now)
            &&& total == accumulator(cave, e).total
            &&& was.target_id == s.r.ecx && (now - was.tick) % 0x1_0000_0000 <= 8000 ==> total
                == (was.total + s.r.edx) % 0x1_0000_0000
            &&& !(was.target_id == s.r.ecx && (now - was.tick) % 0x1_0000_0000 <= 8000) ==> total
                == s.r.edx
            &&& e.r.esp == s.r.esp && e.r.ebp == s.r.ebp && e.r.esi == s.r.esi && e.r.edi
                == s.r.edi
        }),
{
    reveal(x86::wrap);
    let c = attack::update_target_total_code(cave);
    update_target_total_code_bytes(cave);
    let was = accumulator(cave, s);
    let now = s.replies[0].eax;
    the_clock_is_asked(cave, s);
    let a = x86::run(c, s, 6);
    assert(accumulator(cave, a) == was);
    the_hit_is_compared(cave, a);
    let b = x86::run(c, a, 2);
    x86::runs_follow_each_other(c, s, 6, 2);
    x86::ins_branch(c, b);
    let d = x86::step(c, b);
    x86::one_more(c, s, 8);
    assert(b.r.ebx == (now - was.tick) % 0x1_0000_0000);
    if s.r.ecx != was.target_id {
        assert(d.ip == 53 && d.r == b.r && d.mem == b.mem && !d.returned);
        a_total_starts(cave, d);
        let e = x86::run(c, d, 2);
        x86::runs_follow_each_other(c, s, 9, 2);
        the_total_is_shown(cave, e);
        let f = x86::run(c, e, 3);
        x86::runs_follow_each_other(c, s, 11, 3);
        x86::ins_none(c, f);
        x86::one_more(c, s, 14);
        x86::one_more(c, s, 15);
    } else {
        assert(d.ip == 30 && d.r == b.r && d.mem == b.mem && !d.returned);
        the_time_is_compared(cave, d);
        if b.r.ebx > 8000 {
            let e = x86::run(c, d, 2);
            x86::runs_follow_each_other(c, s, 9, 2);
            a_total_starts(cave, e);
            let g = x86::run(c, e, 2);
            x86::runs_follow_each_other(c, s, 11, 2);
            the_total_is_shown(cave, g);
            x86::runs_follow_each_other(c, s, 13, 3);
        } else {
            let e = x86::run(c, d, 4);
            x86::runs_follow_each_other(c, s, 9, 4);
            the_total_is_shown(cave, e);
            x86::runs_follow_each_other(c, s, 13, 3);
        }
    }
}

} // verus!
