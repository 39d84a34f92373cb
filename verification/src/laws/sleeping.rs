//! What the code does that lets the game sleep.

use vstd::prelude::*;

use crate::code;
use crate::low_cpu_hook as low;
use crate::x86;
use crate::x86::Cpu;

verus! {

#[verifier::rlimit(50)]
proof fn detour_code_bytes(c: Seq<u8>, cave: u32)
    requires
        x86::starts(c, low::detour_code(cave)),
    ensures
        c.len() >= 96,
        c[0] == 0xFF,
        c[1] == 0x74,
        c[2] == 0x24,
        c[3] == 0x14,
        c[4] == 0xFF,
        c[5] == 0x74,
        c[6] == 0x24,
        c[7] == 0x14,
        c[8] == 0xFF,
        c[9] == 0x74,
        c[10] == 0x24,
        c[11] == 0x14,
        c[12] == 0xFF,
        c[13] == 0x74,
        c[14] == 0x24,
        c[15] == 0x14,
        c[16] == 0xFF,
        c[17] == 0x74,
        c[18] == 0x24,
        c[19] == 0x14,
        c[20] == 0xE8,
        x86::far(c, 21) == low::TRAMPOLINE_OFFSET as int,
        c[25] == 0x85,
        c[26] == 0xC0,
        c[27] == 0x75,
        x86::near(c, 28) == low::RET as int,
        c[29] == 0xFF,
        c[30] == 0x15,
        x86::word_at(c, 31) == (cave + low::DATA_GET_FG) as u32,
        c[35] == 0x3B,
        c[36] == 0x05,
        x86::word_at(c, 37) == (cave + low::DATA_GAME_HWND) as u32,
        c[41] == 0x74,
        x86::near(c, 42) == low::SKIP_SLEEP as int,
        c[43] == 0x53,
        c[44] == 0x31,
        c[45] == 0xDB,
        c[46] == 0x43,
        c[47] == 0x53,
        c[48] == 0xFF,
        c[49] == 0x15,
        x86::word_at(c, 50) == (cave + low::DATA_GET_ASYNC_KEY_STATE) as u32,
        c[54] == 0x66,
        c[55] == 0xA9,
        c[56] == 0x00,
        c[57] == 0x80,
        c[58] == 0x75,
        x86::near(c, 59) == low::ANY_KEY_DOWN as int,
        c[60] == 0x43,
        c[61] == 0x81,
        c[62] == 0xFB,
        c[63] == 0xFF,
        c[64] == 0x00,
        c[65] == 0x00,
        c[66] == 0x00,
        c[67] == 0x7C,
        x86::near(c, 68) == low::SCAN_LOOP as int,
        c[69] == 0x5B,
        c[70] == 0x6A,
        c[71] == low::SLEEP_MS_WHEN_UNFOCUSED,
        c[72] == 0xFF,
        c[73] == 0x15,
        x86::word_at(c, 74) == (cave + low::DATA_SLEEP) as u32,
        c[78] == 0xEB,
        x86::near(c, 79) == low::SKIP_SLEEP as int,
        c[80] == 0x5B,
        c[81] == 0x33,
        c[82] == 0xC0,
        c[83] == 0xC2,
        c[84] == 0x14,
        c[85] == 0x00,
        c[86] == 0x90,
        c[87] == 0x90,
        c[88] == 0x90,
        c[89] == 0x90,
        c[90] == 0x90,
        c[91] == 0x90,
        c[92] == 0x90,
        c[93] == 0x90,
        c[94] == 0x90,
        c[95] == 0x90,
{
    broadcast use crate::code::group_code_len;

    let c0 = [ 0xFFu8, 0x74, 0x24, 0x14, 0xFF, 0x74, 0x24, 0x14, 0xFF, 0x74, 0x24, 0x14, 0xFF, 0x74, 0x24, 0x14, 0xFF, 0x74, 0x24, 0x14, ]@;
    let c1 = code::call(c0, low::TRAMPOLINE_OFFSET as int);
    let c2 = code::put(c1, [0x85u8, 0xC0]@);
    let c3 = code::jump8(c2, 0x75, low::RET as int);
    let c4 = code::put(c3, [0xFFu8, 0x15]@);
    let c5 = code::put32(c4, (cave + low::DATA_GET_FG) as u32);
    let c6 = code::put(c5, [0x3Bu8, 0x05]@);
    let c7 = code::put32(c6, (cave + low::DATA_GAME_HWND) as u32);
    let c8 = code::jump8(c7, 0x74, low::SKIP_SLEEP as int);
    let c9 = code::put(c8, [ 0x53u8, 0x31, 0xDB, 0x43, ]@);
    let c10 = code::put(c9, [ 0x53u8, 0xFF, 0x15, ]@);
    let c11 = code::put32(c10, (cave + low::DATA_GET_ASYNC_KEY_STATE) as u32);
    let c12 = code::put(c11, [0x66u8, 0xA9, 0x00, 0x80]@);
    let c13 = code::jump8(c12, 0x75, low::ANY_KEY_DOWN as int);
    let c14 = code::put(c13, [ 0x43u8, 0x81, 0xFB, 0xFF, 0x00, 0x00, 0x00, ]@);
    let c15 = code::jump8(c14, 0x7C, low::SCAN_LOOP as int);
    let c16 = code::put(c15, [ 0x5Bu8, 0x6A, low::SLEEP_MS_WHEN_UNFOCUSED, 0xFF, 0x15, ]@);
    let c17 = code::put32(c16, (cave + low::DATA_SLEEP) as u32);
    let c18 = code::jump8(c17, 0xEB, low::SKIP_SLEEP as int);
    let c19 = code::put(c18, [0x5Bu8]@);
    let c20 = code::put(c19, [0x33u8, 0xC0]@);
    let c21 = code::put(c20, [ 0xC2u8, 0x14, 0x00, 0x90, 0x90, 0x90, 0x90, 0x90, 0x90, 0x90, 0x90, 0x90, 0x90, ]@);
    assert(x86::starts(c, c21));
    x86::piece(c, c20, [ 0xC2u8, 0x14, 0x00, 0x90, 0x90, 0x90, 0x90, 0x90, 0x90, 0x90, 0x90, 0x90, 0x90, ]@);
    x86::piece(c, c19, [0x33u8, 0xC0]@);
    x86::piece(c, c18, [0x5Bu8]@);
    x86::piece_jump8(c, c17, 0xEB, low::SKIP_SLEEP as int);
    x86::piece32(c, c16, (cave + low::DATA_SLEEP) as u32);
    x86::piece(c, c15, [ 0x5Bu8, 0x6A, low::SLEEP_MS_WHEN_UNFOCUSED, 0xFF, 0x15, ]@);
    x86::piece_jump8(c, c14, 0x7C, low::SCAN_LOOP as int);
    x86::piece(c, c13, [ 0x43u8, 0x81, 0xFB, 0xFF, 0x00, 0x00, 0x00, ]@);
    x86::piece_jump8(c, c12, 0x75, low::ANY_KEY_DOWN as int);
    x86::piece(c, c11, [0x66u8, 0xA9, 0x00, 0x80]@);
    x86::piece32(c, c10, (cave + low::DATA_GET_ASYNC_KEY_STATE) as u32);
    x86::piece(c, c9, [ 0x53u8, 0xFF, 0x15, ]@);
    x86::piece(c, c8, [ 0x53u8, 0x31, 0xDB, 0x43, ]@);
    x86::piece_jump8(c, c7, 0x74, low::SKIP_SLEEP as int);
    x86::piece32(c, c6, (cave + low::DATA_GAME_HWND) as u32);
    x86::piece(c, c5, [0x3Bu8, 0x05]@);
    x86::piece32(c, c4, (cave + low::DATA_GET_FG) as u32);
    x86::piece(c, c3, [0xFFu8, 0x15]@);
    x86::piece_jump8(c, c2, 0x75, low::RET as int);
    x86::piece(c, c1, [0x85u8, 0xC0]@);
    x86::piece_call(c, c0, low::TRAMPOLINE_OFFSET as int);
    assert forall|k: int| 0 <= k < c0.len() implies #[trigger] c[k] == c0[k] by {
        assert(c.take(c0.len() as int)[k] == c0[k]);
    }
}

/// The real function is called with the five arguments that were given, in their order.
#[verifier::rlimit(50)]
pub proof fn arguments_are_handed_on(cave: u32, s: Cpu)
    requires
        s.ip == 0,
        !s.returned,
        0x100 <= s.r.esp,
        s.r.esp + 0x18 <= u32::MAX,
    ensures
        ({
            let e = x86::run(low::detour_code(cave), s, 6);
            &&& e.ip == 0x60
            &&& e.r == (x86::Regs { esp: (s.r.esp - 24) as u32, ..s.r })
            &&& e.mem[e.r.esp] == x86::wrap(s.origin + 25)
            &&& forall|i: int|
                0 <= i < 5 ==> e.mem[(e.r.esp + 4 + 4 * i) as u32] == #[trigger] s.mem[(s.r.esp + 4
                    + 4 * i) as u32]
        }),
{
    let c = low::detour_code(cave);
    broadcast use {crate::x86::group_cells, crate::code::group_code_len};

    assert(c.take(c.len() as int) =~= c);
    detour_code_bytes(c, cave);
    reveal_with_fuel(x86::run, 7);
    let s0 = s;
    x86::names_on_stack(c, 1, 6);
    x86::ins_push_place(c, s0);
    let s1 = x86::step(c, s0);
    assert(s1.ip == 4);
    x86::names_on_stack(c, 5, 6);
    x86::ins_push_place(c, s1);
    let s2 = x86::step(c, s1);
    assert(s2.ip == 8);
    x86::names_on_stack(c, 9, 6);
    x86::ins_push_place(c, s2);
    let s3 = x86::step(c, s2);
    assert(s3.ip == 12);
    x86::names_on_stack(c, 13, 6);
    x86::ins_push_place(c, s3);
    let s4 = x86::step(c, s3);
    assert(s4.ip == 16);
    x86::names_on_stack(c, 17, 6);
    x86::ins_push_place(c, s4);
    let s5 = x86::step(c, s4);
    assert(s5.ip == 20);
    x86::ins_call_in(c, s5);
    let s6 = x86::step(c, s5);
    assert(s6.ip == 0x60);
    let p = (s.r.esp - 20) as u32;
    let q = (s.r.esp + 4) as u32;
    assert(s6.mem[p] == s.mem[q]);
    assert(s6.mem[(p + 4) as u32] == s.mem[(q + 4) as u32]);
    assert(s6.mem[(p + 8) as u32] == s.mem[(q + 8) as u32]);
    assert(s6.mem[(p + 12) as u32] == s.mem[(q + 12) as u32]);
    assert(s6.mem[(p + 16) as u32] == s.mem[(q + 16) as u32]);
    assert forall|i: int| 0 <= i < 5 implies s6.mem[(s6.r.esp + 4 + 4 * i) as u32]
        == #[trigger] s.mem[(s.r.esp + 4 + 4 * i) as u32] by {
        assert(i == 0 || i == 1 || i == 2 || i == 3 || i == 4);
    }
}

/// A message that was found is handed back at once; where the game is in front, nothing is
/// waited for either.  Else the keys are looked at, from the first on.
#[verifier::rlimit(50)]
pub proof fn messages_and_focus_go_first(cave: u32, s: Cpu) -> (m: nat)
    requires
        cave + 0x7A <= u32::MAX,
        s.ip == 25,
        !s.returned,
        s.replies.len() > 0,
        s.replies[0].pops == 0,
        0x100 <= s.r.esp,
    ensures
        ({
            let e = x86::run(low::detour_code(cave), s, m);
            let front = s.replies[0].eax;
            let game = s.mem[(cave + 0x72) as u32];
            &&& s.r.eax != 0 ==> e.returned && e.r == s.r && e.calls == s.calls
            &&& s.r.eax == 0 ==> e.calls.len() == s.calls.len() + 1 && e.calls.last().target
                == s.mem[(cave + 0x6A) as u32]
            &&& s.r.eax == 0 && front == game ==> e.returned && e.r.eax == 0 && e.r.esp == s.r.esp
                && e.r.ebx == s.r.ebx
            &&& s.r.eax == 0 && front != game ==> !e.returned && e.ip == 47 && e.r.ebx == 1
                && e.r.esp == s.r.esp - 4 && e.mem[e.r.esp] == s.r.ebx
        }),
{
    let c = low::detour_code(cave);
    broadcast use {crate::x86::group_cells, crate::code::group_code_len};

    assert(c.take(c.len() as int) =~= c);
    detour_code_bytes(c, cave);
    let s0 = s;
    x86::names_reg(c, 26, 0, 0);
    x86::ins_test(c, s0);
    let s1 = x86::step(c, s0);
    assert(s1.ip == 27);
    x86::ins_branch_near(c, s1);
    let s2 = x86::step(c, s1);
    if s.r.eax != 0 {
        assert(s2.ip == 83);
        x86::ins_ret(c, s2);
        reveal_with_fuel(x86::run, 4);
        3
    } else {
        assert(s2.ip == 29);
        x86::names_cell(c, 30, 2);
        x86::ins_call(c, s2);
        let s3 = x86::step(c, s2);
        assert(s3.ip == 35);
        x86::names_cell(c, 36, 0);
        x86::ins_alu_from(c, s3);
        let s4 = x86::step(c, s3);
        assert(s4.ip == 41);
        x86::ins_branch_near(c, s4);
        let s5 = x86::step(c, s4);
        if s.replies[0].eax == s.mem[(cave + 0x72) as u32] {
            assert(s5.ip == 81);
            the_same_twice(s5.r.eax);
            x86::names_reg(c, 82, 0, 0);
            x86::ins_alu_from(c, s5);
            let s6 = x86::step(c, s5);
            assert(s6.ip == 83);
            x86::ins_ret(c, s6);
            reveal_with_fuel(x86::run, 8);
            7
        } else {
            assert(s5.ip == 43);
            the_same_twice(s.r.ebx);
            x86::ins_push_reg(c, s5);
            let s6 = x86::step(c, s5);
            assert(s6.ip == 44);
            x86::names_reg(c, 45, 3, 3);
            x86::ins_alu_into(c, s6);
            let s7 = x86::step(c, s6);
            assert(s7.ip == 46);
            x86::ins_inc_reg(c, s7);
            let s8 = x86::step(c, s7);
            assert(s8.ip == 47);
            reveal_with_fuel(x86::run, 9);
            8
        }
    }
}

proof fn the_same_twice(x: u32)
    ensures
        x ^ x == 0,
{
    assert(x ^ x == 0) by (bit_vector);
}

proof fn the_highest_bit(x: u16)
    ensures
        x & 0x8000 == 0 <==> x < 0x8000,
{
    assert(x & 0x8000 == 0 <==> x < 0x8000) by (bit_vector);
}

/// Each key is asked for; a key that is held ends it at once, without any waiting.  After
/// the last key the game sleeps for fifty milliseconds.
#[verifier::rlimit(50)]
pub proof fn keys_are_asked_for_in_turn(cave: u32, s: Cpu) -> (m: nat)
    requires
        cave + 0x7A <= u32::MAX,
        s.ip == 47,
        !s.returned,
        1 <= s.r.ebx <= 254,
        s.replies.len() > 1,
        s.replies[0].pops == 4,
        s.replies[1].pops == 4,
        0x100 <= s.r.esp,
        s.r.esp + 4 <= u32::MAX,
        s.r.esp <= cave || cave + 0x200 <= s.r.esp,
    ensures
        ({
            let e = x86::run(low::detour_code(cave), s, m);
            let held = s.replies[0].eax % 0x1_0000 >= 0x8000;
            let ask = e.calls[s.calls.len() as int];
            &&& ask.target == s.mem[(cave + 0x76) as u32]
            &&& ask.stack[0] == s.r.ebx
            &&& held ==> e.returned && e.r.eax == 0 && e.r.ebx == s.mem[s.r.esp] && e.r.esp
                == s.r.esp + 4 && e.calls.len() == s.calls.len() + 1
            &&& !held && s.r.ebx < 254 ==> !e.returned && e.ip == 47 && e.r.ebx == s.r.ebx + 1
                && e.r.esp == s.r.esp && e.calls.len() == s.calls.len() + 1
            &&& !held && s.r.ebx == 254 ==> e.returned && e.r.eax == 0 && e.r.ebx
                == s.mem[s.r.esp] && e.r.esp == s.r.esp + 4 && e.calls.len() == s.calls.len() + 2
                && e.calls.last().target == s.mem[(cave + 0x6E) as u32]
                && e.calls.last().stack[0] == 50
        }),
{
    let c = low::detour_code(cave);
    broadcast use {crate::x86::group_cells, crate::code::group_code_len};

    assert(c.take(c.len() as int) =~= c);
    detour_code_bytes(c, cave);
    let s0 = s;
    x86::ins_push_reg(c, s0);
    let s1 = x86::step(c, s0);
    assert(s1.ip == 48);
    x86::names_cell(c, 49, 2);
    x86::ins_call(c, s1);
    let s2 = x86::step(c, s1);
    assert(s2.ip == 54);
    x86::ins_test_ax(c, s2);
    let s3 = x86::step(c, s2);
    assert(s3.ip == 58);
    assert(code::from_le16(c.subrange(56, 58)) == 0x8000) by {
        let w = c.subrange(56, 58);
        assert(w[0] == 0 && w[1] == 0x80);
    }
    the_highest_bit(s2.r.get16(0));
    x86::ins_branch_near(c, s3);
    let s4 = x86::step(c, s3);
    if s.replies[0].eax % 0x1_0000 >= 0x8000 {
        assert(s4.ip == 80);
        the_same_twice(s4.r.eax);
        x86::ins_pop_reg(c, s4);
        let s5 = x86::step(c, s4);
        assert(s5.ip == 81);
        x86::names_reg(c, 82, 0, 0);
        x86::ins_alu_from(c, s5);
        let s6 = x86::step(c, s5);
        assert(s6.ip == 83);
        x86::ins_ret(c, s6);
        reveal_with_fuel(x86::run, 8);
        7
    } else {
        assert(s4.ip == 60);
        x86::ins_inc_reg(c, s4);
        let s5 = x86::step(c, s4);
        assert(s5.ip == 61);
        x86::names_reg(c, 62, 7, 3);
        x86::ins_alu_word(c, s5);
        let s6 = x86::step(c, s5);
        assert(s6.ip == 67);
        x86::ins_branch_near(c, s6);
        let s7 = x86::step(c, s6);
        if s.r.ebx < 254 {
            assert(s7.ip == 47);
            reveal_with_fuel(x86::run, 8);
            7
        } else {
            assert(s7.ip == 69);
            x86::ins_pop_reg(c, s7);
            let s8 = x86::step(c, s7);
            assert(s8.ip == 70);
            x86::ins_push_byte(c, s8);
            let s9 = x86::step(c, s8);
            assert(s9.ip == 72);
            x86::names_cell(c, 73, 2);
            x86::ins_call(c, s9);
            let s10 = x86::step(c, s9);
            assert(s10.ip == 78);
            x86::ins_jump_near(c, s10);
            let s11 = x86::step(c, s10);
            assert(s11.ip == 81);
            the_same_twice(s11.r.eax);
            x86::names_reg(c, 82, 0, 0);
            x86::ins_alu_from(c, s11);
            let s12 = x86::step(c, s11);
            assert(s12.ip == 83);
            x86::ins_ret(c, s12);
            reveal_with_fuel(x86::run, 14);
            13
        }
    }
}

} // verus!
