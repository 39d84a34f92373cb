//! What the code does that draws monsters' names.

use vstd::prelude::*;

use crate::code;
use crate::monster_color_code as colors;
use crate::x86;
use crate::x86::Cpu;

verus! {

#[verifier::rlimit(50)]
proof fn marker_check_code_bytes(c: Seq<u8>, table: u32, modrm: u8, fail: int)
    requires
        x86::starts(c, colors::marker_check_code(table, modrm, fail)),
        -0x6000_0000 <= fail <= 0x6000_0000,
    ensures
        c.len() >= 47,
        c[0] == 0x56,
        c[1] == 0x57,
        c[2] == 0xBE,
        x86::word_at(c, 3) == table,
        c[7] == 0x8B,
        c[8] == 0x3E,
        c[9] == 0x83,
        c[10] == 0xC6,
        c[11] == 0x04,
        c[12] == 0x85,
        c[13] == 0xFF,
        c[14] == 0x0F,
        c[15] == 0x84,
        x86::far(c, 16) == colors::MARKER_FAIL as int,
        c[20] == 0x39,
        c[21] == modrm,
        c[22] == 0x0F,
        c[23] == 0x84,
        x86::far(c, 24) == colors::MARKER_MATCH as int,
        c[28] == 0x83,
        c[29] == 0xC6,
        c[30] == 0x04,
        c[31] == 0x4F,
        c[32] == 0x0F,
        c[33] == 0x85,
        x86::far(c, 34) == colors::MARKER_LOOP as int,
        c[38] == 0x5F,
        c[39] == 0x5E,
        c[40] == 0xE9,
        x86::far(c, 41) == fail,
        c[45] == 0x5F,
        c[46] == 0x5E,
{
    broadcast use crate::code::group_code_len;

    let c0 = [ 0x56u8, 0x57, 0xBE, ]@;
    let c1 = code::put32(c0, table);
    let c2 = code::put(c1, [ 0x8Bu8, 0x3E, 0x83, 0xC6, 0x04, 0x85, 0xFF, ]@);
    let c3 = code::jcc(c2, 0x84, colors::MARKER_FAIL as int);
    let c4 = code::put(c3, [0x39u8, modrm]@);
    let c5 = code::jcc(c4, 0x84, colors::MARKER_MATCH as int);
    let c6 = code::put(c5, [ 0x83u8, 0xC6, 0x04, 0x4F, ]@);
    let c7 = code::jcc(c6, 0x85, colors::MARKER_LOOP as int);
    let c8 = code::put(c7, [ 0x5Fu8, 0x5E, ]@);
    let c9 = code::jmp(c8, fail);
    let c10 = code::put(c9, [ 0x5Fu8, 0x5E, ]@);
    assert(x86::starts(c, c10));
    x86::piece(c, c9, [ 0x5Fu8, 0x5E, ]@);
    x86::piece_jmp(c, c8, fail);
    x86::piece(c, c7, [ 0x5Fu8, 0x5E, ]@);
    x86::piece_jcc(c, c6, 0x85, colors::MARKER_LOOP as int);
    x86::piece(c, c5, [ 0x83u8, 0xC6, 0x04, 0x4F, ]@);
    x86::piece_jcc(c, c4, 0x84, colors::MARKER_MATCH as int);
    x86::piece(c, c3, [0x39u8, modrm]@);
    x86::piece_jcc(c, c2, 0x84, colors::MARKER_FAIL as int);
    x86::piece(c, c1, [ 0x8Bu8, 0x3E, 0x83, 0xC6, 0x04, 0x85, 0xFF, ]@);
    x86::piece32(c, c0, table);
    assert forall|k: int| 0 <= k < c0.len() implies #[trigger] c[k] == c0[k] by {
        assert(c.take(c0.len() as int)[k] == c0[k]);
    }
}

/// Where the look into the table stands in a listing, behind `head`.
pub open spec fn looks(
    c: Seq<u8>,
    head: Seq<u8>,
    table: u32,
    reg: int,
    fail: int,
) -> bool {
    &&& x86::starts(c, code::put(head, colors::marker_check_code(table, (8 * reg + 6) as u8, fail)))
    &&& -0x6000_0000 <= fail <= 0x6000_0000
    &&& 0 <= reg < 3
}

#[verifier::rlimit(50)]
proof fn look_bytes(c: Seq<u8>, head: Seq<u8>, table: u32, reg: int, fail: int)
    requires
        looks(c, head, table, reg, fail),
    ensures
        ({
            let d = head.len() as int;
            let modrm = (8 * reg + 6) as u8;
            &&& c.len() >= d + 47
            &&& c[d + 0] == 0x56
            &&& c[d + 1] == 0x57
            &&& c[d + 2] == 0xBE
            &&& x86::word_at(c, d + 3) == table
            &&& c[d + 7] == 0x8B
            &&& c[d + 8] == 0x3E
            &&& c[d + 9] == 0x83
            &&& c[d + 10] == 0xC6
            &&& c[d + 11] == 0x04
            &&& c[d + 12] == 0x85
            &&& c[d + 13] == 0xFF
            &&& c[d + 14] == 0x0F
            &&& c[d + 15] == 0x84
            &&& x86::far(c, d + 16) == d + colors::MARKER_FAIL as int
            &&& c[d + 20] == 0x39
            &&& c[d + 21] == modrm
            &&& c[d + 22] == 0x0F
            &&& c[d + 23] == 0x84
            &&& x86::far(c, d + 24) == d + colors::MARKER_MATCH as int
            &&& c[d + 28] == 0x83
            &&& c[d + 29] == 0xC6
            &&& c[d + 30] == 0x04
            &&& c[d + 31] == 0x4F
            &&& c[d + 32] == 0x0F
            &&& c[d + 33] == 0x85
            &&& x86::far(c, d + 34) == d + colors::MARKER_LOOP as int
            &&& c[d + 38] == 0x5F
            &&& c[d + 39] == 0x5E
            &&& c[d + 40] == 0xE9
            &&& x86::far(c, d + 41) == d + fail
            &&& c[d + 45] == 0x5F
            &&& c[d + 46] == 0x5E
        }),
{
    let b = colors::marker_check_code(table, (8 * reg + 6) as u8, fail);
    broadcast use crate::code::group_code_len;

    let d = head.len() as int;
    assert(b.take(b.len() as int) =~= b);
    marker_check_code_bytes(b, table, (8 * reg + 6) as u8, fail);
    x86::piece_inside(c, head, b);
    assert(c[d + 0] == b[0]);
    assert(c[d + 1] == b[1]);
    assert(c[d + 2] == b[2]);
    assert(x86::word_at(c, d + 3) == x86::word_at(b, 3));
    assert(c[d + 7] == b[7]);
    assert(c[d + 8] == b[8]);
    assert(c[d + 9] == b[9]);
    assert(c[d + 10] == b[10]);
    assert(c[d + 11] == b[11]);
    assert(c[d + 12] == b[12]);
    assert(c[d + 13] == b[13]);
    assert(c[d + 14] == b[14]);
    assert(c[d + 15] == b[15]);
    assert(x86::word_at(c, d + 16) == x86::word_at(b, 16));
    assert(c[d + 20] == b[20]);
    assert(c[d + 21] == b[21]);
    assert(c[d + 22] == b[22]);
    assert(c[d + 23] == b[23]);
    assert(x86::word_at(c, d + 24) == x86::word_at(b, 24));
    assert(c[d + 28] == b[28]);
    assert(c[d + 29] == b[29]);
    assert(c[d + 30] == b[30]);
    assert(c[d + 31] == b[31]);
    assert(c[d + 32] == b[32]);
    assert(c[d + 33] == b[33]);
    assert(x86::word_at(c, d + 34) == x86::word_at(b, 34));
    assert(c[d + 38] == b[38]);
    assert(c[d + 39] == b[39]);
    assert(c[d + 40] == b[40]);
    assert(x86::word_at(c, d + 41) == x86::word_at(b, 41));
    assert(c[d + 45] == b[45]);
    assert(c[d + 46] == b[46]);
}

/// Whether a number is among the first `n` cells from `p` on.
pub open spec fn among(mem: Map<u32, u32>, p: int, n: int, x: u32) -> bool {
    exists|j: int| 0 <= j < n && #[trigger] entry(mem, p, j) == x
}

/// Cell number `j` from `p` on.
pub open spec fn entry(mem: Map<u32, u32>, p: int, j: int) -> u32 {
    mem[(p + 4 * j) as u32]
}

/// One turn after the other: the loop ends at the first cell that holds the number, or
/// behind the last.
#[verifier::rlimit(50)]
proof fn cells_are_looked_through(
    c: Seq<u8>,
    head: Seq<u8>,
    table: u32,
    reg: int,
    fail: int,
    s: Cpu,
) -> (m: nat)
    requires
        looks(c, head, table, reg, fail),
        s.ip == head.len() + 20,
        !s.returned,
        s.r.edi > 0,
        s.r.esi + 4 * s.r.edi <= u32::MAX,
    ensures
        ({
            let e = x86::run(c, s, m);
            let there = among(s.mem, s.r.esi as int, s.r.edi as int, s.r.get(reg));
            &&& e.ip == if there {
                head.len() + 45int
            } else {
                head.len() + 38int
            }
            &&& e == (Cpu {
                ip: e.ip,
                f: e.f,
                r: x86::Regs { esi: e.r.esi, edi: e.r.edi, ..s.r },
                ..s
            })
        }),
    decreases s.r.edi,
{
    let d = head.len() as int;
    look_bytes(c, head, table, reg, fail);
    broadcast use crate::x86::group_cells;

    let x = s.r.get(reg);
    let p = s.r.esi as int;
    let k = s.r.edi as int;
    let s0 = s;
    x86::names_pointed(c, d + 21, reg, 6);
    x86::ins_alu_into(c, s0);
    let s1 = x86::step(c, s0);
    assert(s1.ip == d + 22);
    x86::ins_branch(c, s1);
    let s2 = x86::step(c, s1);
    assert(entry(s.mem, p, 0) == s.mem[s.r.esi]);
    if s.mem[s.r.esi] == x {
        reveal_with_fuel(x86::run, 3);
        assert(among(s.mem, p, k, x));
        2
    } else {
        assert(s2.ip == d + 28);
        x86::names_reg(c, d + 29, 0, 6);
        x86::ins_alu_byte(c, s2);
        let s3 = x86::step(c, s2);
        assert(s3.ip == d + 31);
        x86::ins_dec_reg(c, s3);
        let s4 = x86::step(c, s3);
        assert(s4.ip == d + 32);
        x86::ins_branch(c, s4);
        let s5 = x86::step(c, s4);
        reveal_with_fuel(x86::run, 6);
        if k == 1 {
            assert(s5.ip == d + 38);
            assert(!among(s.mem, p, k, x));
            5
        } else {
            assert(s5.ip == d + 20);
            let n = cells_are_looked_through(c, head, table, reg, fail, s5);
            x86::runs_follow_each_other(c, s, 5, n);
            assert(x86::run(c, s, 5) == s5);
            if among(s.mem, p, k, x) {
                let j = choose|j: int| 0 <= j < k && #[trigger] entry(s.mem, p, j) == x;
                assert(entry(s.mem, p + 4, j - 1) == x);
            }
            if among(s.mem, p + 4, k - 1, x) {
                let j = choose|j: int| 0 <= j < k - 1 && #[trigger] entry(s.mem, p + 4, j) == x;
                assert(entry(s.mem, p, j + 1) == x);
            }
            5 + n
        }
    }
}

/// A number that is in the table of marked objects lets the code go on; any other leads
/// out.  The registers are as before in either case.
#[verifier::rlimit(50)]
pub proof fn marked_objects_go_on(
    c: Seq<u8>,
    head: Seq<u8>,
    table: u32,
    reg: int,
    fail: int,
    s: Cpu,
) -> (m: nat)
    requires
        looks(c, head, table, reg, fail),
        s.ip == head.len(),
        !s.returned,
        8 <= s.r.esp,
        table + 4 + 4 * s.mem[table] <= u32::MAX,
        s.r.esp <= table || table + 4 + 4 * s.mem[table] + 8 <= s.r.esp,
    ensures
        ({
            let e = x86::run(c, s, m);
            &&& e.ip == if among(s.mem, table + 4, s.mem[table] as int, s.r.get(reg)) {
                head.len() + 47int
            } else {
                head.len() + fail
            }
            &&& e.r == s.r
            &&& e.calls == s.calls
            &&& e.replies == s.replies
            &&& e.origin == s.origin
            &&& e.mem16 == s.mem16
            &&& forall|a: u32| a < s.r.esp - 8 || s.r.esp <= a ==> #[trigger] e.mem[a] == s.mem[a]
            &&& !e.returned
        }),
{
    let d = head.len() as int;
    look_bytes(c, head, table, reg, fail);
    broadcast use {crate::x86::group_cells, crate::code::group_code_len};

    let n = s.mem[table] as int;
    let x = s.r.get(reg);
    let s0 = s;
    x86::ins_push_reg(c, s0);
    let s1 = x86::step(c, s0);
    assert(s1.ip == d + 1);
    x86::ins_push_reg(c, s1);
    let s2 = x86::step(c, s1);
    assert(s2.ip == d + 2);
    x86::ins_mov_word(c, s2);
    let s3 = x86::step(c, s2);
    assert(s3.ip == d + 7);
    x86::names_pointed(c, d + 8, 7, 6);
    x86::ins_load(c, s3);
    let s4 = x86::step(c, s3);
    assert(s4.ip == d + 9);
    x86::names_reg(c, d + 10, 0, 6);
    x86::ins_alu_byte(c, s4);
    let s5 = x86::step(c, s4);
    assert(s5.ip == d + 12);
    x86::names_reg(c, d + 13, 7, 7);
    x86::ins_test(c, s5);
    let s6 = x86::step(c, s5);
    assert(s6.ip == d + 14);
    x86::ins_branch(c, s6);
    let s7 = x86::step(c, s6);
    assert(x86::run(c, s, 7) == s7) by {
        reveal_with_fuel(x86::run, 8);
    }
    assert forall|j: int| 0 <= j < n implies #[trigger] entry(s7.mem, table + 4, j) == entry(
        s.mem,
        table + 4,
        j,
    ) by {
    }
    let there = among(s.mem, table + 4, n, x);
    if n == 0 {
        assert(s7.ip == d + 38);
        assert(!there);
        the_way_out(c, head, table, reg, fail, s7);
        x86::runs_follow_each_other(c, s, 7, 3);
        7 + 3
    } else {
        assert(s7.ip == d + 20);
        assert(s7.r.get(reg) == x);
        let k = cells_are_looked_through(c, head, table, reg, fail, s7);
        let t = x86::run(c, s7, k);
        if there {
            let j = choose|j: int| 0 <= j < n && #[trigger] entry(s.mem, table + 4, j) == x;
            assert(entry(s7.mem, table + 4, j) == x);
        }
        if among(s7.mem, table + 4, n, x) {
            let j = choose|j: int| 0 <= j < n && #[trigger] entry(s7.mem, table + 4, j) == x;
            assert(entry(s.mem, table + 4, j) == x);
        }
        x86::runs_follow_each_other(c, s, 7, k);
        if there {
            the_way_on(c, head, table, reg, fail, t);
            x86::runs_follow_each_other(c, s, 7 + k, 2);
            7 + k + 2
        } else {
            the_way_out(c, head, table, reg, fail, t);
            x86::runs_follow_each_other(c, s, 7 + k, 3);
            7 + k + 3
        }
    }
}

#[verifier::rlimit(50)]
proof fn the_way_out(c: Seq<u8>, head: Seq<u8>, table: u32, reg: int, fail: int, s: Cpu)
    requires
        looks(c, head, table, reg, fail),
        s.ip == head.len() + 38,
        !s.returned,
        s.r.esp + 8 <= u32::MAX,
    ensures
        ({
            let e = x86::run(c, s, 3);
            &&& e.ip == head.len() + fail
            &&& e.r == (x86::Regs {
                edi: s.mem[s.r.esp],
                esi: s.mem[(s.r.esp + 4) as u32],
                esp: (s.r.esp + 8) as u32,
                ..s.r
            })
            &&& e == (Cpu { ip: e.ip, r: e.r, ..s })
        }),
{
    let d = head.len() as int;
    look_bytes(c, head, table, reg, fail);
    broadcast use crate::x86::group_cells;

    reveal_with_fuel(x86::run, 4);
    let s0 = s;
    x86::ins_pop_reg(c, s0);
    let s1 = x86::step(c, s0);
    assert(s1.ip == d + 39);
    x86::ins_pop_reg(c, s1);
    let s2 = x86::step(c, s1);
    assert(s2.ip == d + 40);
    x86::ins_jump(c, s2);
    let s3 = x86::step(c, s2);
}

#[verifier::rlimit(50)]
proof fn the_way_on(c: Seq<u8>, head: Seq<u8>, table: u32, reg: int, fail: int, s: Cpu)
    requires
        looks(c, head, table, reg, fail),
        s.ip == head.len() + 45,
        !s.returned,
        s.r.esp + 8 <= u32::MAX,
    ensures
        ({
            let e = x86::run(c, s, 2);
            &&& e.ip == head.len() + 47
            &&& e.r == (x86::Regs {
                edi: s.mem[s.r.esp],
                esi: s.mem[(s.r.esp + 4) as u32],
                esp: (s.r.esp + 8) as u32,
                ..s.r
            })
            &&& e == (Cpu { ip: e.ip, r: e.r, ..s })
        }),
{
    let d = head.len() as int;
    look_bytes(c, head, table, reg, fail);
    broadcast use crate::x86::group_cells;

    reveal_with_fuel(x86::run, 3);
    let s0 = s;
    x86::ins_pop_reg(c, s0);
    let s1 = x86::step(c, s0);
    assert(s1.ip == d + 46);
    x86::ins_pop_reg(c, s1);
    let s2 = x86::step(c, s1);
    assert(s2.ip == d + 47);
}

#[verifier::rlimit(40)]
proof fn name_render_code_bytes(c: Seq<u8>, cave: u32, table: u32)
    requires
        x86::starts(c, colors::name_render_code(cave, table)),
    ensures
        c.len() >= 229,
        c[0] == 0x8B,
        c[1] == 0x85,
        x86::word_at(c, 2) == 0xFFFF_FDC8,
        c[6] == 0x85,
        c[7] == 0xC0,
        c[8] == 0x0F,
        c[9] == 0x84,
        x86::far(c, 10) == colors::NAME_ORIGINAL as int,
        c[14] == 0x0F,
        c[15] == 0xB7,
        c[16] == 0x48,
        c[17] == 0x30,
        c[18] == 0x81,
        c[19] == 0xF9,
        x86::word_at(c, 20) == colors::DEFAULT_NAME_COLOR as u32,
        c[24] == 0x0F,
        c[25] == 0x84,
        x86::far(c, 26) == colors::NAME_ORIGINAL as int,
        c[30] == 0x81,
        c[31] == 0xF9,
        x86::word_at(c, 32) == colors::DEFAULT_NAME_COLOR as u32,
        c[36] == 0x0F,
        c[37] == 0x84,
        x86::far(c, 38) == colors::NAME_ORIGINAL as int,
        c[42] == 0x81,
        c[43] == 0xF9,
        x86::word_at(c, 44) == colors::DARK_RED as u32,
        c[48] == 0x0F,
        c[49] == 0x84,
        x86::far(c, 50) == colors::NAME_CHECK_ID as int,
        c[54] == 0x81,
        c[55] == 0xF9,
        x86::word_at(c, 56) == colors::LIGHT_RED as u32,
        c[60] == 0x0F,
        c[61] == 0x84,
        x86::far(c, 62) == colors::NAME_CHECK_ID as int,
        c[66] == 0x81,
        c[67] == 0xF9,
        x86::word_at(c, 68) == colors::BLUE as u32,
        c[72] == 0x0F,
        c[73] == 0x84,
        x86::far(c, 74) == colors::NAME_CHECK_ID as int,
        c[78] == 0x81,
        c[79] == 0xF9,
        x86::word_at(c, 80) == colors::GREEN as u32,
        c[84] == 0x0F,
        c[85] == 0x84,
        x86::far(c, 86) == colors::NAME_CHECK_ID as int,
        c[90] == 0xE9,
        x86::far(c, 91) == colors::NAME_ORIGINAL as int,
        c[95] == 0x8B,
        c[96] == 0x50,
        c[97] == 0x0C,
        c[98] == 0x81,
        c[99] == 0xFA,
        x86::word_at(c, 100) == colors::MIN_RENDER_MONSTER_OBJECT_ID,
        c[104] == 0x0F,
        c[105] == 0x82,
        x86::far(c, 106) == colors::NAME_ORIGINAL as int,
        x86::starts(c, code::put(c.take(110), colors::marker_check_code(table, 0x06, colors::NAME_ORIGINAL - 110))),
        c[157] == 0x6A,
        c[158] == 0x00,
        c[159] == 0x51,
        c[160] == 0x68,
        x86::word_at(c, 161) == colors::DEFAULT_NAME_COLOR as u32,
        c[165] == 0x8B,
        c[166] == 0x95,
        x86::word_at(c, 167) == 0xFFFF_FDA4,
        c[171] == 0x52,
        c[172] == 0x8B,
        c[173] == 0x85,
        x86::word_at(c, 174) == 0xFFFF_FDA0,
        c[178] == 0x50,
        c[179] == 0x8B,
        c[180] == 0x8D,
        x86::word_at(c, 181) == 0xFFFF_FDA8,
        c[185] == 0x51,
        c[186] == 0x8B,
        c[187] == 0x95,
        x86::word_at(c, 188) == 0xFFFF_FDC8,
        c[192] == 0x8B,
        c[193] == 0x42,
        c[194] == 0x60,
        c[195] == 0x50,
        c[196] == 0x8B,
        c[197] == 0x0D,
        x86::word_at(c, 198) == colors::DRAW_SURFACE_GLOBAL_ADDR,
        c[202] == 0x51,
        c[203] == 0xE8,
        x86::word_at(c, 204) == code::rel32(cave + 208, colors::TEXT_DRAW_FN as int),
        c[208] == 0x83,
        c[209] == 0xC4,
        c[210] == 0x20,
        c[211] == 0xE9,
        x86::word_at(c, 212) == code::rel32(cave + 216, colors::NAME_RENDER_AFTER_CALL_ADDR as int),
        c[216] == 0x6A,
        c[217] == 0x00,
        c[218] == 0x8B,
        c[219] == 0x15,
        x86::word_at(c, 220) == colors::BLACK_COLOR_GLOBAL_ADDR,
        c[224] == 0xE9,
        x86::word_at(c, 225) == code::rel32(cave + 229, colors::NAME_RENDER_FALLTHROUGH_ADDR as int),
{
    broadcast use crate::code::group_code_len;

    reveal(colors::name_render_code);
    let c0 = [0x8Bu8, 0x85]@;
    let c1 = code::put32(c0, 0xFFFF_FDC8);
    let c2 = code::put(c1, [0x85u8, 0xC0]@);
    let c3 = code::jcc(c2, 0x84, colors::NAME_ORIGINAL as int);
    let c4 = code::put(c3, [ 0x0Fu8, 0xB7, 0x48, 0x30, 0x81, 0xF9, ]@);
    let c5 = code::put32(c4, colors::DEFAULT_NAME_COLOR as u32);
    let c6 = code::jcc(c5, 0x84, colors::NAME_ORIGINAL as int);
    let c7 = code::put(c6, [0x81u8, 0xF9]@);
    let c8 = code::put32(c7, colors::DEFAULT_NAME_COLOR as u32);
    let c9 = code::jcc(c8, 0x84, colors::NAME_ORIGINAL as int);
    let c10 = code::put(c9, [0x81u8, 0xF9]@);
    let c11 = code::put32(c10, colors::DARK_RED as u32);
    let c12 = code::jcc(c11, 0x84, colors::NAME_CHECK_ID as int);
    let c13 = code::put(c12, [0x81u8, 0xF9]@);
    let c14 = code::put32(c13, colors::LIGHT_RED as u32);
    let c15 = code::jcc(c14, 0x84, colors::NAME_CHECK_ID as int);
    let c16 = code::put(c15, [0x81u8, 0xF9]@);
    let c17 = code::put32(c16, colors::BLUE as u32);
    let c18 = code::jcc(c17, 0x84, colors::NAME_CHECK_ID as int);
    let c19 = code::put(c18, [0x81u8, 0xF9]@);
    let c20 = code::put32(c19, colors::GREEN as u32);
    let c21 = code::jcc(c20, 0x84, colors::NAME_CHECK_ID as int);
    let c22 = code::jmp(c21, colors::NAME_ORIGINAL as int);
    let c23 = code::put(c22, [ 0x8Bu8, 0x50, 0x0C, 0x81, 0xFA, ]@);
    let c24 = code::put32(c23, colors::MIN_RENDER_MONSTER_OBJECT_ID);
    let c25 = code::jcc(c24, 0x82, colors::NAME_ORIGINAL as int);
    let c26 = code::put(c25, colors::marker_check_code(table, 0x06, colors::NAME_ORIGINAL - 110));
    let c27 = code::put(c26, [ 0x6Au8, 0x00, 0x51, 0x68, ]@);
    let c28 = code::put32(c27, colors::DEFAULT_NAME_COLOR as u32);
    let c29 = code::put(c28, [0x8Bu8, 0x95]@);
    let c30 = code::put32(c29, 0xFFFF_FDA4);
    let c31 = code::put(c30, [ 0x52u8, 0x8B, 0x85, ]@);
    let c32 = code::put32(c31, 0xFFFF_FDA0);
    let c33 = code::put(c32, [ 0x50u8, 0x8B, 0x8D, ]@);
    let c34 = code::put32(c33, 0xFFFF_FDA8);
    let c35 = code::put(c34, [ 0x51u8, 0x8B, 0x95, ]@);
    let c36 = code::put32(c35, 0xFFFF_FDC8);
    let c37 = code::put(c36, [ 0x8Bu8, 0x42, 0x60, 0x50, 0x8B, 0x0D, ]@);
    let c38 = code::put32(c37, colors::DRAW_SURFACE_GLOBAL_ADDR);
    let c39 = code::put(c38, [0x51u8]@);
    let c40 = code::put(c39, [0xE8u8]@);
    let c41 = code::put32(c40, code::rel32(cave + 208, colors::TEXT_DRAW_FN as int));
    let c42 = code::put(c41, [0x83u8, 0xC4, 0x20]@);
    let c43 = code::put(c42, [0xE9u8]@);
    let c44 = code::put32(c43, code::rel32(cave + 216, colors::NAME_RENDER_AFTER_CALL_ADDR as int));
    let c45 = code::put(c44, [ 0x6Au8, 0x00, 0x8B, 0x15, ]@);
    let c46 = code::put32(c45, colors::BLACK_COLOR_GLOBAL_ADDR);
    let c47 = code::put(c46, [0xE9u8]@);
    let c48 = code::put32(c47, code::rel32(cave + 229, colors::NAME_RENDER_FALLTHROUGH_ADDR as int));
    assert(x86::starts(c, c48));
    assert(x86::starts(c, c47) && x86::word_at(c, 225) == code::rel32(cave + 229, colors::NAME_RENDER_FALLTHROUGH_ADDR as int)) by {
        x86::piece32(c, c47, code::rel32(cave + 229, colors::NAME_RENDER_FALLTHROUGH_ADDR as int));
    }
    assert(x86::starts(c, c46) && c[224] == 0xE9) by {
        x86::piece(c, c46, [0xE9u8]@);
    }
    assert(x86::starts(c, c45) && x86::word_at(c, 220) == colors::BLACK_COLOR_GLOBAL_ADDR) by {
        x86::piece32(c, c45, colors::BLACK_COLOR_GLOBAL_ADDR);
    }
    assert(x86::starts(c, c44) && c[216] == 0x6A && c[217] == 0x00 && c[218] == 0x8B && c[219] == 0x15) by {
        x86::piece(c, c44, [ 0x6Au8, 0x00, 0x8B, 0x15, ]@);
    }
    assert(x86::starts(c, c43) && x86::word_at(c, 212) == code::rel32(cave + 216, colors::NAME_RENDER_AFTER_CALL_ADDR as int)) by {
        x86::piece32(c, c43, code::rel32(cave + 216, colors::NAME_RENDER_AFTER_CALL_ADDR as int));
    }
    assert(x86::starts(c, c42) && c[211] == 0xE9) by {
        x86::piece(c, c42, [0xE9u8]@);
    }
    assert(x86::starts(c, c41) && c[208] == 0x83 && c[209] == 0xC4 && c[210] == 0x20) by {
        x86::piece(c, c41, [0x83u8, 0xC4, 0x20]@);
    }
    assert(x86::starts(c, c40) && x86::word_at(c, 204) == code::rel32(cave + 208, colors::TEXT_DRAW_FN as int)) by {
        x86::piece32(c, c40, code::rel32(cave + 208, colors::TEXT_DRAW_FN as int));
    }
    assert(x86::starts(c, c39) && c[203] == 0xE8) by {
        x86::piece(c, c39, [0xE8u8]@);
    }
    assert(x86::starts(c, c38) && c[202] == 0x51) by {
        x86::piece(c, c38, [0x51u8]@);
    }
    assert(x86::starts(c, c37) && x86::word_at(c, 198) == colors::DRAW_SURFACE_GLOBAL_ADDR) by {
        x86::piece32(c, c37, colors::DRAW_SURFACE_GLOBAL_ADDR);
    }
    assert(x86::starts(c, c36) && c[192] == 0x8B && c[193] == 0x42 && c[194] == 0x60 && c[195] == 0x50 && c[196] == 0x8B && c[197] == 0x0D) by {
        x86::piece(c, c36, [ 0x8Bu8, 0x42, 0x60, 0x50, 0x8B, 0x0D, ]@);
    }
    assert(x86::starts(c, c35) && x86::word_at(c, 188) == 0xFFFF_FDC8) by {
        x86::piece32(c, c35, 0xFFFF_FDC8);
    }
    assert(x86::starts(c, c34) && c[185] == 0x51 && c[186] == 0x8B && c[187] == 0x95) by {
        x86::piece(c, c34, [ 0x51u8, 0x8B, 0x95, ]@);
    }
    assert(x86::starts(c, c33) && x86::word_at(c, 181) == 0xFFFF_FDA8) by {
        x86::piece32(c, c33, 0xFFFF_FDA8);
    }
    assert(x86::starts(c, c32) && c[178] == 0x50 && c[179] == 0x8B && c[180] == 0x8D) by {
        x86::piece(c, c32, [ 0x50u8, 0x8B, 0x8D, ]@);
    }
    assert(x86::starts(c, c31) && x86::word_at(c, 174) == 0xFFFF_FDA0) by {
        x86::piece32(c, c31, 0xFFFF_FDA0);
    }
    assert(x86::starts(c, c30) && c[171] == 0x52 && c[172] == 0x8B && c[173] == 0x85) by {
        x86::piece(c, c30, [ 0x52u8, 0x8B, 0x85, ]@);
    }
    assert(x86::starts(c, c29) && x86::word_at(c, 167) == 0xFFFF_FDA4) by {
        x86::piece32(c, c29, 0xFFFF_FDA4);
    }
    assert(x86::starts(c, c28) && c[165] == 0x8B && c[166] == 0x95) by {
        x86::piece(c, c28, [0x8Bu8, 0x95]@);
    }
    assert(x86::starts(c, c27) && x86::word_at(c, 161) == colors::DEFAULT_NAME_COLOR as u32) by {
        x86::piece32(c, c27, colors::DEFAULT_NAME_COLOR as u32);
    }
    assert(x86::starts(c, c26) && c[157] == 0x6A && c[158] == 0x00 && c[159] == 0x51 && c[160] == 0x68) by {
        x86::piece(c, c26, [ 0x6Au8, 0x00, 0x51, 0x68, ]@);
    }
    assert(x86::starts(c, c25)) by {
        x86::piece(c, c25, colors::marker_check_code(table, 0x06, colors::NAME_ORIGINAL - 110));
    }
    assert(x86::starts(c, c24) && c[104] == 0x0F && c[105] == 0x82 && x86::far(c, 106) == colors::NAME_ORIGINAL as int) by {
        x86::piece_jcc(c, c24, 0x82, colors::NAME_ORIGINAL as int);
    }
    assert(x86::starts(c, c23) && x86::word_at(c, 100) == colors::MIN_RENDER_MONSTER_OBJECT_ID) by {
        x86::piece32(c, c23, colors::MIN_RENDER_MONSTER_OBJECT_ID);
    }
    assert(x86::starts(c, c22) && c[95] == 0x8B && c[96] == 0x50 && c[97] == 0x0C && c[98] == 0x81 && c[99] == 0xFA) by {
        x86::piece(c, c22, [ 0x8Bu8, 0x50, 0x0C, 0x81, 0xFA, ]@);
    }
    assert(x86::starts(c, c21) && c[90] == 0xE9 && x86::far(c, 91) == colors::NAME_ORIGINAL as int) by {
        x86::piece_jmp(c, c21, colors::NAME_ORIGINAL as int);
    }
    assert(x86::starts(c, c20) && c[84] == 0x0F && c[85] == 0x84 && x86::far(c, 86) == colors::NAME_CHECK_ID as int) by {
        x86::piece_jcc(c, c20, 0x84, colors::NAME_CHECK_ID as int);
    }
    assert(x86::starts(c, c19) && x86::word_at(c, 80) == colors::GREEN as u32) by {
        x86::piece32(c, c19, colors::GREEN as u32);
    }
    assert(x86::starts(c, c18) && c[78] == 0x81 && c[79] == 0xF9) by {
        x86::piece(c, c18, [0x81u8, 0xF9]@);
    }
    assert(x86::starts(c, c17) && c[72] == 0x0F && c[73] == 0x84 && x86::far(c, 74) == colors::NAME_CHECK_ID as int) by {
        x86::piece_jcc(c, c17, 0x84, colors::NAME_CHECK_ID as int);
    }
    assert(x86::starts(c, c16) && x86::word_at(c, 68) == colors::BLUE as u32) by {
        x86::piece32(c, c16, colors::BLUE as u32);
    }
    assert(x86::starts(c, c15) && c[66] == 0x81 && c[67] == 0xF9) by {
        x86::piece(c, c15, [0x81u8, 0xF9]@);
    }
    assert(x86::starts(c, c14) && c[60] == 0x0F && c[61] == 0x84 && x86::far(c, 62) == colors::NAME_CHECK_ID as int) by {
        x86::piece_jcc(c, c14, 0x84, colors::NAME_CHECK_ID as int);
    }
    assert(x86::starts(c, c13) && x86::word_at(c, 56) == colors::LIGHT_RED as u32) by {
        x86::piece32(c, c13, colors::LIGHT_RED as u32);
    }
    assert(x86::starts(c, c12) && c[54] == 0x81 && c[55] == 0xF9) by {
        x86::piece(c, c12, [0x81u8, 0xF9]@);
    }
    assert(x86::starts(c, c11) && c[48] == 0x0F && c[49] == 0x84 && x86::far(c, 50) == colors::NAME_CHECK_ID as int) by {
        x86::piece_jcc(c, c11, 0x84, colors::NAME_CHECK_ID as int);
    }
    assert(x86::starts(c, c10) && x86::word_at(c, 44) == colors::DARK_RED as u32) by {
        x86::piece32(c, c10, colors::DARK_RED as u32);
    }
    assert(x86::starts(c, c9) && c[42] == 0x81 && c[43] == 0xF9) by {
        x86::piece(c, c9, [0x81u8, 0xF9]@);
    }
    assert(x86::starts(c, c8) && c[36] == 0x0F && c[37] == 0x84 && x86::far(c, 38) == colors::NAME_ORIGINAL as int) by {
        x86::piece_jcc(c, c8, 0x84, colors::NAME_ORIGINAL as int);
    }
    assert(x86::starts(c, c7) && x86::word_at(c, 32) == colors::DEFAULT_NAME_COLOR as u32) by {
        x86::piece32(c, c7, colors::DEFAULT_NAME_COLOR as u32);
    }
    assert(x86::starts(c, c6) && c[30] == 0x81 && c[31] == 0xF9) by {
        x86::piece(c, c6, [0x81u8, 0xF9]@);
    }
    assert(x86::starts(c, c5) && c[24] == 0x0F && c[25] == 0x84 && x86::far(c, 26) == colors::NAME_ORIGINAL as int) by {
        x86::piece_jcc(c, c5, 0x84, colors::NAME_ORIGINAL as int);
    }
    assert(x86::starts(c, c4) && x86::word_at(c, 20) == colors::DEFAULT_NAME_COLOR as u32) by {
        x86::piece32(c, c4, colors::DEFAULT_NAME_COLOR as u32);
    }
    assert(x86::starts(c, c3) && c[14] == 0x0F && c[15] == 0xB7 && c[16] == 0x48 && c[17] == 0x30 && c[18] == 0x81 && c[19] == 0xF9) by {
        x86::piece(c, c3, [ 0x0Fu8, 0xB7, 0x48, 0x30, 0x81, 0xF9, ]@);
    }
    assert(x86::starts(c, c2) && c[8] == 0x0F && c[9] == 0x84 && x86::far(c, 10) == colors::NAME_ORIGINAL as int) by {
        x86::piece_jcc(c, c2, 0x84, colors::NAME_ORIGINAL as int);
    }
    assert(x86::starts(c, c1) && c[6] == 0x85 && c[7] == 0xC0) by {
        x86::piece(c, c1, [0x85u8, 0xC0]@);
    }
    assert(x86::starts(c, c0) && x86::word_at(c, 2) == 0xFFFF_FDC8) by {
        x86::piece32(c, c0, 0xFFFF_FDC8);
    }
    assert forall|k: int| 0 <= k < c0.len() implies #[trigger] c[k] == c0[k] by {
        assert(c.take(c0.len() as int)[k] == c0[k]);
    }
}

/// The color of an object, where it is one of the four that levels have.
pub open spec fn level_color(color: u16) -> bool {
    color == 0x8800 || color == 0xF800 || color == 0x001F || color == 0x07E0
}

/// A color other than those of levels, or no object: the name is drawn as ever.
#[verifier::rlimit(50)]
proof fn other_colors_are_left(cave: u32, table: u32, s: Cpu) -> (m: nat)
    requires
        s.ip == 0,
        !s.returned,
    ensures
        ({
            let obj = s.mem[x86::wrap(s.r.ebp - 0x238)];
            let color = s.mem16[x86::wrap(obj + 0x30)];
            let e = x86::run(colors::name_render_code(cave, table), s, m);
            &&& e.ip == if obj != 0 && level_color(color) {
                95int
            } else {
                216
            }
            &&& obj != 0 ==> e.r.ecx == color
            &&& e.r.eax == obj
            &&& e == (Cpu {
                ip: e.ip,
                f: e.f,
                r: x86::Regs { eax: e.r.eax, ecx: e.r.ecx, ..s.r },
                ..s
            })
        }),
{
    let c = colors::name_render_code(cave, table);
    broadcast use {crate::x86::group_cells, crate::code::group_code_len};

    assert(c.take(c.len() as int) =~= c);
    name_render_code_bytes(c, cave, table);
    x86::wraps_around(s.r.ebp + 0xFFFF_FDC8);
    let s0 = s;
    x86::names_far(c, 1, 0, 5);
    x86::ins_load(c, s0);
    let s1 = x86::step(c, s0);
    assert(s1.ip == 6);
    x86::names_reg(c, 7, 0, 0);
    x86::ins_test(c, s1);
    let s2 = x86::step(c, s1);
    assert(s2.ip == 8);
    x86::ins_branch(c, s2);
    let s3 = x86::step(c, s2);
    assert(x86::run(c, s, 3) == s3) by {
        reveal_with_fuel(x86::run, 4);
    }
    if s3.ip != 14 {
        3
    } else {
        x86::names_near(c, 16, 1, 0);
        x86::ins_load16(c, s3);
        let s4 = x86::step(c, s3);
        assert(s4.ip == 18);
        x86::names_reg(c, 19, 7, 1);
        x86::ins_alu_word(c, s4);
        let s5 = x86::step(c, s4);
        assert(s5.ip == 24);
        x86::ins_branch(c, s5);
        let s6 = x86::step(c, s5);
        assert(x86::run(c, s, 6) == s6) by {
            reveal_with_fuel(x86::run, 7);
        }
        if s6.ip != 30 {
            6
        } else {
            x86::names_reg(c, 31, 7, 1);
            x86::ins_alu_word(c, s6);
            let s7 = x86::step(c, s6);
            assert(s7.ip == 36);
            x86::ins_branch(c, s7);
            let s8 = x86::step(c, s7);
            assert(x86::run(c, s, 8) == s8) by {
                reveal_with_fuel(x86::run, 9);
            }
            if s8.ip != 42 {
                8
            } else {
                x86::names_reg(c, 43, 7, 1);
                x86::ins_alu_word(c, s8);
                let s9 = x86::step(c, s8);
                assert(s9.ip == 48);
                x86::ins_branch(c, s9);
                let s10 = x86::step(c, s9);
                assert(x86::run(c, s, 10) == s10) by {
                    reveal_with_fuel(x86::run, 11);
                }
                if s10.ip != 54 {
                    10
                } else {
                    x86::names_reg(c, 55, 7, 1);
                    x86::ins_alu_word(c, s10);
                    let s11 = x86::step(c, s10);
                    assert(s11.ip == 60);
                    x86::ins_branch(c, s11);
                    let s12 = x86::step(c, s11);
                    assert(x86::run(c, s, 12) == s12) by {
                        reveal_with_fuel(x86::run, 13);
                    }
                    if s12.ip != 66 {
                        12
                    } else {
                        x86::names_reg(c, 67, 7, 1);
                        x86::ins_alu_word(c, s12);
                        let s13 = x86::step(c, s12);
                        assert(s13.ip == 72);
                        x86::ins_branch(c, s13);
                        let s14 = x86::step(c, s13);
                        assert(x86::run(c, s, 14) == s14) by {
                            reveal_with_fuel(x86::run, 15);
                        }
                        if s14.ip != 78 {
                            14
                        } else {
                            x86::names_reg(c, 79, 7, 1);
                            x86::ins_alu_word(c, s14);
                            let s15 = x86::step(c, s14);
                            assert(s15.ip == 84);
                            x86::ins_branch(c, s15);
                            let s16 = x86::step(c, s15);
                            assert(x86::run(c, s, 16) == s16) by {
                                reveal_with_fuel(x86::run, 17);
                            }
                            if s16.ip != 90 {
                                16
                            } else {
                                x86::ins_jump(c, s16);
                                let s17 = x86::step(c, s16);
                                assert(x86::run(c, s, 17) == s17) by {
                                    reveal_with_fuel(x86::run, 18);
                                }
                                17
                            }
                        }
                    }
                }
            }
        }
    }
}

/// Only objects with the numbers of monsters go on.
#[verifier::rlimit(50)]
proof fn only_monsters_go_on(cave: u32, table: u32, s: Cpu)
    requires
        s.ip == 95,
        !s.returned,
    ensures
        ({
            let id = s.mem[x86::wrap(s.r.eax + 0x0C)];
            let e = x86::run(colors::name_render_code(cave, table), s, 3);
            &&& e.ip == if id >= 0x0100_0000 {
                110int
            } else {
                216
            }
            &&& e == (Cpu { ip: e.ip, f: e.f, r: x86::Regs { edx: id, ..s.r }, ..s })
        }),
{
    let c = colors::name_render_code(cave, table);
    broadcast use {crate::x86::group_cells, crate::code::group_code_len};

    assert(c.take(c.len() as int) =~= c);
    name_render_code_bytes(c, cave, table);
    reveal_with_fuel(x86::run, 4);
    let s0 = s;
    x86::names_near(c, 96, 2, 0);
    x86::ins_load(c, s0);
    let s1 = x86::step(c, s0);
    assert(s1.ip == 98);
    x86::names_reg(c, 99, 7, 2);
    x86::ins_alu_word(c, s1);
    let s2 = x86::step(c, s1);
    assert(s2.ip == 104);
    x86::ins_branch(c, s2);
    let s3 = x86::step(c, s2);
}

/// Whether a cell lies apart from the stack.
pub open spec fn apart(s: Cpu, a: u32) -> bool {
    a < s.r.esp - 0x100 || s.r.esp <= a
}

/// The name is drawn by the client's own routine, at its place and in its length: white
/// within the color of its level.
#[verifier::rlimit(50)]
proof fn names_are_drawn_in_color(cave: u32, table: u32, s: Cpu)
    requires
        s.ip == 157,
        !s.returned,
        0x100 <= s.r.esp,
        apart(s, x86::wrap(s.r.ebp - 0x238)),
        apart(s, x86::wrap(s.r.ebp - 0x25C)),
        apart(s, x86::wrap(s.r.ebp - 0x260)),
        apart(s, x86::wrap(s.r.ebp - 0x258)),
        apart(s, x86::wrap(s.mem[x86::wrap(s.r.ebp - 0x238)] + 0x60)),
        apart(s, 0x009A_84E0),
    ensures
        ({
            let obj = s.mem[x86::wrap(s.r.ebp - 0x238)];
            let e = x86::run(colors::name_render_code(cave, table), s, 15);
            &&& x86::wrap(cave + e.ip) == 0x0046_F150
            &&& e.r.esp == s.r.esp - 36
            &&& e.mem[e.r.esp] == x86::wrap(s.origin + 208)
            &&& e.top(9).skip(1) =~= seq![
                s.mem[0x009A_84E0],
                s.mem[x86::wrap(obj + 0x60)],
                s.mem[x86::wrap(s.r.ebp - 0x258)],
                s.mem[x86::wrap(s.r.ebp - 0x260)],
                s.mem[x86::wrap(s.r.ebp - 0x25C)],
                0xFFDF,
                s.r.ecx,
                0,
            ]
        }),
{
    let c = colors::name_render_code(cave, table);
    broadcast use {crate::x86::group_cells, crate::code::group_code_len};

    assert(c.take(c.len() as int) =~= c);
    name_render_code_bytes(c, cave, table);
    x86::wraps_around(s.r.ebp + 0xFFFF_FDC8);
    x86::wraps_around(s.r.ebp + 0xFFFF_FDA4);
    x86::wraps_around(s.r.ebp + 0xFFFF_FDA0);
    x86::wraps_around(s.r.ebp + 0xFFFF_FDA8);
    x86::rel_leads(cave + 208, colors::TEXT_DRAW_FN);
    reveal_with_fuel(x86::run, 16);
    let s0 = s;
    x86::ins_push_byte(c, s0);
    let s1 = x86::step(c, s0);
    assert(s1.ip == 159);
    x86::ins_push_reg(c, s1);
    let s2 = x86::step(c, s1);
    assert(s2.ip == 160);
    x86::ins_push_word(c, s2);
    let s3 = x86::step(c, s2);
    assert(s3.ip == 165);
    x86::names_far(c, 166, 2, 5);
    x86::ins_load(c, s3);
    let s4 = x86::step(c, s3);
    assert(s4.ip == 171);
    x86::ins_push_reg(c, s4);
    let s5 = x86::step(c, s4);
    assert(s5.ip == 172);
    x86::names_far(c, 173, 0, 5);
    x86::ins_load(c, s5);
    let s6 = x86::step(c, s5);
    assert(s6.ip == 178);
    x86::ins_push_reg(c, s6);
    let s7 = x86::step(c, s6);
    assert(s7.ip == 179);
    x86::names_far(c, 180, 1, 5);
    x86::ins_load(c, s7);
    let s8 = x86::step(c, s7);
    assert(s8.ip == 185);
    x86::ins_push_reg(c, s8);
    let s9 = x86::step(c, s8);
    assert(s9.ip == 186);
    x86::names_far(c, 187, 2, 5);
    x86::ins_load(c, s9);
    let s10 = x86::step(c, s9);
    assert(s10.ip == 192);
    x86::names_near(c, 193, 0, 2);
    x86::ins_load(c, s10);
    let s11 = x86::step(c, s10);
    assert(s11.ip == 195);
    x86::ins_push_reg(c, s11);
    let s12 = x86::step(c, s11);
    assert(s12.ip == 196);
    x86::names_cell(c, 197, 1);
    x86::ins_load(c, s12);
    let s13 = x86::step(c, s12);
    assert(s13.ip == 202);
    x86::ins_push_reg(c, s13);
    let s14 = x86::step(c, s13);
    assert(s14.ip == 203);
    x86::ins_call_in(c, s14);
    let s15 = x86::step(c, s14);
}

proof fn the_look_stands(cave: u32, table: u32)
    ensures
        looks(
            colors::name_render_code(cave, table),
            colors::name_render_code(cave, table).take(110),
            table,
            0,
            106,
        ),
        colors::name_render_code(cave, table).take(110).len() == 110,
{
    let c = colors::name_render_code(cave, table);
    assert(c.take(c.len() as int) =~= c);
    name_render_code_bytes(c, cave, table);
}

/// A monster's name is drawn in the color of its level where the object has that color
/// and a monster's number, and is marked; every other name is drawn as ever.
#[verifier::rlimit(40)]
pub proof fn marked_monsters_are_drawn_in_color(cave: u32, table: u32, s: Cpu) -> (m: nat)
    requires
        s.ip == 0,
        !s.returned,
        0x200 <= s.r.esp,
        table + 4 + 4 * s.mem[table] <= u32::MAX,
        s.r.esp <= table || table + 4 + 4 * s.mem[table] + 8 <= s.r.esp,
        apart(s, x86::wrap(s.r.ebp - 0x238)),
        apart(s, x86::wrap(s.r.ebp - 0x25C)),
        apart(s, x86::wrap(s.r.ebp - 0x260)),
        apart(s, x86::wrap(s.r.ebp - 0x258)),
        apart(s, x86::wrap(s.mem[x86::wrap(s.r.ebp - 0x238)] + 0x60)),
        apart(s, 0x009A_84E0),
    ensures
        ({
            let obj = s.mem[x86::wrap(s.r.ebp - 0x238)];
            let color = s.mem16[x86::wrap(obj + 0x30)];
            let id = s.mem[x86::wrap(obj + 0x0C)];
            let marked = among(s.mem, table + 4, s.mem[table] as int, obj);
            let e = x86::run(colors::name_render_code(cave, table), s, m);
            if obj != 0 && level_color(color) && id >= 0x0100_0000 && marked {
                &&& x86::wrap(cave + e.ip) == 0x0046_F150
                &&& e.r.esp == s.r.esp - 36
                &&& e.mem[e.r.esp] == x86::wrap(s.origin + 208)
                &&& e.top(9).skip(1) =~= seq![
                    s.mem[0x009A_84E0],
                    s.mem[x86::wrap(obj + 0x60)],
                    s.mem[x86::wrap(s.r.ebp - 0x258)],
                    s.mem[x86::wrap(s.r.ebp - 0x260)],
                    s.mem[x86::wrap(s.r.ebp - 0x25C)],
                    0xFFDF,
                    color as u32,
                    0,
                ]
            } else {
                &&& e.ip == 216
                &&& e.r.esp == s.r.esp && e.r.ebp == s.r.ebp && e.r.ebx == s.r.ebx
                &&& e.r.esi == s.r.esi && e.r.edi == s.r.edi
            }
        }),
{
    let c = colors::name_render_code(cave, table);
    let obj = s.mem[x86::wrap(s.r.ebp - 0x238)];
    let m1 = other_colors_are_left(cave, table, s);
    let t1 = x86::run(c, s, m1);
    if t1.ip == 216 {
        m1
    } else {
        only_monsters_go_on(cave, table, t1);
        x86::runs_follow_each_other(c, s, m1, 3);
        let t2 = x86::run(c, t1, 3);
        if t2.ip == 216 {
            m1 + 3
        } else {
            the_look_stands(cave, table);
            let head = c.take(110);
            assert(t2.mem == s.mem);
            let m3 = marked_objects_go_on(c, head, table, 0, 106, t2);
            x86::runs_follow_each_other(c, s, m1 + 3, m3);
            let t3 = x86::run(c, t2, m3);
            if t3.ip == 216 {
                m1 + 3 + m3
            } else {
                assert(t3.ip == 157);
                names_are_drawn_in_color(cave, table, t3);
                let e = x86::run(c, t3, 15);
                assert(t3.r.ecx == s.mem16[x86::wrap(obj + 0x30)]);
                assert(t3.mem[x86::wrap(s.r.ebp - 0x238)] == obj);
                assert(t3.mem[x86::wrap(s.r.ebp - 0x258)] == s.mem[x86::wrap(s.r.ebp - 0x258)]);
                assert(t3.mem[x86::wrap(s.r.ebp - 0x260)] == s.mem[x86::wrap(s.r.ebp - 0x260)]);
                assert(t3.mem[x86::wrap(s.r.ebp - 0x25C)] == s.mem[x86::wrap(s.r.ebp - 0x25C)]);
                assert(t3.mem[0x009A_84E0] == s.mem[0x009A_84E0]);
                assert(t3.mem[x86::wrap(obj + 0x60)] == s.mem[x86::wrap(obj + 0x60)]);
                assert(x86::run(c, s, m1 + 3 + m3) == t3);
                x86::runs_follow_each_other(c, s, m1 + 3 + m3, 15);
                m1 + 3 + m3 + 15
            }
        }
    }
}

/// What was there before the hook is done after it: a 0 goes onto the stack, `edx` holds
/// the client's black, and the client goes on behind the hook.
#[verifier::rlimit(50)]
pub proof fn other_names_are_drawn_as_ever(cave: u32, table: u32, s: Cpu)
    requires
        s.ip == 216,
        !s.returned,
        0x100 <= s.r.esp,
        apart(s, 0x0095_FB38),
    ensures
        ({
            let e = x86::run(colors::name_render_code(cave, table), s, 3);
            &&& x86::wrap(cave + e.ip) == 0x004F_2BA8
            &&& e.mem == s.mem.insert((s.r.esp - 4) as u32, 0)
            &&& e.r == (x86::Regs {
                esp: (s.r.esp - 4) as u32,
                edx: s.mem[0x0095_FB38],
                ..s.r
            })
        }),
{
    let c = colors::name_render_code(cave, table);
    broadcast use {crate::x86::group_cells, crate::code::group_code_len};

    assert(c.take(c.len() as int) =~= c);
    name_render_code_bytes(c, cave, table);
    x86::rel_leads(cave + 229, colors::NAME_RENDER_FALLTHROUGH_ADDR);
    reveal_with_fuel(x86::run, 4);
    let s0 = s;
    x86::ins_push_byte(c, s0);
    let s1 = x86::step(c, s0);
    assert(s1.ip == 218);
    x86::names_cell(c, 219, 2);
    x86::ins_load(c, s1);
    let s2 = x86::step(c, s1);
    assert(s2.ip == 224);
    x86::ins_jump(c, s2);
    let s3 = x86::step(c, s2);
}

/// After the name was drawn, its arguments are taken off and the client goes on behind
/// its own call.
#[verifier::rlimit(50)]
pub proof fn drawn_names_are_not_drawn_again(cave: u32, table: u32, s: Cpu)
    requires
        s.ip == 208,
        !s.returned,
        s.r.esp + 0x20 <= u32::MAX,
    ensures
        ({
            let e = x86::run(colors::name_render_code(cave, table), s, 2);
            &&& x86::wrap(cave + e.ip) == 0x004F_2BE2
            &&& e.r == (x86::Regs { esp: (s.r.esp + 0x20) as u32, ..s.r })
            &&& e.mem == s.mem
        }),
{
    let c = colors::name_render_code(cave, table);
    broadcast use {crate::x86::group_cells, crate::code::group_code_len};

    assert(c.take(c.len() as int) =~= c);
    name_render_code_bytes(c, cave, table);
    x86::rel_leads(cave + 216, colors::NAME_RENDER_AFTER_CALL_ADDR);
    reveal_with_fuel(x86::run, 3);
    let s0 = s;
    x86::names_reg(c, 209, 0, 4);
    x86::ins_alu_byte(c, s0);
    let s1 = x86::step(c, s0);
    assert(s1.ip == 211);
    x86::ins_jump(c, s1);
    let s2 = x86::step(c, s1);
}

#[verifier::rlimit(40)]
proof fn color_fix_code_bytes(c: Seq<u8>, table: u32)
    requires
        x86::starts(c, colors::color_fix_code(table)),
    ensures
        c.len() >= 123,
        c[0] == 0x8B,
        c[1] == 0x45,
        c[2] == 0x1C,
        c[3] == 0x3D,
        x86::word_at(c, 4) == colors::DARK_RED as u32,
        c[8] == 0x0F,
        c[9] == 0x84,
        x86::far(c, 10) == colors::FIX_CHECK_ENTITY as int,
        c[14] == 0x3D,
        x86::word_at(c, 15) == colors::LIGHT_RED as u32,
        c[19] == 0x0F,
        c[20] == 0x84,
        x86::far(c, 21) == colors::FIX_CHECK_ENTITY as int,
        c[25] == 0x3D,
        x86::word_at(c, 26) == colors::BLUE as u32,
        c[30] == 0x0F,
        c[31] == 0x84,
        x86::far(c, 32) == colors::FIX_CHECK_ENTITY as int,
        c[36] == 0x3D,
        x86::word_at(c, 37) == colors::GREEN as u32,
        c[41] == 0x0F,
        c[42] == 0x84,
        x86::far(c, 43) == colors::FIX_CHECK_ENTITY as int,
        c[47] == 0xE9,
        x86::far(c, 48) == colors::FIX_DONE as int,
        c[52] == 0x8B,
        c[53] == 0x15,
        x86::word_at(c, 54) == colors::SELECTED_ENTITY_PTR_ADDR,
        c[58] == 0x85,
        c[59] == 0xD2,
        c[60] == 0x0F,
        c[61] == 0x84,
        x86::far(c, 62) == colors::FIX_DONE as int,
        x86::starts(c, code::put(c.take(66), colors::marker_check_code(table, 0x16, colors::FIX_DONE - 66))),
        c[113] == 0x89,
        c[114] == 0x45,
        c[115] == 0x20,
        c[116] == 0xC7,
        c[117] == 0x45,
        c[118] == 0x1C,
        x86::word_at(c, 119) == colors::DEFAULT_NAME_COLOR as u32,
{
    broadcast use crate::code::group_code_len;

    reveal(colors::color_fix_code);
    let c0 = [ 0x8Bu8, 0x45, 0x1C, 0x3D, ]@;
    let c1 = code::put32(c0, colors::DARK_RED as u32);
    let c2 = code::jcc(c1, 0x84, colors::FIX_CHECK_ENTITY as int);
    let c3 = code::put(c2, [0x3Du8]@);
    let c4 = code::put32(c3, colors::LIGHT_RED as u32);
    let c5 = code::jcc(c4, 0x84, colors::FIX_CHECK_ENTITY as int);
    let c6 = code::put(c5, [0x3Du8]@);
    let c7 = code::put32(c6, colors::BLUE as u32);
    let c8 = code::jcc(c7, 0x84, colors::FIX_CHECK_ENTITY as int);
    let c9 = code::put(c8, [0x3Du8]@);
    let c10 = code::put32(c9, colors::GREEN as u32);
    let c11 = code::jcc(c10, 0x84, colors::FIX_CHECK_ENTITY as int);
    let c12 = code::jmp(c11, colors::FIX_DONE as int);
    let c13 = code::put(c12, [0x8Bu8, 0x15]@);
    let c14 = code::put32(c13, colors::SELECTED_ENTITY_PTR_ADDR);
    let c15 = code::put(c14, [0x85u8, 0xD2]@);
    let c16 = code::jcc(c15, 0x84, colors::FIX_DONE as int);
    let c17 = code::put(c16, colors::marker_check_code(table, 0x16, colors::FIX_DONE - 66));
    let c18 = code::put(c17, [ 0x89u8, 0x45, 0x20, 0xC7, 0x45, 0x1C, ]@);
    let c19 = code::put32(c18, colors::DEFAULT_NAME_COLOR as u32);
    assert(x86::starts(c, c19));
    x86::piece32(c, c18, colors::DEFAULT_NAME_COLOR as u32);
    x86::piece(c, c17, [ 0x89u8, 0x45, 0x20, 0xC7, 0x45, 0x1C, ]@);
    x86::piece(c, c16, colors::marker_check_code(table, 0x16, colors::FIX_DONE - 66));
    x86::piece_jcc(c, c15, 0x84, colors::FIX_DONE as int);
    x86::piece(c, c14, [0x85u8, 0xD2]@);
    x86::piece32(c, c13, colors::SELECTED_ENTITY_PTR_ADDR);
    x86::piece(c, c12, [0x8Bu8, 0x15]@);
    x86::piece_jmp(c, c11, colors::FIX_DONE as int);
    x86::piece_jcc(c, c10, 0x84, colors::FIX_CHECK_ENTITY as int);
    x86::piece32(c, c9, colors::GREEN as u32);
    x86::piece(c, c8, [0x3Du8]@);
    x86::piece_jcc(c, c7, 0x84, colors::FIX_CHECK_ENTITY as int);
    x86::piece32(c, c6, colors::BLUE as u32);
    x86::piece(c, c5, [0x3Du8]@);
    x86::piece_jcc(c, c4, 0x84, colors::FIX_CHECK_ENTITY as int);
    x86::piece32(c, c3, colors::LIGHT_RED as u32);
    x86::piece(c, c2, [0x3Du8]@);
    x86::piece_jcc(c, c1, 0x84, colors::FIX_CHECK_ENTITY as int);
    x86::piece32(c, c0, colors::DARK_RED as u32);
    assert forall|k: int| 0 <= k < c0.len() implies #[trigger] c[k] == c0[k] by {
        assert(c.take(c0.len() as int)[k] == c0[k]);
    }
}

proof fn the_look_stands_in_color_fix(table: u32)
    ensures
        looks(
            colors::color_fix_code(table),
            colors::color_fix_code(table).take(66),
            table,
            2,
            57,
        ),
        colors::color_fix_code(table).take(66).len() == 66,
{
    let c = colors::color_fix_code(table);
    assert(c.take(c.len() as int) =~= c);
    color_fix_code_bytes(c, table);
}

#[verifier::rlimit(50)]
proof fn colors_are_told_apart(table: u32, s: Cpu) -> (m: nat)
    requires
        s.ip == 0,
        !s.returned,
    ensures
        ({
            let inner = s.mem[x86::wrap(s.r.ebp + 0x1C)];
            let e = x86::run(colors::color_fix_code(table), s, m);
            &&& e.ip == if inner <= 0xFFFF && level_color(inner as u16) {
                52int
            } else {
                123
            }
            &&& e == (Cpu { ip: e.ip, f: e.f, r: x86::Regs { eax: inner, ..s.r }, ..s })
        }),
{
    let c = colors::color_fix_code(table);
    broadcast use {crate::x86::group_cells, crate::code::group_code_len};

    assert(c.take(c.len() as int) =~= c);
    color_fix_code_bytes(c, table);
    let s0 = s;
    x86::names_near(c, 1, 0, 5);
    x86::ins_load(c, s0);
    let s1 = x86::step(c, s0);
    assert(s1.ip == 3);
    x86::ins_compare_eax(c, s1);
    let s2 = x86::step(c, s1);
    assert(s2.ip == 8);
    x86::ins_branch(c, s2);
    let s3 = x86::step(c, s2);
    assert(x86::run(c, s, 3) == s3) by {
        reveal_with_fuel(x86::run, 4);
    }
    if s3.ip != 14 {
        3
    } else {
        x86::ins_compare_eax(c, s3);
        let s4 = x86::step(c, s3);
        assert(s4.ip == 19);
        x86::ins_branch(c, s4);
        let s5 = x86::step(c, s4);
        assert(x86::run(c, s, 5) == s5) by {
            reveal_with_fuel(x86::run, 6);
        }
        if s5.ip != 25 {
            5
        } else {
            x86::ins_compare_eax(c, s5);
            let s6 = x86::step(c, s5);
            assert(s6.ip == 30);
            x86::ins_branch(c, s6);
            let s7 = x86::step(c, s6);
            assert(x86::run(c, s, 7) == s7) by {
                reveal_with_fuel(x86::run, 8);
            }
            if s7.ip != 36 {
                7
            } else {
                x86::ins_compare_eax(c, s7);
                let s8 = x86::step(c, s7);
                assert(s8.ip == 41);
                x86::ins_branch(c, s8);
                let s9 = x86::step(c, s8);
                assert(x86::run(c, s, 9) == s9) by {
                    reveal_with_fuel(x86::run, 10);
                }
                if s9.ip != 47 {
                    9
                } else {
                    x86::ins_jump(c, s9);
                    let s10 = x86::step(c, s9);
                    assert(x86::run(c, s, 10) == s10) by {
                        reveal_with_fuel(x86::run, 11);
                    }
                    10
                }
            }
        }
    }
}

#[verifier::rlimit(50)]
proof fn the_selected_is_looked_at(table: u32, s: Cpu)
    requires
        s.ip == 52,
        !s.returned,
    ensures
        ({
            let e = x86::run(colors::color_fix_code(table), s, 3);
            let selected = s.mem[0x00AB_F440];
            &&& e.ip == if selected == 0 {
                123int
            } else {
                66
            }
            &&& e == (Cpu { ip: e.ip, f: e.f, r: x86::Regs { edx: selected, ..s.r }, ..s })
        }),
{
    let c = colors::color_fix_code(table);
    broadcast use {crate::x86::group_cells, crate::code::group_code_len};

    assert(c.take(c.len() as int) =~= c);
    color_fix_code_bytes(c, table);
    reveal_with_fuel(x86::run, 4);
    let s0 = s;
    x86::names_cell(c, 53, 2);
    x86::ins_load(c, s0);
    let s1 = x86::step(c, s0);
    assert(s1.ip == 58);
    x86::names_reg(c, 59, 2, 2);
    x86::ins_test(c, s1);
    let s2 = x86::step(c, s1);
    assert(s2.ip == 60);
    x86::ins_branch(c, s2);
    let s3 = x86::step(c, s2);
}

#[verifier::rlimit(50)]
proof fn the_colors_are_changed(table: u32, s: Cpu)
    requires
        s.ip == 113,
        !s.returned,
    ensures
        ({
            let e = x86::run(colors::color_fix_code(table), s, 2);
            &&& e.ip == 123
            &&& e == (Cpu {
                ip: 123,
                mem: s.mem.insert(x86::wrap(s.r.ebp + 0x20), s.r.eax).insert(
                    x86::wrap(s.r.ebp + 0x1C),
                    0xFFDF,
                ),
                ..s
            })
        }),
{
    let c = colors::color_fix_code(table);
    broadcast use {crate::x86::group_cells, crate::code::group_code_len};

    assert(c.take(c.len() as int) =~= c);
    color_fix_code_bytes(c, table);
    reveal_with_fuel(x86::run, 3);
    let s0 = s;
    x86::names_near(c, 114, 0, 5);
    x86::ins_store(c, s0);
    let s1 = x86::step(c, s0);
    assert(s1.ip == 116);
    x86::names_near(c, 117, 0, 5);
    x86::ins_store_word(c, s1);
    let s2 = x86::step(c, s1);
    assert(s2.ip == 123);
}

/// The name of a selected object that is marked and would be drawn in a level's color is
/// drawn white within that color; other colors stay as they are.
#[verifier::rlimit(40)]
pub proof fn selected_names_keep_their_level_around(table: u32, s: Cpu) -> (m: nat)
    requires
        s.ip == 0,
        !s.returned,
        0x200 <= s.r.esp,
        s.r.esp <= s.r.ebp,
        s.r.ebp + 0x24 <= u32::MAX,
        table + 4 + 4 * s.mem[table] <= u32::MAX,
        s.r.esp <= table || table + 4 + 4 * s.mem[table] + 8 <= s.r.esp,
        apart(s, 0x00AB_F440),
    ensures
        ({
            let inner = s.mem[(s.r.ebp + 0x1C) as u32];
            let selected = s.mem[0x00AB_F440];
            let marked = among(s.mem, table + 4, s.mem[table] as int, selected);
            let e = x86::run(colors::color_fix_code(table), s, m);
            let changes = inner <= 0xFFFF && level_color(inner as u16) && selected != 0 && marked;
            &&& e.ip == 123
            &&& e.r.esp == s.r.esp && e.r.ebp == s.r.ebp && e.r.ebx == s.r.ebx
            &&& e.r.esi == s.r.esi && e.r.edi == s.r.edi && e.r.ecx == s.r.ecx
            &&& changes ==> e.mem[(s.r.ebp + 0x1C) as u32] == 0xFFDF && e.mem[(s.r.ebp
                + 0x20) as u32] == inner
            &&& !changes ==> e.mem[(s.r.ebp + 0x1C) as u32] == inner && e.mem[(s.r.ebp
                + 0x20) as u32] == s.mem[(s.r.ebp + 0x20) as u32]
        }),
{
    let c = colors::color_fix_code(table);
    broadcast use crate::x86::wrap_fits;

    let m1 = colors_are_told_apart(table, s);
    let t1 = x86::run(c, s, m1);
    if t1.ip == 123 {
        m1
    } else {
        the_selected_is_looked_at(table, t1);
        x86::runs_follow_each_other(c, s, m1, 3);
        let t2 = x86::run(c, t1, 3);
        if t2.ip == 123 {
            m1 + 3
        } else {
            the_look_stands_in_color_fix(table);
            let head = c.take(66);
            let m3 = marked_objects_go_on(c, head, table, 2, 57, t2);
            x86::runs_follow_each_other(c, s, m1 + 3, m3);
            let t3 = x86::run(c, t2, m3);
            if t3.ip == 123 {
                m1 + 3 + m3
            } else {
                the_colors_are_changed(table, t3);
                x86::runs_follow_each_other(c, s, m1 + 3 + m3, 2);
                m1 + 3 + m3 + 2
            }
        }
    }
}

#[verifier::rlimit(40)]
proof fn overhead_text_color_reset_code_bytes(c: Seq<u8>, cave: u32, table: u32)
    requires
        x86::starts(c, colors::overhead_text_color_reset_code(cave, table)),
    ensures
        c.len() >= 147,
        c[0] == 0x66,
        c[1] == 0xA1,
        x86::word_at(c, 2) == colors::OVERHEAD_DEFAULT_COLOR_ADDR,
        c[6] == 0x85,
        c[7] == 0xD2,
        c[8] == 0x0F,
        c[9] == 0x84,
        x86::far(c, 10) == colors::RESET_DONE as int,
        c[14] == 0x8B,
        c[15] == 0x8A,
        c[16] == 0x98,
        c[17] == 0x03,
        c[18] == 0x00,
        c[19] == 0x00,
        c[20] == 0x85,
        c[21] == 0xC9,
        c[22] == 0x0F,
        c[23] == 0x84,
        x86::far(c, 24) == colors::RESET_STORE as int,
        x86::starts(c, code::put(c.take(28), colors::marker_check_code(table, 0x0E, colors::RESET_STORE - 28))),
        c[75] == 0x0F,
        c[76] == 0xB7,
        c[77] == 0x49,
        c[78] == 0x30,
        c[79] == 0x81,
        c[80] == 0xF9,
        x86::word_at(c, 81) == colors::DARK_RED as u32,
        c[85] == 0x0F,
        c[86] == 0x84,
        x86::far(c, 87) == colors::RESET_USE_COLOR as int,
        c[91] == 0x81,
        c[92] == 0xF9,
        x86::word_at(c, 93) == colors::LIGHT_RED as u32,
        c[97] == 0x0F,
        c[98] == 0x84,
        x86::far(c, 99) == colors::RESET_USE_COLOR as int,
        c[103] == 0x81,
        c[104] == 0xF9,
        x86::word_at(c, 105) == colors::BLUE as u32,
        c[109] == 0x0F,
        c[110] == 0x84,
        x86::far(c, 111) == colors::RESET_USE_COLOR as int,
        c[115] == 0x81,
        c[116] == 0xF9,
        x86::word_at(c, 117) == colors::GREEN as u32,
        c[121] == 0x0F,
        c[122] == 0x84,
        x86::far(c, 123) == colors::RESET_USE_COLOR as int,
        c[127] == 0xE9,
        x86::far(c, 128) == colors::RESET_STORE as int,
        c[132] == 0x66,
        c[133] == 0x89,
        c[134] == 0xC8,
        c[135] == 0x66,
        c[136] == 0x89,
        c[137] == 0x82,
        c[138] == 0x9C,
        c[139] == 0x03,
        c[140] == 0x00,
        c[141] == 0x00,
        c[142] == 0xE9,
        x86::word_at(c, 143) == code::rel32(cave + 147, colors::OVERHEAD_TEXT_COLOR_RESET_FALLTHROUGH_ADDR as int),
{
    broadcast use crate::code::group_code_len;

    reveal(colors::overhead_text_color_reset_code);
    let c0 = [0x66u8, 0xA1]@;
    let c1 = code::put32(c0, colors::OVERHEAD_DEFAULT_COLOR_ADDR);
    let c2 = code::put(c1, [0x85u8, 0xD2]@);
    let c3 = code::jcc(c2, 0x84, colors::RESET_DONE as int);
    let c4 = code::put(c3, [ 0x8Bu8, 0x8A, 0x98, 0x03, 0x00, 0x00, 0x85, 0xC9, ]@);
    let c5 = code::jcc(c4, 0x84, colors::RESET_STORE as int);
    let c6 = code::put(c5, colors::marker_check_code(table, 0x0E, colors::RESET_STORE - 28));
    let c7 = code::put(c6, [ 0x0Fu8, 0xB7, 0x49, 0x30, 0x81, 0xF9, ]@);
    let c8 = code::put32(c7, colors::DARK_RED as u32);
    let c9 = code::jcc(c8, 0x84, colors::RESET_USE_COLOR as int);
    let c10 = code::put(c9, [0x81u8, 0xF9]@);
    let c11 = code::put32(c10, colors::LIGHT_RED as u32);
    let c12 = code::jcc(c11, 0x84, colors::RESET_USE_COLOR as int);
    let c13 = code::put(c12, [0x81u8, 0xF9]@);
    let c14 = code::put32(c13, colors::BLUE as u32);
    let c15 = code::jcc(c14, 0x84, colors::RESET_USE_COLOR as int);
    let c16 = code::put(c15, [0x81u8, 0xF9]@);
    let c17 = code::put32(c16, colors::GREEN as u32);
    let c18 = code::jcc(c17, 0x84, colors::RESET_USE_COLOR as int);
    let c19 = code::jmp(c18, colors::RESET_STORE as int);
    let c20 = code::put(c19, [0x66u8, 0x89, 0xC8]@);
    let c21 = code::put(c20, [0x66u8, 0x89, 0x82, 0x9C, 0x03, 0x00, 0x00]@);
    let c22 = code::put(c21, [0xE9u8]@);
    let c23 = code::put32(c22, code::rel32(cave + 147, colors::OVERHEAD_TEXT_COLOR_RESET_FALLTHROUGH_ADDR as int));
    assert(x86::starts(c, c23));
    x86::piece32(c, c22, code::rel32(cave + 147, colors::OVERHEAD_TEXT_COLOR_RESET_FALLTHROUGH_ADDR as int));
    x86::piece(c, c21, [0xE9u8]@);
    x86::piece(c, c20, [0x66u8, 0x89, 0x82, 0x9C, 0x03, 0x00, 0x00]@);
    x86::piece(c, c19, [0x66u8, 0x89, 0xC8]@);
    x86::piece_jmp(c, c18, colors::RESET_STORE as int);
    x86::piece_jcc(c, c17, 0x84, colors::RESET_USE_COLOR as int);
    x86::piece32(c, c16, colors::GREEN as u32);
    x86::piece(c, c15, [0x81u8, 0xF9]@);
    x86::piece_jcc(c, c14, 0x84, colors::RESET_USE_COLOR as int);
    x86::piece32(c, c13, colors::BLUE as u32);
    x86::piece(c, c12, [0x81u8, 0xF9]@);
    x86::piece_jcc(c, c11, 0x84, colors::RESET_USE_COLOR as int);
    x86::piece32(c, c10, colors::LIGHT_RED as u32);
    x86::piece(c, c9, [0x81u8, 0xF9]@);
    x86::piece_jcc(c, c8, 0x84, colors::RESET_USE_COLOR as int);
    x86::piece32(c, c7, colors::DARK_RED as u32);
    x86::piece(c, c6, [ 0x0Fu8, 0xB7, 0x49, 0x30, 0x81, 0xF9, ]@);
    x86::piece(c, c5, colors::marker_check_code(table, 0x0E, colors::RESET_STORE - 28));
    x86::piece_jcc(c, c4, 0x84, colors::RESET_STORE as int);
    x86::piece(c, c3, [ 0x8Bu8, 0x8A, 0x98, 0x03, 0x00, 0x00, 0x85, 0xC9, ]@);
    x86::piece_jcc(c, c2, 0x84, colors::RESET_DONE as int);
    x86::piece(c, c1, [0x85u8, 0xD2]@);
    x86::piece32(c, c0, colors::OVERHEAD_DEFAULT_COLOR_ADDR);
    assert forall|k: int| 0 <= k < c0.len() implies #[trigger] c[k] == c0[k] by {
        assert(c.take(c0.len() as int)[k] == c0[k]);
    }
}

proof fn the_look_stands_in_overhead_text_color_reset(cave: u32, table: u32)
    ensures
        looks(
            colors::overhead_text_color_reset_code(cave, table),
            colors::overhead_text_color_reset_code(cave, table).take(28),
            table,
            1,
            107,
        ),
        colors::overhead_text_color_reset_code(cave, table).take(28).len() == 28,
{
    let c = colors::overhead_text_color_reset_code(cave, table);
    assert(c.take(c.len() as int) =~= c);
    overhead_text_color_reset_code_bytes(c, cave, table);
}

#[verifier::rlimit(50)]
proof fn the_object_is_looked_at(cave: u32, table: u32, s: Cpu) -> (m: nat)
    requires
        s.ip == 0,
        !s.returned,
    ensures
        ({
            let obj = s.mem[x86::wrap(s.r.edx + 0x398)];
            let e = x86::run(colors::overhead_text_color_reset_code(cave, table), s, m);
            &&& e.ip == if s.r.edx == 0 {
                142int
            } else if obj == 0 {
                135
            } else {
                28
            }
            &&& e.r.get16(0) == s.mem16[0x0095_FB94]
            &&& e.ip == 28 ==> e.r.ecx == obj
            &&& e == (Cpu {
                ip: e.ip,
                f: e.f,
                r: x86::Regs { eax: e.r.eax, ecx: e.r.ecx, ..s.r },
                ..s
            })
        }),
{
    let c = colors::overhead_text_color_reset_code(cave, table);
    broadcast use {crate::x86::group_cells, crate::code::group_code_len};

    assert(c.take(c.len() as int) =~= c);
    overhead_text_color_reset_code_bytes(c, cave, table);
    let s0 = s;
    x86::ins_load_ax(c, s0);
    let s1 = x86::step(c, s0);
    assert(s1.ip == 6);
    x86::names_reg(c, 7, 2, 2);
    x86::ins_test(c, s1);
    let s2 = x86::step(c, s1);
    assert(s2.ip == 8);
    x86::ins_branch(c, s2);
    let s3 = x86::step(c, s2);
    assert(x86::run(c, s, 3) == s3) by {
        reveal_with_fuel(x86::run, 4);
    }
    if s3.ip != 14 {
        3
    } else {
        x86::names_far(c, 15, 1, 2);
        x86::ins_load(c, s3);
        let s4 = x86::step(c, s3);
        assert(s4.ip == 20);
        x86::names_reg(c, 21, 1, 1);
        x86::ins_test(c, s4);
        let s5 = x86::step(c, s4);
        assert(s5.ip == 22);
        x86::ins_branch(c, s5);
        let s6 = x86::step(c, s5);
        assert(x86::run(c, s, 6) == s6) by {
            reveal_with_fuel(x86::run, 7);
        }
        6
    }
}

#[verifier::rlimit(50)]
proof fn the_objects_color_is_taken(cave: u32, table: u32, s: Cpu) -> (m: nat)
    requires
        s.ip == 75,
        !s.returned,
    ensures
        ({
            let color = s.mem16[x86::wrap(s.r.ecx + 0x30)];
            let e = x86::run(colors::overhead_text_color_reset_code(cave, table), s, m);
            &&& e.ip == if level_color(color) {
                132int
            } else {
                135
            }
            &&& e == (Cpu {
                ip: e.ip,
                f: e.f,
                r: x86::Regs { ecx: color as u32, ..s.r },
                ..s
            })
        }),
{
    let c = colors::overhead_text_color_reset_code(cave, table);
    broadcast use {crate::x86::group_cells, crate::code::group_code_len};

    assert(c.take(c.len() as int) =~= c);
    overhead_text_color_reset_code_bytes(c, cave, table);
    let s0 = s;
    x86::names_near(c, 77, 1, 1);
    x86::ins_load16(c, s0);
    let s1 = x86::step(c, s0);
    assert(s1.ip == 79);
    x86::names_reg(c, 80, 7, 1);
    x86::ins_alu_word(c, s1);
    let s2 = x86::step(c, s1);
    assert(s2.ip == 85);
    x86::ins_branch(c, s2);
    let s3 = x86::step(c, s2);
    assert(x86::run(c, s, 3) == s3) by {
        reveal_with_fuel(x86::run, 4);
    }
    if s3.ip != 91 {
        3
    } else {
        x86::names_reg(c, 92, 7, 1);
        x86::ins_alu_word(c, s3);
        let s4 = x86::step(c, s3);
        assert(s4.ip == 97);
        x86::ins_branch(c, s4);
        let s5 = x86::step(c, s4);
        assert(x86::run(c, s, 5) == s5) by {
            reveal_with_fuel(x86::run, 6);
        }
        if s5.ip != 103 {
            5
        } else {
            x86::names_reg(c, 104, 7, 1);
            x86::ins_alu_word(c, s5);
            let s6 = x86::step(c, s5);
            assert(s6.ip == 109);
            x86::ins_branch(c, s6);
            let s7 = x86::step(c, s6);
            assert(x86::run(c, s, 7) == s7) by {
                reveal_with_fuel(x86::run, 8);
            }
            if s7.ip != 115 {
                7
            } else {
                x86::names_reg(c, 116, 7, 1);
                x86::ins_alu_word(c, s7);
                let s8 = x86::step(c, s7);
                assert(s8.ip == 121);
                x86::ins_branch(c, s8);
                let s9 = x86::step(c, s8);
                assert(x86::run(c, s, 9) == s9) by {
                    reveal_with_fuel(x86::run, 10);
                }
                if s9.ip != 127 {
                    9
                } else {
                    x86::ins_jump(c, s9);
                    let s10 = x86::step(c, s9);
                    assert(x86::run(c, s, 10) == s10) by {
                        reveal_with_fuel(x86::run, 11);
                    }
                    10
                }
            }
        }
    }
}

#[verifier::rlimit(50)]
proof fn the_color_is_stored(cave: u32, table: u32, s: Cpu)
    requires
        !s.returned,
    ensures
        ({
            let e = x86::run(colors::overhead_text_color_reset_code(cave, table), s, 3);
            s.ip == 132 ==> x86::wrap(cave + e.ip) == 0x0042_BBB0 && e.mem16[x86::wrap(s.r.edx + 0x39C)]
                == s.r.get16(1) && e.r.esp == s.r.esp
        }),
        ({
            let e = x86::run(colors::overhead_text_color_reset_code(cave, table), s, 2);
            s.ip == 135 ==> x86::wrap(cave + e.ip) == 0x0042_BBB0 && e.mem16[x86::wrap(s.r.edx + 0x39C)]
                == s.r.get16(0) && e.r.esp == s.r.esp
        }),
        ({
            let e = x86::run(colors::overhead_text_color_reset_code(cave, table), s, 1);
            s.ip == 142 ==> x86::wrap(cave + e.ip) == 0x0042_BBB0 && e.mem16 == s.mem16 && e.r.esp
                == s.r.esp
        }),
{
    let c = colors::overhead_text_color_reset_code(cave, table);
    broadcast use {crate::x86::group_cells, crate::code::group_code_len};

    assert(c.take(c.len() as int) =~= c);
    overhead_text_color_reset_code_bytes(c, cave, table);
    x86::rel_leads(cave + 147, colors::OVERHEAD_TEXT_COLOR_RESET_FALLTHROUGH_ADDR);
    reveal_with_fuel(x86::run, 4);
    let s0 = s;
    if s.ip == 132 {
        x86::ins_move_half(c, s0);
        let s1 = x86::step(c, s0);
        assert(s1.ip == 135);
        x86::names_far(c, 137, 0, 2);
        x86::ins_store_half(c, s1);
        let s2 = x86::step(c, s1);
        assert(s2.ip == 142);
        x86::ins_jump(c, s2);
        let s3 = x86::step(c, s2);
    } else if s.ip == 135 {
        x86::names_far(c, 137, 0, 2);
        x86::ins_store_half(c, s0);
        let s1 = x86::step(c, s0);
        assert(s1.ip == 142);
        x86::ins_jump(c, s1);
        let s2 = x86::step(c, s1);
    } else if s.ip == 142 {
        x86::ins_jump(c, s0);
        let s1 = x86::step(c, s0);
    }
}

/// The text over a marked object in a level's color gets that color, any other the
/// client's own; and the client goes on behind the hook.
#[verifier::rlimit(40)]
pub proof fn overhead_texts_get_the_level_color(cave: u32, table: u32, s: Cpu) -> (m: nat)
    requires
        s.ip == 0,
        !s.returned,
        0x200 <= s.r.esp,
        table + 4 + 4 * s.mem[table] <= u32::MAX,
        s.r.esp <= table || table + 4 + 4 * s.mem[table] + 8 <= s.r.esp,
    ensures
        ({
            let obj = s.mem[x86::wrap(s.r.edx + 0x398)];
            let own = s.mem16[x86::wrap(obj + 0x30)];
            let marked = among(s.mem, table + 4, s.mem[table] as int, obj);
            let e = x86::run(colors::overhead_text_color_reset_code(cave, table), s, m);
            &&& x86::wrap(cave + e.ip) == 0x0042_BBB0
            &&& e.r.esp == s.r.esp
            &&& s.r.edx == 0 ==> e.mem16 == s.mem16
            &&& s.r.edx != 0 ==> e.mem16[x86::wrap(s.r.edx + 0x39C)] == if obj != 0 && marked
                && level_color(own) {
                own
            } else {
                s.mem16[0x0095_FB94]
            }
        }),
{
    let c = colors::overhead_text_color_reset_code(cave, table);
    let m1 = the_object_is_looked_at(cave, table, s);
    let t1 = x86::run(c, s, m1);
    the_color_is_stored(cave, table, t1);
    if t1.ip == 142 {
        x86::runs_follow_each_other(c, s, m1, 1);
        m1 + 1
    } else if t1.ip == 135 {
        x86::runs_follow_each_other(c, s, m1, 2);
        m1 + 2
    } else {
        the_look_stands_in_overhead_text_color_reset(cave, table);
        let head = c.take(28);
        let m2 = marked_objects_go_on(c, head, table, 1, 107, t1);
        x86::runs_follow_each_other(c, s, m1, m2);
        let t2 = x86::run(c, t1, m2);
        the_color_is_stored(cave, table, t2);
        if t2.ip == 135 {
            x86::runs_follow_each_other(c, s, m1 + m2, 2);
            m1 + m2 + 2
        } else {
            let m3 = the_objects_color_is_taken(cave, table, t2);
            x86::runs_follow_each_other(c, s, m1 + m2, m3);
            let t3 = x86::run(c, t2, m3);
            the_color_is_stored(cave, table, t3);
            if t3.ip == 135 {
                x86::runs_follow_each_other(c, s, m1 + m2 + m3, 2);
                m1 + m2 + m3 + 2
            } else {
                x86::runs_follow_each_other(c, s, m1 + m2 + m3, 3);
                m1 + m2 + m3 + 3
            }
        }
    }
}

#[verifier::rlimit(40)]
proof fn overhead_text_color_code_bytes(c: Seq<u8>, cave: u32, table: u32)
    requires
        x86::starts(c, colors::overhead_text_color_code(cave, table)),
    ensures
        c.len() >= 85,
        c[0] == 0x52,
        c[1] == 0x8B,
        c[2] == 0x55,
        c[3] == 0xCC,
        c[4] == 0x85,
        c[5] == 0xD2,
        c[6] == 0x0F,
        c[7] == 0x84,
        x86::far(c, 8) == colors::OVERHEAD_ORIGINAL as int,
        x86::starts(c, code::put(c.take(12), colors::marker_check_code(table, 0x16, colors::OVERHEAD_ORIGINAL - 12))),
        c[59] == 0x66,
        c[60] == 0x8B,
        c[61] == 0x4A,
        c[62] == 0x30,
        c[63] == 0xE9,
        x86::far(c, 64) == colors::OVERHEAD_STORE as int,
        c[68] == 0x66,
        c[69] == 0x8B,
        c[70] == 0x4D,
        c[71] == 0x10,
        c[72] == 0x5A,
        c[73] == 0x66,
        c[74] == 0x89,
        c[75] == 0x88,
        c[76] == 0x9C,
        c[77] == 0x03,
        c[78] == 0x00,
        c[79] == 0x00,
        c[80] == 0xE9,
        x86::word_at(c, 81) == code::rel32(cave + 85, colors::OVERHEAD_TEXT_COLOR_FALLTHROUGH_ADDR as int),
{
    broadcast use crate::code::group_code_len;

    reveal(colors::overhead_text_color_code);
    let c0 = [ 0x52u8, 0x8B, 0x55, 0xCC, 0x85, 0xD2, ]@;
    let c1 = code::jcc(c0, 0x84, colors::OVERHEAD_ORIGINAL as int);
    let c2 = code::put(c1, colors::marker_check_code(table, 0x16, colors::OVERHEAD_ORIGINAL - 12));
    let c3 = code::put(c2, [0x66u8, 0x8B, 0x4A, 0x30]@);
    let c4 = code::jmp(c3, colors::OVERHEAD_STORE as int);
    let c5 = code::put(c4, [0x66u8, 0x8B, 0x4D, 0x10]@);
    let c6 = code::put(c5, [ 0x5Au8, 0x66, 0x89, 0x88, 0x9C, 0x03, 0x00, 0x00, ]@);
    let c7 = code::put(c6, [0xE9u8]@);
    let c8 = code::put32(c7, code::rel32(cave + 85, colors::OVERHEAD_TEXT_COLOR_FALLTHROUGH_ADDR as int));
    assert(x86::starts(c, c8));
    x86::piece32(c, c7, code::rel32(cave + 85, colors::OVERHEAD_TEXT_COLOR_FALLTHROUGH_ADDR as int));
    x86::piece(c, c6, [0xE9u8]@);
    x86::piece(c, c5, [ 0x5Au8, 0x66, 0x89, 0x88, 0x9C, 0x03, 0x00, 0x00, ]@);
    x86::piece(c, c4, [0x66u8, 0x8B, 0x4D, 0x10]@);
    x86::piece_jmp(c, c3, colors::OVERHEAD_STORE as int);
    x86::piece(c, c2, [0x66u8, 0x8B, 0x4A, 0x30]@);
    x86::piece(c, c1, colors::marker_check_code(table, 0x16, colors::OVERHEAD_ORIGINAL - 12));
    x86::piece_jcc(c, c0, 0x84, colors::OVERHEAD_ORIGINAL as int);
    assert forall|k: int| 0 <= k < c0.len() implies #[trigger] c[k] == c0[k] by {
        assert(c.take(c0.len() as int)[k] == c0[k]);
    }
}

proof fn the_look_stands_in_overhead_text_color(cave: u32, table: u32)
    ensures
        looks(
            colors::overhead_text_color_code(cave, table),
            colors::overhead_text_color_code(cave, table).take(12),
            table,
            2,
            56,
        ),
        colors::overhead_text_color_code(cave, table).take(12).len() == 12,
{
    let c = colors::overhead_text_color_code(cave, table);
    assert(c.take(c.len() as int) =~= c);
    overhead_text_color_code_bytes(c, cave, table);
}

#[verifier::rlimit(50)]
proof fn the_speaker_is_looked_at(cave: u32, table: u32, s: Cpu)
    requires
        s.ip == 0,
        !s.returned,
        0x200 <= s.r.esp,
        apart(s, x86::wrap(s.r.ebp - 0x34)),
    ensures
        ({
            let obj = s.mem[x86::wrap(s.r.ebp - 0x34)];
            let e = x86::run(colors::overhead_text_color_code(cave, table), s, 4);
            &&& e.ip == if obj == 0 {
                68int
            } else {
                12
            }
            &&& e == (Cpu {
                ip: e.ip,
                f: e.f,
                r: x86::Regs { edx: obj, esp: (s.r.esp - 4) as u32, ..s.r },
                mem: s.mem.insert((s.r.esp - 4) as u32, s.r.edx),
                ..s
            })
        }),
{
    let c = colors::overhead_text_color_code(cave, table);
    broadcast use {crate::x86::group_cells, crate::code::group_code_len};

    assert(c.take(c.len() as int) =~= c);
    overhead_text_color_code_bytes(c, cave, table);
    reveal_with_fuel(x86::run, 5);
    let s0 = s;
    x86::ins_push_reg(c, s0);
    let s1 = x86::step(c, s0);
    assert(s1.ip == 1);
    x86::names_near(c, 2, 2, 5);
    x86::ins_load(c, s1);
    let s2 = x86::step(c, s1);
    assert(s2.ip == 4);
    x86::names_reg(c, 5, 2, 2);
    x86::ins_test(c, s2);
    let s3 = x86::step(c, s2);
    assert(s3.ip == 6);
    x86::ins_branch(c, s3);
    let s4 = x86::step(c, s3);
}

#[verifier::rlimit(50)]
proof fn the_text_gets_its_color(cave: u32, table: u32, s: Cpu)
    requires
        !s.returned,
        s.r.esp + 4 <= u32::MAX,
    ensures
        ({
            let e = x86::run(colors::overhead_text_color_code(cave, table), s, 5);
            s.ip == 59 ==> x86::wrap(cave + e.ip) == 0x0042_BAE5 && e.mem16[x86::wrap(s.r.eax + 0x39C)]
                == s.mem16[x86::wrap(s.r.edx + 0x30)] && e.r.edx == s.mem[s.r.esp] && e.r.esp
                == s.r.esp + 4
        }),
        ({
            let e = x86::run(colors::overhead_text_color_code(cave, table), s, 4);
            s.ip == 68 ==> x86::wrap(cave + e.ip) == 0x0042_BAE5 && e.mem16[x86::wrap(s.r.eax + 0x39C)]
                == s.mem16[x86::wrap(s.r.ebp + 0x10)] && e.r.edx == s.mem[s.r.esp] && e.r.esp
                == s.r.esp + 4
        }),
{
    let c = colors::overhead_text_color_code(cave, table);
    broadcast use {crate::x86::group_cells, crate::code::group_code_len};

    assert(c.take(c.len() as int) =~= c);
    overhead_text_color_code_bytes(c, cave, table);
    x86::rel_leads(cave + 85, colors::OVERHEAD_TEXT_COLOR_FALLTHROUGH_ADDR);
    reveal_with_fuel(x86::run, 6);
    let s0 = s;
    if s.ip == 59 {
        x86::names_near(c, 61, 1, 2);
        x86::ins_load_half(c, s0);
        let s1 = x86::step(c, s0);
        assert(s1.ip == 63);
        x86::ins_jump(c, s1);
        let s2 = x86::step(c, s1);
        assert(s2.ip == 72);
        x86::ins_pop_reg(c, s2);
        let s3 = x86::step(c, s2);
        assert(s3.ip == 73);
        x86::names_far(c, 75, 1, 0);
        x86::ins_store_half(c, s3);
        let s4 = x86::step(c, s3);
        assert(s4.ip == 80);
        x86::ins_jump(c, s4);
        let s5 = x86::step(c, s4);
    } else if s.ip == 68 {
        x86::names_near(c, 70, 1, 5);
        x86::ins_load_half(c, s0);
        let s1 = x86::step(c, s0);
        assert(s1.ip == 72);
        x86::ins_pop_reg(c, s1);
        let s2 = x86::step(c, s1);
        assert(s2.ip == 73);
        x86::names_far(c, 75, 1, 0);
        x86::ins_store_half(c, s2);
        let s3 = x86::step(c, s2);
        assert(s3.ip == 80);
        x86::ins_jump(c, s3);
        let s4 = x86::step(c, s3);
    }
}

/// The text that a marked object says gets the object's color, any other the color that
/// it was given.
#[verifier::rlimit(40)]
pub proof fn marked_objects_speak_in_their_color(cave: u32, table: u32, s: Cpu) -> (m: nat)
    requires
        s.ip == 0,
        !s.returned,
        0x200 <= s.r.esp,
        apart(s, x86::wrap(s.r.ebp - 0x34)),
        table + 4 + 4 * s.mem[table] <= u32::MAX,
        s.r.esp <= table || table + 4 + 4 * s.mem[table] + 12 <= s.r.esp,
    ensures
        ({
            let obj = s.mem[x86::wrap(s.r.ebp - 0x34)];
            let marked = among(s.mem, table + 4, s.mem[table] as int, obj);
            let e = x86::run(colors::overhead_text_color_code(cave, table), s, m);
            &&& x86::wrap(cave + e.ip) == 0x0042_BAE5
            &&& e.r.esp == s.r.esp
            &&& e.r.edx == s.r.edx
            &&& e.mem16[x86::wrap(s.r.eax + 0x39C)] == s.mem16[if obj != 0 && marked {
                x86::wrap(obj + 0x30)
            } else {
                x86::wrap(s.r.ebp + 0x10)
            }]
        }),
{
    let c = colors::overhead_text_color_code(cave, table);
    the_speaker_is_looked_at(cave, table, s);
    let t1 = x86::run(c, s, 4);
    the_text_gets_its_color(cave, table, t1);
    if t1.ip == 68 {
        x86::runs_follow_each_other(c, s, 4, 4);
        4 + 4
    } else {
        the_look_stands_in_overhead_text_color(cave, table);
        let head = c.take(12);
        let obj = t1.r.edx;
        let n = s.mem[table] as int;
        assert forall|j: int| 0 <= j < n implies #[trigger] entry(t1.mem, table + 4, j) == entry(
            s.mem,
            table + 4,
            j,
        ) by {
        }
        if among(s.mem, table + 4, n, obj) {
            let j = choose|j: int| 0 <= j < n && #[trigger] entry(s.mem, table + 4, j) == obj;
            assert(entry(t1.mem, table + 4, j) == obj);
        }
        if among(t1.mem, table + 4, n, obj) {
            let j = choose|j: int| 0 <= j < n && #[trigger] entry(t1.mem, table + 4, j) == obj;
            assert(entry(s.mem, table + 4, j) == obj);
        }
        let m2 = marked_objects_go_on(c, head, table, 2, 56, t1);
        x86::runs_follow_each_other(c, s, 4, m2);
        let t2 = x86::run(c, t1, m2);
        the_text_gets_its_color(cave, table, t2);
        if t2.ip == 68 {
            x86::runs_follow_each_other(c, s, 4 + m2, 4);
            4 + m2 + 4
        } else {
            x86::runs_follow_each_other(c, s, 4 + m2, 5);
            4 + m2 + 5
        }
    }
}

} // verus!
