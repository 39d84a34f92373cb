//! What the code does that adds up hits on several targets.

use vstd::prelude::*;

use crate::attack_damage_hook as attack;
use crate::code;
use crate::text;
use crate::x86;
use crate::x86::Cpu;

verus! {

/// The code that adds up hits: `k` and `n` tell where the hits and their number are kept.
pub open spec fn hits_code(cave: u32, skip: int, append: int, k: u8, n: u8) -> Seq<u8> {
    attack::display_aggregated_aoe_hits_code(
        cave,
        skip,
        append,
        [0x8Bu8, 0x75, k]@,
        [0x0Fu8, 0xB7, 0x45, n]@,
        [0x8Bu8, 0x46, 0x08, 0x0F, 0xB7, 0x04, 0x58]@,
    )
}

#[verifier::rlimit(80)]
proof fn hits_bytes(c: Seq<u8>, cave: u32, skip: int, append: int, k: u8, n: u8)
    requires
        x86::starts(c, hits_code(cave, skip, append, k, n)),
        -0x6000_0000 <= skip <= 0x6000_0000,
    ensures
        c.len() >= 432,
        c[0] == 0x8B,
        c[1] == 0x75,
        c[2] == k,
        c[3] == 0x85,
        c[4] == 0xF6,
        c[5] == 0x0F,
        c[6] == 0x84,
        x86::far(c, 7) == skip,
        c[11] == 0x8B,
        c[12] == 0x56,
        c[13] == 0x08,
        c[14] == 0x85,
        c[15] == 0xD2,
        c[16] == 0x0F,
        c[17] == 0x84,
        x86::far(c, 18) == skip,
        c[22] == 0x8B,
        c[23] == 0x7E,
        c[24] == 0x04,
        c[25] == 0x85,
        c[26] == 0xFF,
        c[27] == 0x0F,
        c[28] == 0x84,
        x86::far(c, 29) == skip,
        c[33] == 0x0F,
        c[34] == 0xB7,
        c[35] == 0x45,
        c[36] == n,
        c[37] == 0x85,
        c[38] == 0xC0,
        c[39] == 0x0F,
        c[40] == 0x84,
        x86::far(c, 41) == skip,
        c[45] == 0xA3,
        x86::word_at(c, 46) == attack::data_addr(cave, attack::LOOP_COUNT),
        c[50] == 0xC7,
        c[51] == 0x05,
        x86::word_at(c, 52) == attack::data_addr(cave, attack::LOOP_INDEX),
        x86::word_at(c, 56) == 0,
        c[60] == 0x8B,
        c[61] == 0x75,
        c[62] == k,
        c[63] == 0x8B,
        c[64] == 0x7E,
        c[65] == 0x04,
        c[66] == 0x8B,
        c[67] == 0x1D,
        x86::word_at(c, 68) == attack::data_addr(cave, attack::LOOP_INDEX),
        c[72] == 0xA1,
        x86::word_at(c, 73) == attack::data_addr(cave, attack::LOOP_COUNT),
        c[77] == 0x39,
        c[78] == 0xC3,
        c[79] == 0x0F,
        c[80] == 0x8D,
        x86::far(c, 81) == attack::HITS_DONE_2 as int,
        c[85] == 0x8B,
        c[86] == 0x0C,
        c[87] == 0x9F,
        c[88] == 0x85,
        c[89] == 0xC9,
        c[90] == 0x0F,
        c[91] == 0x84,
        x86::far(c, 92) == attack::HITS_OUTER_NEXT as int,
        c[96] == 0x31,
        c[97] == 0xD2,
        c[98] == 0x39,
        c[99] == 0xDA,
        c[100] == 0x0F,
        c[101] == 0x8D,
        x86::far(c, 102) == attack::HITS_SUM_START as int,
        c[106] == 0x39,
        c[107] == 0x0C,
        c[108] == 0x97,
        c[109] == 0x0F,
        c[110] == 0x84,
        x86::far(c, 111) == attack::HITS_OUTER_NEXT as int,
        c[115] == 0x42,
        c[116] == 0xE9,
        x86::far(c, 117) == attack::HITS_PRIOR_LOOP as int,
        c[121] == 0x31,
        c[122] == 0xD2,
        c[123] == 0x31,
        c[124] == 0xDB,
        c[125] == 0xA1,
        x86::word_at(c, 126) == attack::data_addr(cave, attack::LOOP_COUNT),
        c[130] == 0x39,
        c[131] == 0xC3,
        c[132] == 0x0F,
        c[133] == 0x8D,
        x86::far(c, 134) == attack::HITS_DONE as int,
        c[138] == 0x39,
        c[139] == 0x0C,
        c[140] == 0x9F,
        c[141] == 0x0F,
        c[142] == 0x85,
        x86::far(c, 143) == attack::HITS_SUM_NEXT as int,
        c[147] == 0x50,
        c[148] == 0x8B,
        c[149] == 0x46,
        c[150] == 0x08,
        c[151] == 0x0F,
        c[152] == 0xB7,
        c[153] == 0x04,
        c[154] == 0x58,
        c[155] == 0x01,
        c[156] == 0xC2,
        c[157] == 0x58,
        c[158] == 0x43,
        c[159] == 0xE9,
        x86::far(c, 160) == attack::HITS_SUM_LOOP as int,
        c[164] == 0x85,
        c[165] == 0xD2,
        c[166] == 0x0F,
        c[167] == 0x84,
        x86::far(c, 168) == attack::HITS_OUTER_NEXT as int,
        c[421] == 0xFF,
        c[422] == 0x05,
        x86::word_at(c, 423) == attack::data_addr(cave, attack::LOOP_INDEX),
        c[427] == 0xE9,
        x86::far(c, 428) == attack::HITS_OUTER_LOOP as int,
{
    broadcast use crate::code::group_code_len;

    let c0 = [0x8Bu8, 0x75, k]@;
    let c1 = code::put(c0, [0x85u8, 0xF6]@);
    let c2 = code::jcc(c1, 0x84, skip);
    let c3 = code::put(c2, [ 0x8Bu8, 0x56, 0x08, 0x85, 0xD2, ]@);
    let c4 = code::jcc(c3, 0x84, skip);
    let c5 = code::put(c4, [ 0x8Bu8, 0x7E, 0x04, 0x85, 0xFF, ]@);
    let c6 = code::jcc(c5, 0x84, skip);
    let c7 = code::put(c6, [0x0Fu8, 0xB7, 0x45, n]@);
    let c8 = code::put(c7, [0x85u8, 0xC0]@);
    let c9 = code::jcc(c8, 0x84, skip);
    let c10 = code::put(c9, [0xA3u8]@);
    let c11 = code::put32(c10, attack::data_addr(cave, attack::LOOP_COUNT));
    let c12 = code::put(c11, [0xC7u8, 0x05]@);
    let c13 = code::put32(c12, attack::data_addr(cave, attack::LOOP_INDEX));
    let c14 = code::put32(c13, 0);
    let c15 = code::put(c14, [0x8Bu8, 0x75, k]@);
    let c16 = code::put(c15, [ 0x8Bu8, 0x7E, 0x04, 0x8B, 0x1D, ]@);
    let c17 = code::put32(c16, attack::data_addr(cave, attack::LOOP_INDEX));
    let c18 = code::put(c17, [0xA1u8]@);
    let c19 = code::put32(c18, attack::data_addr(cave, attack::LOOP_COUNT));
    let c20 = code::put(c19, [0x39u8, 0xC3]@);
    let c21 = code::jcc(c20, 0x8D, attack::HITS_DONE_2 as int);
    let c22 = code::put(c21, [ 0x8Bu8, 0x0C, 0x9F, 0x85, 0xC9, ]@);
    let c23 = code::jcc(c22, 0x84, attack::HITS_OUTER_NEXT as int);
    let c24 = code::put(c23, [0x31u8, 0xD2]@);
    let c25 = code::put(c24, [0x39u8, 0xDA]@);
    let c26 = code::jcc(c25, 0x8D, attack::HITS_SUM_START as int);
    let c27 = code::put(c26, [0x39u8, 0x0C, 0x97]@);
    let c28 = code::jcc(c27, 0x84, attack::HITS_OUTER_NEXT as int);
    let c29 = code::put(c28, [0x42u8]@);
    let c30 = code::jmp(c29, attack::HITS_PRIOR_LOOP as int);
    let c31 = code::put(c30, [ 0x31u8, 0xD2, 0x31, 0xDB, ]@);
    let c32 = code::put(c31, [0xA1u8]@);
    let c33 = code::put32(c32, attack::data_addr(cave, attack::LOOP_COUNT));
    let c34 = code::put(c33, [0x39u8, 0xC3]@);
    let c35 = code::jcc(c34, 0x8D, attack::HITS_DONE as int);
    let c36 = code::put(c35, [0x39u8, 0x0C, 0x9F]@);
    let c37 = code::jcc(c36, 0x85, attack::HITS_SUM_NEXT as int);
    let c38 = code::put(c37, [0x50u8]@);
    let c39 = code::put(c38, [0x8Bu8, 0x46, 0x08, 0x0F, 0xB7, 0x04, 0x58]@);
    let c40 = code::put(c39, [ 0x01u8, 0xC2, 0x58, ]@);
    let c41 = code::put(c40, [0x43u8]@);
    let c42 = code::jmp(c41, attack::HITS_SUM_LOOP as int);
    let c43 = code::put(c42, [0x85u8, 0xD2]@);
    let c44 = code::jcc(c43, 0x84, attack::HITS_OUTER_NEXT as int);
    let c45 = code::put(c44, attack::update_total_and_display_no_checks_code(cave, append - 172));
    let c46 = code::put(c45, [0xFFu8, 0x05]@);
    let c47 = code::put32(c46, attack::data_addr(cave, attack::LOOP_INDEX));
    let c48 = code::jmp(c47, attack::HITS_OUTER_LOOP as int);
    assert(x86::starts(c, c48));
    assert(x86::starts(c, c47) && c[427] == 0xE9 && x86::far(c, 428) == attack::HITS_OUTER_LOOP as int) by {
        x86::piece_jmp(c, c47, attack::HITS_OUTER_LOOP as int);
    }
    assert(x86::starts(c, c46) && x86::word_at(c, 423) == attack::data_addr(cave, attack::LOOP_INDEX)) by {
        x86::piece32(c, c46, attack::data_addr(cave, attack::LOOP_INDEX));
    }
    assert(x86::starts(c, c45) && c[421] == 0xFF && c[422] == 0x05) by {
        x86::piece(c, c45, [0xFFu8, 0x05]@);
    }
    assert(x86::starts(c, c44)) by {
        x86::piece(c, c44, attack::update_total_and_display_no_checks_code(cave, append - 172));
    }
    assert(x86::starts(c, c43) && c[166] == 0x0F && c[167] == 0x84 && x86::far(c, 168) == attack::HITS_OUTER_NEXT as int) by {
        x86::piece_jcc(c, c43, 0x84, attack::HITS_OUTER_NEXT as int);
    }
    assert(x86::starts(c, c42) && c[164] == 0x85 && c[165] == 0xD2) by {
        x86::piece(c, c42, [0x85u8, 0xD2]@);
    }
    assert(x86::starts(c, c41) && c[159] == 0xE9 && x86::far(c, 160) == attack::HITS_SUM_LOOP as int) by {
        x86::piece_jmp(c, c41, attack::HITS_SUM_LOOP as int);
    }
    assert(x86::starts(c, c40) && c[158] == 0x43) by {
        x86::piece(c, c40, [0x43u8]@);
    }
    assert(x86::starts(c, c39) && c[155] == 0x01 && c[156] == 0xC2 && c[157] == 0x58) by {
        x86::piece(c, c39, [ 0x01u8, 0xC2, 0x58, ]@);
    }
    assert(x86::starts(c, c38) && c[148] == 0x8B && c[149] == 0x46 && c[150] == 0x08 && c[151] == 0x0F && c[152] == 0xB7 && c[153] == 0x04 && c[154] == 0x58) by {
        x86::piece(c, c38, [0x8Bu8, 0x46, 0x08, 0x0F, 0xB7, 0x04, 0x58]@);
    }
    assert(x86::starts(c, c37) && c[147] == 0x50) by {
        x86::piece(c, c37, [0x50u8]@);
    }
    assert(x86::starts(c, c36) && c[141] == 0x0F && c[142] == 0x85 && x86::far(c, 143) == attack::HITS_SUM_NEXT as int) by {
        x86::piece_jcc(c, c36, 0x85, attack::HITS_SUM_NEXT as int);
    }
    assert(x86::starts(c, c35) && c[138] == 0x39 && c[139] == 0x0C && c[140] == 0x9F) by {
        x86::piece(c, c35, [0x39u8, 0x0C, 0x9F]@);
    }
    assert(x86::starts(c, c34) && c[132] == 0x0F && c[133] == 0x8D && x86::far(c, 134) == attack::HITS_DONE as int) by {
        x86::piece_jcc(c, c34, 0x8D, attack::HITS_DONE as int);
    }
    assert(x86::starts(c, c33) && c[130] == 0x39 && c[131] == 0xC3) by {
        x86::piece(c, c33, [0x39u8, 0xC3]@);
    }
    assert(x86::starts(c, c32) && x86::word_at(c, 126) == attack::data_addr(cave, attack::LOOP_COUNT)) by {
        x86::piece32(c, c32, attack::data_addr(cave, attack::LOOP_COUNT));
    }
    assert(x86::starts(c, c31) && c[125] == 0xA1) by {
        x86::piece(c, c31, [0xA1u8]@);
    }
    assert(x86::starts(c, c30) && c[121] == 0x31 && c[122] == 0xD2 && c[123] == 0x31 && c[124] == 0xDB) by {
        x86::piece(c, c30, [ 0x31u8, 0xD2, 0x31, 0xDB, ]@);
    }
    assert(x86::starts(c, c29) && c[116] == 0xE9 && x86::far(c, 117) == attack::HITS_PRIOR_LOOP as int) by {
        x86::piece_jmp(c, c29, attack::HITS_PRIOR_LOOP as int);
    }
    assert(x86::starts(c, c28) && c[115] == 0x42) by {
        x86::piece(c, c28, [0x42u8]@);
    }
    assert(x86::starts(c, c27) && c[109] == 0x0F && c[110] == 0x84 && x86::far(c, 111) == attack::HITS_OUTER_NEXT as int) by {
        x86::piece_jcc(c, c27, 0x84, attack::HITS_OUTER_NEXT as int);
    }
    assert(x86::starts(c, c26) && c[106] == 0x39 && c[107] == 0x0C && c[108] == 0x97) by {
        x86::piece(c, c26, [0x39u8, 0x0C, 0x97]@);
    }
    assert(x86::starts(c, c25) && c[100] == 0x0F && c[101] == 0x8D && x86::far(c, 102) == attack::HITS_SUM_START as int) by {
        x86::piece_jcc(c, c25, 0x8D, attack::HITS_SUM_START as int);
    }
    assert(x86::starts(c, c24) && c[98] == 0x39 && c[99] == 0xDA) by {
        x86::piece(c, c24, [0x39u8, 0xDA]@);
    }
    assert(x86::starts(c, c23) && c[96] == 0x31 && c[97] == 0xD2) by {
        x86::piece(c, c23, [0x31u8, 0xD2]@);
    }
    assert(x86::starts(c, c22) && c[90] == 0x0F && c[91] == 0x84 && x86::far(c, 92) == attack::HITS_OUTER_NEXT as int) by {
        x86::piece_jcc(c, c22, 0x84, attack::HITS_OUTER_NEXT as int);
    }
    assert(x86::starts(c, c21) && c[85] == 0x8B && c[86] == 0x0C && c[87] == 0x9F && c[88] == 0x85 && c[89] == 0xC9) by {
        x86::piece(c, c21, [ 0x8Bu8, 0x0C, 0x9F, 0x85, 0xC9, ]@);
    }
    assert(x86::starts(c, c20) && c[79] == 0x0F && c[80] == 0x8D && x86::far(c, 81) == attack::HITS_DONE_2 as int) by {
        x86::piece_jcc(c, c20, 0x8D, attack::HITS_DONE_2 as int);
    }
    assert(x86::starts(c, c19) && c[77] == 0x39 && c[78] == 0xC3) by {
        x86::piece(c, c19, [0x39u8, 0xC3]@);
    }
    assert(x86::starts(c, c18) && x86::word_at(c, 73) == attack::data_addr(cave, attack::LOOP_COUNT)) by {
        x86::piece32(c, c18, attack::data_addr(cave, attack::LOOP_COUNT));
    }
    assert(x86::starts(c, c17) && c[72] == 0xA1) by {
        x86::piece(c, c17, [0xA1u8]@);
    }
    assert(x86::starts(c, c16) && x86::word_at(c, 68) == attack::data_addr(cave, attack::LOOP_INDEX)) by {
        x86::piece32(c, c16, attack::data_addr(cave, attack::LOOP_INDEX));
    }
    assert(x86::starts(c, c15) && c[63] == 0x8B && c[64] == 0x7E && c[65] == 0x04 && c[66] == 0x8B && c[67] == 0x1D) by {
        x86::piece(c, c15, [ 0x8Bu8, 0x7E, 0x04, 0x8B, 0x1D, ]@);
    }
    assert(x86::starts(c, c14) && c[60] == 0x8B && c[61] == 0x75 && c[62] == k) by {
        x86::piece(c, c14, [0x8Bu8, 0x75, k]@);
    }
    assert(x86::starts(c, c13) && x86::word_at(c, 56) == 0) by {
        x86::piece32(c, c13, 0);
    }
    assert(x86::starts(c, c12) && x86::word_at(c, 52) == attack::data_addr(cave, attack::LOOP_INDEX)) by {
        x86::piece32(c, c12, attack::data_addr(cave, attack::LOOP_INDEX));
    }
    assert(x86::starts(c, c11) && c[50] == 0xC7 && c[51] == 0x05) by {
        x86::piece(c, c11, [0xC7u8, 0x05]@);
    }
    assert(x86::starts(c, c10) && x86::word_at(c, 46) == attack::data_addr(cave, attack::LOOP_COUNT)) by {
        x86::piece32(c, c10, attack::data_addr(cave, attack::LOOP_COUNT));
    }
    assert(x86::starts(c, c9) && c[45] == 0xA3) by {
        x86::piece(c, c9, [0xA3u8]@);
    }
    assert(x86::starts(c, c8) && c[39] == 0x0F && c[40] == 0x84 && x86::far(c, 41) == skip) by {
        x86::piece_jcc(c, c8, 0x84, skip);
    }
    assert(x86::starts(c, c7) && c[37] == 0x85 && c[38] == 0xC0) by {
        x86::piece(c, c7, [0x85u8, 0xC0]@);
    }
    assert(x86::starts(c, c6) && c[33] == 0x0F && c[34] == 0xB7 && c[35] == 0x45 && c[36] == n) by {
        x86::piece(c, c6, [0x0Fu8, 0xB7, 0x45, n]@);
    }
    assert(x86::starts(c, c5) && c[27] == 0x0F && c[28] == 0x84 && x86::far(c, 29) == skip) by {
        x86::piece_jcc(c, c5, 0x84, skip);
    }
    assert(x86::starts(c, c4) && c[22] == 0x8B && c[23] == 0x7E && c[24] == 0x04 && c[25] == 0x85 && c[26] == 0xFF) by {
        x86::piece(c, c4, [ 0x8Bu8, 0x7E, 0x04, 0x85, 0xFF, ]@);
    }
    assert(x86::starts(c, c3) && c[16] == 0x0F && c[17] == 0x84 && x86::far(c, 18) == skip) by {
        x86::piece_jcc(c, c3, 0x84, skip);
    }
    assert(x86::starts(c, c2) && c[11] == 0x8B && c[12] == 0x56 && c[13] == 0x08 && c[14] == 0x85 && c[15] == 0xD2) by {
        x86::piece(c, c2, [ 0x8Bu8, 0x56, 0x08, 0x85, 0xD2, ]@);
    }
    assert(x86::starts(c, c1) && c[5] == 0x0F && c[6] == 0x84 && x86::far(c, 7) == skip) by {
        x86::piece_jcc(c, c1, 0x84, skip);
    }
    assert(x86::starts(c, c0) && c[3] == 0x85 && c[4] == 0xF6) by {
        x86::piece(c, c0, [0x85u8, 0xF6]@);
    }
    assert forall|k: int| 0 <= k < c0.len() implies #[trigger] c[k] == c0[k] by {
        assert(c.take(c0.len() as int)[k] == c0[k]);
    }
}

/// Whether a target is among those from `i` up to `j`.
pub open spec fn hit_before(targets: Seq<u32>, i: int, j: int, id: u32) -> bool {
    exists|x: int| i <= x < j && #[trigger] targets[x] == id
}

/// A target that was hit before is passed over: it was counted with its first hit.
#[verifier::rlimit(50)]
pub proof fn targets_are_counted_once(cave: u32, skip: int, append: int, k: u8, n: u8, targets: Seq<u32>, s: Cpu) -> (m: nat)
    requires
        -0x6000_0000 <= skip <= 0x6000_0000,
        s.ip == 98,
        !s.returned,
        s.r.edx <= s.r.ebx,
        s.r.ebx < 0x1000_0000,
        s.r.ebx <= targets.len(),
        s.r.edi + 4 * s.r.ebx <= u32::MAX,
        forall|x: int|
            0 <= x < s.r.ebx ==> s.mem[(s.r.edi + 4 * x) as u32] == #[trigger] targets[x],
    ensures
        ({
            let e = x86::run(hits_code(cave, skip, append, k, n), s, m);
            &&& e.ip == if hit_before(targets, s.r.edx as int, s.r.ebx as int, s.r.ecx) {
                421int
            } else {
                121
            }
            &&& e == (Cpu { ip: e.ip, f: e.f, r: x86::Regs { edx: e.r.edx, ..s.r }, ..s })
        }),
    decreases s.r.ebx - s.r.edx,
{
    let c = hits_code(cave, skip, append, k, n);
    broadcast use {crate::x86::group_cells, crate::code::group_code_len};

    assert(c.take(c.len() as int) =~= c);
    hits_bytes(c, cave, skip, append, k, n);
    let i = s.r.edx as int;
    let s0 = s;
    x86::names_reg(c, 99, 3, 2);
    x86::ins_alu_into(c, s0);
    let s1 = x86::step(c, s0);
    assert(s1.ip == 100);
    x86::ins_branch(c, s1);
    let s2 = x86::step(c, s1);
    reveal_with_fuel(x86::run, 7);
    if i == s.r.ebx {
        assert(s2.ip == 121);
        2
    } else {
        assert(s2.ip == 106);
        x86::names_indexed(c, 107, 1, 7, 2, 2);
        x86::ins_alu_into(c, s2);
        let s3 = x86::step(c, s2);
        assert(s3.ip == 109);
        x86::ins_branch(c, s3);
        let s4 = x86::step(c, s3);
        assert(s.mem[(s.r.edi + 4 * i) as u32] == targets[i]);
        if targets[i] == s.r.ecx {
            assert(s4.ip == 421);
            4
        } else {
            assert(s4.ip == 115);
            x86::ins_inc_reg(c, s4);
            let s5 = x86::step(c, s4);
            assert(s5.ip == 116);
            x86::ins_jump(c, s5);
            let s6 = x86::step(c, s5);
            assert(s6.ip == 98);
            let n2 = targets_are_counted_once(cave, skip, append, k, n, targets, s6);
            x86::runs_follow_each_other(c, s, 6, n2);
            assert(x86::run(c, s, 6) == s6);
            6 + n2
        }
    }
}

/// What the hits on a target from `i` on add up to.
pub open spec fn damage_from(targets: Seq<u32>, damages: Seq<u16>, id: u32, i: int) -> int
    decreases targets.len() - i,
{
    if i < 0 || i >= targets.len() {
        0
    } else {
        (if targets[i] == id {
            damages[i] as int
        } else {
            0
        }) + damage_from(targets, damages, id, i + 1)
    }
}

/// The hits as they stand in memory: targets, damages and their number, apart from the
/// top of the stack.
pub open spec fn hits_stand(s: Cpu, cave: u32, targets: Seq<u32>, damages: Seq<u16>) -> bool {
    let list = s.mem[(s.r.esi + 8) as u32];
    let top = (s.r.esp - 4) as u32;
    &&& cave + attack::CODE_LEN <= u32::MAX
    &&& 4 <= s.r.esp
    &&& s.r.esi + 8 <= u32::MAX
    &&& s.r.esi + 8 != top
    &&& (cave + attack::LOOP_COUNT) as u32 != top
    &&& targets.len() == damages.len()
    &&& targets.len() < 0x1000_0000
    &&& s.mem[(cave + attack::LOOP_COUNT) as u32] == targets.len()
    &&& s.r.edi + 4 * targets.len() <= u32::MAX
    &&& s.r.edi + 4 * targets.len() <= top || s.r.esp <= s.r.edi
    &&& list + 2 * targets.len() <= u32::MAX
    &&& forall|x: int|
        0 <= x < targets.len() ==> s.mem[(s.r.edi + 4 * x) as u32] == #[trigger] targets[x]
    &&& forall|x: int| 0 <= x < damages.len() ==> s.mem16[(list + 2 * x) as u32] == #[trigger] damages[x]
}

/// The hits on one target are added up, one after the other; hits on others are not.
#[verifier::rlimit(50)]
pub proof fn hits_on_a_target_are_added_up(
    cave: u32,
    skip: int,
    append: int,
    k: u8,
    n: u8,
    targets: Seq<u32>,
    damages: Seq<u16>,
    s: Cpu,
) -> (m: nat)
    requires
        -0x6000_0000 <= skip <= 0x6000_0000,
        s.ip == 125,
        !s.returned,
        s.r.ebx <= targets.len(),
        hits_stand(s, cave, targets, damages),
    ensures
        ({
            let e = x86::run(hits_code(cave, skip, append, k, n), s, m);
            &&& e.ip == 164
            &&& e.r.edx == x86::wrap(
                s.r.edx + damage_from(targets, damages, s.r.ecx, s.r.ebx as int),
            )
            &&& e.r.ecx == s.r.ecx && e.r.esp == s.r.esp && e.r.esi == s.r.esi
            &&& e.r.edi == s.r.edi && e.r.ebp == s.r.ebp
            &&& !e.returned && e.calls == s.calls
        }),
    decreases targets.len() - s.r.ebx,
{
    let c = hits_code(cave, skip, append, k, n);
    broadcast use {crate::x86::group_cells, crate::code::group_code_len};

    assert(c.take(c.len() as int) =~= c);
    hits_bytes(c, cave, skip, append, k, n);
    let i = s.r.ebx as int;
    let s0 = s;
    x86::ins_load_eax(c, s0);
    let s1 = x86::step(c, s0);
    assert(s1.ip == 130);
    x86::names_reg(c, 131, 0, 3);
    x86::ins_alu_into(c, s1);
    let s2 = x86::step(c, s1);
    assert(s2.ip == 132);
    x86::ins_branch(c, s2);
    let s3 = x86::step(c, s2);
    if i == targets.len() {
        reveal_with_fuel(x86::run, 4);
        assert(s3.ip == 164);
        3
    } else {
        assert(s3.ip == 138);
        x86::names_indexed(c, 139, 1, 7, 3, 2);
        x86::ins_alu_into(c, s3);
        let s4 = x86::step(c, s3);
        assert(s4.ip == 141);
        x86::ins_branch(c, s4);
        let s5 = x86::step(c, s4);
        assert(s.mem[(s.r.edi + 4 * i) as u32] == targets[i]);
        if targets[i] != s.r.ecx {
            assert(s5.ip == 158);
            x86::ins_inc_reg(c, s5);
            let s6 = x86::step(c, s5);
            assert(s6.ip == 159);
            x86::ins_jump(c, s6);
            let s7 = x86::step(c, s6);
            assert(s7.ip == 125);
            assert(x86::run(c, s, 7) == s7) by {
                reveal_with_fuel(x86::run, 8);
            }
            let n2 = hits_on_a_target_are_added_up(
                cave, skip, append, k, n, targets, damages, s7,
            );
            x86::runs_follow_each_other(c, s, 7, n2);
            7 + n2
        } else {
            assert(s5.ip == 147);
            assert(damages[i] == s.mem16[(s.mem[(s.r.esi + 8) as u32] + 2 * i) as u32]);
            x86::ins_push_reg(c, s5);
            let s6 = x86::step(c, s5);
            assert(s6.ip == 148);
            x86::names_near(c, 149, 0, 6);
            x86::ins_load(c, s6);
            let s7 = x86::step(c, s6);
            assert(s7.ip == 151);
            x86::names_indexed(c, 153, 0, 0, 3, 1);
            x86::ins_load16(c, s7);
            let s8 = x86::step(c, s7);
            assert(s8.ip == 155);
            x86::names_reg(c, 156, 0, 2);
            x86::ins_alu_into(c, s8);
            let s9 = x86::step(c, s8);
            assert(s9.ip == 157);
            x86::ins_pop_reg(c, s9);
            let s10 = x86::step(c, s9);
            assert(s10.ip == 158);
            x86::ins_inc_reg(c, s10);
            let s11 = x86::step(c, s10);
            assert(s11.ip == 159);
            x86::ins_jump(c, s11);
            let s12 = x86::step(c, s11);
            assert(s12.ip == 125);
            assert(x86::run(c, s, 12) == s12) by {
                reveal_with_fuel(x86::run, 13);
            }
            assert(s12.r.edx == x86::wrap(s.r.edx + damages[i]));
            assert(hits_stand(s12, cave, targets, damages)) by {
                assert forall|x: int| 0 <= x < targets.len() implies s12.mem[(s12.r.edi + 4 * x) as u32]
                    == #[trigger] targets[x] by {
                }
            }
            let n2 = hits_on_a_target_are_added_up(
                cave, skip, append, k, n, targets, damages, s12,
            );
            x86::wraps_add(
                s.r.edx + damages[i],
                damage_from(targets, damages, s.r.ecx, i + 1),
            );
            x86::runs_follow_each_other(c, s, 12, n2);
            12 + n2
        }
    }
}

/// Where there are no hits, or none with targets and damages, the code leads out; else
/// the hits are gone through from the first on.
#[verifier::rlimit(50)]
pub proof fn hits_are_gone_through_from_the_first(cave: u32, skip: int, append: int, k: u8, n: u8, s: Cpu) -> (m: nat)
    requires
        60 < skip <= 0x6000_0000,
        cave + attack::CODE_LEN <= u32::MAX,
        s.ip == 0,
        !s.returned,
    ensures
        ({
            let hits = s.mem[x86::wrap(s.r.ebp + x86::signed8(k))];
            let damages = s.mem[x86::wrap(hits + 8)];
            let targets = s.mem[x86::wrap(hits + 4)];
            let count = s.mem16[x86::wrap(s.r.ebp + x86::signed8(n))];
            let e = x86::run(hits_code(cave, skip, append, k, n), s, m);
            &&& e.ip == if hits != 0 && damages != 0 && targets != 0 && count != 0 {
                60
            } else {
                skip
            }
            &&& e.ip == 60 ==> e.mem == s.mem.insert(
                (cave + attack::LOOP_COUNT) as u32,
                count as u32,
            ).insert((cave + attack::LOOP_INDEX) as u32, 0)
            &&& e.ip == skip ==> e.mem == s.mem
            &&& e.r.esp == s.r.esp && e.r.ebp == s.r.ebp && !e.returned && e.calls == s.calls
        }),
{
    let c = hits_code(cave, skip, append, k, n);
    broadcast use {crate::x86::group_cells, crate::code::group_code_len};

    assert(c.take(c.len() as int) =~= c);
    hits_bytes(c, cave, skip, append, k, n);
    let s0 = s;
    x86::names_near(c, 1, 6, 5);
    x86::ins_load(c, s0);
    let s1 = x86::step(c, s0);
    assert(s1.ip == 3);
    x86::names_reg(c, 4, 6, 6);
    x86::ins_test(c, s1);
    let s2 = x86::step(c, s1);
    assert(s2.ip == 5);
    x86::ins_branch(c, s2);
    let s3 = x86::step(c, s2);
    assert(x86::run(c, s, 3) == s3) by {
        reveal_with_fuel(x86::run, 4);
    }
    if s3.ip != 11 {
        3
    } else {
        x86::names_near(c, 12, 2, 6);
        x86::ins_load(c, s3);
        let s4 = x86::step(c, s3);
        assert(s4.ip == 14);
        x86::names_reg(c, 15, 2, 2);
        x86::ins_test(c, s4);
        let s5 = x86::step(c, s4);
        assert(s5.ip == 16);
        x86::ins_branch(c, s5);
        let s6 = x86::step(c, s5);
        assert(x86::run(c, s, 6) == s6) by {
            reveal_with_fuel(x86::run, 7);
        }
        if s6.ip != 22 {
            6
        } else {
            x86::names_near(c, 23, 7, 6);
            x86::ins_load(c, s6);
            let s7 = x86::step(c, s6);
            assert(s7.ip == 25);
            x86::names_reg(c, 26, 7, 7);
            x86::ins_test(c, s7);
            let s8 = x86::step(c, s7);
            assert(s8.ip == 27);
            x86::ins_branch(c, s8);
            let s9 = x86::step(c, s8);
            assert(x86::run(c, s, 9) == s9) by {
                reveal_with_fuel(x86::run, 10);
            }
            if s9.ip != 33 {
                9
            } else {
                x86::names_near(c, 35, 0, 5);
                x86::ins_load16(c, s9);
                let s10 = x86::step(c, s9);
                assert(s10.ip == 37);
                x86::names_reg(c, 38, 0, 0);
                x86::ins_test(c, s10);
                let s11 = x86::step(c, s10);
                assert(s11.ip == 39);
                x86::ins_branch(c, s11);
                let s12 = x86::step(c, s11);
                assert(x86::run(c, s, 12) == s12) by {
                    reveal_with_fuel(x86::run, 13);
                }
                if s12.ip != 45 {
                    12
                } else {
                    x86::ins_store_eax(c, s12);
                    let s13 = x86::step(c, s12);
                    assert(s13.ip == 50);
                    x86::names_cell(c, 51, 0);
                    x86::ins_store_word(c, s13);
                    let s14 = x86::step(c, s13);
                    assert(x86::run(c, s, 14) == s14) by {
                        reveal_with_fuel(x86::run, 15);
                    }
                    14
                }
            }
        }
    }
}

/// Each turn takes the next hit: past the last one the loop ends; a hit without a target
/// is passed over, and every other one is looked for among those before it.
#[verifier::rlimit(50)]
pub proof fn each_hit_is_looked_at(cave: u32, skip: int, append: int, k: u8, n: u8, s: Cpu) -> (m: nat)
    requires
        -0x6000_0000 <= skip <= 0x6000_0000,
        cave + attack::CODE_LEN <= u32::MAX,
        s.ip == 60,
        !s.returned,
        s.mem[(cave + attack::LOOP_INDEX) as u32] < 0x1000_0000,
        s.mem[(cave + attack::LOOP_COUNT) as u32] < 0x1000_0000,
    ensures
        ({
            let hits = s.mem[x86::wrap(s.r.ebp + x86::signed8(k))];
            let targets = s.mem[x86::wrap(hits + 4)];
            let i = s.mem[(cave + attack::LOOP_INDEX) as u32];
            let count = s.mem[(cave + attack::LOOP_COUNT) as u32];
            let target = s.mem[x86::wrap(targets + i * 4)];
            let e = x86::run(hits_code(cave, skip, append, k, n), s, m);
            &&& e.ip == if i >= count {
                432int
            } else if target == 0 {
                421
            } else {
                98
            }
            &&& e.ip == 98 ==> e.r.ecx == target && e.r.ebx == i && e.r.edx == 0 && e.r.edi
                == targets && e.r.esi == hits
            &&& e.mem == s.mem && e.r.esp == s.r.esp && e.r.ebp == s.r.ebp && !e.returned && e.calls
                == s.calls
        }),
{
    let c = hits_code(cave, skip, append, k, n);
    broadcast use {crate::x86::group_cells, crate::code::group_code_len};

    assert(c.take(c.len() as int) =~= c);
    hits_bytes(c, cave, skip, append, k, n);
    let s0 = s;
    x86::names_near(c, 61, 6, 5);
    x86::ins_load(c, s0);
    let s1 = x86::step(c, s0);
    assert(s1.ip == 63);
    x86::names_near(c, 64, 7, 6);
    x86::ins_load(c, s1);
    let s2 = x86::step(c, s1);
    assert(s2.ip == 66);
    x86::names_cell(c, 67, 3);
    x86::ins_load(c, s2);
    let s3 = x86::step(c, s2);
    assert(s3.ip == 72);
    x86::ins_load_eax(c, s3);
    let s4 = x86::step(c, s3);
    assert(s4.ip == 77);
    x86::names_reg(c, 78, 0, 3);
    x86::ins_alu_into(c, s4);
    let s5 = x86::step(c, s4);
    assert(s5.ip == 79);
    x86::ins_branch(c, s5);
    let s6 = x86::step(c, s5);
    assert(x86::run(c, s, 6) == s6) by {
        reveal_with_fuel(x86::run, 7);
    }
    if s6.ip != 85 {
        6
    } else {
        x86::names_indexed(c, 86, 1, 7, 3, 2);
        x86::ins_load(c, s6);
        let s7 = x86::step(c, s6);
        assert(s7.ip == 88);
        x86::names_reg(c, 89, 1, 1);
        x86::ins_test(c, s7);
        let s8 = x86::step(c, s7);
        assert(s8.ip == 90);
        x86::ins_branch(c, s8);
        let s9 = x86::step(c, s8);
        assert(x86::run(c, s, 9) == s9) by {
            reveal_with_fuel(x86::run, 10);
        }
        if s9.ip != 96 {
            9
        } else {
            x86::names_reg(c, 97, 2, 2);
            nothing_is_left(s9.r.edx);
            x86::ins_alu_into(c, s9);
            let s10 = x86::step(c, s9);
            assert(x86::run(c, s, 10) == s10) by {
                reveal_with_fuel(x86::run, 11);
            }
            10
        }
    }
}

proof fn nothing_is_left(x: u32)
    ensures
        x ^ x == 0,
{
    assert(x ^ x == 0) by (bit_vector);
}

/// Adding up starts with nothing, at the first hit; what adds up to nothing is not shown,
/// and anything else is; and the next hit follows.
#[verifier::rlimit(50)]
pub proof fn sums_start_with_nothing(cave: u32, skip: int, append: int, k: u8, n: u8, s: Cpu)
    requires
        -0x6000_0000 <= skip <= 0x6000_0000,
        cave + attack::CODE_LEN <= u32::MAX,
        !s.returned,
    ensures
        s.ip == 121 ==> ({
            let e = x86::run(hits_code(cave, skip, append, k, n), s, 2);
            &&& e.ip == 125
            &&& e == (Cpu { ip: 125, f: e.f, r: x86::Regs { edx: 0, ebx: 0, ..s.r }, ..s })
        }),
        s.ip == 164 ==> ({
            let e = x86::run(hits_code(cave, skip, append, k, n), s, 2);
            &&& e.ip == if s.r.edx == 0 {
                421int
            } else {
                172
            }
            &&& e == (Cpu { ip: e.ip, f: e.f, ..s })
        }),
        s.ip == 421 ==> ({
            let e = x86::run(hits_code(cave, skip, append, k, n), s, 2);
            let index = (cave + attack::LOOP_INDEX) as u32;
            &&& e.ip == 60
            &&& e == (Cpu {
                ip: 60,
                f: e.f,
                mem: s.mem.insert(index, x86::wrap(s.mem[index] + 1)),
                ..s
            })
        }),
{
    let c = hits_code(cave, skip, append, k, n);
    broadcast use {crate::x86::group_cells, crate::code::group_code_len};

    assert(c.take(c.len() as int) =~= c);
    hits_bytes(c, cave, skip, append, k, n);
    nothing_is_left(s.r.edx);
    nothing_is_left(s.r.ebx);
    reveal_with_fuel(x86::run, 3);
    let s0 = s;
    if s.ip == 121 {
        x86::names_reg(c, 122, 2, 2);
        x86::ins_alu_into(c, s0);
        let s1 = x86::step(c, s0);
        assert(s1.ip == 123);
        x86::names_reg(c, 124, 3, 3);
        x86::ins_alu_into(c, s1);
        let s2 = x86::step(c, s1);
        assert(s2.ip == 125);
    } else if s.ip == 164 {
        x86::names_reg(c, 165, 2, 2);
        x86::ins_test(c, s0);
        let s1 = x86::step(c, s0);
        assert(s1.ip == 166);
        x86::ins_branch(c, s1);
        let s2 = x86::step(c, s1);
    } else if s.ip == 421 {
        x86::names_cell(c, 422, 0);
        x86::ins_inc(c, s0);
        let s1 = x86::step(c, s0);
        assert(s1.ip == 427);
        x86::ins_jump(c, s1);
        let s2 = x86::step(c, s1);
        assert(s2.ip == 60);
    }
}

#[verifier::rlimit(50)]
proof fn append_u32_code_bytes(c: Seq<u8>)
    requires
        x86::starts(c, attack::append_u32_code()),
    ensures
        c.len() >= 45,
        c[0] == 0x53,
        c[1] == 0x51,
        c[2] == 0x52,
        c[3] == 0x56,
        c[4] == 0x31,
        c[5] == 0xC9,
        c[6] == 0xBB,
        c[7] == 0x0A,
        c[8] == 0x00,
        c[9] == 0x00,
        c[10] == 0x00,
        c[11] == 0x85,
        c[12] == 0xC0,
        c[13] == 0x75,
        c[14] == 0x06,
        c[15] == 0xC6,
        c[16] == 0x07,
        c[17] == 0x30,
        c[18] == 0x47,
        c[19] == 0xEB,
        c[20] == 0x13,
        c[21] == 0x31,
        c[22] == 0xD2,
        c[23] == 0xF7,
        c[24] == 0xF3,
        c[25] == 0x80,
        c[26] == 0xC2,
        c[27] == 0x30,
        c[28] == 0x52,
        c[29] == 0x41,
        c[30] == 0x85,
        c[31] == 0xC0,
        c[32] == 0x75,
        c[33] == 0xF3,
        c[34] == 0x5A,
        c[35] == 0x88,
        c[36] == 0x17,
        c[37] == 0x47,
        c[38] == 0xE2,
        c[39] == 0xFA,
        c[40] == 0x5E,
        c[41] == 0x5A,
        c[42] == 0x59,
        c[43] == 0x5B,
        c[44] == 0xC3,
{
    broadcast use crate::code::group_code_len;

    let c0 = [ 0x53u8, 0x51, 0x52, 0x56, 0x31, 0xC9, 0xBB, 0x0A, 0x00, 0x00, 0x00, 0x85, 0xC0, 0x75, 0x06, 0xC6, 0x07, 0x30, 0x47, 0xEB, 0x13, 0x31, 0xD2, 0xF7, 0xF3, 0x80, 0xC2, 0x30, 0x52, 0x41, 0x85, 0xC0, 0x75, 0xF3, 0x5A, 0x88, 0x17, 0x47, 0xE2, 0xFA, 0x5E, 0x5A, 0x59, 0x5B, 0xC3, ]@;
    assert(x86::starts(c, c0));
    assert forall|k: int| 0 <= k < c0.len() implies #[trigger] c[k] == c0[k] by {
        assert(c.take(c0.len() as int)[k] == c0[k]);
    }
}

/// The digits of a number go onto the stack, the last one first.
#[verifier::rlimit(50)]
proof fn digits_go_onto_the_stack(s: Cpu) -> (m: nat)
    requires
        s.ip == 21,
        !s.returned,
        s.r.ebx == 10,
        4 * text::decimal(s.r.eax as nat).len() <= s.r.esp,
        s.r.ecx + text::decimal(s.r.eax as nat).len() <= u32::MAX,
    ensures
        ({
            let d = text::decimal(s.r.eax as nat);
            let e = x86::run(attack::append_u32_code(), s, m);
            &&& e.ip == 34
            &&& e == (Cpu {
                ip: 34,
                f: e.f,
                r: x86::Regs {
                    eax: e.r.eax,
                    edx: e.r.edx,
                    ecx: (s.r.ecx + d.len()) as u32,
                    esp: (s.r.esp - 4 * d.len()) as u32,
                    ..s.r
                },
                mem: e.mem,
                ..s
            })
            &&& forall|a: u32| s.r.esp <= a ==> #[trigger] e.mem[a] == s.mem[a]
            &&& forall|j: int|
                0 <= j < d.len() ==> e.mem[(e.r.esp + 4 * j) as u32] == #[trigger] d[j] as u32
        }),
    decreases s.r.eax,
{
    let c = attack::append_u32_code();
    broadcast use {crate::x86::group_cells, crate::code::group_code_len};

    assert(c.take(c.len() as int) =~= c);
    append_u32_code_bytes(c);
    let n = s.r.eax as nat;
    let d = text::decimal(n);
    nothing_is_left(s.r.edx);
    let s0 = s;
    x86::names_reg(c, 22, 2, 2);
    x86::ins_alu_into(c, s0);
    let s1 = x86::step(c, s0);
    assert(s1.ip == 23);
    x86::small_numbers_are_divided(s1, 10);
    x86::names_reg(c, 24, 6, 3);
    x86::ins_div(c, s1);
    let s2 = x86::step(c, s1);
    assert(s2.ip == 25);
    let q = (n % 10) as u32;
    assert(s2.r.edx == q && s2.r.eax == n / 10);
    x86::ins_add_byte(c, s2);
    let s3 = x86::step(c, s2);
    assert(s3.ip == 28);
    assert(s3.r.edx == q + 0x30);
    assert(text::digit_char(n % 10) as u32 == q + 0x30);
    x86::ins_push_reg(c, s3);
    let s4 = x86::step(c, s3);
    assert(s4.ip == 29);
    x86::ins_inc_reg(c, s4);
    let s5 = x86::step(c, s4);
    assert(s5.ip == 30);
    x86::names_reg(c, 31, 0, 0);
    x86::ins_test(c, s5);
    let s6 = x86::step(c, s5);
    assert(s6.ip == 32);
    x86::ins_branch_near(c, s6);
    let s7 = x86::step(c, s6);
    assert(x86::run(c, s, 7) == s7) by {
        reveal_with_fuel(x86::run, 8);
    }
    if n < 10 {
        assert(s7.ip == 34);
        assert(d.len() == 1 && d[0] == text::digit_char(n));
        7
    } else {
        assert(s7.ip == 21);
        let r = text::decimal(n / 10);
        assert(d == r.push(text::digit_char(n % 10)));
        let k = digits_go_onto_the_stack(s7);
        x86::runs_follow_each_other(c, s, 7, k);
        let e = x86::run(c, s7, k);
        assert forall|j: int| 0 <= j < d.len() implies e.mem[(e.r.esp + 4 * j) as u32]
            == #[trigger] d[j] as u32 by {
            if j < r.len() {
                assert(d[j] == r[j]);
            } else {
                assert((e.r.esp + 4 * j) as u32 == s7.r.esp);
                assert(e.mem[s7.r.esp] == s7.mem[s7.r.esp]);
            }
        }
        7 + k
    }
}

/// The digits come off the stack, and are written one after the other.
#[verifier::rlimit(50)]
proof fn digits_are_written(s: Cpu) -> (m: nat)
    requires
        s.ip == 34,
        !s.returned,
        s.r.ecx > 0,
        s.r.esp + 4 * s.r.ecx <= u32::MAX,
        s.r.edi + s.r.ecx <= u32::MAX,
    ensures
        ({
            let e = x86::run(attack::append_u32_code(), s, m);
            &&& e.ip == 40
            &&& e == (Cpu {
                ip: 40,
                f: e.f,
                r: x86::Regs {
                    ecx: 0,
                    edx: e.r.edx,
                    esp: (s.r.esp + 4 * s.r.ecx) as u32,
                    edi: (s.r.edi + s.r.ecx) as u32,
                    ..s.r
                },
                mem8: e.mem8,
                ..s
            })
            &&& forall|a: u32| a < s.r.edi ==> #[trigger] e.mem8[a] == s.mem8[a]
            &&& forall|j: int|
                0 <= j < s.r.ecx ==> e.mem8[#[trigger] ((s.r.edi + j) as u32)] == (s.mem[(s.r.esp + 4
                    * j) as u32] % 256) as u8
        }),
    decreases s.r.ecx,
{
    let c = attack::append_u32_code();
    broadcast use {crate::x86::group_cells, crate::code::group_code_len};

    assert(c.take(c.len() as int) =~= c);
    append_u32_code_bytes(c);
    let s0 = s;
    x86::ins_pop_reg(c, s0);
    let s1 = x86::step(c, s0);
    assert(s1.ip == 35);
    x86::names_pointed(c, 36, 2, 7);
    x86::ins_store8(c, s1);
    let s2 = x86::step(c, s1);
    assert(s2.ip == 37);
    x86::ins_inc_reg(c, s2);
    let s3 = x86::step(c, s2);
    assert(s3.ip == 38);
    x86::ins_loop(c, s3);
    let s4 = x86::step(c, s3);
    assert(x86::run(c, s, 4) == s4) by {
        reveal_with_fuel(x86::run, 5);
    }
    if s.r.ecx == 1 {
        assert(s4.ip == 40);
        4
    } else {
        assert(s4.ip == 34);
        let k = digits_are_written(s4);
        x86::runs_follow_each_other(c, s, 4, k);
        let e = x86::run(c, s4, k);
        assert forall|j: int| 0 <= j < s.r.ecx implies e.mem8[#[trigger] ((s.r.edi + j) as u32)] == (
        s.mem[(s.r.esp + 4 * j) as u32] % 256) as u8 by {
            if j > 0 {
                assert((s.r.edi + j) as u32 == (s4.r.edi + (j - 1)) as u32);
                assert((s.r.esp + 4 * j) as u32 == (s4.r.esp + 4 * (j - 1)) as u32);
            }
        }
        4 + k
    }
}

/// A number is written in decimal where `edi` points, and `edi` points behind it; the
/// other registers, but for the number's own, are as they were.
#[verifier::rlimit(50)]
pub proof fn numbers_are_written_in_decimal(s: Cpu) -> (m: nat)
    requires
        s.ip == 0,
        !s.returned,
        4 * text::decimal(s.r.eax as nat).len() + 16 <= s.r.esp,
        s.r.edi + text::decimal(s.r.eax as nat).len() <= u32::MAX,
    ensures
        ({
            let d = text::decimal(s.r.eax as nat);
            let e = x86::run(attack::append_u32_code(), s, m);
            &&& e.returned
            &&& e.r == (x86::Regs { eax: e.r.eax, edi: (s.r.edi + d.len()) as u32, ..s.r })
            &&& forall|a: u32| a < s.r.edi ==> #[trigger] e.mem8[a] == s.mem8[a]
            &&& forall|j: int|
                0 <= j < d.len() ==> e.mem8[(s.r.edi + j) as u32] as u32 == #[trigger] d[j] as u32
        }),
{
    let c = attack::append_u32_code();
    broadcast use {crate::x86::group_cells, crate::code::group_code_len};

    assert(c.take(c.len() as int) =~= c);
    append_u32_code_bytes(c);
    let d = text::decimal(s.r.eax as nat);
    nothing_is_left(s.r.ecx);
    let s0 = s;
    x86::ins_push_reg(c, s0);
    let s1 = x86::step(c, s0);
    assert(s1.ip == 1);
    x86::ins_push_reg(c, s1);
    let s2 = x86::step(c, s1);
    assert(s2.ip == 2);
    x86::ins_push_reg(c, s2);
    let s3 = x86::step(c, s2);
    assert(s3.ip == 3);
    x86::ins_push_reg(c, s3);
    let s4 = x86::step(c, s3);
    assert(s4.ip == 4);
    x86::names_reg(c, 5, 1, 1);
    x86::ins_alu_into(c, s4);
    let s5 = x86::step(c, s4);
    assert(s5.ip == 6);
    x86::ins_mov_word(c, s5);
    let s6 = x86::step(c, s5);
    assert(s6.ip == 11);
    x86::names_reg(c, 12, 0, 0);
    x86::ins_test(c, s6);
    let s7 = x86::step(c, s6);
    assert(s7.ip == 13);
    x86::ins_branch_near(c, s7);
    let s8 = x86::step(c, s7);
    assert(x86::run(c, s, 8) == s8) by {
        reveal_with_fuel(x86::run, 9);
    }
    if s.r.eax == 0 {
        assert(s8.ip == 15);
        x86::names_pointed(c, 16, 0, 7);
        x86::ins_store_byte(c, s8);
        let s9 = x86::step(c, s8);
        assert(s9.ip == 18);
        x86::ins_inc_reg(c, s9);
        let s10 = x86::step(c, s9);
        assert(s10.ip == 19);
        x86::ins_jump_near(c, s10);
        let s11 = x86::step(c, s10);
        assert(s11.ip == 40);
        assert(x86::run(c, s8, 3) == s11) by {
            reveal_with_fuel(x86::run, 4);
        }
        assert(d.len() == 1 && d[0] == text::digit_char(0));
        assert(text::digit_char(0) as u32 == 0x30);
        x86::runs_follow_each_other(c, s, 8, 3);
        registers_come_off(s11, s.r);
        x86::runs_follow_each_other(c, s, 11, 5);
        8 + 3 + 5
    } else {
        assert(s8.ip == 21);
        let k = digits_go_onto_the_stack(s8);
        let t = x86::run(c, s8, k);
        x86::runs_follow_each_other(c, s, 8, k);
        assert(d.len() > 0) by {
            text::decimal_round_trip(s.r.eax as nat);
        }
        let n = digits_are_written(t);
        let u = x86::run(c, t, n);
        x86::runs_follow_each_other(c, s, 8 + k, n);
        assert forall|j: int| 0 <= j < d.len() implies u.mem8[(s.r.edi + j) as u32] as u32
            == #[trigger] d[j] as u32 by {
            digits_are_small(s.r.eax as nat, j);
            assert(t.mem[(t.r.esp + 4 * j) as u32] == d[j] as u32);
        }
        registers_come_off(u, s.r);
        x86::runs_follow_each_other(c, s, 8 + k + n, 5);
        8 + k + n + 5
    }
}

proof fn digits_are_small(n: nat, j: int)
    requires
        0 <= j < text::decimal(n).len(),
    ensures
        (text::decimal(n)[j] as u32) < 256,
    decreases n,
{
    if n >= 10 {
        let r = text::decimal(n / 10);
        if j < r.len() {
            digits_are_small(n / 10, j);
            assert(text::decimal(n)[j] == r[j]);
        }
    }
}

#[verifier::rlimit(50)]
proof fn registers_come_off(s: Cpu, r: x86::Regs)
    requires
        s.ip == 40,
        !s.returned,
        s.r.esp + 16 == r.esp,
        s.mem[s.r.esp] == r.esi,
        s.mem[(s.r.esp + 4) as u32] == r.edx,
        s.mem[(s.r.esp + 8) as u32] == r.ecx,
        s.mem[(s.r.esp + 12) as u32] == r.ebx,
    ensures
        ({
            let e = x86::run(attack::append_u32_code(), s, 5);
            &&& e.returned
            &&& e.r == (x86::Regs {
                esi: r.esi,
                edx: r.edx,
                ecx: r.ecx,
                ebx: r.ebx,
                esp: r.esp,
                ..s.r
            })
            &&& e.mem8 == s.mem8
        }),
{
    let c = attack::append_u32_code();
    broadcast use {crate::x86::group_cells, crate::code::group_code_len};

    assert(c.take(c.len() as int) =~= c);
    append_u32_code_bytes(c);
    reveal_with_fuel(x86::run, 6);
    let s0 = s;
    x86::ins_pop_reg(c, s0);
    let s1 = x86::step(c, s0);
    assert(s1.ip == 41);
    x86::ins_pop_reg(c, s1);
    let s2 = x86::step(c, s1);
    assert(s2.ip == 42);
    x86::ins_pop_reg(c, s2);
    let s3 = x86::step(c, s2);
    assert(s3.ip == 43);
    x86::ins_pop_reg(c, s3);
    let s4 = x86::step(c, s3);
    assert(s4.ip == 44);
    x86::ins_ret(c, s4);
    let s5 = x86::step(c, s4);
    assert(s5.ip == 44);
}

} // verus!
