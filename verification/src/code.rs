//! Writing x86 machine code byte by byte.
//!
//! A listing is a chain of [`put`], [`put32`], [`jcc`], [`jmp`] and [`call`]:
//! each takes the code so far and gives the code with one more piece at its
//! end.  The executable functions of the same shape append that piece to a
//! buffer.  Branch operands are computed from the position at which the branch
//! stands, so a listing names the offset (or the address) that it branches to.

use vstd::prelude::*;

verus! {

/// The two bytes of `x`, least significant first.
pub open spec fn le16(x: u16) -> Seq<u8> {
    seq![(x % 256) as u8, (x / 256) as u8]
}

/// The four bytes of `x`, least significant first.
#[verifier::opaque]
pub open spec fn le32(x: u32) -> Seq<u8> {
    seq![(x % 256) as u8, (x / 256 % 256) as u8, (x / 65536 % 256) as u8, (x / 16777216) as u8]
}

/// The number that two bytes spell, least significant first.
pub open spec fn from_le16(s: Seq<u8>) -> u16 {
    (s[0] + 256 * s[1]) as u16
}

/// The number that four bytes spell, least significant first.
pub open spec fn from_le32(s: Seq<u8>) -> u32 {
    (s[0] + 256 * s[1] + 65536 * s[2] + 16777216 * s[3]) as u32
}

/// The distance of a branch: what has to be added (modulo 2^32) to the address
/// of the instruction after the branch to reach `target`.
pub open spec fn rel32(next: int, target: int) -> u32 {
    ((target - next) % 0x1_0000_0000) as u32
}

/// The distance of a short branch, as the byte that encodes it.
pub open spec fn rel8(next: int, target: int) -> u8 {
    ((target - next) % 256) as u8
}

/// Code `c` followed by the bytes `b`.
#[verifier::opaque]
pub open spec fn put(c: Seq<u8>, b: Seq<u8>) -> Seq<u8> {
    c + b
}

/// Code `c` followed by a 32-bit operand.
pub open spec fn put32(c: Seq<u8>, x: u32) -> Seq<u8> {
    put(c, le32(x))
}

/// Code `c` followed by `jcc rel32` (`0F cc`) to the offset `target`.
pub open spec fn jcc(c: Seq<u8>, cc: u8, target: int) -> Seq<u8> {
    put32(put(c, [0x0Fu8, cc]@), rel32(c.len() as int + 6, target))
}

/// Code `c` followed by `jmp rel32` to the offset `target`.
pub open spec fn jmp(c: Seq<u8>, target: int) -> Seq<u8> {
    put32(put(c, [0xE9u8]@), rel32(c.len() as int + 5, target))
}

/// Code `c` followed by `call rel32` to the offset `target`.
pub open spec fn call(c: Seq<u8>, target: int) -> Seq<u8> {
    put32(put(c, [0xE8u8]@), rel32(c.len() as int + 5, target))
}

/// Code `c` followed by a two-byte branch to the offset `target`.
pub open spec fn jump8(c: Seq<u8>, opcode: u8, target: int) -> Seq<u8> {
    put(c, [opcode, rel8(c.len() as int + 2, target)]@)
}

/// The offset that the `rel8` operand at `at` leads to.
pub open spec fn short_branch_target(c: Seq<u8>, at: int) -> int {
    at + 1 + if c[at] < 128 {
        c[at] as int
    } else {
        c[at] - 256
    }
}

/// The offset that the `rel32` operand at `at` leads to.
pub open spec fn branch_target(c: Seq<u8>, at: int) -> int {
    (at + 4 + from_le32(c.subrange(at, at + 4))) % 0x1_0000_0000
}

/// A number survives being written as two bytes and read back.
pub proof fn le16_round_trip(x: u16)
    ensures
        le16(x).len() == 2,
        from_le16(le16(x)) == x,
{
}

/// A number survives being written as four bytes and read back.
pub proof fn le32_round_trip(x: u32)
    ensures
        le32(x).len() == 4,
        from_le32(le32(x)) == x,
{
    reveal(le32);
    let b0 = (x % 256) as int;
    let b1 = (x / 256 % 256) as int;
    let b2 = (x / 65536 % 256) as int;
    let b3 = (x / 16777216) as int;
    assert(x == b0 + 256 * b1 + 65536 * b2 + 16777216 * b3);
}

/// Four bytes survive being read as a number and written back.
pub proof fn from_le32_round_trip(s: Seq<u8>)
    requires
        s.len() == 4,
    ensures
        le32(from_le32(s)) == s,
{
    reveal(le32);
    let (b0, b1, b2, b3) = (s[0] as int, s[1] as int, s[2] as int, s[3] as int);
    let x = b0 + 256 * b1 + 65536 * b2 + 16777216 * b3;
    assert(x % 256 == b0 && x / 256 == b1 + 256 * b2 + 65536 * b3);
    let y = x / 256;
    assert(y % 256 == b1 && y / 256 == b2 + 256 * b3);
    assert(x / 65536 == y / 256);
    let z = x / 65536;
    assert(z % 256 == b2 && z / 256 == b3);
    assert(x / 16777216 == z / 256);
    assert(le32(from_le32(s)) =~= s);
}

pub broadcast proof fn le32_len(x: u32)
    ensures
        #[trigger] le32(x).len() == 4,
{
    reveal(le32);
}

pub broadcast proof fn put_len(c: Seq<u8>, b: Seq<u8>)
    ensures
        #[trigger] put(c, b).len() == c.len() + b.len(),
{
    reveal(put);
}

/// Facts about the lengths of listings.
pub broadcast group group_code_len {
    le32_len,
    put_len,
}

/// The distance of a branch leads from the instruction after the branch to its
/// target.
pub proof fn rel32_lands(next: int, target: int)
    requires
        0 <= target < 0x1_0000_0000,
    ensures
        (next + rel32(next, target)) % 0x1_0000_0000 == target,
{
    let m = 0x1_0000_0000int;
    let d = target - next;
    vstd::arithmetic::div_mod::lemma_fundamental_div_mod(d, m);
    assert(next + d % m == target - m * (d / m));
    vstd::arithmetic::div_mod::lemma_mod_multiples_vanish(-(d / m), target, m);
    assert(m * (-(d / m)) + target == target - m * (d / m)) by (nonlinear_arith);
    vstd::arithmetic::div_mod::lemma_small_mod(target as nat, m as nat);
}

/// A jump emitted at the end of `c` leads to the offset it was given.
pub proof fn jmp_lands(c: Seq<u8>, target: int)
    requires
        0 <= target < 0x1_0000_0000,
    ensures
        jmp(c, target).len() == c.len() as int + 5,
        jmp(c, target)[c.len() as int] == 0xE9,
        branch_target(jmp(c, target), c.len() as int + 1) == target,
{
    reveal(put);
    let r = rel32(c.len() as int + 5, target);
    le32_round_trip(r);
    assert(jmp(c, target).subrange(c.len() as int + 1, c.len() as int + 5) =~= le32(r));
    rel32_lands(c.len() as int + 5, target);
}

/// A conditional jump emitted at the end of `c` leads to the offset it was
/// given.
pub proof fn jcc_lands(c: Seq<u8>, cc: u8, target: int)
    requires
        0 <= target < 0x1_0000_0000,
    ensures
        jcc(c, cc, target).len() == c.len() as int + 6,
        jcc(c, cc, target)[c.len() as int] == 0x0F,
        jcc(c, cc, target)[c.len() as int + 1] == cc,
        branch_target(jcc(c, cc, target), c.len() as int + 2) == target,
{
    reveal(put);
    let r = rel32(c.len() as int + 6, target);
    le32_round_trip(r);
    assert(jcc(c, cc, target).subrange(c.len() as int + 2, c.len() as int + 6) =~= le32(r));
    rel32_lands(c.len() as int + 6, target);
}

/// A call emitted at the end of `c` leads to the offset it was given.
pub proof fn call_lands(c: Seq<u8>, target: int)
    requires
        0 <= target < 0x1_0000_0000,
    ensures
        call(c, target).len() == c.len() as int + 5,
        call(c, target)[c.len() as int] == 0xE8,
        branch_target(call(c, target), c.len() as int + 1) == target,
{
    reveal(put);
    let r = rel32(c.len() as int + 5, target);
    le32_round_trip(r);
    assert(call(c, target).subrange(c.len() as int + 1, c.len() as int + 5) =~= le32(r));
    rel32_lands(c.len() as int + 5, target);
}

/// A short branch emitted at the end of `c` leads to the offset it was given.
pub proof fn jump8_lands(c: Seq<u8>, opcode: u8, target: int)
    requires
        -128 <= target - (c.len() + 2) <= 127,
    ensures
        jump8(c, opcode, target).len() == c.len() + 2,
        jump8(c, opcode, target)[c.len() as int] == opcode,
        short_branch_target(jump8(c, opcode, target), c.len() as int + 1) == target,
{
    reveal(put);
}

/// A buffer that starts with the given bytes.
pub fn start(bytes: &[u8]) -> (sc: Vec<u8>)
    ensures
        sc@ == bytes@,
        sc@.len() == bytes@.len(),
{
    let mut sc: Vec<u8> = Vec::new();
    sc.extend_from_slice(bytes);
    assert(sc@ =~= bytes@);
    sc
}

/// Appends `bytes`.
pub fn push_bytes(sc: &mut Vec<u8>, bytes: &[u8])
    ensures
        final(sc)@ == put(old(sc)@, bytes@),
        final(sc)@.len() == old(sc)@.len() + bytes@.len(),
{
    reveal(put);
    sc.extend_from_slice(bytes);
    assert(sc@ =~= old(sc)@ + bytes@);
}

/// Appends `x`, least significant byte first.
pub fn push_u32(sc: &mut Vec<u8>, x: u32)
    ensures
        final(sc)@ == put32(old(sc)@, x),
        final(sc)@.len() == old(sc)@.len() + 4,
{
    reveal(put);
    reveal(le32);
    sc.push((x % 256) as u8);
    sc.push((x / 256 % 256) as u8);
    sc.push((x / 65536 % 256) as u8);
    sc.push((x / 16777216) as u8);
    assert(sc@ =~= old(sc)@ + le32(x));
}

/// The bytes of `x`, least significant first.
pub fn u32_bytes(x: u32) -> (r: Vec<u8>)
    ensures
        r@ == le32(x),
{
    let mut r: Vec<u8> = Vec::new();
    push_u32(&mut r, x);
    assert(r@ =~= le32(x)) by {
        reveal(put);
    }
    r
}

/// The distance from `next` to `target`, modulo 2^32.
pub fn distance(next: u32, target: u32) -> (rel: u32)
    ensures
        rel == rel32(next as int, target as int),
{
    if target < next {
        assert((target - next) % 0x1_0000_0000 == target - next + 0x1_0000_0000) by (nonlinear_arith)
            requires
                -0x1_0000_0000 < target - next < 0,
        ;
    }
    target.wrapping_sub(next)
}

/// Appends `0F cc rel32`, a branch to the offset `target`.
pub fn emit_jcc32(sc: &mut Vec<u8>, cc: u8, target: u32)
    requires
        old(sc)@.len() + 6 <= u32::MAX,
    ensures
        final(sc)@ == jcc(old(sc)@, cc, target as int),
        final(sc)@.len() == old(sc)@.len() + 6,
{
    let next: u32 = sc.len() as u32 + 6;
    push_bytes(sc, &[0x0F, cc]);
    push_u32(sc, distance(next, target));
}

/// Appends `E9 rel32`, a jump to the offset `target`.
pub fn emit_jmp32(sc: &mut Vec<u8>, target: u32)
    requires
        old(sc)@.len() + 5 <= u32::MAX,
    ensures
        final(sc)@ == jmp(old(sc)@, target as int),
        final(sc)@.len() == old(sc)@.len() + 5,
{
    let next: u32 = sc.len() as u32 + 5;
    push_bytes(sc, &[0xE9]);
    push_u32(sc, distance(next, target));
}

/// Appends `E8 rel32`, a call of the offset `target`.
pub fn emit_call32(sc: &mut Vec<u8>, target: u32)
    requires
        old(sc)@.len() + 5 <= u32::MAX,
    ensures
        final(sc)@ == call(old(sc)@, target as int),
        final(sc)@.len() == old(sc)@.len() + 5,
{
    let next: u32 = sc.len() as u32 + 5;
    push_bytes(sc, &[0xE8]);
    push_u32(sc, distance(next, target));
}

/// Appends a two-byte branch to the offset `target`, which must be near enough.
pub fn emit_jump8(sc: &mut Vec<u8>, opcode: u8, target: u32)
    requires
        old(sc)@.len() + 2 <= i32::MAX,
        -128 <= target - (old(sc)@.len() + 2) <= 127,
    ensures
        final(sc)@ == jump8(old(sc)@, opcode, target as int),
        final(sc)@.len() == old(sc)@.len() + 2,
{
    let next: u32 = sc.len() as u32 + 2;
    let rel: u8 = if target >= next {
        (target - next) as u8
    } else {
        (256 - (next - target)) as u8
    };
    push_bytes(sc, &[opcode, rel]);
}

/// The little-endian 16-bit number at `offset`.
pub fn read_u16_le(bytes: &[u8], offset: usize) -> (x: u16)
    requires
        offset + 2 <= bytes@.len(),
    ensures
        x == from_le16(bytes@.subrange(offset as int, offset + 2)),
{
    bytes[offset] as u16 + 256 * (bytes[offset + 1] as u16)
}

/// The little-endian 32-bit number at `offset`.
pub fn read_u32_le(bytes: &[u8], offset: usize) -> (x: u32)
    requires
        offset + 4 <= bytes@.len(),
    ensures
        x == from_le32(bytes@.subrange(offset as int, offset + 4)),
{
    bytes[offset] as u32 + 256 * (bytes[offset + 1] as u32) + 65536 * (bytes[offset + 2] as u32)
        + 16777216 * (bytes[offset + 3] as u32)
}

/// Whether two byte strings are equal.
pub fn same_bytes(a: &[u8], b: &[u8]) -> (r: bool)
    ensures
        r == (a@ == b@),
{
    if a.len() != b.len() {
        return false;
    }
    let mut i: usize = 0;
    while i < a.len()
        invariant
            a@.len() == b@.len(),
            i <= a@.len(),
            forall|k: int| 0 <= k < i ==> a@[k] == b@[k],
        decreases a@.len() - i,
    {
        if a[i] != b[i] {
            return false;
        }
        i += 1;
    }
    assert(a@ =~= b@);
    true
}

/// The bytes before the first zero, all of them where there is none.
pub open spec fn until_zero(s: Seq<u8>) -> Seq<u8>
    decreases s.len(),
{
    if s.len() == 0 || s[0] == 0 {
        Seq::empty()
    } else {
        seq![s[0]] + until_zero(s.drop_first())
    }
}

proof fn until_zero_at(s: Seq<u8>, n: int)
    requires
        0 <= n <= s.len(),
        n < s.len() ==> s[n] == 0,
        forall|i: int| 0 <= i < n ==> s[i] != 0,
    ensures
        until_zero(s) == s.take(n),
    decreases n,
{
    if n > 0 {
        let t = s.drop_first();
        until_zero_at(t, n - 1);
        assert(s.take(n) =~= seq![s[0]] + t.take(n - 1));
    } else {
        assert(s.take(0) =~= Seq::<u8>::empty());
    }
}

/// How many bytes stand before the first zero.
pub fn zero_at(bytes: &[u8]) -> (n: usize)
    ensures
        n <= bytes@.len(),
        until_zero(bytes@) == bytes@.take(n as int),
        n == until_zero(bytes@).len(),
{
    let mut n: usize = 0;
    while n < bytes.len() && bytes[n] != 0
        invariant
            n <= bytes@.len(),
            forall|i: int| 0 <= i < n ==> bytes@[i] != 0,
        decreases bytes@.len() - n,
    {
        n += 1;
    }
    proof {
        until_zero_at(bytes@, n as int);
    }
    n
}

} // verus!
