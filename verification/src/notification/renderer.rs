//! The list of pictures to draw, and the code that draws it.

use vstd::prelude::*;

use super::layout;
use super::layout::float_layout;
use super::layout::toast_layout;
use super::queue;
use super::types::FloatKind;
use super::types::LiveFloat;
use super::types::LiveToast;
use crate::code;
use crate::code::emit_jcc32;
use crate::code::emit_jmp32;
use crate::code::emit_jump8;
use crate::code::push_bytes;
use crate::code::push_u32;
use crate::code::read_u16_le;
use crate::code::read_u32_le;
use crate::code::start;

verus! {

broadcast use crate::code::group_code_len;

/// The background of a toast.
pub const TOAST_BG_GFXID: u16 = 1888;

pub const TOAST_ICON_OFFSET_X: i32 = 4;

pub const TOAST_ICON_OFFSET_Y: i32 = 2;

pub const FLOAT_EXP_GFXID: u16 = 1971;

pub const FLOAT_GOLD_GFXID: u16 = 1973;

/// Finds the surface of a picture.
pub const GET_SURF_RESOURCE: u32 = 0x00759F20;

pub const PNG_SURF_MANAGER: u32 = 0x00C31434;

/// Draws a surface.
pub const BLIT_B: u32 = 0x00555CE0;

/// A picture to draw, twelve bytes in the list.
#[derive(Debug, Clone, Copy, PartialEq, Eq, Structural)]
pub struct DrawCmd {
    pub gfxid: u16,
    pub _pad: u16,
    pub x: i32,
    pub y: i32,
}

impl DrawCmd {
    pub fn new(gfxid: u16, x: i32, y: i32) -> (r: Self)
        ensures
            r == (DrawCmd { gfxid, _pad: 0, x, y }),
    {
        DrawCmd { gfxid, _pad: 0, x, y }
    }
}

/// The pictures of the first toasts: a background each, and the item's picture
/// where it has one.
pub open spec fn toast_cmds(toasts: Seq<LiveToast>, screen_h: int, now: u64) -> Seq<DrawCmd>
    decreases toasts.len(),
{
    if toasts.len() == 0 {
        Seq::empty()
    } else {
        let t = toasts.last();
        let (x, y, _) = layout::toast_place(t, toasts.len() - 1, screen_h, now);
        let c = toast_cmds(toasts.drop_last(), screen_h, now).push(
            DrawCmd { gfxid: TOAST_BG_GFXID, _pad: 0, x: x as i32, y: y as i32 },
        );
        if t.gfxid != 0 {
            c.push(DrawCmd { gfxid: t.gfxid, _pad: 0, x: (x + 4) as i32, y: (y + 2) as i32 })
        } else {
            c
        }
    }
}

/// The pictures of floating numbers.
pub open spec fn float_cmds(floats: Seq<LiveFloat>, screen_w: i32, screen_h: i32, now: u64) -> Seq<
    DrawCmd,
> {
    Seq::new(
        floats.len(),
        |i: int|
            DrawCmd {
                gfxid: match floats[i].kind {
                    FloatKind::Exp => FLOAT_EXP_GFXID,
                    FloatKind::Gold => FLOAT_GOLD_GFXID,
                },
                _pad: 0,
                x: layout::float_place(floats[i], screen_w, screen_h, now).0 as i32,
                y: layout::float_place(floats[i], screen_w, screen_h, now).1 as i32,
            },
    )
}

/// Whether the place of every picture that is drawn can be computed without overflow.
pub open spec fn places_fit(
    toasts: Seq<LiveToast>,
    floats: Seq<LiveFloat>,
    screen_w: i32,
    screen_h: i32,
    now: u64,
) -> bool {
    &&& toasts.len() > 0 ==> {
        &&& (toasts.len() - 1) * 36 <= i32::MAX
        &&& i32::MIN <= screen_h - 50 - (toasts.len() - 1) * 36
    }
    &&& forall|i: int|
        0 <= i < floats.len() ==> layout::float_fits(#[trigger] floats[i], screen_h, now)
}

/// Tells whether every place can be computed.
pub fn can_place(
    toasts: &[LiveToast],
    floats: &[LiveFloat],
    screen_w: i32,
    screen_h: i32,
    now: u64,
) -> (r: bool)
    ensures
        r == places_fit(toasts@, floats@, screen_w, screen_h, now),
{
    if toasts.len() > 0 {
        let down: i128 = (toasts.len() as i128 - 1) * 36;
        if down > i32::MAX as i128 || (screen_h as i128) - 50 - down < i32::MIN as i128 {
            return false;
        }
    }
    let mut i: usize = 0;
    while i < floats.len()
        invariant
            i <= floats@.len(),
            forall|k: int| 0 <= k < i ==> layout::float_fits(#[trigger] floats@[k], screen_h, now),
        decreases floats@.len() - i,
    {
        if !layout::can_place_float(&floats[i], screen_h, now) {
            assert(!layout::float_fits(floats@[i as int], screen_h, now));
            return false;
        }
        i += 1;
    }
    true
}

/// Ordinary screens and live notifications always fit.
pub proof fn ordinary_places_fit(
    toasts: Seq<LiveToast>,
    floats: Seq<LiveFloat>,
    screen_w: i32,
    screen_h: i32,
    now: u64,
)
    requires
        0 <= screen_w <= 1_000_000,
        0 <= screen_h <= 1_000_000,
        toasts.len() <= queue::TOAST_MAX,
        forall|i: int| 0 <= i < floats.len() ==> queue::float_lives(#[trigger] floats[i], now),
    ensures
        places_fit(toasts, floats, screen_w, screen_h, now),
{
    assert forall|i: int| 0 <= i < floats.len() implies layout::float_fits(
        #[trigger] floats[i],
        screen_h,
        now,
    ) by {
        assert(queue::float_lives(floats[i], now));
        let a = queue::age(floats[i].spawned_at, now);
        layout::floats_rise(a, a);
    }
}

/// The pictures of all notifications: toasts first, then floating numbers.
pub fn expand_snapshot(
    toasts: &[LiveToast],
    floats: &[LiveFloat],
    screen_w: i32,
    screen_h: i32,
    now: u64,
) -> (out: Vec<DrawCmd>)
    requires
        places_fit(toasts@, floats@, screen_w, screen_h, now),
    ensures
        out@ == toast_cmds(toasts@, screen_h as int, now) + float_cmds(
            floats@,
            screen_w,
            screen_h,
            now,
        ),
{
    let mut out: Vec<DrawCmd> = Vec::new();
    let mut slot: usize = 0;
    while slot < toasts.len()
        invariant
            places_fit(toasts@, floats@, screen_w, screen_h, now),
            slot <= toasts@.len(),
            out@ == toast_cmds(toasts@.take(slot as int), screen_h as int, now),
        decreases toasts@.len() - slot,
    {
        assert(toasts@.take(slot + 1).drop_last() =~= toasts@.take(slot as int));
        assert(toasts@.take(slot + 1).last() == toasts@[slot as int]);
        let l = toast_layout(&toasts[slot], slot, screen_w, screen_h, now);
        out.push(DrawCmd::new(TOAST_BG_GFXID, l.x, l.y));
        if toasts[slot].gfxid != 0 {
            out.push(
                DrawCmd::new(
                    toasts[slot].gfxid,
                    l.x + TOAST_ICON_OFFSET_X,
                    l.y + TOAST_ICON_OFFSET_Y,
                ),
            );
        }
        slot += 1;
    }
    assert(toasts@.take(toasts@.len() as int) =~= toasts@);
    let ghost head = out@;
    let mut i: usize = 0;
    assert(out@ =~= head + float_cmds(floats@, screen_w, screen_h, now).take(0));
    while i < floats.len()
        invariant
            places_fit(toasts@, floats@, screen_w, screen_h, now),
            i <= floats@.len(),
            out@ == head + float_cmds(floats@, screen_w, screen_h, now).take(i as int),
        decreases floats@.len() - i,
    {
        let l = float_layout(&floats[i], screen_w, screen_h, now);
        let gfxid: u16 = match floats[i].kind {
            FloatKind::Exp => FLOAT_EXP_GFXID,
            FloatKind::Gold => FLOAT_GOLD_GFXID,
        };
        out.push(DrawCmd::new(gfxid, l.x, l.y));
        assert(out@ =~= head + float_cmds(floats@, screen_w, screen_h, now).take(i + 1));
        i += 1;
    }
    assert(float_cmds(floats@, screen_w, screen_h, now).take(floats@.len() as int) =~= float_cmds(
        floats@,
        screen_w,
        screen_h,
        now,
    ));
    out
}

/// A signed number as the unsigned number with the same bits.
pub open spec fn unsigned(x: i32) -> u32 {
    if x >= 0 {
        x as u32
    } else {
        (x + 0x1_0000_0000) as u32
    }
}

/// An unsigned number as the signed number with the same bits.
pub open spec fn signed(x: u32) -> i32 {
    if x <= i32::MAX {
        x as i32
    } else {
        (x - 0x1_0000_0000) as i32
    }
}

fn to_unsigned(x: i32) -> (r: u32)
    ensures
        r == unsigned(x),
{
    if x >= 0 {
        x as u32
    } else {
        (x as i64 + 0x1_0000_0000) as u32
    }
}

fn to_signed(x: u32) -> (r: i32)
    ensures
        r == signed(x),
{
    if x <= 0x7FFF_FFFF {
        x as i32
    } else {
        (x as i64 - 0x1_0000_0000) as i32
    }
}

/// The twelve bytes of an entry.
pub open spec fn cmd_bytes(c: DrawCmd) -> Seq<u8> {
    code::le16(c.gfxid) + code::le16(c._pad) + code::le32(unsigned(c.x)) + code::le32(unsigned(c.y))
}

/// The bytes of the entries.
pub open spec fn cmds_bytes(cmds: Seq<DrawCmd>) -> Seq<u8>
    decreases cmds.len(),
{
    if cmds.len() == 0 {
        Seq::empty()
    } else {
        cmds_bytes(cmds.drop_last()) + cmd_bytes(cmds.last())
    }
}

/// How many entries there are, then the entries.
pub open spec fn serialized(cmds: Seq<DrawCmd>) -> Seq<u8> {
    code::le32(cmds.len() as u32) + cmds_bytes(cmds)
}

/// The entry that twelve bytes spell.
pub open spec fn cmd_of(s: Seq<u8>) -> DrawCmd {
    DrawCmd {
        gfxid: code::from_le16(s.subrange(0, 2)),
        _pad: code::from_le16(s.subrange(2, 4)),
        x: signed(code::from_le32(s.subrange(4, 8))),
        y: signed(code::from_le32(s.subrange(8, 12))),
    }
}

/// The list that bytes spell; bytes behind its end do not matter.
pub open spec fn deserialized(buf: Seq<u8>) -> Option<Seq<DrawCmd>> {
    if buf.len() < 4 {
        None
    } else {
        let count = code::from_le32(buf.subrange(0, 4));
        if buf.len() < 4 + count * 12 {
            None
        } else {
            Some(
                Seq::new(
                    count as nat,
                    |i: int| cmd_of(buf.subrange(4 + i * 12, 16 + i * 12)),
                ),
            )
        }
    }
}

proof fn cmds_bytes_at(cmds: Seq<DrawCmd>, i: int)
    requires
        0 <= i < cmds.len(),
    ensures
        cmds_bytes(cmds).len() == cmds.len() * 12,
        cmds_bytes(cmds).subrange(i * 12, i * 12 + 12) == cmd_bytes(cmds[i]),
    decreases cmds.len(),
{
    cmds_bytes_len(cmds);
    cmds_bytes_len(cmds.drop_last());
    if i < cmds.len() - 1 {
        cmds_bytes_at(cmds.drop_last(), i);
        assert(cmds_bytes(cmds).subrange(i * 12, i * 12 + 12) =~= cmds_bytes(
            cmds.drop_last(),
        ).subrange(i * 12, i * 12 + 12));
    } else {
        assert(cmds_bytes(cmds).subrange(i * 12, i * 12 + 12) =~= cmd_bytes(cmds.last()));
    }
}

proof fn cmds_bytes_len(cmds: Seq<DrawCmd>)
    ensures
        cmds_bytes(cmds).len() == cmds.len() * 12,
    decreases cmds.len(),
{
    if cmds.len() > 0 {
        cmds_bytes_len(cmds.drop_last());
        assert(cmd_bytes(cmds.last()).len() == 12);
    }
}

proof fn cmd_round_trip(c: DrawCmd)
    ensures
        cmd_bytes(c).len() == 12,
        cmd_of(cmd_bytes(c)) == c,
{
    let s = cmd_bytes(c);
    assert(s.subrange(0, 2) =~= code::le16(c.gfxid));
    assert(s.subrange(2, 4) =~= code::le16(c._pad));
    assert(s.subrange(4, 8) =~= code::le32(unsigned(c.x)));
    assert(s.subrange(8, 12) =~= code::le32(unsigned(c.y)));
    code::le16_round_trip(c.gfxid);
    code::le16_round_trip(c._pad);
    code::le32_round_trip(unsigned(c.x));
    code::le32_round_trip(unsigned(c.y));
}

/// Reading a list gives back what was written, whatever stands behind it.
pub proof fn serialize_round_trip(cmds: Seq<DrawCmd>, rest: Seq<u8>)
    requires
        cmds.len() <= u32::MAX,
    ensures
        serialized(cmds).len() == 4 + cmds.len() * 12,
        deserialized(serialized(cmds) + rest) == Some(cmds),
{
    let buf = serialized(cmds) + rest;
    cmds_bytes_len(cmds);
    code::le32_round_trip(cmds.len() as u32);
    assert(buf.subrange(0, 4) =~= code::le32(cmds.len() as u32));
    let back = Seq::new(cmds.len(), |i: int| cmd_of(buf.subrange(4 + i * 12, 16 + i * 12)));
    assert forall|i: int| 0 <= i < cmds.len() implies back[i] == cmds[i] by {
        cmds_bytes_at(cmds, i);
        cmd_round_trip(cmds[i]);
        assert(buf.subrange(4 + i * 12, 16 + i * 12) =~= cmds_bytes(cmds).subrange(
            i * 12,
            i * 12 + 12,
        ));
    }
    assert(back =~= cmds);
}

fn push_u16(buf: &mut Vec<u8>, x: u16)
    ensures
        final(buf)@ == old(buf)@ + code::le16(x),
{
    buf.push((x % 256) as u8);
    buf.push((x / 256) as u8);
    assert(buf@ =~= old(buf)@ + code::le16(x));
}

/// Writes a list.
pub fn serialize(cmds: &[DrawCmd]) -> (buf: Vec<u8>)
    requires
        cmds@.len() <= u32::MAX,
    ensures
        buf@ == serialized(cmds@),
{
    let mut buf: Vec<u8> = Vec::new();
    push_u32(&mut buf, cmds.len() as u32);
    proof {
        reveal(code::put);
        assert(buf@ =~= code::le32(cmds@.len() as u32) + cmds_bytes(cmds@.take(0)));
    }
    let mut i: usize = 0;
    while i < cmds.len()
        invariant
            i <= cmds@.len() <= u32::MAX,
            buf@ == code::le32(cmds@.len() as u32) + cmds_bytes(cmds@.take(i as int)),
        decreases cmds@.len() - i,
    {
        let c: DrawCmd = cmds[i];
        let ghost before = buf@;
        push_u16(&mut buf, c.gfxid);
        push_u16(&mut buf, c._pad);
        push_u32(&mut buf, to_unsigned(c.x));
        push_u32(&mut buf, to_unsigned(c.y));
        proof {
            reveal(code::put);
            assert(buf@ =~= before + cmd_bytes(c));
            assert(cmds@.take(i + 1).drop_last() =~= cmds@.take(i as int));
            assert(buf@ =~= code::le32(cmds@.len() as u32) + cmds_bytes(cmds@.take(i + 1)));
        }
        i += 1;
    }
    assert(cmds@.take(cmds@.len() as int) =~= cmds@);
    buf
}

/// Reads a list.
pub fn deserialize(buf: &[u8]) -> (r: Option<Vec<DrawCmd>>)
    ensures
        (match r {
            Some(v) => Some(v@),
            None => None,
        }) == deserialized(buf@),
{
    if buf.len() < 4 {
        return None;
    }
    let count: u32 = read_u32_le(buf, 0);
    if (buf.len() as u64) < 4 + count as u64 * 12 {
        return None;
    }
    let mut out: Vec<DrawCmd> = Vec::new();
    let mut i: u32 = 0;
    let n: usize = buf.len();
    while i < count
        invariant
            i <= count,
            n == buf@.len(),
            n >= 4 + count * 12,
            out@.len() == i,
            forall|k: int|
                0 <= k < i ==> out@[k] == cmd_of(#[trigger] buf@.subrange(4 + k * 12, 16 + k * 12)),
        decreases count - i,
    {
        let off: usize = 4 + i as usize * 12;
        let ghost s = buf@.subrange(4 + i * 12, 16 + i * 12);
        assert(s.subrange(0, 2) =~= buf@.subrange(off as int, off + 2));
        assert(s.subrange(2, 4) =~= buf@.subrange(off + 2, off + 4));
        assert(s.subrange(4, 8) =~= buf@.subrange(off + 4, off + 8));
        assert(s.subrange(8, 12) =~= buf@.subrange(off + 8, off + 12));
        out.push(
            DrawCmd {
                gfxid: read_u16_le(buf, off),
                _pad: read_u16_le(buf, off + 2),
                x: to_signed(read_u32_le(buf, off + 4)),
                y: to_signed(read_u32_le(buf, off + 8)),
            },
        );
        i += 1;
    }
    proof {
        let s = Seq::new(count as nat, |k: int| cmd_of(buf@.subrange(4 + k * 12, 16 + k * 12)));
        assert forall|k: int| 0 <= k < count implies out@[k] == s[k] by {
            assert(out@[k] == cmd_of(buf@.subrange(4 + k * 12, 16 + k * 12)));
        }
        assert(out@ =~= s);
    }
    Some(out)
}

pub const LOOP_START: u32 = 12;

pub const LOOP_SKIP: u32 = 61;

pub const LOOP_END: u32 = 70;

/// Draws the pictures of the list at `list_addr`.
pub open spec fn draw_loop_code(list_addr: u32) -> Seq<u8> {
    let c = [
        0x60u8, 0x9C, // pushad; pushfd
        0xBE, // mov esi, list_addr
    ]@;
    let c = code::put32(c, list_addr);
    let c = code::put(c, [
        0x8Bu8, 0x3E, // mov edi, [esi]: how many
        0x83, 0xC6, 0x04, // add esi, 4
    ]@);
    // loop_start:
    let c = code::put(c, [0x85u8, 0xFF]@);  // test edi, edi
    let c = code::jcc(c, 0x84, LOOP_END as int);
    let c = code::put(c, [
        0x0Fu8, 0xB7, 0x06, // movzx eax, word [esi]: the picture
        0x50, // push eax
        0xB9, // mov ecx, PNG_SURF_MANAGER
    ]@);
    let c = code::put32(c, PNG_SURF_MANAGER);
    let c = code::put(c, [0xB8u8]@);  // mov eax, GET_SURF_RESOURCE
    let c = code::put32(c, GET_SURF_RESOURCE);
    let c = code::put(c, [
        0xFFu8, 0xD0, // call eax
        0x85, 0xC0, // test eax, eax
    ]@);
    let c = code::jump8(c, 0x74, LOOP_SKIP as int);
    let c = code::put(c, [
        0xFFu8, 0x76, 0x08, // push [esi+8]: y
        0xFF, 0x76, 0x04, // push [esi+4]: x
        0x6A, 0x00, // push 0
        0x6A, 0x00, // push 0
        0x50, // push eax
        0xB9, // mov ecx, BLIT_B
    ]@);
    let c = code::put32(c, BLIT_B);
    let c = code::put(c, [
        0xFFu8, 0xD1, // call ecx
        0x83, 0xC4, 0x14, // add esp, 0x14
    ]@);
    // loop_skip:
    let c = code::put(c, [
        0x83u8, 0xC6, 0x0C, // add esi, 12
        0x4F, // dec edi
    ]@);
    let c = code::jmp(c, LOOP_START as int);
    // loop_end:
    let c = code::put(c, [0x9Du8, 0x61, 0xC3]@);  // popfd; popad; ret
    c
}

/// Code that draws the pictures of the list at `list_addr`.
pub fn build_draw_loop_shellcode(list_addr: u32) -> (sc: Vec<u8>)
    ensures
        sc@ == draw_loop_code(list_addr),
        sc@.len() == 73,
{
    let mut sc: Vec<u8> = start(&[
        0x60, 0x9C, // pushad; pushfd
        0xBE, // mov esi, list_addr
    ]);
    push_u32(&mut sc, list_addr);
    push_bytes(&mut sc, &[
        0x8B, 0x3E, // mov edi, [esi]: how many
        0x83, 0xC6, 0x04, // add esi, 4
    ]);
    assert(sc@.len() == LOOP_START);
    push_bytes(&mut sc, &[0x85, 0xFF]);  // test edi, edi
    emit_jcc32(&mut sc, 0x84, LOOP_END);
    push_bytes(&mut sc, &[
        0x0F, 0xB7, 0x06, // movzx eax, word [esi]: the picture
        0x50, // push eax
        0xB9, // mov ecx, PNG_SURF_MANAGER
    ]);
    push_u32(&mut sc, PNG_SURF_MANAGER);
    push_bytes(&mut sc, &[0xB8]);  // mov eax, GET_SURF_RESOURCE
    push_u32(&mut sc, GET_SURF_RESOURCE);
    push_bytes(&mut sc, &[
        0xFF, 0xD0, // call eax
        0x85, 0xC0, // test eax, eax
    ]);
    emit_jump8(&mut sc, 0x74, LOOP_SKIP);
    push_bytes(&mut sc, &[
        0xFF, 0x76, 0x08, // push [esi+8]: y
        0xFF, 0x76, 0x04, // push [esi+4]: x
        0x6A, 0x00, // push 0
        0x6A, 0x00, // push 0
        0x50, // push eax
        0xB9, // mov ecx, BLIT_B
    ]);
    push_u32(&mut sc, BLIT_B);
    push_bytes(&mut sc, &[
        0xFF, 0xD1, // call ecx
        0x83, 0xC4, 0x14, // add esp, 0x14
    ]);
    assert(sc@.len() == LOOP_SKIP);
    push_bytes(&mut sc, &[
        0x83, 0xC6, 0x0C, // add esi, 12
        0x4F, // dec edi
    ]);
    emit_jmp32(&mut sc, LOOP_START);
    assert(sc@.len() == LOOP_END);
    push_bytes(&mut sc, &[0x9D, 0x61, 0xC3]);  // popfd; popad; ret
    sc
}

} // verus!
