//! Patches, tables and lists that are written into the client.

use vstd::prelude::*;

use crate::code;
use crate::hook;
use crate::hook::RestoreAction;
use crate::laws::monsters;
use crate::low_cpu_hook;
use crate::monster_color_code as colors;
use crate::monster_color_code::Caves;
use crate::monster_color_code::Site;
use crate::monster_color_code::SiteFault;
use crate::monster_color_code::SiteReads;
use crate::notification::image_draw_hook;
use crate::notification::packet_hook;
use crate::notification::renderer;
use crate::notification::renderer::DrawCmd;
use crate::notification::renderer_install;
use crate::show_clock_patch as clock;
use crate::show_clock_patch::GateStep;
use crate::sprite_types;
use crate::sprite_types::Records;
use crate::text;
use crate::x86;

verus! {

proof fn four_of_le32(x: u32)
    ensures
        code::le32(x).len() == 4,
        monsters::four(code::le32(x), 0) == x,
{
    code::le32_round_trip(x);
    let w = code::le32(x);
    broadcast use crate::code::group_code_len;

    assert(w.subrange(0, 4) =~= w);
}

/// A hook is a jump to its target, and nothing but idle bytes behind it.
pub proof fn hooks_are_jumps(site: u32, target: u32, len: nat, i: int)
    requires
        5 <= len,
        5 <= i < len,
    ensures
        ({
            let p = hook::hook_patch(site, target, len);
            &&& p.len() == len
            &&& p[0] == 0xE9
            &&& x86::wrap(site + 5 + x86::signed(monsters::four(p, 1) as u32)) == target
            &&& p[i] == 0x90
        }),
{
    let rel = code::rel32(site + 5, target as int);
    let p = hook::hook_patch(site, target, len);
    four_of_le32(rel);
    let w = code::le32(rel);
    assert(p[1] == w[0] && p[2] == w[1] && p[3] == w[2] && p[4] == w[3]);
    x86::rel_leads(site + 5, target);
}

/// What is as it was stays; what was patched gets its bytes back; anything else is left
/// alone.
pub proof fn only_own_patches_are_undone(bytes: Seq<u8>, original: Seq<u8>, patch: Seq<u8>)
    ensures
        ({
            let action = hook::restore_of(bytes, original, patch);
            &&& bytes == original ==> action == RestoreAction::AlreadyOriginal
            &&& bytes != original && bytes == patch ==> action == RestoreAction::WriteOriginal
            &&& bytes != original && bytes != patch ==> action == RestoreAction::Refuse
            &&& hook::site_after(action, bytes, original) == if bytes == patch {
                original
            } else {
                bytes
            }
        }),
{
}

/// An entry of the list is twelve bytes: the picture, two bytes that do not matter, and
/// the two coordinates, across before down.
pub proof fn entries_are_twelve_bytes(c: DrawCmd)
    ensures
        ({
            let b = renderer::cmd_bytes(c);
            let bits = |x: i32|
                if x < 0 {
                    x + 0x1_0000_0000
                } else {
                    x as int
                };
            &&& b.len() == 12
            &&& monsters::two(b, 0) == c.gfxid
            &&& monsters::two(b, 2) == c._pad
            &&& monsters::four(b, 4) == bits(c.x)
            &&& monsters::four(b, 8) == bits(c.y)
        }),
{
    let b = renderer::cmd_bytes(c);
    let x = renderer::unsigned(c.x);
    let y = renderer::unsigned(c.y);
    four_of_le32(x);
    four_of_le32(y);
    let (wx, wy) = (code::le32(x), code::le32(y));
    code::le16_round_trip(c.gfxid);
    code::le16_round_trip(c._pad);
    assert(b[4] == wx[0] && b[5] == wx[1] && b[6] == wx[2] && b[7] == wx[3]);
    assert(b[8] == wy[0] && b[9] == wy[1] && b[10] == wy[2] && b[11] == wy[3]);
}

/// A list starts with the number of its entries, which follow one after the other.
pub proof fn lists_start_with_their_number(cmds: Seq<DrawCmd>, i: int)
    requires
        cmds.len() <= u32::MAX,
        0 <= i < cmds.len(),
    ensures
        ({
            let b = renderer::serialized(cmds);
            &&& b.len() == 4 + 12 * cmds.len()
            &&& monsters::four(b, 0) == cmds.len()
            &&& b.subrange(4 + 12 * i, 16 + 12 * i) == renderer::cmd_bytes(cmds[i])
        }),
{
    let b = renderer::serialized(cmds);
    four_of_le32(cmds.len() as u32);
    let w = code::le32(cmds.len() as u32);
    entries_follow(cmds, i);
    let rest = renderer::cmds_bytes(cmds);
    assert(b[0] == w[0] && b[1] == w[1] && b[2] == w[2] && b[3] == w[3]);
    assert(b.subrange(4 + 12 * i, 16 + 12 * i) =~= rest.subrange(12 * i, 12 * i + 12));
}

proof fn entries_follow(cmds: Seq<DrawCmd>, i: int)
    requires
        0 <= i < cmds.len(),
    ensures
        renderer::cmds_bytes(cmds).len() == 12 * cmds.len(),
        renderer::cmds_bytes(cmds).subrange(12 * i, 12 * i + 12) == renderer::cmd_bytes(cmds[i]),
    decreases cmds.len(),
{
    let rest = cmds.drop_last();
    let all = renderer::cmds_bytes(cmds);
    let before = renderer::cmds_bytes(rest);
    entries_are_twelve_bytes(cmds.last());
    if rest.len() == 0 {
        assert(all =~= renderer::cmd_bytes(cmds.last()));
        assert(all.subrange(0, 12) =~= all);
    } else {
        entries_follow(
            rest,
            if i < rest.len() {
                i
            } else {
                0
            },
        );
        if i < rest.len() {
            assert(rest[i] == cmds[i]);
            assert(all.subrange(12 * i, 12 * i + 12) =~= before.subrange(12 * i, 12 * i + 12));
        } else {
            assert(all.subrange(12 * i, 12 * i + 12) =~= renderer::cmd_bytes(cmds.last()));
        }
    }
}

/// At most 37 entries go into the list of the other hook.
pub proof fn lists_are_cut_at_their_room(len: int)
    ensures
        ({
            let n = image_draw_hook::usable_bytes(len);
            &&& n <= 37 * 12
            &&& n <= len - 4
            &&& n == 37 * 12 || n == len - 4
        }),
{
}

/// A site is fine where its own bytes stand there, or, at some, a jump that was left
/// behind.
pub open spec fn fine(read: Option<Vec<u8>>, original: Seq<u8>, jump: bool) -> bool {
    &&& read is Some
    &&& (read->0)@ == original || jump && (read->0)@.len() > 0 && (read->0)@[0] == 0xE9
}

/// The hooks can be put in exactly where every site is fine and every cave is there.
pub proof fn hooks_need_every_site_and_cave(reads: SiteReads, caves: Caves)
    ensures
        colors::site_fault(reads, caves) is None <==> {
            &&& fine(reads.name_render, colors::NAME_RENDER_ORIGINAL_BYTES@, false)
            &&& reads.hover is Some && ((reads.hover->0)@
                == colors::HOVER_NAME_COLOR_ORIGINAL_BYTES@ || (reads.hover->0)@
                == colors::HOVER_NAME_COLOR_FORCED_WHITE_BYTES@)
            &&& fine(reads.overhead, colors::OVERHEAD_TEXT_COLOR_ORIGINAL_BYTES@, true)
            &&& fine(reads.overhead_reset, colors::OVERHEAD_TEXT_COLOR_RESET_ORIGINAL_BYTES@, true)
            &&& fine(reads.text_draw, colors::TEXT_DRAW_FN_ORIGINAL_BYTES@, true)
            &&& fine(reads.text_draw_compact, colors::TEXT_DRAW_COMPACT_ORIGINAL_BYTES@, true)
            &&& caves.name_render is Some && caves.text_draw is Some && caves.text_draw_compact
                is Some
        },
        reads.name_render is None ==> colors::site_fault(reads, caves) == Some(
            SiteFault::Unreadable(Site::NameRender),
        ),
        fine(reads.name_render, colors::NAME_RENDER_ORIGINAL_BYTES@, false)
            && caves.name_render is None ==> colors::site_fault(reads, caves) == Some(
            SiteFault::NoCave(Site::NameRender),
        ),
        fine(reads.name_render, colors::NAME_RENDER_ORIGINAL_BYTES@, false)
            && caves.name_render is Some && reads.hover is None ==> colors::site_fault(reads, caves)
            == Some(SiteFault::Unreadable(Site::Hover)),
{
}

/// A site that is not as it was gets its own bytes, and one that is gets nothing.
pub proof fn sites_are_put_right(addr: u32, current: Seq<u8>, original: Seq<u8>)
    ensures
        current == original ==> colors::put_right(addr, current, original).len() == 0,
        current != original ==> {
            let w = colors::put_right(addr, current, original);
            w.len() == 1 && w[0].0 == addr && w[0].1 == original
        },
{
}

/// Five bytes that do not start with a jump can be moved.
pub proof fn jumps_cannot_be_moved(prologue: Seq<u8>)
    ensures
        low_cpu_hook::usable(prologue) <==> prologue.len() == 5 && prologue[0] != 0xE9
            && prologue[0] != 0xEB,
{
}

/// The clock is shown by six idle bytes in place of the jump; nothing is done where they
/// stand already, and nothing but the jump is ever replaced.
pub proof fn the_clock_is_shown_by_idle_bytes(current: Seq<u8>, step: GateStep)
    requires
        clock::is_install_step(false, current, step),
    ensures
        ({
            let idle = seq![0x90u8, 0x90, 0x90, 0x90, 0x90, 0x90];
            &&& current == idle ==> step is Done
            &&& current == clock::ORIGINAL_BYTES@ ==> (step matches GateStep::Write(p)
                && p.addr == clock::CLOCK_GATE_ADDR && p.bytes@ == idle)
            &&& current != idle && current != clock::ORIGINAL_BYTES@ ==> step is Refuse
        }),
{
    let idle = seq![0x90u8, 0x90, 0x90, 0x90, 0x90, 0x90];
    assert(clock::PATCHED_BYTES@ =~= idle);
    assert(clock::ORIGINAL_BYTES@[0] != 0x90);
}

/// The packet hook is a jump, where one was before, and leads to its code.
pub proof fn packets_are_led_to_the_code(cave: u32)
    ensures
        ({
            let p = packet_hook::hook_bytes(cave);
            &&& p.len() == 6
            &&& p[0] == 0x0F && p[1] == 0x87
            &&& x86::wrap(packet_hook::HOOK_ADDR + 6 + x86::signed(monsters::four(p, 2) as u32))
                == cave
        }),
{
    let rel = code::rel32(packet_hook::HOOK_ADDR + 6, cave as int);
    let p = packet_hook::hook_bytes(cave);
    four_of_le32(rel);
    reveal(code::put);
    let w = code::le32(rel);
    assert(p[2] == w[0] && p[3] == w[1] && p[4] == w[2] && p[5] == w[3]);
    x86::rel_leads(packet_hook::HOOK_ADDR + 6, cave);
}

/// Every way out that is found is a jump to the drawing function, and none that does not
/// lie within another is missed.
pub proof fn ways_out_are_found(cave: u32, bytes: Seq<u8>, i: int, at: int)
    requires
        0 <= i <= at,
        at + 5 <= bytes.len(),
        forall|j: int| i <= j < at ==> bytes[j] != 0xE9,
    ensures
        ({
            let all = renderer_install::exits_from(cave, bytes, i);
            let w = bytes[at + 1] + 0x100 * bytes[at + 2] + 0x1_0000 * bytes[at + 3] + 0x100_0000
                * bytes[at + 4];
            let leads = bytes[at] == 0xE9 && (cave + at + 5 + w) % 0x1_0000_0000
                == renderer_install::ORIGINAL_DRAW_FN;
            &&& leads ==> all.len() > 0 && all[0] == at && all.skip(1)
                == renderer_install::exits_from(cave, bytes, at + 5)
            &&& !leads ==> all == renderer_install::exits_from(cave, bytes, at + 1)
        }),
    decreases at - i,
{
    if i < at {
        ways_out_are_found(cave, bytes, i + 1, at);
    } else {
        let w = bytes.subrange(at + 1, at + 5);
        assert(w[0] == bytes[at + 1] && w[1] == bytes[at + 2] && w[2] == bytes[at + 3] && w[3]
            == bytes[at + 4]);
        let all = renderer_install::exits_from(cave, bytes, i);
        if renderer_install::is_exit(cave, bytes, i) {
            assert(all.skip(1) =~= renderer_install::exits_from(cave, bytes, at + 5));
        }
    }
}

/// What stands up to the end of a line is that line, without carriage returns; the rest is
/// up to the lines that follow.
pub proof fn lines_are_read_one_by_one(st: Records, line: Seq<char>, end: char, rest: Seq<char>)
    requires
        end == '\n' || end == '\0',
        forall|i: int| 0 <= i < line.len() ==> line[i] != '\n' && line[i] != '\0',
    ensures
        sprite_types::after_text(st, line + seq![end] + rest) == sprite_types::after_text(
            sprite_types::after_line(st, sprite_types::without_returns(line)),
            rest,
        ),
        line.len() > 0 && line.last() == '\r' ==> sprite_types::without_returns(line)
            == sprite_types::without_returns(line.drop_last()),
        line.len() == 0 || line.last() != '\r' ==> sprite_types::without_returns(line) == line,
{
    let s = line + seq![end] + rest;
    line_ends(line, end, rest);
    assert(s.take(line.len() as int) =~= line);
    assert(s.skip(line.len() + 1int) =~= rest);
}

proof fn line_ends(line: Seq<char>, end: char, rest: Seq<char>)
    requires
        end == '\n' || end == '\0',
        forall|i: int| 0 <= i < line.len() ==> line[i] != '\n' && line[i] != '\0',
    ensures
        sprite_types::line_len(line + seq![end] + rest) == line.len(),
    decreases line.len(),
{
    let s = line + seq![end] + rest;
    if line.len() > 0 {
        assert(s[0] == line[0]);
        assert(s.drop_first() =~= line.drop_first() + seq![end] + rest);
        line_ends(line.drop_first(), end, rest);
    } else {
        assert(s[0] == end);
    }
}

/// The type of a sprite stands in brackets behind the tag, in decimal.
pub proof fn types_stand_behind_the_tag(kind: nat, rest: Seq<char>)
    ensures
        ({
            let line = sprite_types::TYPE_TAG@ + text::decimal(kind) + seq![')'] + rest;
            sprite_types::line_type(line) == if kind <= 255 {
                Some(kind as u8)
            } else {
                None
            }
        }),
{
    let tag = sprite_types::TYPE_TAG@;
    let d = text::decimal(kind);
    let line = tag + d + seq![')'] + rest;
    let tail = d + seq![')'] + rest;
    assert(line.take(tag.len() as int) =~= tag);
    assert(line.skip(tag.len() as int) =~= tail);
    digits_only(kind);
    before_bracket(d, rest);
    assert(!text::is_white(d[0]));
    assert(!text::is_white(d.last()));
    crate::laws::pictures::numbers_are_read_in_decimal(kind, 255);
}

proof fn digits_only(n: nat)
    ensures
        text::decimal(n).len() > 0,
        forall|i: int|
            0 <= i < text::decimal(n).len() ==> '0' <= #[trigger] text::decimal(n)[i]
                && text::decimal(n)[i] <= '9',
        '0' <= text::decimal(n).last() <= '9',
    decreases n,
{
    if n >= 10 {
        digits_only(n / 10);
        let d = text::decimal(n / 10);
        assert forall|i: int| 0 <= i < text::decimal(n).len() implies '0'
            <= #[trigger] text::decimal(n)[i] && text::decimal(n)[i] <= '9' by {
            if i < d.len() {
                assert(text::decimal(n)[i] == d[i]);
            }
        }
    }
}

proof fn before_bracket(d: Seq<char>, rest: Seq<char>)
    requires
        forall|i: int| 0 <= i < d.len() ==> '0' <= #[trigger] d[i] && d[i] <= '9',
    ensures
        sprite_types::before(d + seq![')'] + rest, ')') == Some(d),
    decreases d.len(),
{
    let s = d + seq![')'] + rest;
    if d.len() > 0 {
        let e = d.drop_first();
        assert(s[0] == d[0]);
        assert('0' <= d[0] && d[0] <= '9');
        assert(s.drop_first() =~= e + seq![')'] + rest);
        assert forall|i: int| 0 <= i < e.len() implies '0' <= #[trigger] e[i] && e[i] <= '9' by {
            assert(e[i] == d[i + 1]);
        }
        before_bracket(e, rest);
        assert(seq![s[0]] + e =~= d);
    } else {
        assert(s[0] == ')');
        assert(d =~= Seq::<char>::empty());
    }
}

} // verus!
