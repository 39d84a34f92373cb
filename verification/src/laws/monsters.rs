//! Objects of the world: whose they are, what they are called, and their colors.

use vstd::prelude::*;

use crate::code;
use crate::entity_scan;
use crate::entity_scan::EntityNames;
use crate::exp_tracker;
use crate::monster_color_patch as color;
use crate::monster_color_patch::ColorWrite;
use crate::monster_color_patch::EntitySnapshot;
use crate::monster_color_patch::LocalPlayerIdentity;
use crate::monster_color_patch::PlayerLevelSource;
use crate::monster_color_patch::ScanStats;
use crate::monster_color_patch::StableMonsterLevel;
use crate::monster_color_patch::Verdict;
use crate::text;

verus! {

/// Green up to ten levels above the player, blue up to nineteen, light red up to
/// twenty-nine, dark red above; no color for whoever is not above the player.
pub open spec fn level_color(above: int) -> Option<u16> {
    if above < 1 {
        None
    } else if above < 11 {
        Some(0x07E0)
    } else if above < 20 {
        Some(0x001F)
    } else if above < 30 {
        Some(0xF800)
    } else {
        Some(0x8800)
    }
}

/// The higher a monster is above the player, the further its color is towards dark red.
pub proof fn colors_follow_the_levels(monster: int, player: int)
    ensures
        color::patch_color(monster, player) == level_color(monster - player),
        color::color_of_delta(monster - player).bits() == match level_color(monster - player) {
            Some(c) => c,
            None => 0xFFDF,
        },
        color::feature(0x07E0) && color::feature(0x001F) && color::feature(0xF800)
            && color::feature(0x8800) && !color::feature(0xFFDF),
{
}

/// Levels from 1 to 120 are believed.
pub proof fn levels_are_believed_up_to_120(level: u32)
    ensures
        color::trusted(level) == if 1 <= level <= 120 {
            Some(level)
        } else {
            None
        },
{
}

/// The player's level is the one that the client keeps, where it can be believed; else
/// the one whose experience has been reached and whose next has not.
pub proof fn the_players_level_is_told(direct: Option<u32>, total: Option<u32>)
    ensures
        ({
            let believed = direct is Some && 1 <= direct->0 && direct->0 <= 120;
            let level = color::player_level(direct, total);
            let have = match total {
                Some(t) => t as int,
                None => 0,
            };
            &&& believed ==> Some(level.0) == direct && level.1 == PlayerLevelSource::Direct
            &&& !believed ==> level.1 == PlayerLevelSource::TotalExp && exp_tracker::threshold(
                level.0 as int,
            ) <= have < exp_tracker::threshold(level.0 + 1)
        }),
{
    let have: u32 = match total {
        Some(t) => t,
        None => 0,
    };
    exp_tracker::u32_totals_have_levels(have);
    exp_tracker::level_brackets_total(have as u64);
}

/// An index below 4096 that was scrambled is found again, and no other; a number that
/// was scrambled comes out as it went in.
pub proof fn scrambled_levels_are_found(index: u32, value: u32, salt: u32)
    ensures
        color::index_of(index ^ 0xC001_7921) == if index < 0x1000 {
            Some(index)
        } else {
            None
        },
        color::plain(value ^ salt, salt) == value,
{
    assert((index ^ 0xC001_7921) ^ 0xC001_7921 == index) by (bit_vector);
    assert((value ^ salt) ^ salt == value) by (bit_vector);
}

/// The number that two bytes make, the lower one first.
pub open spec fn two(raw: Seq<u8>, at: int) -> int {
    raw[at] + 0x100 * raw[at + 1]
}

/// The number that four bytes make, the lowest one first.
pub open spec fn four(raw: Seq<u8>, at: int) -> int {
    raw[at] + 0x100 * raw[at + 1] + 0x1_0000 * raw[at + 2] + 0x100_0000 * raw[at + 3]
}

/// An object is told by its first word; its number, kind, picture, color, level, name
/// and map stand in its bytes.
pub proof fn objects_tell_of_themselves(addr: u32, raw: Seq<u8>)
    ensures
        color::parsed(addr, raw) is Some <==> raw.len() >= 0x90 && four(raw, 0) == 0x008D_C08C,
        color::parsed(addr, raw) matches Some(s) ==> {
            &&& s.addr == addr
            &&& s.server_id == four(raw, 0x0C)
            &&& s.entity_kind == raw[0x14]
            &&& s.sprite == two(raw, 0x18)
            &&& s.current_color == two(raw, 0x30)
            &&& s.sampled_level_byte == raw[0x5A]
            &&& s.monster_level == if 1 <= raw[0x5A] <= 120 {
                Some(raw[0x5A] as u32)
            } else {
                None
            }
            &&& s.name_ptr == four(raw, 0x60)
            &&& s.map == four(raw, 0x80)
        },
{
    if raw.len() >= 0x90 {
        four_bytes(raw, 0);
        four_bytes(raw, 0x0C);
        four_bytes(raw, 0x60);
        four_bytes(raw, 0x80);
        two_bytes(raw, 0x18);
        two_bytes(raw, 0x30);
    }
}

proof fn four_bytes(raw: Seq<u8>, at: int)
    requires
        0 <= at,
        at + 4 <= raw.len(),
    ensures
        code::from_le32(raw.subrange(at, at + 4)) == four(raw, at),
{
    let w = raw.subrange(at, at + 4);
    assert(w[0] == raw[at] && w[1] == raw[at + 1] && w[2] == raw[at + 2] && w[3] == raw[at + 3]);
}

proof fn two_bytes(raw: Seq<u8>, at: int)
    requires
        0 <= at,
        at + 2 <= raw.len(),
    ensures
        code::from_le16(raw.subrange(at, at + 2)) == two(raw, at),
{
    let w = raw.subrange(at, at + 2);
    assert(w[0] == raw[at] && w[1] == raw[at + 1]);
}

/// The player's own object is told by its address, by either of its numbers, or by a
/// name; a number or an address of 0 tells nothing.
pub proof fn the_players_object_is_told(
    id: LocalPlayerIdentity,
    s: EntitySnapshot,
    names: Seq<String>,
    i: int,
)
    ensures
        s.addr == id.ptr && id.ptr != 0 ==> color::is_local(id, s, names),
        s.server_id == id.target_id && id.target_id != 0 ==> color::is_local(id, s, names),
        s.server_id == id.self_char_id && id.self_char_id != 0 ==> color::is_local(id, s, names),
        0 <= i < names.len() && text::trimmed(id.name@).len() > 0 && text::same_but_case(
            id.name@,
            text::trimmed(names[i]@),
        ) && text::trimmed(names[i]@).len() > 0 ==> color::is_local(id, s, names),
        names.len() == 0 && color::is_local(id, s, names) ==> (s.addr == id.ptr && id.ptr != 0) || (
        s.server_id != 0 && (s.server_id == id.target_id || s.server_id == id.self_char_id)),
{
}

/// A name of the player is a name of an object where they are the same but for the case
/// of Latin letters, and for white space around the object's name; blank names are no
/// names.
pub proof fn names_fit_but_for_case(local: Seq<char>, entity: Seq<char>)
    ensures
        color::name_fits(local, entity) <==> text::trimmed(local).len() > 0 && text::trimmed(
            entity,
        ).len() > 0 && text::same_but_case(local, text::trimmed(entity)),
        text::same_but_case(local, entity) <==> local.len() == entity.len() && forall|i: int|
            0 <= i < local.len() ==> same_letter(#[trigger] local[i], entity[i]),
{
    assert forall|a: char, b: char| #[trigger] same_letter(a, b) <==> text::ascii_lower(a)
        == text::ascii_lower(b) by {
        letters_differ_by_case(a, b);
    }
}

/// Whether two characters are the same, or one letter from A to Z in both cases.
pub open spec fn same_letter(a: char, b: char) -> bool {
    ||| a == b
    ||| 65 <= a as u32 && a as u32 <= 90 && b as u32 == a as u32 + 32
    ||| 65 <= b as u32 && b as u32 <= 90 && a as u32 == b as u32 + 32
}

proof fn letters_differ_by_case(a: char, b: char)
    ensures
        same_letter(a, b) <==> text::ascii_lower(a) == text::ascii_lower(b),
{
}

/// Whether an object is a monster: its picture shows one, or is unknown while its number
/// is that of a monster; and its kind says so, or it was colored before.
pub open spec fn monster(s: EntitySnapshot, types: Map<u16, u8>, touched: Map<u32, u16>) -> bool {
    &&& if types.dom().contains(s.sprite) {
        types[s.sprite] == 10
    } else {
        s.server_id >= 0x0100_0000
    }
    &&& s.entity_kind == 0 || touched.dom().contains(s.addr)
}

/// Whether an object is to be seen.
pub open spec fn to_be_seen(s: EntitySnapshot) -> bool {
    s.sprite != 0 && s.map != 0 && s.name_ptr != 0
}

/// The color that an object has after a write.
pub open spec fn color_after(s: EntitySnapshot, w: Option<ColorWrite>) -> u16 {
    match w {
        Some(w) => if w.entity_addr == s.addr {
            w.color
        } else {
            s.current_color
        },
        None => s.current_color,
    }
}

/// A monster above the player gets the color of its level, and its own color is kept;
/// every other object that is not the player's gets back its own color, where one is
/// kept, and stays as it is where none is.  Nothing else changes.
pub proof fn monsters_get_the_color_of_their_level(
    s: EntitySnapshot,
    raw: Seq<u8>,
    names: Seq<String>,
    id: LocalPlayerIdentity,
    player_level: u32,
    types: Map<u16, u8>,
    touched: Map<u32, u16>,
    other: u32,
)
    requires
        color::parsed(s.addr, raw) == Some(s),
    ensures
        ({
            let v = color::verdict(s.addr, Some(raw), names, id, player_level, types, touched);
            let w = color::write_of(v, touched);
            let kept = color::touched_after(v, touched);
            let looks = to_be_seen(s) && !color::is_local(id, s, names);
            let above = if monster(s, types, touched) && s.monster_level is Some {
                level_color(s.monster_level->0 - player_level)
            } else {
                None
            };
            &&& w matches Some(w) ==> w.entity_addr == s.addr && w.color != s.current_color
            &&& !looks ==> w is None && kept == touched
            &&& looks && above is Some ==> {
                &&& color_after(s, w) == above->0
                &&& touched.dom().contains(s.addr) ==> kept.dom().contains(s.addr) && kept[s.addr]
                    == touched[s.addr]
                &&& w is Some && !touched.dom().contains(s.addr) ==> kept.dom().contains(s.addr)
                    && kept[s.addr] == s.current_color
            }
            &&& looks && above is None ==> {
                &&& color_after(s, w) == if touched.dom().contains(s.addr) {
                    touched[s.addr]
                } else {
                    s.current_color
                }
                &&& !kept.dom().contains(s.addr)
            }
            &&& other != s.addr ==> (kept.dom().contains(other) <==> touched.dom().contains(other))
                && kept[other] == touched[other]
        }),
{
}

/// What could not be read, or is no object, is left alone.
pub proof fn what_is_no_object_is_left_alone(
    addr: u32,
    raw: Option<Seq<u8>>,
    names: Seq<String>,
    id: LocalPlayerIdentity,
    player_level: u32,
    types: Map<u16, u8>,
    touched: Map<u32, u16>,
)
    requires
        raw is None || color::parsed(addr, raw->0) is None,
    ensures
        ({
            let v = color::verdict(addr, raw, names, id, player_level, types, touched);
            &&& color::write_of(v, touched) is None
            &&& color::touched_after(v, touched) == touched
            &&& forall|before: ScanStats, after: ScanStats|
                #[trigger] color::counted(v, false, before, after) ==> after.visible
                    == before.visible && after.colored == before.colored
                    && after.missing_level == before.missing_level
        }),
{
}

/// A scan counts what is to be seen, the player's own object with it; what has no level
/// is listed up to four times, and what gets a color is drawn in color.
pub proof fn scans_count_what_they_see(
    s: EntitySnapshot,
    raw: Seq<u8>,
    names: Seq<String>,
    id: LocalPlayerIdentity,
    types: Map<u16, u8>,
    touched: Map<u32, u16>,
    wrote: bool,
    before: ScanStats,
    after: ScanStats,
)
    requires
        color::parsed(s.addr, raw) == Some(s),
        color::counted(
            color::verdict(s.addr, Some(raw), names, id, before.player_level, types, touched),
            wrote,
            before,
            after,
        ),
    ensures
        ({
            let looks = to_be_seen(s) && !color::is_local(id, s, names);
            let level = if monster(s, types, touched) {
                s.monster_level
            } else {
                None
            };
            let above = if level is Some {
                level_color(level->0 - before.player_level)
            } else {
                None
            };
            &&& after.player_level == before.player_level
            &&& after.visible - before.visible == if to_be_seen(s) {
                1int
            } else {
                0
            }
            &&& after.missing_level - before.missing_level == if looks && level is None {
                1int
            } else {
                0
            }
            &&& after.colored - before.colored == if looks && above is Some && wrote {
                1int
            } else {
                0
            }
            &&& looks && above is Some ==> after.render_entities@ == before.render_entities@.push(
                s.addr,
            )
            &&& !(looks && above is Some) ==> after.render_entities@ == before.render_entities@
            &&& looks && level is None && before.missing_samples@.len() < 4 ==> {
                &&& after.missing_samples@.len() == before.missing_samples@.len() + 1
                &&& after.missing_samples@.drop_last() == before.missing_samples@
                &&& after.missing_samples@.last().addr == s.addr
                &&& after.missing_samples@.last().server_id == s.server_id
                &&& after.missing_samples@.last().entity_kind == s.entity_kind
                &&& after.missing_samples@.last().sprite == s.sprite
                &&& after.missing_samples@.last().map == s.map
                &&& after.missing_samples@.last().current_color == s.current_color
                &&& after.missing_samples@.last().sampled_level_byte == s.sampled_level_byte
            }
            &&& !(looks && level is None && before.missing_samples@.len() < 4)
                ==> after.missing_samples@ == before.missing_samples@
        }),
{
    let v = color::verdict(s.addr, Some(raw), names, id, before.player_level, types, touched);
    if v is NoLevel && before.missing_samples@.len() < 4 {
        assert(after.missing_samples@.drop_last() =~= before.missing_samples@);
    }
}

/// A level counts where it was sampled twice in a row; a sample of another level, or of
/// none, starts anew.  Other objects' levels stay as they were.
pub proof fn levels_settle_after_two_samples(
    levels: Map<u32, StableMonsterLevel>,
    addr: u32,
    first: Option<u32>,
    second: Option<u32>,
    other: u32,
)
    requires
        other != addr,
    ensures
        ({
            let once = color::levels_after(levels, addr, first);
            &&& color::settled(once, addr, second) == if first == second {
                second
            } else {
                None
            }
            &&& color::settled(levels.remove(addr), addr, first) is None
            &&& first is None ==> !once.dom().contains(addr)
            &&& once.dom().contains(other) <==> levels.dom().contains(other)
            &&& once[other] == levels[other]
        }),
{
}

/// The first three scans are reported, and every twentieth.
pub proof fn scans_are_reported_in_turn(tick: u32, twenties: int, rest: int)
    requires
        tick == 20 * twenties + rest,
        0 <= rest < 20,
    ensures
        color::reported(tick) <==> tick <= 3 || rest == 0,
{
}

/// Whether an object bears a name, but for white space around it.
pub open spec fn called(e: EntityNames, needle: Seq<char>) -> bool {
    exists|i: int| #[trigger] called_by(e, i, needle)
}

/// Whether an object's name number `i` is a name, but for white space around it.
pub open spec fn called_by(e: EntityNames, i: int, needle: Seq<char>) -> bool {
    0 <= i < 3 && e.names@[i] is Some && text::trimmed((e.names@[i]->0)@) == needle
}

/// Whether a text starts with a name of an object that has at least two characters.
pub open spec fn begun(e: EntityNames, needle: Seq<char>) -> bool {
    exists|i: int| #[trigger] begun_by(e, i, needle)
}

/// Whether a text starts with an object's name number `i`.
pub open spec fn begun_by(e: EntityNames, i: int, needle: Seq<char>) -> bool {
    0 <= i < 3 && e.names@[i] is Some && text::trimmed((e.names@[i]->0)@).len() >= 2
        && text::has_prefix(needle, text::trimmed((e.names@[i]->0)@))
}

proof fn exact_is_called(e: EntityNames, needle: Seq<char>)
    ensures
        entity_scan::exact_name(e, needle) is Some <==> called(e, needle),
        entity_scan::exact_name(e, needle) matches Some(i) ==> called_by(e, i, needle),
        entity_scan::leading_name(e, needle) is Some <==> begun(e, needle),
        entity_scan::leading_name(e, needle) matches Some(i) ==> begun_by(e, i, needle),
{
    if called(e, needle) {
        let i = choose|i: int| #[trigger] called_by(e, i, needle);
        assert(entity_scan::named(e, i, needle));
    }
    if begun(e, needle) {
        let i = choose|i: int| #[trigger] begun_by(e, i, needle);
        assert(entity_scan::leads(e, i, needle));
    }
    assert(entity_scan::named(e, 0, needle) ==> called_by(e, 0, needle));
    assert(entity_scan::named(e, 1, needle) ==> called_by(e, 1, needle));
    assert(entity_scan::named(e, 2, needle) ==> called_by(e, 2, needle));
    assert(entity_scan::leads(e, 0, needle) ==> begun_by(e, 0, needle));
    assert(entity_scan::leads(e, 1, needle) ==> begun_by(e, 1, needle));
    assert(entity_scan::leads(e, 2, needle) ==> begun_by(e, 2, needle));
}

/// Of several objects the first, other than the player's own, that bears the name is
/// found, and it is found wherever there is one.
pub proof fn the_first_of_the_name_is_found(list: Seq<EntityNames>, local: u32, needle: Seq<char>)
    ensures
        match entity_scan::first_exact(list, local, needle) {
            Some((addr, target, name)) => exists|k: int, i: int|
                {
                    &&& 0 <= k < list.len()
                    &&& #[trigger] called_by(list[k], i, needle)
                    &&& addr == list[k].addr && addr != local
                    &&& target == list[k].target_id
                    &&& name == (list[k].names@[i]->0)@
                    &&& forall|j: int|
                        0 <= j < k ==> list[j].addr == local || !called(#[trigger] list[j], needle)
                },
            None => forall|j: int|
                0 <= j < list.len() ==> list[j].addr == local || !called(
                    #[trigger] list[j],
                    needle,
                ),
        },
    decreases list.len(),
{
    if list.len() > 0 {
        let rest = list.drop_last();
        let e = list.last();
        the_first_of_the_name_is_found(rest, local, needle);
        exact_is_called(e, needle);
        match entity_scan::first_exact(rest, local, needle) {
            Some((addr, target, name)) => {
                let (k, i) = choose|k: int, i: int|
                    {
                        &&& 0 <= k < rest.len()
                        &&& #[trigger] called_by(rest[k], i, needle)
                        &&& addr == rest[k].addr && addr != local
                        &&& target == rest[k].target_id
                        &&& name == (rest[k].names@[i]->0)@
                        &&& forall|j: int|
                            0 <= j < k ==> rest[j].addr == local || !called(
                                #[trigger] rest[j],
                                needle,
                            )
                    };
                assert(called_by(list[k], i, needle));
                assert forall|j: int| 0 <= j < k implies list[j].addr == local || !called(
                    #[trigger] list[j],
                    needle,
                ) by {
                    assert(rest[j] == list[j]);
                }
            },
            None => {
                assert forall|j: int| 0 <= j < rest.len() implies list[j].addr == local || !called(
                    #[trigger] list[j],
                    needle,
                ) by {
                    assert(rest[j] == list[j]);
                }
                match entity_scan::exact_name(e, needle) {
                    Some(i) => {
                        assert(called_by(list[list.len() - 1], i, needle));
                    },
                    None => {},
                }
            },
        }
    }
}

/// As for the whole name: the first object, other than the player's own, with whose name
/// the text starts.
pub proof fn the_first_that_begins_it_is_found(
    list: Seq<EntityNames>,
    local: u32,
    needle: Seq<char>,
)
    ensures
        match entity_scan::first_leading(list, local, needle) {
            Some((addr, target, name)) => exists|k: int, i: int|
                {
                    &&& 0 <= k < list.len()
                    &&& #[trigger] begun_by(list[k], i, needle)
                    &&& addr == list[k].addr && addr != local
                    &&& target == list[k].target_id
                    &&& name == text::trimmed((list[k].names@[i]->0)@)
                    &&& forall|j: int|
                        0 <= j < k ==> list[j].addr == local || !begun(#[trigger] list[j], needle)
                },
            None => forall|j: int|
                0 <= j < list.len() ==> list[j].addr == local || !begun(
                    #[trigger] list[j],
                    needle,
                ),
        },
    decreases list.len(),
{
    if list.len() > 0 {
        let rest = list.drop_last();
        let e = list.last();
        the_first_that_begins_it_is_found(rest, local, needle);
        exact_is_called(e, needle);
        match entity_scan::first_leading(rest, local, needle) {
            Some((addr, target, name)) => {
                let (k, i) = choose|k: int, i: int|
                    {
                        &&& 0 <= k < rest.len()
                        &&& #[trigger] begun_by(rest[k], i, needle)
                        &&& addr == rest[k].addr && addr != local
                        &&& target == rest[k].target_id
                        &&& name == text::trimmed((rest[k].names@[i]->0)@)
                        &&& forall|j: int|
                            0 <= j < k ==> rest[j].addr == local || !begun(
                                #[trigger] rest[j],
                                needle,
                            )
                    };
                assert(begun_by(list[k], i, needle));
                assert forall|j: int| 0 <= j < k implies list[j].addr == local || !begun(
                    #[trigger] list[j],
                    needle,
                ) by {
                    assert(rest[j] == list[j]);
                }
            },
            None => {
                assert forall|j: int| 0 <= j < rest.len() implies list[j].addr == local || !begun(
                    #[trigger] list[j],
                    needle,
                ) by {
                    assert(rest[j] == list[j]);
                }
                match entity_scan::leading_name(e, needle) {
                    Some(i) => {
                        assert(begun_by(list[list.len() - 1], i, needle));
                    },
                    None => {},
                }
            },
        }
    }
}

/// Whoever bears the player's name is the player; else an object of that name goes
/// first, and an object with whose name the text starts goes after it.
pub proof fn whole_names_go_before_beginnings(
    local: EntityNames,
    list: Seq<EntityNames>,
    needle: Seq<char>,
)
    ensures
        ({
            let hit = entity_scan::found(Some(local), list, needle);
            &&& called(local, needle) ==> hit is Some && (hit->0).0 == local.addr && (hit->0).1
                == local.target_id
            &&& !called(local, needle) ==> hit == (if entity_scan::first_exact(
                list,
                local.addr,
                needle,
            ) is Some {
                entity_scan::first_exact(list, local.addr, needle)
            } else {
                entity_scan::first_leading(list, local.addr, needle)
            })
        }),
        ({
            let hit = entity_scan::found(None, list, needle);
            hit == (if entity_scan::first_exact(list, 0, needle) is Some {
                entity_scan::first_exact(list, 0, needle)
            } else {
                entity_scan::first_leading(list, 0, needle)
            })
        }),
{
    exact_is_called(local, needle);
}

/// Whether an object starts at word `k` of a region.
pub open spec fn starts_at(base: u32, buf: Seq<u8>, k: int, addr: u32) -> bool {
    &&& buf[4 * k] == 0x8C && buf[4 * k + 1] == 0xC0 && buf[4 * k + 2] == 0x8D && buf[4 * k + 3]
        == 0x00
    &&& addr == (base + 4 * k) % 0x1_0000_0000
    &&& addr % 4 == 0
}

/// Objects start at the addresses that are multiples of four and where the word stands
/// that every object starts with; each such address is found, and no other.
pub proof fn objects_are_found_where_they_start(base: u32, buf: Seq<u8>, n: int, addr: u32)
    requires
        0 <= n,
        4 * n <= buf.len(),
    ensures
        entity_scan::object_starts(base, buf, n).contains(addr) <==> exists|k: int|
            0 <= k < n && #[trigger] starts_at(base, buf, k, addr),
    decreases n,
{
    if n > 0 {
        objects_are_found_where_they_start(base, buf, n - 1, addr);
        let at = (n - 1) * 4;
        let before = entity_scan::object_starts(base, buf, n - 1);
        let all = entity_scan::object_starts(base, buf, n);
        four_bytes(buf, at);
        let here = ((base + at) % 0x1_0000_0000) as u32;
        assert(four(buf, at) == 0x008D_C08C <==> buf[at] == 0x8C && buf[at + 1] == 0xC0 && buf[at
            + 2] == 0x8D && buf[at + 3] == 0x00);
        assert(starts_at(base, buf, n - 1, addr) <==> four(buf, at) == 0x008D_C08C && here == addr
            && here % 4 == 0);
        if all.len() > before.len() {
            assert(all == before.push(here));
            assert(all[all.len() - 1] == here);
            if before.contains(addr) {
                let j = before.index_of(addr);
                assert(all[j] == addr);
            }
            if all.contains(addr) && addr != here {
                let j = all.index_of(addr);
                assert(before[j] == addr);
            }
        }
    }
}

/// The search goes forward, to the end of a region or by a page.
pub proof fn the_search_goes_forward(addr: u32, base: u32, size: u32)
    requires
        addr < 0x7FFF_0000,
    ensures
        entity_scan::scan_goes_on(addr, None) == addr + 0x1000,
        addr < base + size <= u32::MAX ==> entity_scan::scan_goes_on(addr, Some((base, size)))
            == base + size,
        base + size <= addr ==> entity_scan::scan_goes_on(addr, Some((base, size))) == addr
            + 0x1000,
        entity_scan::scan_goes_on(addr, Some((base, size))) > addr,
{
}

/// What is there and can be read is read, up to sixteen megabytes.
pub proof fn regions_are_read_up_to_a_limit(committed: bool, readable: bool, size: usize)
    ensures
        ({
            let r = entity_scan::read_size(committed, readable, size);
            &&& r is Some <==> committed && readable && size > 0
            &&& r is Some ==> r->0 <= size && r->0 <= 0x100_0000 && (r->0 == size || r->0
                == 0x100_0000)
        }),
{
}

/// Printable bytes before the zero are the name as they stand; other bytes are what they
/// decode to, unless nothing of it could be decoded.
pub proof fn names_are_decoded(bytes: Seq<u8>, n: int, decoded: Seq<char>)
    requires
        0 < n <= bytes.len(),
        forall|i: int| 0 <= i < n ==> bytes[i] != 0,
        n == bytes.len() || bytes[n] == 0,
    ensures
        ({
            let name = entity_scan::name_in(bytes, decoded);
            let plain = forall|i: int| 0 <= i < n ==> 0x20 <= #[trigger] bytes[i] <= 0x7E;
            &&& plain ==> name is Some && (name->0).len() == n && forall|i: int|
                0 <= i < n ==> #[trigger] (name->0)[i] as u32 == bytes[i]
            &&& !plain ==> (name is None <==> forall|i: int|
                0 <= i < decoded.len() ==> #[trigger] decoded[i] == '\u{FFFD}')
            &&& !plain && name is Some ==> name->0 == decoded
        }),
{
    crate::laws::names::texts_end_at_the_zero(bytes, n);
    let name = code::until_zero(bytes);
    if entity_scan::printable(name) {
        assert forall|i: int| 0 <= i < n implies 0x20 <= #[trigger] bytes[i] <= 0x7E by {
            assert(name[i] == bytes[i]);
        }
    }
    if forall|i: int| 0 <= i < n ==> 0x20 <= #[trigger] bytes[i] <= 0x7E {
        assert forall|i: int| 0 <= i < name.len() implies 0x20 <= #[trigger] name[i] < 0x7F by {
            assert(name[i] == bytes[i]);
        }
    }
}

/// An object's names are listed once each: trimmed, none blank, none twice but for case,
/// and every name that is not blank is among them.
pub proof fn names_are_listed_once(raw: Seq<Seq<char>>)
    ensures
        ({
            let list = color::distinct_names(raw);
            &&& forall|i: int|
                0 <= i < list.len() ==> (#[trigger] list[i]).len() > 0 && exists|k: int|
                    0 <= k < raw.len() && list[i] == text::trimmed(#[trigger] raw[k])
            &&& forall|i: int, j: int|
                0 <= i < j < list.len() ==> !text::same_but_case(
                    #[trigger] list[i],
                    #[trigger] list[j],
                )
            &&& forall|k: int|
                0 <= k < raw.len() && text::trimmed(#[trigger] raw[k]).len() > 0 ==> exists|i: int|
                    0 <= i < list.len() && text::same_but_case(
                        #[trigger] list[i],
                        text::trimmed(raw[k]),
                    )
        }),
    decreases raw.len(),
{
    if raw.len() > 0 {
        let rest = raw.drop_last();
        names_are_listed_once(rest);
        let before = color::distinct_names(rest);
        let list = color::distinct_names(raw);
        let name = text::trimmed(raw.last());
        assert(raw[raw.len() - 1] == raw.last());
        assert forall|i: int| 0 <= i < list.len() implies (#[trigger] list[i]).len() > 0 && exists|
            k: int,
        |
            0 <= k < raw.len() && list[i] == text::trimmed(#[trigger] raw[k]) by {
            if i < before.len() {
                assert(list[i] == before[i]);
                let k = choose|k: int|
                    0 <= k < rest.len() && before[i] == text::trimmed(#[trigger] rest[k]);
                assert(raw[k] == rest[k]);
            }
        }
        assert forall|k: int|
            0 <= k < raw.len() && text::trimmed(#[trigger] raw[k]).len() > 0 implies exists|i: int|
            0 <= i < list.len() && text::same_but_case(#[trigger] list[i], text::trimmed(raw[k])) by {
            if k < rest.len() {
                assert(rest[k] == raw[k]);
                let i = choose|i: int|
                    0 <= i < before.len() && text::same_but_case(
                        #[trigger] before[i],
                        text::trimmed(rest[k]),
                    );
                assert(list[i] == before[i]);
            } else if color::known_name(before, name) {
                let i = choose|i: int|
                    0 <= i < before.len() && text::same_but_case(#[trigger] before[i], name);
                assert(list[i] == before[i]);
            } else {
                assert(list[before.len() as int] == name);
            }
        }
    }
}

} // verus!
