//! Monsters' names in the colors of their levels.
//!
//! A monster's color tells how far its level is above the player's.  The color is
//! written into the monster's object, whose own color is kept to be put back; names
//! are drawn by the code of [`crate::monster_color_code`].

use std::collections::HashMap;

use vstd::prelude::*;

use crate::code;
use crate::code::read_u16_le;
use crate::code::read_u32_le;
use crate::exp_tracker;
use crate::exp_tracker::level_from_total_exp;
use crate::monster_color_code::BLUE;
use crate::monster_color_code::DARK_RED;
use crate::monster_color_code::GREEN;
use crate::monster_color_code::LIGHT_RED;
use crate::text;
use crate::text::eq_ignore_ascii_case;
use crate::text::is_blank;
use crate::text::text_of;
use crate::text::to_chars;
use crate::text::trim;

pub use crate::monster_color_code::build_name_render_shellcode;
pub use crate::monster_color_code::build_overhead_text_color_reset_shellcode;
pub use crate::monster_color_code::build_overhead_text_color_shellcode;
pub use crate::monster_color_code::build_text_draw_color_fix_shellcode;
pub use crate::monster_color_code::install;
pub use crate::monster_color_code::is_installed;
pub use crate::monster_color_code::is_legacy_jmp_hook;
pub use crate::monster_color_code::uninstall;
pub use crate::monster_color_code::write_render_marker_table;
pub use crate::monster_color_code::DEFAULT_NAME_COLOR;
pub use crate::monster_color_code::MIN_RENDER_MONSTER_OBJECT_ID;

verus! {

broadcast use vstd::std_specs::hash::group_hash_axioms;

pub const PLAYER_VFPTR: u32 = 0x008D_C08C;

pub const LOCAL_PLAYER_PTR_ADDR: u32 = 0x00C2_D2B8;

pub const SELF_CHAR_ID_ADDR: u32 = 0x00AB_F4B4;

pub const PLAYER_STATUS_SINGLETON_ADDR: u32 = 0x009A_8CD0;

pub const PLAYER_LEVEL_OBFUSCATED_OFFSET: u32 = 0x3FC;

pub const OBFUSCATED_INDEX_XOR: u32 = 0xC001_7921;

/// Entries of the table of scrambled numbers.
pub const OBFUSCATED_TABLE_LEN: u32 = 0x1000;

/// Bytes that are read of an object.
pub const ENTITY_READ_LEN: usize = 0x90;

pub const ENTITY_SERVER_ID_OFFSET: u32 = 0x0C;

pub const ENTITY_KIND_OFFSET: u32 = 0x14;

pub const ENTITY_SPRITE_OFFSET: u32 = 0x18;

pub const ENTITY_COLOR_OFFSET: u32 = 0x30;

pub const ENTITY_LEVEL_CANDIDATE_OFFSET: u32 = 0x5A;

pub const ENTITY_NAME_PTR_OFFSET: u32 = 0x60;

pub const ENTITY_MAP_OFFSET: u32 = 0x80;

/// The kind of an object that is a monster.
pub const ENTITY_KIND_WORLD_MONSTER: u8 = 0x00;

/// The type of a sprite that shows a monster.
pub const SPRITE_TYPE_MONSTER: u8 = 10;

/// Highest level that is believed.
pub const MAX_TRUSTED_LEVEL: u32 = 120;

/// Time between two scans, in milliseconds.
pub const SCAN_INTERVAL_MS: u64 = 900;

/// Lowest address at which a name can stand.
pub const NAME_MIN_ADDR: u32 = 0x0010_0000;

/// The address at which no name can stand any more.
pub const NAME_END_ADDR: u32 = 0x7FFF_0000;

/// How many bytes of a name are read.
pub const NAME_READ_LEN: usize = 96;

/// Most objects that are listed in a report.
pub const MAX_LEVEL_SAMPLES: usize = 16;

/// Most objects without a level that are listed in a report.
pub const MAX_MISSING_SAMPLES: usize = 4;

/// The color of a monster's name.
#[derive(Debug, Clone, Copy, PartialEq, Eq, Structural)]
pub enum MonsterNameColor {
    DarkRed,
    LightRed,
    Blue,
    Green,
    White,
}

impl MonsterNameColor {
    /// The color in 5, 6 and 5 bits.
    pub open spec fn bits(self) -> u16 {
        match self {
            MonsterNameColor::DarkRed => 0x8800,
            MonsterNameColor::LightRed => 0xF800,
            MonsterNameColor::Blue => 0x001F,
            MonsterNameColor::Green => 0x07E0,
            MonsterNameColor::White => 0xFFDF,
        }
    }

    /// The color in 5, 6 and 5 bits.
    pub fn rgb565(self) -> (r: u16)
        ensures
            r == self.bits(),
    {
        match self {
            MonsterNameColor::DarkRed => DARK_RED,
            MonsterNameColor::LightRed => LIGHT_RED,
            MonsterNameColor::Blue => BLUE,
            MonsterNameColor::Green => GREEN,
            MonsterNameColor::White => DEFAULT_NAME_COLOR,
        }
    }
}

/// The color of a monster whose level is above the player's by so much.
pub open spec fn color_of_delta(delta: int) -> MonsterNameColor {
    if delta >= 30 {
        MonsterNameColor::DarkRed
    } else if delta >= 20 {
        MonsterNameColor::LightRed
    } else if delta >= 11 {
        MonsterNameColor::Blue
    } else if delta >= 1 {
        MonsterNameColor::Green
    } else {
        MonsterNameColor::White
    }
}

/// The color of a monster by its and the player's level.
pub fn select_level_color(monster_level: u32, player_level: u32) -> (r: MonsterNameColor)
    ensures
        r == color_of_delta(monster_level - player_level),
{
    let delta: u32 = monster_level.saturating_sub(player_level);
    if delta >= 30 {
        MonsterNameColor::DarkRed
    } else if delta >= 20 {
        MonsterNameColor::LightRed
    } else if delta >= 11 {
        MonsterNameColor::Blue
    } else if delta >= 1 {
        MonsterNameColor::Green
    } else {
        MonsterNameColor::White
    }
}

/// Whether a color is one of those that levels have, other than white.
pub open spec fn feature(color: u16) -> bool {
    color == DARK_RED || color == LIGHT_RED || color == BLUE || color == GREEN
}

/// Whether a color is one of those that levels have, other than white.
pub fn is_feature_color(color: u16) -> (r: bool)
    ensures
        r == feature(color),
{
    color == MonsterNameColor::DarkRed.rgb565() || color == MonsterNameColor::LightRed.rgb565()
        || color == MonsterNameColor::Blue.rgb565() || color == MonsterNameColor::Green.rgb565()
}

/// The color that is written for a monster; there is none for white.
pub open spec fn patch_color(monster_level: int, player_level: int) -> Option<u16> {
    if monster_level > player_level {
        Some(color_of_delta(monster_level - player_level).bits())
    } else {
        None
    }
}

/// The color that is written for a monster.
pub fn patch_color_for_level(monster_level: u32, player_level: u32) -> (r: Option<u16>)
    ensures
        r == patch_color(monster_level as int, player_level as int),
{
    let color: u16 = select_level_color(monster_level, player_level).rgb565();
    if is_feature_color(color) {
        Some(color)
    } else {
        None
    }
}

/// What is written is always one of the four colors, never the client's white.
pub proof fn white_is_never_written(monster_level: int, player_level: int)
    ensures
        patch_color(monster_level, player_level) matches Some(c) ==> feature(c) && c
            != DEFAULT_NAME_COLOR,
        !feature(DEFAULT_NAME_COLOR),
{
}

/// A level that can be believed.
pub open spec fn trusted(level: u32) -> Option<u32> {
    if 1 <= level <= MAX_TRUSTED_LEVEL {
        Some(level)
    } else {
        None
    }
}

/// A level that can be believed.
pub fn normalize_level(level: u32) -> (r: Option<u32>)
    ensures
        r == trusted(level),
{
    if 1 <= level && level <= MAX_TRUSTED_LEVEL {
        Some(level)
    } else {
        None
    }
}

/// The index of a scrambled number.
pub open spec fn index_of(encoded_index: u32) -> Option<u32> {
    if encoded_index ^ OBFUSCATED_INDEX_XOR < OBFUSCATED_TABLE_LEN {
        Some(encoded_index ^ OBFUSCATED_INDEX_XOR)
    } else {
        None
    }
}

/// The index of a scrambled number.
pub fn decode_obfuscated_index(encoded_index: u32) -> (r: Option<u32>)
    ensures
        r == index_of(encoded_index),
{
    let index: u32 = encoded_index ^ OBFUSCATED_INDEX_XOR;
    if index < OBFUSCATED_TABLE_LEN {
        Some(index)
    } else {
        None
    }
}

/// A scrambled number made plain.
pub open spec fn plain(table_value: u32, value_xor: u32) -> u32 {
    table_value ^ value_xor
}

/// A scrambled number made plain.
pub fn decode_obfuscated_value(table_value: u32, value_xor: u32) -> (r: u32)
    ensures
        r == plain(table_value, value_xor),
{
    table_value ^ value_xor
}

/// Every index of the table can be scrambled and found again.
pub proof fn scrambled_indices_are_found(index: u32)
    ensures
        (index ^ OBFUSCATED_INDEX_XOR) ^ OBFUSCATED_INDEX_XOR == index,
{
    assert((index ^ 0xC001_7921u32) ^ 0xC001_7921u32 == index) by (bit_vector);
}

/// Where the player's level was found.
#[derive(Debug, Clone, Copy, PartialEq, Eq, Structural)]
pub enum PlayerLevelSource {
    Direct,
    TotalExp,
}

impl PlayerLevelSource {
    /// A name for a report.
    pub fn as_str(self) -> (r: &'static str)
        ensures
            r@ == if self == PlayerLevelSource::Direct {
                "direct"@
            } else {
                "total_exp"@
            },
    {
        match self {
            PlayerLevelSource::Direct => "direct",
            PlayerLevelSource::TotalExp => "total_exp",
        }
    }
}

/// The player's level.
pub open spec fn player_level(direct: Option<u32>, total_exp: Option<u32>) -> (
    u32,
    PlayerLevelSource,
) {
    match direct {
        Some(level) if trusted(level) is Some => (level, PlayerLevelSource::Direct),
        _ => (
            exp_tracker::level_of(
                match total_exp {
                    Some(t) => t as u64,
                    None => 0,
                },
            ) as u32,
            PlayerLevelSource::TotalExp,
        ),
    }
}

/// The player's level: `direct` is the level that the client keeps, `total_exp` the
/// total experience from which it is told where that level cannot be believed.
pub fn read_player_level(direct: Option<u32>, total_exp: Option<u32>) -> (r: (
    u32,
    PlayerLevelSource,
))
    ensures
        r == player_level(direct, total_exp),
{
    if let Some(level) = direct {
        if let Some(level) = normalize_level(level) {
            return (level, PlayerLevelSource::Direct);
        }
    }
    let total: u64 = match total_exp {
        Some(t) => t as u64,
        None => 0,
    };
    proof {
        exp_tracker::u32_totals_have_levels(total as u32);
    }
    (level_from_total_exp(total), PlayerLevelSource::TotalExp)
}

/// What an object tells of itself.
#[derive(Debug, Clone, Copy, PartialEq, Eq, Structural)]
pub struct EntitySnapshot {
    pub addr: u32,
    pub server_id: u32,
    pub entity_kind: u8,
    pub sprite: u16,
    pub map: u32,
    pub name_ptr: u32,
    pub current_color: u16,
    pub sampled_level_byte: u8,
    pub monster_level: Option<u32>,
}

/// What the bytes of an object tell, if they are those of an object.
pub open spec fn parsed(addr: u32, raw: Seq<u8>) -> Option<EntitySnapshot> {
    if raw.len() < ENTITY_READ_LEN || code::from_le32(raw.subrange(0, 4)) != PLAYER_VFPTR {
        None
    } else {
        Some(
            EntitySnapshot {
                addr,
                server_id: code::from_le32(raw.subrange(0x0C, 0x10)),
                entity_kind: raw[0x14],
                sprite: code::from_le16(raw.subrange(0x18, 0x1A)),
                map: code::from_le32(raw.subrange(0x80, 0x84)),
                name_ptr: code::from_le32(raw.subrange(0x60, 0x64)),
                current_color: code::from_le16(raw.subrange(0x30, 0x32)),
                sampled_level_byte: raw[0x5A],
                monster_level: trusted(raw[0x5A] as u32),
            },
        )
    }
}

impl EntitySnapshot {
    /// Reads the bytes of an object.
    pub fn parse(addr: u32, raw: &[u8]) -> (r: Option<EntitySnapshot>)
        ensures
            r == parsed(addr, raw@),
    {
        if raw.len() < ENTITY_READ_LEN {
            return None;
        }
        if read_u32_le(raw, 0) != PLAYER_VFPTR {
            return None;
        }
        let sampled_level_byte: u8 = raw[ENTITY_LEVEL_CANDIDATE_OFFSET as usize];
        Some(
            EntitySnapshot {
                addr,
                server_id: read_u32_le(raw, ENTITY_SERVER_ID_OFFSET as usize),
                entity_kind: raw[ENTITY_KIND_OFFSET as usize],
                sprite: read_u16_le(raw, ENTITY_SPRITE_OFFSET as usize),
                map: read_u32_le(raw, ENTITY_MAP_OFFSET as usize),
                name_ptr: read_u32_le(raw, ENTITY_NAME_PTR_OFFSET as usize),
                current_color: read_u16_le(raw, ENTITY_COLOR_OFFSET as usize),
                sampled_level_byte,
                monster_level: normalize_level(sampled_level_byte as u32),
            },
        )
    }

    /// Whether the object is to be seen.
    pub open spec fn visible(self) -> bool {
        self.sprite != 0 && self.map != 0 && self.name_ptr != 0
    }

    /// Whether the object is to be seen.
    pub fn is_visible_world_entity(self) -> (r: bool)
        ensures
            r == self.visible(),
    {
        self.sprite != 0 && self.map != 0 && self.name_ptr != 0
    }

    /// Whether the object would be a monster if its sprite showed one.
    pub fn is_probable_monster(self) -> (r: bool)
        ensures
            r == (self.monster_level is Some && level_counts(
                self,
                Some(SPRITE_TYPE_MONSTER),
                false,
            )),
    {
        self.monster_level.is_some() && can_use_runtime_monster_level(
            self,
            Some(SPRITE_TYPE_MONSTER),
            false,
        )
    }
}

/// Whether an object's level is that of a monster: its sprite shows a monster, or its
/// sprite is unknown and its number is that of a monster; and its kind is that of a
/// monster, or it was colored before.
pub open spec fn level_counts(
    snapshot: EntitySnapshot,
    sprite_type: Option<u8>,
    colored_before: bool,
) -> bool {
    &&& match sprite_type {
        Some(t) => t == SPRITE_TYPE_MONSTER,
        None => snapshot.server_id >= MIN_RENDER_MONSTER_OBJECT_ID,
    }
    &&& snapshot.entity_kind == ENTITY_KIND_WORLD_MONSTER || colored_before
}

/// Whether an object's level is that of a monster.
pub fn can_use_runtime_monster_level(
    snapshot: EntitySnapshot,
    sprite_type: Option<u8>,
    known_colored_by_patch: bool,
) -> (r: bool)
    ensures
        r == level_counts(snapshot, sprite_type, known_colored_by_patch),
{
    match sprite_type {
        Some(t) => t == SPRITE_TYPE_MONSTER && (snapshot.entity_kind == ENTITY_KIND_WORLD_MONSTER
            || known_colored_by_patch),
        None => snapshot.server_id >= MIN_RENDER_MONSTER_OBJECT_ID && (snapshot.entity_kind
            == ENTITY_KIND_WORLD_MONSTER || known_colored_by_patch),
    }
}

/// The level of a monster, as it was read and as it is used.
#[derive(Debug, Clone, Copy, PartialEq, Eq, Structural)]
pub struct MonsterLevelResolution {
    pub runtime_level: Option<u32>,
    pub resolved_level: Option<u32>,
}

/// The level of a monster; there is none for what is no monster.
pub open spec fn level_of_entity(
    snapshot: EntitySnapshot,
    sprite_type: Option<u8>,
    colored_before: bool,
) -> Option<u32> {
    if level_counts(snapshot, sprite_type, colored_before) {
        snapshot.monster_level
    } else {
        None
    }
}

/// The level of a monster.
pub fn resolve_entity_monster_level(
    snapshot: EntitySnapshot,
    sprite_type: Option<u8>,
    known_colored_by_patch: bool,
) -> (r: MonsterLevelResolution)
    ensures
        r.runtime_level == level_of_entity(snapshot, sprite_type, known_colored_by_patch),
        r.resolved_level == r.runtime_level,
{
    let runtime_level: Option<u32> = if can_use_runtime_monster_level(
        snapshot,
        sprite_type,
        known_colored_by_patch,
    ) {
        snapshot.monster_level
    } else {
        None
    };
    MonsterLevelResolution { runtime_level, resolved_level: runtime_level }
}

/// By what the player's own object is told.
#[derive(Debug, Clone, PartialEq, Eq)]
pub struct LocalPlayerIdentity {
    pub ptr: u32,
    pub target_id: u32,
    pub self_char_id: u32,
    pub name: String,
    pub aliases: Vec<String>,
}

impl Default for LocalPlayerIdentity {
    fn default() -> (r: Self)
        ensures
            r.ptr == 0,
            r.target_id == 0,
            r.self_char_id == 0,
            r.name@.len() == 0,
            r.aliases@.len() == 0,
    {
        LocalPlayerIdentity {
            ptr: 0,
            target_id: 0,
            self_char_id: 0,
            name: String::new(),
            aliases: Vec::new(),
        }
    }
}

/// By what the player's own object is told, from what was read: nothing is told of an
/// object that is not there.
pub fn read_local_player_identity(
    ptr: Option<u32>,
    target_id: Option<u32>,
    self_char_id: Option<u32>,
    name: String,
    aliases: Vec<String>,
) -> (r: LocalPlayerIdentity)
    ensures
        ({
            let there = ptr is Some && ptr->0 != 0;
            &&& r.ptr == if there {
                ptr->0
            } else {
                0
            }
            &&& r.target_id == if there && target_id is Some {
                target_id->0
            } else {
                0
            }
            &&& r.self_char_id == if self_char_id is Some {
                self_char_id->0
            } else {
                0
            }
            &&& there ==> r.name@ == name@ && r.aliases@ == aliases@
            &&& !there ==> r.name@.len() == 0 && r.aliases@.len() == 0
        }),
{
    let ptr: u32 = match ptr {
        Some(p) => p,
        None => 0,
    };
    let self_char_id: u32 = match self_char_id {
        Some(c) => c,
        None => 0,
    };
    if ptr == 0 {
        return LocalPlayerIdentity {
            ptr: 0,
            target_id: 0,
            self_char_id,
            name: String::new(),
            aliases: Vec::new(),
        };
    }
    let target_id: u32 = match target_id {
        Some(t) => t,
        None => 0,
    };
    LocalPlayerIdentity { ptr, target_id, self_char_id, name, aliases }
}

/// Whether a name of the player is a name of an object: blank names do not count, nor
/// does the case of Latin letters.
pub open spec fn name_fits(local: Seq<char>, entity: Seq<char>) -> bool {
    &&& text::trimmed(local).len() > 0
    &&& text::trimmed(entity).len() > 0
    &&& text::same_but_case(local, text::trimmed(entity))
}

/// Whether a name of the player is one of several names.
pub open spec fn name_listed(local: Seq<char>, names: Seq<String>) -> bool {
    exists|i: int| 0 <= i < names.len() && name_fits(local, (#[trigger] names[i])@)
}

/// Whether an object is the player's own: by its address, its number, or one of its
/// names.
pub open spec fn is_local(
    id: LocalPlayerIdentity,
    snapshot: EntitySnapshot,
    names: Seq<String>,
) -> bool {
    ||| id.ptr != 0 && snapshot.addr == id.ptr
    ||| id.target_id != 0 && snapshot.server_id == id.target_id
    ||| id.self_char_id != 0 && snapshot.server_id == id.self_char_id
    ||| name_listed(id.name@, names)
    ||| exists|k: int| 0 <= k < id.aliases@.len() && name_listed((#[trigger] id.aliases@[k])@, names)
}

fn any_name_fits(local: &str, names: &[String]) -> (r: bool)
    ensures
        r == name_listed(local@, names@),
{
    if is_blank(local) {
        return false;
    }
    let own: Vec<char> = to_chars(local);
    let mut i: usize = 0;
    while i < names.len()
        invariant
            i <= names@.len(),
            own@ == local@,
            text::trimmed(local@).len() > 0,
            forall|k: int| 0 <= k < i ==> !name_fits(local@, (#[trigger] names@[k])@),
        decreases names@.len() - i,
    {
        let other: String = trim(names[i].as_str());
        let chars: Vec<char> = to_chars(other.as_str());
        if chars.len() > 0 && eq_ignore_ascii_case(own.as_slice(), chars.as_slice()) {
            assert(name_fits(local@, names@[i as int]@));
            return true;
        }
        i += 1;
    }
    false
}

/// Whether an object is the player's own.
pub fn is_local_player_entity(
    local_identity: &LocalPlayerIdentity,
    snapshot: EntitySnapshot,
    entity_names: &[String],
) -> (r: bool)
    ensures
        r == is_local(*local_identity, snapshot, entity_names@),
{
    if local_identity.ptr != 0 && snapshot.addr == local_identity.ptr {
        return true;
    }
    if local_identity.target_id != 0 && snapshot.server_id == local_identity.target_id {
        return true;
    }
    if local_identity.self_char_id != 0 && snapshot.server_id == local_identity.self_char_id {
        return true;
    }
    if any_name_fits(local_identity.name.as_str(), entity_names) {
        return true;
    }
    let mut k: usize = 0;
    while k < local_identity.aliases.len()
        invariant
            k <= local_identity.aliases@.len(),
            forall|m: int|
                0 <= m < k ==> !name_listed(
                    (#[trigger] local_identity.aliases@[m])@,
                    entity_names@,
                ),
        decreases local_identity.aliases@.len() - k,
    {
        if any_name_fits(local_identity.aliases[k].as_str(), entity_names) {
            assert(name_listed(local_identity.aliases@[k as int]@, entity_names@));
            return true;
        }
        k += 1;
    }
    false
}

/// The level of a monster; there is none for the player's own object.
pub fn resolve_entity_monster_level_for_identity(
    local_identity: &LocalPlayerIdentity,
    snapshot: EntitySnapshot,
    entity_names: &[String],
    sprite_type: Option<u8>,
    known_colored_by_patch: bool,
) -> (r: MonsterLevelResolution)
    ensures
        r.runtime_level == if is_local(*local_identity, snapshot, entity_names@) {
            None
        } else {
            level_of_entity(snapshot, sprite_type, known_colored_by_patch)
        },
        r.resolved_level == r.runtime_level,
{
    if is_local_player_entity(local_identity, snapshot, entity_names) {
        return MonsterLevelResolution { runtime_level: None, resolved_level: None };
    }
    resolve_entity_monster_level(snapshot, sprite_type, known_colored_by_patch)
}

/// Whether a name can stand at an address.
pub fn name_addr_ok(name_ptr: u32) -> (r: bool)
    ensures
        r == (NAME_MIN_ADDR <= name_ptr < NAME_END_ADDR),
{
    NAME_MIN_ADDR <= name_ptr && name_ptr < NAME_END_ADDR
}

/// Whether a name is among several, but for the case of Latin letters.
pub open spec fn known_name(names: Seq<Seq<char>>, name: Seq<char>) -> bool {
    exists|i: int| 0 <= i < names.len() && text::same_but_case(#[trigger] names[i], name)
}

/// Names trimmed, each once, blank ones left out.
pub open spec fn distinct_names(raw: Seq<Seq<char>>) -> Seq<Seq<char>>
    decreases raw.len(),
{
    if raw.len() == 0 {
        Seq::empty()
    } else {
        let before = distinct_names(raw.drop_last());
        let name = text::trimmed(raw.last());
        if name.len() > 0 && !known_name(before, name) {
            before.push(name)
        } else {
            before
        }
    }
}

/// The names of an object: trimmed, each once, blank ones left out.
pub fn read_entity_alias_names(raw: &[String]) -> (r: Vec<String>)
    ensures
        text::text_views(r@) == distinct_names(text::text_views(raw@)),
{
    let mut names: Vec<String> = Vec::new();
    let ghost all = text::text_views(raw@);
    let mut i: usize = 0;
    assert(all.take(0).len() == 0);
    assert(text::text_views(names@) =~= Seq::<Seq<char>>::empty());
    while i < raw.len()
        invariant
            i <= raw@.len(),
            all == text::text_views(raw@),
            text::text_views(names@) == distinct_names(all.take(i as int)),
        decreases raw@.len() - i,
    {
        assert(all.take(i + 1).drop_last() =~= all.take(i as int));
        assert(all.take(i + 1).last() == raw@[i as int]@);
        let name: String = trim(raw[i].as_str());
        let chars: Vec<char> = to_chars(name.as_str());
        if chars.len() > 0 && !listed(&names, chars.as_slice()) {
            let ghost before = text::text_views(names@);
            names.push(name);
            assert(text::text_views(names@) =~= before.push(name@));
        }
        i += 1;
    }
    assert(all.take(all.len() as int) =~= all);
    names
}

fn listed(names: &Vec<String>, name: &[char]) -> (r: bool)
    ensures
        r == known_name(text::text_views(names@), name@),
{
    let mut i: usize = 0;
    while i < names.len()
        invariant
            i <= names@.len(),
            forall|k: int|
                0 <= k < i ==> !text::same_but_case(#[trigger] text::text_views(names@)[k], name@),
        decreases names@.len() - i,
    {
        let chars: Vec<char> = to_chars(names[i].as_str());
        assert(text::text_views(names@)[i as int] == chars@);
        if eq_ignore_ascii_case(chars.as_slice(), name) {
            return true;
        }
        i += 1;
    }
    false
}

/// A level, and how often it was seen in a row (up to twice).
#[derive(Debug, Clone, Copy, PartialEq, Eq, Structural)]
pub struct StableMonsterLevel {
    pub level: u32,
    pub seen: u8,
}

/// What is remembered of an object's level after a sample.
pub open spec fn levels_after(
    levels: Map<u32, StableMonsterLevel>,
    addr: u32,
    sampled: Option<u32>,
) -> Map<u32, StableMonsterLevel> {
    match sampled {
        None => levels.remove(addr),
        Some(level) => {
            let seen = if levels.dom().contains(addr) && levels[addr].level == level {
                if levels[addr].seen >= 1 {
                    2u8
                } else {
                    1u8
                }
            } else {
                1u8
            };
            levels.insert(addr, StableMonsterLevel { level, seen })
        },
    }
}

/// An object's level, once it was seen twice in a row.
pub open spec fn settled(
    levels: Map<u32, StableMonsterLevel>,
    addr: u32,
    sampled: Option<u32>,
) -> Option<u32> {
    match sampled {
        Some(level) if levels_after(levels, addr, sampled)[addr].seen >= 2 => Some(level),
        _ => None,
    }
}

/// An object's level, once it was seen twice in a row.
pub fn resolve_monster_level(
    levels: &mut HashMap<u32, StableMonsterLevel>,
    entity_addr: u32,
    sampled_level: Option<u32>,
) -> (r: Option<u32>)
    ensures
        final(levels)@ == levels_after(old(levels)@, entity_addr, sampled_level),
        r == settled(old(levels)@, entity_addr, sampled_level),
{
    let level: u32 = match sampled_level {
        None => {
            levels.remove(&entity_addr);
            return None;
        },
        Some(level) => level,
    };
    let seen: u8 = match levels.get(&entity_addr) {
        None => 0,
        Some(entry) => {
            if entry.level != level {
                0
            } else {
                entry.seen
            }
        },
    };
    let now_seen: u8 = if seen >= 1 {
        2
    } else {
        1
    };
    levels.insert(entity_addr, StableMonsterLevel { level, seen: now_seen });
    if now_seen >= 2 {
        Some(level)
    } else {
        None
    }
}

/// The same level twice in a row counts; another one in between starts anew.
pub proof fn two_samples_settle_a_level(
    levels: Map<u32, StableMonsterLevel>,
    addr: u32,
    level: u32,
    other: u32,
)
    requires
        level != other,
    ensures
        levels_after(levels_after(levels, addr, Some(level)), addr, Some(level))[addr].seen == 2,
        levels_after(levels_after(levels, addr, Some(level)), addr, Some(other))[addr].seen == 1,
{
}

/// Remembers an object's own color, unless one is remembered.
pub fn remember_original_color(touched: &mut HashMap<u32, u16>, entity_addr: u32, color: u16)
    ensures
        final(touched)@ == if old(touched)@.dom().contains(entity_addr) {
            old(touched)@
        } else {
            old(touched)@.insert(entity_addr, color)
        },
{
    if !touched.contains_key(&entity_addr) {
        touched.insert(entity_addr, color);
    }
}

/// Whether an object's own color is remembered.
pub fn has_original_color(touched: &HashMap<u32, u16>, entity_addr: u32) -> (r: bool)
    ensures
        r == touched@.dom().contains(entity_addr),
{
    touched.contains_key(&entity_addr)
}

/// Forgets an object's own color, and gives it.
pub fn take_original_color(touched: &mut HashMap<u32, u16>, entity_addr: u32) -> (r: Option<u16>)
    ensures
        final(touched)@ == old(touched)@.remove(entity_addr),
        r == if old(touched)@.dom().contains(entity_addr) {
            Some(old(touched)@[entity_addr])
        } else {
            None
        },
{
    touched.remove(&entity_addr)
}

/// Forgets all colors, and gives the writes that put them back, in any order.
pub fn restore_touched_colors(touched: &mut HashMap<u32, u16>) -> (r: Vec<ColorWrite>)
    ensures
        final(touched)@ == Map::<u32, u16>::empty(),
        r@.len() == old(touched)@.dom().len(),
        forall|i: int|
            0 <= i < r@.len() ==> old(touched)@.dom().contains((#[trigger] r@[i]).entity_addr)
                && old(touched)@[r@[i].entity_addr] == r@[i].color,
        forall|a: u32| #[trigger]
            old(touched)@.dom().contains(a) ==> r@.contains(
                ColorWrite { entity_addr: a, color: old(touched)@[a] },
            ),
{
    let ghost before = touched@;
    let mut addrs: Vec<u32> = Vec::new();
    for addr in it: touched.keys()
        invariant
            it.seq().len() == before.dom().len(),
            it.seq().unref().to_set() == before.dom(),
            addrs@ == it.seq().unref().take(it.index() as int),
            it.index() == it.seq().len() ==> addrs@ == it.seq().unref(),
    {
        addrs.push(*addr);
        assert(addrs@ =~= it.seq().unref().take(it.index() + 1));
        assert(it.index() + 1 == it.seq().len() ==> addrs@ =~= it.seq().unref());
    }
    assert(addrs@.to_set() == before.dom());
    let mut r: Vec<ColorWrite> = Vec::new();
    let mut k: usize = 0;
    while k < addrs.len()
        invariant
            k <= addrs@.len(),
            touched@ == before,
            addrs@.to_set() == before.dom(),
            r@.len() == k,
            forall|i: int|
                0 <= i < k ==> #[trigger] r@[i] == (ColorWrite {
                    entity_addr: addrs@[i],
                    color: before[addrs@[i]],
                }),
        decreases addrs@.len() - k,
    {
        assert(addrs@.to_set().contains(addrs@[k as int]));
        if let Some(color) = touched.get(&addrs[k]) {
            r.push(ColorWrite { entity_addr: addrs[k], color: *color });
        }
        k += 1;
    }
    proof {
        assert forall|a: u32| #[trigger] before.dom().contains(a) implies r@.contains(
            ColorWrite { entity_addr: a, color: before[a] },
        ) by {
            assert(addrs@.to_set().contains(a));
            let i = addrs@.index_of(a);
            assert(r@[i] == (ColorWrite { entity_addr: a, color: before[a] }));
        }
        assert forall|i: int| 0 <= i < r@.len() implies before.dom().contains(
            (#[trigger] r@[i]).entity_addr,
        ) && before[r@[i].entity_addr] == r@[i].color by {
            assert(addrs@.to_set().contains(addrs@[i]));
        }
    }
    touched.clear();
    assert(touched@ =~= Map::<u32, u16>::empty());
    r
}

/// An object without a level, for a report.
#[derive(Debug, Clone, Copy, PartialEq, Eq, Structural)]
pub struct MissingLevelSample {
    pub addr: u32,
    pub server_id: u32,
    pub entity_kind: u8,
    pub sprite: u16,
    pub map: u32,
    pub current_color: u16,
    pub sampled_level_byte: u8,
}

/// An object, for a report.
#[derive(Debug)]
pub struct MonsterLevelSample {
    pub snapshot: EntitySnapshot,
    pub sprite_type: Option<u8>,
    pub name: String,
    pub runtime_level: Option<u32>,
    pub resolved_level: Option<u32>,
    pub chosen_color: Option<u16>,
}

/// What was found at a scan so far.
#[derive(Debug)]
pub struct ScanStats {
    pub visible: usize,
    pub colored: usize,
    pub missing_level: usize,
    pub player_level: u32,
    pub missing_samples: Vec<MissingLevelSample>,
    pub level_samples: Vec<MonsterLevelSample>,
    /// The objects whose names are drawn in color.
    pub render_entities: Vec<u32>,
}

/// The start of a scan.
pub fn start_scan(player_level: u32) -> (r: ScanStats)
    ensures
        r.visible == 0,
        r.colored == 0,
        r.missing_level == 0,
        r.player_level == player_level,
        r.missing_samples@.len() == 0,
        r.level_samples@.len() == 0,
        r.render_entities@.len() == 0,
{
    ScanStats {
        visible: 0,
        colored: 0,
        missing_level: 0,
        player_level,
        missing_samples: Vec::new(),
        level_samples: Vec::new(),
        render_entities: Vec::new(),
    }
}

/// A color that is to be written into an object.
#[derive(Debug, Clone, Copy, PartialEq, Eq, Structural)]
pub struct ColorWrite {
    pub entity_addr: u32,
    pub color: u16,
}

/// What an object is.
pub enum Verdict {
    /// Not an object that is to be seen.
    Hidden,
    /// The player.
    Local(EntitySnapshot),
    /// No monster.
    NoLevel(EntitySnapshot),
    /// A monster that keeps its own color.
    Plain(EntitySnapshot, u32),
    /// A monster that gets a color.
    Colored(EntitySnapshot, u32, u16),
}

/// What an object is.
pub open spec fn verdict(
    addr: u32,
    raw: Option<Seq<u8>>,
    names: Seq<String>,
    id: LocalPlayerIdentity,
    player_level: u32,
    sprite_types: Map<u16, u8>,
    touched: Map<u32, u16>,
) -> Verdict {
    let snapshot = match raw {
        Some(bytes) => parsed(addr, bytes),
        None => None,
    };
    match snapshot {
        None => Verdict::Hidden,
        Some(s) => if !s.visible() {
            Verdict::Hidden
        } else if is_local(id, s, names) {
            Verdict::Local(s)
        } else {
            match level_of_entity(
                s,
                type_of(sprite_types, s.sprite),
                touched.dom().contains(s.addr),
            ) {
                None => Verdict::NoLevel(s),
                Some(level) => match patch_color(level as int, player_level as int) {
                    None => Verdict::Plain(s, level),
                    Some(color) => Verdict::Colored(s, level, color),
                },
            }
        },
    }
}

/// The type of a sprite, if it is known.
pub open spec fn type_of(sprite_types: Map<u16, u8>, sprite: u16) -> Option<u8> {
    if sprite_types.dom().contains(sprite) {
        Some(sprite_types[sprite])
    } else {
        None
    }
}

/// The color that is written into an object: a monster gets its color where it has
/// not; what is no monster, or none that gets a color, gets its own back where its own
/// was remembered.
pub open spec fn write_of(v: Verdict, touched: Map<u32, u16>) -> Option<ColorWrite> {
    match v {
        Verdict::Hidden => None,
        Verdict::Local(_) => None,
        Verdict::NoLevel(s) => give_back(s, touched),
        Verdict::Plain(s, _) => give_back(s, touched),
        Verdict::Colored(s, _, color) => if s.current_color == color {
            None
        } else {
            Some(ColorWrite { entity_addr: s.addr, color })
        },
    }
}

/// The object's own color, where it has another.
pub open spec fn give_back(s: EntitySnapshot, touched: Map<u32, u16>) -> Option<ColorWrite> {
    if touched.dom().contains(s.addr) && touched[s.addr] != s.current_color {
        Some(ColorWrite { entity_addr: s.addr, color: touched[s.addr] })
    } else {
        None
    }
}

/// The colors that are remembered after an object.
pub open spec fn touched_after(v: Verdict, touched: Map<u32, u16>) -> Map<u32, u16> {
    match v {
        Verdict::Hidden => touched,
        Verdict::Local(_) => touched,
        Verdict::NoLevel(s) => touched.remove(s.addr),
        Verdict::Plain(s, _) => touched.remove(s.addr),
        Verdict::Colored(s, _, color) => if s.current_color == color || touched.dom().contains(
            s.addr,
        ) {
            touched
        } else {
            touched.insert(s.addr, s.current_color)
        },
    }
}

fn restore_original_color_if_needed(
    touched: &mut HashMap<u32, u16>,
    snapshot: EntitySnapshot,
) -> (r: Option<ColorWrite>)
    ensures
        r == give_back(snapshot, old(touched)@),
        final(touched)@ == old(touched)@.remove(snapshot.addr),
{
    match take_original_color(touched, snapshot.addr) {
        None => None,
        Some(original) => {
            if snapshot.current_color != original {
                Some(ColorWrite { entity_addr: snapshot.addr, color: original })
            } else {
                None
            }
        },
    }
}

/// The type of a sprite, if it is known.
pub fn sprite_type_for(sprite_types: &HashMap<u16, u8>, sprite: u16) -> (r: Option<u8>)
    ensures
        r == type_of(sprite_types@, sprite),
{
    match sprite_types.get(&sprite) {
        Some(t) => Some(*t),
        None => None,
    }
}

/// What a report says of an object without a level.
pub open spec fn missing_sample(s: EntitySnapshot) -> MissingLevelSample {
    MissingLevelSample {
        addr: s.addr,
        server_id: s.server_id,
        entity_kind: s.entity_kind,
        sprite: s.sprite,
        map: s.map,
        current_color: s.current_color,
        sampled_level_byte: s.sampled_level_byte,
    }
}

/// Whether an object is counted as one that is to be seen.
pub open spec fn is_seen(v: Verdict) -> bool {
    !(v is Hidden)
}

/// The object that was looked at, other than the player's own.
pub open spec fn looked_at(v: Verdict) -> Option<EntitySnapshot> {
    match v {
        Verdict::Hidden => None,
        Verdict::Local(_) => None,
        Verdict::NoLevel(s) => Some(s),
        Verdict::Plain(s, _) => Some(s),
        Verdict::Colored(s, _, _) => Some(s),
    }
}

/// The level of the monster that was looked at.
pub open spec fn level_seen(v: Verdict) -> Option<u32> {
    match v {
        Verdict::Plain(_, level) => Some(level),
        Verdict::Colored(_, level, _) => Some(level),
        _ => None,
    }
}

/// A list with one element more, as long as it is short enough.
pub open spec fn push_up_to<T>(list: Seq<T>, x: T, max: int) -> Seq<T> {
    if list.len() < max {
        list.push(x)
    } else {
        list
    }
}

/// The levels that are remembered after an object.
pub open spec fn levels_seen(v: Verdict, levels: Map<u32, StableMonsterLevel>) -> Map<
    u32,
    StableMonsterLevel,
> {
    match looked_at(v) {
        Some(s) => levels_after(levels, s.addr, s.monster_level),
        None => levels,
    }
}

/// What is counted and listed of an object; `wrote` tells whether a color is written.
pub open spec fn counted(v: Verdict, wrote: bool, before: ScanStats, after: ScanStats) -> bool {
    &&& after.player_level == before.player_level
    &&& after.visible == before.visible + if is_seen(v) {
        1int
    } else {
        0
    }
    &&& after.missing_level == before.missing_level + if v is NoLevel {
        1int
    } else {
        0
    }
    &&& after.colored == before.colored + if v is Colored && wrote {
        1int
    } else {
        0
    }
    &&& after.render_entities@ == match v {
        Verdict::Colored(s, _, _) => before.render_entities@.push(s.addr),
        _ => before.render_entities@,
    }
    &&& after.missing_samples@ == match v {
        Verdict::NoLevel(s) => push_up_to(
            before.missing_samples@,
            missing_sample(s),
            MAX_MISSING_SAMPLES as int,
        ),
        _ => before.missing_samples@,
    }
}

/// What a report says of an object, where reports are wanted and there is room.
pub open spec fn sampled(
    v: Verdict,
    sprite_types: Map<u16, u8>,
    name: Seq<char>,
    collect: bool,
    before: ScanStats,
    after: ScanStats,
) -> bool {
    match looked_at(v) {
        Some(s) if collect && before.level_samples@.len() < MAX_LEVEL_SAMPLES => {
            &&& after.level_samples@.len() == before.level_samples@.len() + 1
            &&& after.level_samples@.drop_last() == before.level_samples@
            &&& after.level_samples@.last().snapshot == s
            &&& after.level_samples@.last().sprite_type == type_of(sprite_types, s.sprite)
            &&& after.level_samples@.last().name@ == name
            &&& after.level_samples@.last().runtime_level == level_seen(v)
            &&& after.level_samples@.last().resolved_level == level_seen(v)
            &&& after.level_samples@.last().chosen_color == match level_seen(v) {
                Some(level) => Some(color_of_delta(level - after.player_level).bits()),
                None => None,
            }
        },
        _ => after.level_samples@ == before.level_samples@,
    }
}

/// Looks at one object of a scan: `raw` are its bytes, if they could be read, `names`
/// its names, `name` the one to report.  Gives the color that has to be written into
/// it, if any.
pub fn refresh_entity(
    stats: &mut ScanStats,
    touched: &mut HashMap<u32, u16>,
    levels: &mut HashMap<u32, StableMonsterLevel>,
    sprite_types: &HashMap<u16, u8>,
    id: &LocalPlayerIdentity,
    entity_addr: u32,
    raw: Option<&[u8]>,
    names: &[String],
    name: &str,
    collect_level_samples: bool,
) -> (r: Option<ColorWrite>)
    requires
        old(stats).visible < usize::MAX,
        old(stats).colored <= old(stats).visible,
        old(stats).missing_level <= old(stats).visible,
    ensures
        ({
            let v = verdict(
                entity_addr,
                match raw {
                    Some(b) => Some(b@),
                    None => None,
                },
                names@,
                *id,
                old(stats).player_level,
                sprite_types@,
                old(touched)@,
            );
            &&& r == write_of(v, old(touched)@)
            &&& final(touched)@ == touched_after(v, old(touched)@)
            &&& final(levels)@ == levels_seen(v, old(levels)@)
            &&& counted(v, r is Some, *old(stats), *final(stats))
            &&& sampled(
                v,
                sprite_types@,
                name@,
                collect_level_samples,
                *old(stats),
                *final(stats),
            )
        }),
        final(stats).colored <= final(stats).visible,
        final(stats).missing_level <= final(stats).visible,
{
    let snapshot: EntitySnapshot = match raw {
        None => return None,
        Some(bytes) => match EntitySnapshot::parse(entity_addr, bytes) {
            None => return None,
            Some(s) => s,
        },
    };
    if !snapshot.is_visible_world_entity() {
        return None;
    }
    let player_level: u32 = stats.player_level;
    stats.visible = stats.visible + 1;
    let sprite_type: Option<u8> = sprite_type_for(sprite_types, snapshot.sprite);
    let colored_before: bool = has_original_color(touched, snapshot.addr);
    if is_local_player_entity(id, snapshot, names) {
        return None;
    }
    let resolution: MonsterLevelResolution = resolve_entity_monster_level_for_identity(
        id,
        snapshot,
        names,
        sprite_type,
        colored_before,
    );
    let _ = resolve_monster_level(levels, snapshot.addr, snapshot.monster_level);
    let chosen_color: Option<u16> = match resolution.resolved_level {
        Some(level) => Some(select_level_color(level, player_level).rgb565()),
        None => None,
    };
    if collect_level_samples && stats.level_samples.len() < MAX_LEVEL_SAMPLES {
        let ghost before = stats.level_samples@;
        stats.level_samples.push(
            MonsterLevelSample {
                snapshot,
                sprite_type,
                name: text_of(name),
                runtime_level: resolution.runtime_level,
                resolved_level: resolution.resolved_level,
                chosen_color,
            },
        );
        assert(stats.level_samples@.drop_last() =~= before);
    }
    let level: u32 = match resolution.resolved_level {
        Some(level) => level,
        None => {
            stats.missing_level = stats.missing_level + 1;
            if stats.missing_samples.len() < MAX_MISSING_SAMPLES {
                stats.missing_samples.push(
                    MissingLevelSample {
                        addr: snapshot.addr,
                        server_id: snapshot.server_id,
                        entity_kind: snapshot.entity_kind,
                        sprite: snapshot.sprite,
                        map: snapshot.map,
                        current_color: snapshot.current_color,
                        sampled_level_byte: snapshot.sampled_level_byte,
                    },
                );
            }
            return restore_original_color_if_needed(touched, snapshot);
        },
    };
    let color: u16 = match patch_color_for_level(level, player_level) {
        None => return restore_original_color_if_needed(touched, snapshot),
        Some(color) => color,
    };
    stats.render_entities.push(snapshot.addr);
    if snapshot.current_color == color {
        return None;
    }
    remember_original_color(touched, snapshot.addr, snapshot.current_color);
    stats.colored = stats.colored + 1;
    Some(ColorWrite { entity_addr: snapshot.addr, color })
}

/// Whoever is the player never gets a color.
pub proof fn the_player_is_never_colored(
    addr: u32,
    raw: Option<Seq<u8>>,
    names: Seq<String>,
    id: LocalPlayerIdentity,
    player_level: u32,
    sprite_types: Map<u16, u8>,
    touched: Map<u32, u16>,
)
    requires
        raw matches Some(bytes) && parsed(addr, bytes) is Some && is_local(
            id,
            parsed(addr, bytes)->0,
            names,
        ),
    ensures
        write_of(
            verdict(addr, raw, names, id, player_level, sprite_types, touched),
            touched,
        ) is None,
{
}

/// Where an object gets a color that is not its own, its own color is remembered; and
/// what is written to an object that was colored before is a level's color or its own.
pub proof fn own_colors_are_remembered(v: Verdict, touched: Map<u32, u16>)
    requires
        v matches Verdict::Colored(s, level, color) ==> feature(color),
    ensures
        write_of(v, touched) matches Some(w) ==> {
            ||| feature(w.color) && touched_after(v, touched).dom().contains(w.entity_addr)
            ||| touched.dom().contains(w.entity_addr) && w.color == touched[w.entity_addr]
                && !touched_after(v, touched).dom().contains(w.entity_addr)
        },
        forall|a: u32| #[trigger]
            touched.dom().contains(a) && touched_after(v, touched).dom().contains(a)
                ==> touched_after(v, touched)[a] == touched[a],
{
}

/// An object that was colored and then is no monster any more gets back the color that
/// it had.
pub proof fn coloring_is_undone(
    s: EntitySnapshot,
    level: u32,
    color: u16,
    touched: Map<u32, u16>,
    later: EntitySnapshot,
)
    requires
        !touched.dom().contains(s.addr),
        s.current_color != color,
        later.addr == s.addr,
        later.current_color == color,
    ensures
        write_of(
            Verdict::NoLevel(later),
            touched_after(Verdict::Colored(s, level, color), touched),
        ) == Some(ColorWrite { entity_addr: s.addr, color: s.current_color }),
{
}

/// Whether a scan is reported.
pub open spec fn reported(tick: u32) -> bool {
    tick <= 3 || tick % 20 == 0
}

/// Counts scans, and tells whether this one is reported: the first three, and every
/// twentieth.
pub fn scan_is_reported(tick: &mut u32) -> (r: bool)
    ensures
        *final(tick) == (*old(tick) + 1) % 0x1_0000_0000,
        r == reported(*final(tick)),
{
    *tick = tick.wrapping_add(1);
    *tick <= 3 || *tick % 20 == 0
}

} // verus!
