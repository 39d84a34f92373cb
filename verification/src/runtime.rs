//! What is done at each tick, from what was read of the client.
//!
//! Times are nanoseconds on a monotonic clock.

use std::collections::HashMap;

use vstd::prelude::*;

use crate::address::FOOD_LEVEL_DIVISOR;
use crate::buff_dispatch::DispatchOutcome;
use crate::buff_dispatch::GameCall;
use crate::class_remap;
use crate::class_remap::remap;
use crate::code;
use crate::code::zero_at;
use crate::drink_hook::SkillTargetMode;
use crate::exp_tracker;
use crate::exp_tracker::format_chat_line;
use crate::exp_tracker::ExpTracker;
use crate::inventory;
use crate::inventory::find;
use crate::inventory::holds;
use crate::inventory::Item;
use crate::inventory::Want;
use crate::inventory::Wanted;
use crate::inventory::IN_USE;
use crate::inventory::WIELDED;
use crate::name_table;
use crate::notification::queue;
use crate::player_state::PlayerState;
use crate::spell_book::SpellBook;
use crate::sprite_types;
use crate::sprite_types::contains_bytes;
use crate::text;
use crate::text::is_blank;
use crate::text::same_text;
use crate::text::text_of;
use crate::text::to_chars;
use crate::text::trim;

pub use crate::settings::AuxSettings;
pub use crate::settings::BuffItem;
pub use crate::settings::CastTarget;
pub use crate::settings::FKeyMacro;
pub use crate::settings::MiscToggles;
pub use crate::settings::MpWhenSafe;
pub use crate::settings::PotionRow;
pub use crate::settings::TimerRow;

verus! {

broadcast use vstd::std_specs::hash::group_hash_axioms;

/// The client's state while the player is in the world.
pub const IN_WORLD: u32 = 3;

/// Nanoseconds in a second.
pub const SECOND: u64 = 1_000_000_000;

/// Whether the player is in the world and calls can be made.
pub open spec fn can_act(game_state: Option<u32>, ready: bool) -> bool {
    game_state == Some(IN_WORLD) && ready
}

fn may_act(game_state: Option<u32>, ready: bool) -> (r: bool)
    ensures
        r == can_act(game_state, ready),
{
    match game_state {
        Some(s) => s == IN_WORLD && ready,
        None => false,
    }
}

/// Whether so much time has gone by since something was last done, if it ever was.
pub open spec fn due(last: Option<u64>, now: u64, wait: int) -> bool {
    match last {
        None => true,
        Some(t) => queue::age(t, now) >= wait,
    }
}

fn is_due(last: Option<u64>, now: u64, wait: u64) -> (r: bool)
    ensures
        r == due(last, now, wait as int),
{
    match last {
        None => true,
        Some(t) => now.saturating_sub(t) >= wait,
    }
}

/// `part` of `whole` in percent, as far as `part * 100` fits into 32 bits.
pub open spec fn percent(part: u32, whole: u32) -> int {
    let scaled = if part * 100 > u32::MAX {
        u32::MAX as int
    } else {
        part * 100
    };
    scaled / if whole > 1 {
        whole as int
    } else {
        1
    }
}

fn percent_of(part: u32, whole: u32) -> (r: u32)
    ensures
        r == percent(part, whole),
{
    let scaled: u32 = if part > 42_949_672 {
        u32::MAX
    } else {
        part * 100
    };
    let base: u32 = if whole > 1 {
        whole
    } else {
        1
    };
    scaled / base
}

/// Whether magic points are to be restored: hit points are high enough and magic
/// points low enough, both in percent where percents are used.
pub open spec fn mp_safe(s: AuxSettings, state: PlayerState) -> bool {
    let rule = s.mp_when_safe;
    &&& rule.enabled
    &&& text::trimmed(rule.item@).len() > 0
    &&& if s.potion_use_percent {
        percent(state.hp, state.max_hp) >= rule.hp_lower && percent(state.mp, state.max_mp)
            <= rule.mp_upper
    } else {
        state.hp >= rule.hp_lower && state.mp <= rule.mp_upper
    }
}

/// Whether magic points are to be restored.
pub fn mp_when_safe_triggered(s: &AuxSettings, state: &PlayerState) -> (r: bool)
    ensures
        r == mp_safe(*s, *state),
{
    let rule: &MpWhenSafe = &s.mp_when_safe;
    if !rule.enabled || is_blank(rule.item.as_str()) {
        return false;
    }
    if s.potion_use_percent {
        percent_of(state.hp, state.max_hp) >= rule.hp_lower && percent_of(state.mp, state.max_mp)
            <= rule.mp_upper
    } else {
        state.hp >= rule.hp_lower && state.mp <= rule.mp_upper
    }
}

/// What to drink.
#[derive(Debug, Clone, Copy, PartialEq, Eq, Structural)]
pub enum DrinkChoice {
    Nothing,
    /// What this row names.
    Row(usize),
    /// What restores magic points.
    MpWhenSafe,
}

/// Whether a row is to be drunk.
pub open spec fn row_triggers(s: AuxSettings, state: PlayerState, i: int) -> bool {
    let row = s.potion_rows@[i];
    &&& row.enabled
    &&& row.item@.len() > 0
    &&& if s.potion_use_percent {
        percent(state.hp, state.max_hp) < row.threshold
    } else {
        state.hp < row.threshold
    }
}

/// The first row from `i` on that is to be drunk.
pub open spec fn first_row(s: AuxSettings, state: PlayerState, i: int) -> Option<int>
    decreases 7 - i,
{
    if i >= 7 {
        None
    } else if row_triggers(s, state, i) {
        Some(i)
    } else {
        first_row(s, state, i + 1)
    }
}

/// Whether anything to drink is set.
pub open spec fn drinks_set(s: AuxSettings) -> bool {
    ||| exists|i: int|
        0 <= i < 7 && (#[trigger] s.potion_rows@[i]).enabled && text::trimmed(
            s.potion_rows@[i].item@,
        ).len() > 0
    ||| s.mp_when_safe.enabled && text::trimmed(s.mp_when_safe.item@).len() > 0
}

/// What to drink: rows go from first to last and before magic points.
pub open spec fn drink_choice(
    s: AuxSettings,
    game_state: Option<u32>,
    ready: bool,
    state: Option<PlayerState>,
) -> DrinkChoice {
    if !drinks_set(s) || !can_act(game_state, ready) || state is None || state->0.max_hp == 0 {
        DrinkChoice::Nothing
    } else {
        match first_row(s, state->0, 0) {
            Some(i) => DrinkChoice::Row(i as usize),
            None => if mp_safe(s, state->0) {
                DrinkChoice::MpWhenSafe
            } else {
                DrinkChoice::Nothing
            },
        }
    }
}

fn has_drinks(s: &AuxSettings) -> (r: bool)
    ensures
        r == drinks_set(*s),
{
    let mut i: usize = 0;
    while i < 7
        invariant
            i <= 7,
            forall|k: int|
                0 <= k < i ==> !((#[trigger] s.potion_rows@[k]).enabled && text::trimmed(
                    s.potion_rows@[k].item@,
                ).len() > 0),
        decreases 7 - i,
    {
        if s.potion_rows[i].enabled && !is_blank(s.potion_rows[i].item.as_str()) {
            assert(s.potion_rows@[i as int].enabled);
            return true;
        }
        i += 1;
    }
    s.mp_when_safe.enabled && !is_blank(s.mp_when_safe.item.as_str())
}

fn is_empty_text(s: &str) -> (r: bool)
    ensures
        r == (s@.len() == 0),
{
    let v: Vec<char> = to_chars(s);
    v.len() == 0
}

/// What to drink at a tick.
pub fn drink_tick(
    s: &AuxSettings,
    game_state: Option<u32>,
    ready: bool,
    state: Option<PlayerState>,
) -> (r: DrinkChoice)
    ensures
        r == drink_choice(*s, game_state, ready, state),
{
    if !has_drinks(s) || !may_act(game_state, ready) {
        return DrinkChoice::Nothing;
    }
    let figures: PlayerState = match state {
        None => return DrinkChoice::Nothing,
        Some(figures) => figures,
    };
    if figures.max_hp == 0 {
        return DrinkChoice::Nothing;
    }
    let hp_pct: u32 = percent_of(figures.hp, figures.max_hp);
    let mut i: usize = 0;
    while i < 7
        invariant
            i <= 7,
            hp_pct == percent(figures.hp, figures.max_hp),
            first_row(*s, figures, 0) == first_row(*s, figures, i as int),
            drinks_set(*s),
            can_act(game_state, ready),
            state == Some(figures),
            figures.max_hp != 0,
        decreases 7 - i,
    {
        let row: &PotionRow = &s.potion_rows[i];
        if row.enabled && !is_empty_text(row.item.as_str()) {
            let low: bool = if s.potion_use_percent {
                hp_pct < row.threshold
            } else {
                figures.hp < row.threshold
            };
            if low {
                return DrinkChoice::Row(i);
            }
        }
        i += 1;
    }
    if mp_when_safe_triggered(s, &figures) {
        DrinkChoice::MpWhenSafe
    } else {
        DrinkChoice::Nothing
    }
}

/// Rows that are set higher up go first: no row above the one that is drunk is to be
/// drunk.
pub proof fn upper_rows_go_first(
    s: AuxSettings,
    game_state: Option<u32>,
    ready: bool,
    state: PlayerState,
    k: int,
)
    requires
        0 <= k < 7,
        row_triggers(s, state, k),
        drinks_set(s),
        can_act(game_state, ready),
        state.max_hp > 0,
    ensures
        drink_choice(s, game_state, ready, Some(state)) matches DrinkChoice::Row(i) && i <= k
            && row_triggers(s, state, i as int),
{
    first_row_bound(s, state, 0, k);
}

proof fn first_row_bound(s: AuxSettings, state: PlayerState, i: int, k: int)
    requires
        0 <= i <= k < 7,
        row_triggers(s, state, k),
    ensures
        first_row(s, state, i) matches Some(j) && i <= j <= k && row_triggers(s, state, j),
    decreases k - i,
{
    if !row_triggers(s, state, i) {
        first_row_bound(s, state, i + 1, k);
    }
}

/// The call that drinks: an item is looked for in the bag by its name but for the
/// quantity, a spell in the player's book; of spells only those on oneself or
/// without a target are cast.
pub open spec fn drink_call(
    bi: BuffItem,
    bare_name: Seq<char>,
    items: Option<Seq<Item>>,
    book: Option<SpellBook>,
) -> Option<GameCall> {
    if bi.item_type == 'I' {
        match items {
            None => None,
            Some(list) => match inventory::first_fit(list, Want::Bare(bare_name)) {
                Some(i) => Some(GameCall::Drink(list[i].entry_addr)),
                None => None,
            },
        }
    } else if bi.item_type == 'S' {
        match book {
            None => None,
            Some(b) => match name_table::found(b@, bi.name@) {
                None => None,
                Some(packed) => if bi.cast_target is Self_ {
                    Some(GameCall::Skill { packed, mode: SkillTargetMode::ForceSelfPacket })
                } else if bi.cast_target is NoSpec {
                    Some(GameCall::Skill { packed, mode: SkillTargetMode::NoSpec })
                } else {
                    None
                },
            },
        }
    } else {
        None
    }
}

/// The items that were read, as a sequence.
pub open spec fn items_of(items: Option<&Vec<Item>>) -> Option<Seq<Item>> {
    match items {
        Some(v) => Some(v@),
        None => None,
    }
}

/// The call that drinks: `bare_name` is the name of what is drunk without a
/// quantity, `items` the bag as far as it could be read, `book` the player's book if
/// it could be read.
pub fn drink_action(
    bi: &BuffItem,
    bare_name: &str,
    items: Option<&Vec<Item>>,
    book: &Option<SpellBook>,
) -> (r: Option<GameCall>)
    requires
        *book matches Some(b) ==> b.wf(),
    ensures
        r == drink_call(*bi, bare_name@, items_of(items), *book),
{
    match bi.item_type {
        'I' => match items {
            None => None,
            Some(list) => match find(list, &Wanted::Bare(bare_name)) {
                Some(i) => Some(GameCall::Drink(list[i].entry_addr)),
                None => None,
            },
        },
        'S' => match book {
            None => None,
            Some(b) => match b.lookup(bi.name.as_str()) {
                None => None,
                Some(packed) => match bi.cast_target {
                    CastTarget::Self_ => Some(
                        GameCall::Skill { packed, mode: SkillTargetMode::ForceSelfPacket },
                    ),
                    CastTarget::NoSpec => Some(
                        GameCall::Skill { packed, mode: SkillTargetMode::NoSpec },
                    ),
                    _ => None,
                },
            },
        },
        _ => None,
    }
}

/// Bytes of the table of states.
pub const BUFF_TABLE_SIZE: usize = 0x1F0;

/// Where the second table of states stands.
pub const SECOND_STATE_TABLE: u32 = 0x00AB_F6B8;

/// Time between two uses for the same state.
pub const BUFF_COOLDOWN: u64 = 2_000_000_000;

/// The number under which the last use of an item or spell for a state is kept.
pub open spec fn cooldown_key(item_type: char, id: i32) -> u64 {
    ((item_type as u32) * 0x1_0000_0000 + id) as u64
}

/// Items and spells, and different states, are counted apart.
pub proof fn cooldown_keys_differ(t1: char, id1: i32, t2: char, id2: i32)
    requires
        0 <= id1,
        0 <= id2,
        cooldown_key(t1, id1) == cooldown_key(t2, id2),
    ensures
        t1 == t2,
        id1 == id2,
{
}

fn key_of(item_type: char, id: i32) -> (r: u64)
    requires
        0 <= id,
    ensures
        r == cooldown_key(item_type, id),
{
    (item_type as u32) as u64 * 0x1_0000_0000 + id as u64
}

/// How far the list of things to keep in effect has been gone through.
#[derive(Debug, Clone, Copy, PartialEq, Eq, Structural)]
pub struct BuffPass {
    /// The next one to look at.
    pub at: usize,
    /// Whether a spell has been cast at this tick.
    pub skill_cast: bool,
}

/// The state of an item of the list.
pub open spec fn state_byte(table: Seq<u8>, class: u8, id: i32) -> u8 {
    let state_id = class_remap::remapped(class, id);
    if 0 <= state_id < table.len() {
        table[state_id as int]
    } else {
        0
    }
}

/// Whether something is missing, as far as the first table tells: its state is in
/// the table and not set, it was not used just now, and it is not a second spell at
/// the same tick.
pub open spec fn buff_wanted(
    bi: BuffItem,
    table: Seq<u8>,
    class: u8,
    cooldowns: Map<u64, u64>,
    now: u64,
    skill_cast: bool,
) -> bool {
    &&& 0 <= bi.id < table.len()
    &&& cooldowns.dom().contains(cooldown_key(bi.item_type, bi.id)) ==> queue::age(
        cooldowns[cooldown_key(bi.item_type, bi.id)],
        now,
    ) >= BUFF_COOLDOWN
    &&& !(bi.item_type == 'S' && skill_cast)
    &&& state_byte(table, class, bi.id) == 0
}

/// The first of a list from `at` on that is missing.
pub open spec fn next_wanted(
    list: Seq<BuffItem>,
    at: int,
    table: Seq<u8>,
    class: u8,
    cooldowns: Map<u64, u64>,
    now: u64,
    skill_cast: bool,
) -> Option<int>
    decreases list.len() - at,
{
    if at < 0 || at >= list.len() {
        None
    } else if buff_wanted(list[at], table, class, cooldowns, now, skill_cast) {
        Some(at)
    } else {
        next_wanted(list, at + 1, table, class, cooldowns, now, skill_cast)
    }
}

/// Whether there is anything to keep in effect.
pub fn buff_tick_starts(s: &AuxSettings, game_state: Option<u32>, ready: bool) -> (r: bool)
    ensures
        r == (s.buff_enabled && s.buff_items@.len() > 0 && can_act(game_state, ready)),
{
    s.buff_enabled && s.buff_items.len() > 0 && may_act(game_state, ready)
}

/// Goes on to the next thing of the list that is missing as far as the first table
/// tells, and gives the address at which the second table has to be asked.
pub fn buff_tick(
    pass: &mut BuffPass,
    list: &Vec<BuffItem>,
    table: &[u8],
    class: u8,
    cooldowns: &HashMap<u64, u64>,
    now: u64,
) -> (r: Option<(usize, u32)>)
    requires
        table@.len() <= BUFF_TABLE_SIZE,
    ensures
        match next_wanted(
            list@,
            old(pass).at as int,
            table@,
            class,
            cooldowns@,
            now,
            old(pass).skill_cast,
        ) {
            Some(i) => {
                &&& r == Some(
                    (
                        i as usize,
                        (SECOND_STATE_TABLE + class_remap::remapped(class, list@[i].id)) as u32,
                    ),
                )
                &&& final(pass).at == i + 1
            },
            None => {
                &&& r is None
                &&& final(pass).at == if old(pass).at < list@.len() {
                    list@.len() as int
                } else {
                    old(pass).at as int
                }
            },
        },
        final(pass).skill_cast == old(pass).skill_cast,
{
    while pass.at < list.len()
        invariant
            table@.len() <= BUFF_TABLE_SIZE,
            pass.skill_cast == old(pass).skill_cast,
            old(pass).at <= pass.at,
            pass.at <= list@.len() || pass.at == old(pass).at,
            next_wanted(
                list@,
                old(pass).at as int,
                table@,
                class,
                cooldowns@,
                now,
                old(pass).skill_cast,
            ) == next_wanted(
                list@,
                pass.at as int,
                table@,
                class,
                cooldowns@,
                now,
                old(pass).skill_cast,
            ),
        decreases list@.len() - pass.at,
    {
        let i: usize = pass.at;
        pass.at = i + 1;
        let bi: &BuffItem = &list[i];
        if bi.id < 0 || bi.id as usize >= table.len() {
            continue ;
        }
        let key: u64 = key_of(bi.item_type, bi.id);
        if let Some(last) = cooldowns.get(&key) {
            if now.saturating_sub(*last) < BUFF_COOLDOWN {
                continue ;
            }
        }
        if bi.item_type == 'S' && pass.skill_cast {
            continue ;
        }
        let state_id: i32 = remap(class, bi.id);
        if (state_id as usize) < table.len() && table[state_id as usize] != 0 {
            continue ;
        }
        return Some((i, SECOND_STATE_TABLE + state_id as u32));
    }
    None
}

/// Whether something is missing as far as the second table tells, too; what could
/// not be read counts as missing.
pub fn second_state_clear(byte: Option<u8>) -> (r: bool)
    ensures
        r == (byte is None || byte == Some(0u8)),
{
    match byte {
        None => true,
        Some(b) => b == 0,
    }
}

/// Keeps that something was used, whatever came of it.
pub fn buff_used(
    pass: &mut BuffPass,
    bi: &BuffItem,
    outcome: &DispatchOutcome,
    cooldowns: &mut HashMap<u64, u64>,
    now: u64,
)
    requires
        0 <= bi.id,
    ensures
        final(cooldowns)@ == old(cooldowns)@.insert(cooldown_key(bi.item_type, bi.id), now),
        final(pass).at == old(pass).at,
        final(pass).skill_cast == (old(pass).skill_cast || outcome is SkillCast),
{
    cooldowns.insert(key_of(bi.item_type, bi.id), now);
    if let DispatchOutcome::SkillCast = outcome {
        pass.skill_cast = true;
    }
}

/// Once a spell has been cast at a tick, no other is.
pub proof fn one_spell_per_tick(
    list: Seq<BuffItem>,
    at: int,
    table: Seq<u8>,
    class: u8,
    cooldowns: Map<u64, u64>,
    now: u64,
)
    ensures
        next_wanted(list, at, table, class, cooldowns, now, true) matches Some(i) ==> list[i].item_type
            != 'S',
    decreases list.len() - at,
{
    if 0 <= at < list.len() && !buff_wanted(list[at], table, class, cooldowns, now, true) {
        one_spell_per_tick(list, at + 1, table, class, cooldowns, now);
    }
}

/// What was just used is left alone for a while.
pub proof fn used_things_rest(
    bi: BuffItem,
    table: Seq<u8>,
    class: u8,
    cooldowns: Map<u64, u64>,
    used_at: u64,
    now: u64,
    skill_cast: bool,
)
    requires
        queue::age(used_at, now) < BUFF_COOLDOWN,
    ensures
        !buff_wanted(
            bi,
            table,
            class,
            cooldowns.insert(cooldown_key(bi.item_type, bi.id), used_at),
            now,
            skill_cast,
        ),
{
}

/// When each thing of the status page was last done.
#[derive(Debug, Clone, Copy, PartialEq, Eq, Structural)]
pub struct StatusCooldowns {
    pub eat_meat: Option<u64>,
    pub antidote: Option<u64>,
    pub whetstone: Option<u64>,
    pub transform: Option<u64>,
}

/// Nothing was ever done.
impl Default for StatusCooldowns {
    fn default() -> (r: Self)
        ensures
            r.eat_meat is None,
            r.antidote is None,
            r.whetstone is None,
            r.transform is None,
    {
        StatusCooldowns { eat_meat: None, antidote: None, whetstone: None, transform: None }
    }
}

/// What is to be done of the status page.
#[derive(Debug, Clone, Copy, PartialEq, Eq, Structural)]
pub struct StatusPlan {
    pub eat_meat: bool,
    pub antidote: bool,
    pub whetstone: bool,
    pub transform: bool,
}

/// Time between two times that the same thing of the status page is done.
pub const STATUS_COOLDOWN: u64 = 5_000_000_000;

/// What is to be done of the status page: the player eats when not full, takes an
/// antidote when poisoned, looks after the weapon and transforms, each not more often
/// than every [`STATUS_COOLDOWN`].
pub open spec fn status_plan(
    s: AuxSettings,
    game_state: Option<u32>,
    ready: bool,
    cooldowns: StatusCooldowns,
    now: u64,
    food: Option<u8>,
    poisoned: bool,
) -> StatusPlan {
    let acts = can_act(game_state, ready);
    StatusPlan {
        eat_meat: acts && s.status_eat_meat && due(
            cooldowns.eat_meat,
            now,
            STATUS_COOLDOWN as int,
        ) && (food is Some && food->0 < FOOD_LEVEL_DIVISOR),
        antidote: acts && s.status_antidote_enabled && s.status_antidote_item@.len() > 0 && poisoned
            && due(cooldowns.antidote, now, STATUS_COOLDOWN as int),
        whetstone: acts && s.status_whetstone && due(
            cooldowns.whetstone,
            now,
            STATUS_COOLDOWN as int,
        ),
        transform: acts && s.status_transform_enabled && s.status_transform_item@.len() > 0 && due(
            cooldowns.transform,
            now,
            STATUS_COOLDOWN as int,
        ),
    }
}

/// A time that is set where something is done.
pub open spec fn marked(last: Option<u64>, done: bool, now: u64) -> Option<u64> {
    if done {
        Some(now)
    } else {
        last
    }
}

fn mark(last: Option<u64>, done: bool, now: u64) -> (r: Option<u64>)
    ensures
        r == marked(last, done, now),
{
    if done {
        Some(now)
    } else {
        last
    }
}

/// What is to be done of the status page at a tick: `food` is what could be read of
/// how full the player is.
pub fn status_tick(
    s: &AuxSettings,
    game_state: Option<u32>,
    ready: bool,
    cooldowns: &mut StatusCooldowns,
    now: u64,
    food: Option<u8>,
    poisoned: bool,
) -> (r: StatusPlan)
    ensures
        r == status_plan(*s, game_state, ready, *old(cooldowns), now, food, poisoned),
        final(cooldowns).eat_meat == marked(old(cooldowns).eat_meat, r.eat_meat, now),
        final(cooldowns).antidote == marked(old(cooldowns).antidote, r.antidote, now),
        final(cooldowns).whetstone == marked(old(cooldowns).whetstone, r.whetstone, now),
        final(cooldowns).transform == marked(old(cooldowns).transform, r.transform, now),
{
    let none = StatusPlan { eat_meat: false, antidote: false, whetstone: false, transform: false };
    if !s.status_eat_meat && !s.status_antidote_enabled && !s.status_whetstone
        && !s.status_transform_enabled {
        return none;
    }
    if !may_act(game_state, ready) {
        return none;
    }
    let hungry: bool = match food {
        Some(raw) => (raw as u32) < FOOD_LEVEL_DIVISOR,
        None => false,
    };
    let eat_meat: bool = s.status_eat_meat && is_due(cooldowns.eat_meat, now, STATUS_COOLDOWN)
        && hungry;
    let antidote: bool = s.status_antidote_enabled && !is_empty_text(
        s.status_antidote_item.as_str(),
    ) && poisoned && is_due(cooldowns.antidote, now, STATUS_COOLDOWN);
    let whetstone: bool = s.status_whetstone && is_due(
        cooldowns.whetstone,
        now,
        STATUS_COOLDOWN,
    );
    let transform: bool = s.status_transform_enabled && !is_empty_text(
        s.status_transform_item.as_str(),
    ) && is_due(cooldowns.transform, now, STATUS_COOLDOWN);
    cooldowns.eat_meat = mark(cooldowns.eat_meat, eat_meat, now);
    cooldowns.antidote = mark(cooldowns.antidote, antidote, now);
    cooldowns.whetstone = mark(cooldowns.whetstone, whetstone, now);
    cooldowns.transform = mark(cooldowns.transform, transform, now);
    StatusPlan { eat_meat, antidote, whetstone, transform }
}

/// What was done rests: at once after a tick, nothing of the status page is done.
pub proof fn status_rests_after_a_tick(
    s: AuxSettings,
    game_state: Option<u32>,
    ready: bool,
    before: StatusCooldowns,
    after: StatusCooldowns,
    now: u64,
    food: Option<u8>,
    poisoned: bool,
)
    requires
        ({
            let r = status_plan(s, game_state, ready, before, now, food, poisoned);
            &&& after.eat_meat == marked(before.eat_meat, r.eat_meat, now)
            &&& after.antidote == marked(before.antidote, r.antidote, now)
            &&& after.whetstone == marked(before.whetstone, r.whetstone, now)
            &&& after.transform == marked(before.transform, r.transform, now)
        }),
    ensures
        status_plan(s, game_state, ready, after, now, food, poisoned) == (StatusPlan {
            eat_meat: false,
            antidote: false,
            whetstone: false,
            transform: false,
        }),
{
}

/// What was done at `now` is not done again before its time is over.
pub proof fn done_things_rest(
    s: AuxSettings,
    game_state: Option<u32>,
    ready: bool,
    done: StatusPlan,
    before: StatusCooldowns,
    after: StatusCooldowns,
    now: u64,
    later: u64,
    food: Option<u8>,
    poisoned: bool,
)
    requires
        after.eat_meat == marked(before.eat_meat, done.eat_meat, now),
        after.antidote == marked(before.antidote, done.antidote, now),
        after.whetstone == marked(before.whetstone, done.whetstone, now),
        after.transform == marked(before.transform, done.transform, now),
        queue::age(now, later) < STATUS_COOLDOWN,
    ensures
        ({
            let r = status_plan(s, game_state, ready, after, later, food, poisoned);
            &&& done.eat_meat ==> !r.eat_meat
            &&& done.antidote ==> !r.antidote
            &&& done.whetstone ==> !r.whetstone
            &&& done.transform ==> !r.transform
        }),
{
}

/// The name of what is eaten.
pub const MEAT: &'static str = "肉";

/// The call that eats, if there is meat.
pub open spec fn eat_call(items: Seq<Item>) -> Option<GameCall> {
    match inventory::first_fit(items, Want::Bare(MEAT@)) {
        Some(i) => Some(GameCall::UseItem(items[i].entry_addr)),
        None => None,
    }
}

/// The call that eats, if there is meat.
pub fn eat_action(items: &Vec<Item>) -> (r: Option<GameCall>)
    ensures
        r == eat_call(items@),
{
    match find(items, &Wanted::Bare(MEAT)) {
        Some(i) => Some(GameCall::UseItem(items[i].entry_addr)),
        None => None,
    }
}

/// The call of an antidote: an item of the bag, or a spell of the book on oneself.
pub open spec fn antidote_call(
    bi: BuffItem,
    bare_name: Seq<char>,
    items: Option<Seq<Item>>,
    book: Option<SpellBook>,
) -> Option<GameCall> {
    if bi.item_type == 'I' {
        match items {
            None => None,
            Some(list) => match inventory::first_fit(list, Want::Bare(bare_name)) {
                Some(i) => Some(GameCall::UseItem(list[i].entry_addr)),
                None => None,
            },
        }
    } else if bi.item_type == 'S' {
        match book {
            None => None,
            Some(b) => match name_table::found(b@, bi.name@) {
                Some(packed) => Some(
                    GameCall::Skill { packed, mode: SkillTargetMode::ForceSelfPacket },
                ),
                None => None,
            },
        }
    } else {
        None
    }
}

/// The call of an antidote.
pub fn fire_status_action(
    bi: &BuffItem,
    bare_name: &str,
    items: Option<&Vec<Item>>,
    book: &Option<SpellBook>,
) -> (r: Option<GameCall>)
    requires
        *book matches Some(b) ==> b.wf(),
    ensures
        r == antidote_call(*bi, bare_name@, items_of(items), *book),
{
    match bi.item_type {
        'I' => match items {
            None => None,
            Some(list) => match find(list, &Wanted::Bare(bare_name)) {
                Some(i) => Some(GameCall::UseItem(list[i].entry_addr)),
                None => None,
            },
        },
        'S' => match book {
            None => None,
            Some(b) => match b.lookup(bi.name.as_str()) {
                Some(packed) => Some(
                    GameCall::Skill { packed, mode: SkillTargetMode::ForceSelfPacket },
                ),
                None => None,
            },
        },
        _ => None,
    }
}

/// The state of being transformed.
pub const TRANSFORM_STATE_ID: u32 = 39;

/// What transforms the player.
#[derive(Debug)]
pub enum TransformAction {
    /// Nothing is to be done.
    Nothing,
    /// The item is not in the bag.
    NotFound,
    /// Uses the item that stands there.
    UseItem(u32),
    /// Uses the scroll with this number, into what the text says.
    Scroll(u32, String),
}

/// What transforms the player, with the text as a sequence of characters.
pub enum TransformView {
    Nothing,
    NotFound,
    UseItem(u32),
    Scroll(u32, Seq<char>),
}

impl View for TransformAction {
    type V = TransformView;

    open spec fn view(&self) -> TransformView {
        match self {
            TransformAction::Nothing => TransformView::Nothing,
            TransformAction::NotFound => TransformView::NotFound,
            TransformAction::UseItem(entry) => TransformView::UseItem(*entry),
            TransformAction::Scroll(param, into) => TransformView::Scroll(*param, into@),
        }
    }
}

/// Whether the bytes that were read tell that the player is transformed: a table that
/// gave no byte tells nothing.
pub open spec fn state_set(byte_a: Option<u8>, byte_b: Option<u8>) -> bool {
    (byte_a is Some && byte_a->0 != 0) || (byte_b is Some && byte_b->0 != 0)
}

/// What transforms the player, if the player is not transformed: the item is used,
/// or, where the settings say into what, used as a scroll.
pub open spec fn transform_view(
    item_type: char,
    bare_name: Seq<char>,
    option: Seq<char>,
    byte_a: Option<u8>,
    byte_b: Option<u8>,
    items: Seq<Item>,
) -> TransformView {
    if item_type != 'I' || state_set(byte_a, byte_b) {
        TransformView::Nothing
    } else {
        match inventory::first_fit(items, Want::Bare(bare_name)) {
            None => TransformView::NotFound,
            Some(i) => if text::trimmed(option).len() == 0 {
                TransformView::UseItem(items[i].entry_addr)
            } else {
                TransformView::Scroll(items[i].item_param, text::trimmed(option))
            },
        }
    }
}

/// What transforms the player.
pub fn transform_tick(
    item_type: char,
    bare_name: &str,
    option_string: &str,
    byte_a: Option<u8>,
    byte_b: Option<u8>,
    items: &Vec<Item>,
) -> (r: TransformAction)
    ensures
        r@ == transform_view(item_type, bare_name@, option_string@, byte_a, byte_b, items@),
{
    if item_type != 'I' {
        return TransformAction::Nothing;
    }
    let set_a: bool = match byte_a {
        Some(b) => b != 0,
        None => false,
    };
    let set_b: bool = match byte_b {
        Some(b) => b != 0,
        None => false,
    };
    if set_a || set_b {
        return TransformAction::Nothing;
    }
    match find(items, &Wanted::Bare(bare_name)) {
        None => TransformAction::NotFound,
        Some(i) => {
            if is_blank(option_string) {
                TransformAction::UseItem(items[i].entry_addr)
            } else {
                TransformAction::Scroll(items[i].item_param, trim(option_string))
            }
        },
    }
}

/// Offset of the address of an item's description.
pub const DESCRIPTION_OFFSET: u32 = 0xA8;

/// Lowest address at which a description can stand.
pub const DESCRIPTION_MIN_ADDR: u32 = 0x0010_0000;

/// The name of a whetstone.
pub const WHETSTONE: &'static str = "磨刀石";

/// What a description says of a weapon that is damaged.
pub const DURABILITY_TAG: [u8; 6] = [0xB7, 0x6C, 0xC3, 0x61, 0xAB, 0xD7];

/// Whether a description says that a weapon is damaged.
pub open spec fn damaged(desc: Seq<u8>) -> bool {
    sprite_types::holds_bytes(code::until_zero(desc), DURABILITY_TAG@)
}

fn needs_repair(desc_raw: &[u8]) -> (r: bool)
    ensures
        r == damaged(desc_raw@),
{
    let desc: &[u8] = vstd::slice::slice_subrange(desc_raw, 0, zero_at(desc_raw));
    assert(desc@ =~= code::until_zero(desc_raw@));
    contains_bytes(desc, DURABILITY_TAG.as_slice())
}

/// The weapon that is wielded.
pub fn wielded_weapon(items: &Vec<Item>) -> (r: Option<usize>)
    ensures
        match r {
            Some(i) => i < items@.len() && inventory::first_fit(items@, Want::Tagged(WIELDED@))
                == Some(i as int),
            None => inventory::first_fit(items@, Want::Tagged(WIELDED@)) is None,
        },
{
    find(items, &Wanted::Tagged(WIELDED))
}

/// There is no whetstone.
#[derive(Debug, Clone, Copy, PartialEq, Eq, Structural)]
pub struct NoWhetstone;

/// The call that looks after a weapon, if its description says that it is damaged.
pub open spec fn whetstone_call(
    items: Seq<Item>,
    weapon: int,
    desc_ptr: u32,
    desc: Seq<u8>,
) -> Result<Option<GameCall>, NoWhetstone> {
    if desc_ptr < DESCRIPTION_MIN_ADDR || !damaged(desc) {
        Ok(None)
    } else {
        match inventory::first_fit(items, Want::Bare(WHETSTONE@)) {
            None => Err(NoWhetstone),
            Some(i) => Ok(
                Some(
                    GameCall::UseOn {
                        source: items[i].item_param,
                        target: items[weapon].item_param,
                    },
                ),
            ),
        }
    }
}

/// The call that looks after a weapon, if its description says that it is damaged:
/// `desc_ptr` is the description's address, `desc` what could be read of it.
pub fn whetstone_tick(items: &Vec<Item>, weapon: usize, desc_ptr: u32, desc: &[u8]) -> (r: Result<
    Option<GameCall>,
    NoWhetstone,
>)
    requires
        weapon < items@.len(),
    ensures
        r == whetstone_call(items@, weapon as int, desc_ptr, desc@),
{
    if desc_ptr < DESCRIPTION_MIN_ADDR {
        return Ok(None);
    }
    if !needs_repair(desc) {
        return Ok(None);
    }
    match find(items, &Wanted::Bare(WHETSTONE)) {
        None => Err(NoWhetstone),
        Some(i) => Ok(
            Some(
                GameCall::UseOn { source: items[i].item_param, target: items[weapon].item_param },
            ),
        ),
    }
}

/// Whether a name is that of an item that is neither worn nor wielded.
pub open spec fn unused_name(n: Seq<char>) -> bool {
    !text::contains(n, IN_USE@) && !text::contains(n, WIELDED@)
}

/// The names of items.
pub open spec fn item_names(items: Seq<Item>) -> Seq<Seq<char>> {
    Seq::new(items.len(), |i: int| items[i].name@)
}

/// Whether an item of this name is in the bag and not in use.
pub open spec fn disposable(needle: Seq<char>, names: Seq<Seq<char>>) -> bool {
    unused_name(needle) && names.contains(needle)
}

/// The first of a list that is in the bag and not in use.
pub open spec fn first_disposable(list: Seq<Seq<char>>, names: Seq<Seq<char>>) -> Option<Seq<char>>
    decreases list.len(),
{
    if list.len() == 0 {
        None
    } else if disposable(list[0], names) {
        Some(list[0])
    } else {
        first_disposable(list.drop_first(), names)
    }
}

fn pick_disposable(list: &Vec<String>, names: &Vec<String>) -> (r: Option<String>)
    ensures
        (match r {
            Some(n) => Some(n@),
            None => None,
        }) == first_disposable(text::text_views(list@), text::text_views(names@)),
{
    let ghost wanted = text::text_views(list@);
    let ghost bag = text::text_views(names@);
    let mut i: usize = 0;
    assert(wanted.skip(0) =~= wanted);
    while i < list.len()
        invariant
            i <= list@.len(),
            wanted == text::text_views(list@),
            bag == text::text_views(names@),
            first_disposable(wanted, bag) == first_disposable(wanted.skip(i as int), bag),
        decreases list@.len() - i,
    {
        assert(wanted.skip(i as int)[0] == list@[i as int]@);
        assert(wanted.skip(i as int).drop_first() =~= wanted.skip(i + 1));
        let needle: &str = list[i].as_str();
        if !holds(needle, IN_USE) && !holds(needle, WIELDED) && is_listed(needle, names) {
            return Some(text_of(needle));
        }
        i += 1;
    }
    None
}

fn is_listed(needle: &str, names: &Vec<String>) -> (r: bool)
    ensures
        r == text::text_views(names@).contains(needle@),
{
    let mut k: usize = 0;
    while k < names.len()
        invariant
            k <= names@.len(),
            forall|m: int| 0 <= m < k ==> (#[trigger] names@[m])@ != needle@,
        decreases names@.len() - k,
    {
        if same_text(names[k].as_str(), needle) {
            assert(text::text_views(names@)[k as int] == needle@);
            return true;
        }
        k += 1;
    }
    assert forall|m: int| 0 <= m < names@.len() implies #[trigger] text::text_views(names@)[m]
        != needle@ by {
        assert(names@[m]@ != needle@);
    }
    false
}

/// What to get rid of, and how: what is to be deleted goes before what is to be
/// dissolved.
pub fn pick_delete_action(
    delete_list: &Vec<String>,
    dissolve_list: &Vec<String>,
    inv_names: &Vec<String>,
) -> (r: Option<(&'static str, String)>)
    ensures
        ({
            let names = text::text_views(inv_names@);
            let to_delete = first_disposable(text::text_views(delete_list@), names);
            let to_dissolve = first_disposable(text::text_views(dissolve_list@), names);
            match r {
                Some((mode, name)) => if to_delete is Some {
                    mode@ == "delete"@ && to_delete == Some(name@)
                } else {
                    mode@ == "dissolve"@ && to_dissolve == Some(name@)
                },
                None => to_delete is None && to_dissolve is None,
            }
        }),
{
    if let Some(name) = pick_disposable(delete_list, inv_names) {
        return Some(("delete", name));
    }
    if let Some(name) = pick_disposable(dissolve_list, inv_names) {
        return Some(("dissolve", name));
    }
    None
}

/// Nothing that is in use is ever picked, and only what is in the bag and on the
/// list.
pub proof fn only_unused_things_go(list: Seq<Seq<char>>, names: Seq<Seq<char>>)
    ensures
        first_disposable(list, names) matches Some(n) ==> unused_name(n) && names.contains(n)
            && list.contains(n),
    decreases list.len(),
{
    if list.len() > 0 {
        if disposable(list[0], names) {
            assert(list.contains(list[0]));
        } else {
            let rest = list.drop_first();
            only_unused_things_go(rest, names);
            if let Some(n) = first_disposable(rest, names) {
                let i = choose|i: int| 0 <= i < rest.len() && rest[i] == n;
                assert(list[i + 1] == n);
            }
        }
    }
}

/// The names of items.
pub fn names_of(items: &Vec<Item>) -> (r: Vec<String>)
    ensures
        text::text_views(r@) == item_names(items@),
{
    let mut names: Vec<String> = Vec::new();
    let mut i: usize = 0;
    while i < items.len()
        invariant
            i <= items@.len(),
            names@.len() == i,
            forall|k: int| 0 <= k < i ==> (#[trigger] names@[k])@ == items@[k].name@,
        decreases items@.len() - i,
    {
        names.push(text_of(items[i].name.as_str()));
        i += 1;
    }
    assert(text::text_views(names@) =~= item_names(items@));
    names
}

/// What the name of a solvent starts with.
pub const SOLVENT: &'static str = "溶解劑";

/// How to get rid of something.
#[derive(Debug, Clone, Copy, PartialEq, Eq, Structural)]
pub enum DeleteAction {
    Nothing,
    Act(GameCall),
    /// Something is to be dissolved, but there is no solvent.
    NoSolvent,
}

/// How to get rid of something at a tick: the first item of the name that was picked
/// is deleted with all of its count, or dissolved with a solvent of the bag.
pub open spec fn delete_action(
    delete_list: Seq<Seq<char>>,
    dissolve_list: Seq<Seq<char>>,
    items: Seq<Item>,
) -> DeleteAction {
    let names = item_names(items);
    match first_disposable(delete_list, names) {
        Some(name) => match inventory::first_fit(items, Want::Exact(name)) {
            Some(i) => DeleteAction::Act(
                GameCall::Delete { item: items[i].item_param, count: items[i].count },
            ),
            None => DeleteAction::Nothing,
        },
        None => match first_disposable(dissolve_list, names) {
            Some(name) => match inventory::first_fit(items, Want::Exact(name)) {
                Some(i) => match inventory::first_fit(items, Want::Prefixed(SOLVENT@)) {
                    Some(v) => DeleteAction::Act(
                        GameCall::UseOn {
                            source: items[v].item_param,
                            target: items[i].item_param,
                        },
                    ),
                    None => DeleteAction::NoSolvent,
                },
                None => DeleteAction::Nothing,
            },
            None => DeleteAction::Nothing,
        },
    }
}

/// Whether there is anything to get rid of.
pub open spec fn deletes(s: AuxSettings, game_state: Option<u32>, ready: bool) -> bool {
    s.delete_enabled && (s.delete_list@.len() > 0 || s.dissolve_list@.len() > 0) && can_act(
        game_state,
        ready,
    )
}

/// How to get rid of something at a tick; `items` is the bag, if it could be read.
pub fn delete_tick(
    s: &AuxSettings,
    game_state: Option<u32>,
    ready: bool,
    items: Option<&Vec<Item>>,
) -> (r: DeleteAction)
    ensures
        !deletes(*s, game_state, ready) || items is None ==> r == DeleteAction::Nothing,
        deletes(*s, game_state, ready) && items is Some ==> r == delete_action(
            text::text_views(s.delete_list@),
            text::text_views(s.dissolve_list@),
            items->0@,
        ),
{
    if !s.delete_enabled || (s.delete_list.len() == 0 && s.dissolve_list.len() == 0) {
        return DeleteAction::Nothing;
    }
    if !may_act(game_state, ready) {
        return DeleteAction::Nothing;
    }
    let items: &Vec<Item> = match items {
        None => return DeleteAction::Nothing,
        Some(items) => items,
    };
    let names: Vec<String> = names_of(items);
    match pick_delete_action(&s.delete_list, &s.dissolve_list, &names) {
        None => DeleteAction::Nothing,
        Some((mode, name)) => {
            proof {
                reveal_strlit("delete");
                reveal_strlit("dissolve");
                assert("delete"@.len() != "dissolve"@.len());
            }
            let target: usize = match find(items, &Wanted::Exact(name.as_str())) {
                None => return DeleteAction::Nothing,
                Some(i) => i,
            };
            if same_text(mode, "delete") {
                DeleteAction::Act(
                    GameCall::Delete {
                        item: items[target].item_param,
                        count: items[target].count,
                    },
                )
            } else {
                match find(items, &Wanted::Prefixed(SOLVENT)) {
                    None => DeleteAction::NoSolvent,
                    Some(v) => DeleteAction::Act(
                        GameCall::UseOn {
                            source: items[v].item_param,
                            target: items[target].item_param,
                        },
                    ),
                }
            }
        },
    }
}

/// The message whose turn it is.
pub open spec fn turn_of(idx: int, len: int) -> int {
    idx % len
}

/// Whose turn it is after that.
pub open spec fn turn_after(idx: int, len: int) -> int {
    (turn_of(idx, len) + 1) % len
}

/// The next message and the index after it; messages go round.
pub fn pick_shout_message(messages: &Vec<String>, next_idx: usize) -> (r: Option<(String, usize)>)
    ensures
        match r {
            None => messages@.len() == 0,
            Some((msg, next)) => {
                &&& messages@.len() > 0
                &&& msg@ == messages@[turn_of(next_idx as int, messages@.len() as int)]@
                &&& next == turn_after(next_idx as int, messages@.len() as int)
            },
        },
{
    if messages.len() == 0 {
        return None;
    }
    let len: usize = messages.len();
    let i: usize = next_idx % len;
    let next: usize = if i + 1 == len {
        0
    } else {
        i + 1
    };
    proof {
        if i + 1 == len {
            assert((i + 1) % len as int == 0);
        } else {
            vstd::arithmetic::div_mod::lemma_small_mod((i + 1) as nat, len as nat);
        }
    }
    Some((text_of(messages[i].as_str()), next))
}

/// The index after several messages.
pub open spec fn index_after(start: int, n: nat, len: int) -> int
    decreases n,
{
    if n == 0 {
        start
    } else {
        turn_after(index_after(start, (n - 1) as nat, len), len)
    }
}

/// As many messages later as there are messages, it is the same message's turn
/// again.
pub proof fn messages_go_round(start: int, n: nat, len: int)
    requires
        0 < len,
        0 <= start,
    ensures
        0 <= index_after(start, n, len),
        index_after(start, n, len) % len == (start + n) % len,
    decreases n,
{
    if n > 0 {
        messages_go_round(start, (n - 1) as nat, len);
        let before = index_after(start, (n - 1) as nat, len);
        vstd::arithmetic::div_mod::lemma_add_mod_noop(before, 1, len);
        vstd::arithmetic::div_mod::lemma_add_mod_noop(start + n - 1, 1, len);
        vstd::arithmetic::div_mod::lemma_mod_twice(before % len + 1, len);
        vstd::arithmetic::div_mod::lemma_mod_bound(before % len + 1, len);
        assert((before % len + 1) % len == (before + 1) % len) by {
            vstd::arithmetic::div_mod::lemma_add_mod_noop_right(1, before, len);
        }
        assert((start + n - 1 + 1) % len == ((start + n - 1) % len + 1) % len) by {
            vstd::arithmetic::div_mod::lemma_add_mod_noop_right(1, start + n - 1, len);
        }
    }
}

/// Whether it is time for a message.
pub open spec fn shouts(
    s: AuxSettings,
    game_state: Option<u32>,
    ready: bool,
    last_fire: Option<u64>,
    now: u64,
) -> bool {
    &&& s.shout_enabled
    &&& s.shout_messages@.len() > 0
    &&& s.shout_interval_sec > 0
    &&& can_act(game_state, ready)
    &&& due(last_fire, now, s.shout_interval_sec * SECOND)
}

/// The message to say at a tick, if it is time for one.
pub fn shout_tick(
    s: &AuxSettings,
    game_state: Option<u32>,
    ready: bool,
    last_fire: &mut Option<u64>,
    next_idx: &mut usize,
    now: u64,
) -> (r: Option<String>)
    ensures
        match r {
            None => !shouts(*s, game_state, ready, *old(last_fire), now) && *final(last_fire)
                == *old(last_fire) && *final(next_idx) == *old(next_idx),
            Some(msg) => {
                let len = s.shout_messages@.len() as int;
                &&& shouts(*s, game_state, ready, *old(last_fire), now)
                &&& msg@ == s.shout_messages@[turn_of(*old(next_idx) as int, len)]@
                &&& *final(next_idx) == turn_after(*old(next_idx) as int, len)
                &&& *final(last_fire) == Some(now)
            },
        },
{
    if !s.shout_enabled || s.shout_messages.len() == 0 || s.shout_interval_sec == 0 {
        return None;
    }
    if !may_act(game_state, ready) {
        return None;
    }
    if !is_due(*last_fire, now, s.shout_interval_sec as u64 * SECOND) {
        return None;
    }
    match pick_shout_message(&s.shout_messages, *next_idx) {
        None => None,
        Some((msg, next)) => {
            *next_idx = next;
            *last_fire = Some(now);
            Some(msg)
        },
    }
}

/// Keeps what came of a message that [`shout_tick`] gave: one that could not be said
/// is taken back, to where things stood before that tick.
pub fn shout_settled(
    said: bool,
    last_fire: &mut Option<u64>,
    next_idx: &mut usize,
    last_before: Option<u64>,
    idx_before: usize,
)
    ensures
        *final(last_fire) == if said {
            *old(last_fire)
        } else {
            last_before
        },
        *final(next_idx) == if said {
            *old(next_idx)
        } else {
            idx_before
        },
{
    if !said {
        *last_fire = last_before;
        *next_idx = idx_before;
    }
}

/// A message that could not be said is due again at every later tick.
pub proof fn unsaid_messages_stay_due(
    s: AuxSettings,
    game_state: Option<u32>,
    ready: bool,
    last_before: Option<u64>,
    now: u64,
    later: u64,
)
    requires
        shouts(s, game_state, ready, last_before, now),
        now <= later,
    ensures
        shouts(s, game_state, ready, last_before, later),
{
}

/// Whether a row is to be done.
pub open spec fn timer_due(row: TimerRow, last_fire: Option<u64>, now: u64) -> bool {
    &&& row.enabled
    &&& row.command@.len() > 0
    &&& due(last_fire, now, row.interval_sec * SECOND)
}

/// The first row from `i` on that is to be done.
pub open spec fn first_timer(
    rows: Seq<TimerRow>,
    last_fire: Seq<Option<u64>>,
    now: u64,
    i: int,
) -> Option<int>
    decreases 6 - i,
{
    if i >= 6 {
        None
    } else if timer_due(rows[i], last_fire[i], now) {
        Some(i)
    } else {
        first_timer(rows, last_fire, now, i + 1)
    }
}

/// The first row that is to be done, unless all are switched off.
pub fn pick_timer_action(
    rows: &[TimerRow; 6],
    last_fire: &[Option<u64>; 6],
    master_enabled: bool,
    now: u64,
) -> (r: Option<usize>)
    ensures
        match r {
            Some(i) => i < 6 && master_enabled && first_timer(rows@, last_fire@, now, 0) == Some(
                i as int,
            ),
            None => !master_enabled || first_timer(rows@, last_fire@, now, 0) is None,
        },
{
    if !master_enabled {
        return None;
    }
    let mut i: usize = 0;
    while i < 6
        invariant
            i <= 6,
            master_enabled,
            first_timer(rows@, last_fire@, now, 0) == first_timer(
                rows@,
                last_fire@,
                now,
                i as int,
            ),
        decreases 6 - i,
    {
        let row: &TimerRow = &rows[i];
        if row.enabled && !is_empty_text(row.command.as_str()) && is_due(
            last_fire[i],
            now,
            row.interval_sec as u64 * SECOND,
        ) {
            return Some(i);
        }
        i += 1;
    }
    None
}

/// Of several rows that are to be done, the first goes.
pub proof fn first_timer_is_smallest(
    rows: Seq<TimerRow>,
    last_fire: Seq<Option<u64>>,
    now: u64,
    i: int,
    k: int,
)
    requires
        0 <= i <= k < 6,
        timer_due(rows[k], last_fire[k], now),
    ensures
        first_timer(rows, last_fire, now, i) matches Some(j) && i <= j <= k && timer_due(
            rows[j],
            last_fire[j],
            now,
        ),
    decreases k - i,
{
    if !timer_due(rows[i], last_fire[i], now) {
        first_timer_is_smallest(rows, last_fire, now, i + 1, k);
    }
}

/// When rows were last done, after those that were reset start anew.
pub open spec fn after_resets(
    last_fire: Seq<Option<u64>>,
    seen: Seq<u64>,
    resets: Seq<u64>,
    now: u64,
) -> Seq<Option<u64>> {
    Seq::new(
        6,
        |i: int|
            if resets[i] != seen[i] {
                Some(now)
            } else {
                last_fire[i]
            },
    )
}

/// The row to do at a tick: rows that were reset since the last tick start anew, and
/// what is done is kept as done.
pub fn timer_tick(
    s: &AuxSettings,
    game_state: Option<u32>,
    ready: bool,
    resets: &[u64; 6],
    last_fire: &mut [Option<u64>; 6],
    last_seen: &mut [u64; 6],
    now: u64,
) -> (r: Option<usize>)
    ensures
        ({
            let acts = s.timer_master_enabled && can_act(game_state, ready);
            let reset = after_resets(old(last_fire)@, old(last_seen)@, resets@, now);
            if !acts {
                &&& r is None
                &&& final(last_fire)@ == old(last_fire)@
                &&& final(last_seen)@ == old(last_seen)@
            } else {
                &&& final(last_seen)@ == resets@
                &&& match r {
                    Some(i) => i < 6 && first_timer(s.timer_rows@, reset, now, 0) == Some(i as int)
                        && final(last_fire)@ == reset.update(i as int, Some(now)),
                    None => first_timer(s.timer_rows@, reset, now, 0) is None && final(last_fire)@
                        == reset,
                }
            }
        }),
{
    if !s.timer_master_enabled || !may_act(game_state, ready) {
        return None;
    }
    let ghost fire = last_fire@;
    let ghost seen = last_seen@;
    let mut i: usize = 0;
    while i < 6
        invariant
            i <= 6,
            fire == old(last_fire)@,
            seen == old(last_seen)@,
            forall|k: int|
                0 <= k < i ==> #[trigger] last_fire@[k] == after_resets(
                    fire,
                    seen,
                    resets@,
                    now,
                )[k],
            forall|k: int| i <= k < 6 ==> #[trigger] last_fire@[k] == fire[k],
            forall|k: int| 0 <= k < i ==> #[trigger] last_seen@[k] == resets@[k],
            forall|k: int| i <= k < 6 ==> #[trigger] last_seen@[k] == seen[k],
        decreases 6 - i,
    {
        let cur: u64 = resets[i];
        if cur != last_seen[i] {
            last_fire[i] = Some(now);
            last_seen[i] = cur;
        }
        i += 1;
    }
    assert(last_fire@ =~= after_resets(fire, seen, resets@, now));
    assert(last_seen@ =~= resets@);
    match pick_timer_action(&s.timer_rows, last_fire, s.timer_master_enabled, now) {
        None => None,
        Some(idx) => {
            last_fire[idx] = Some(now);
            assert(last_fire@ =~= after_resets(fire, seen, resets@, now).update(
                idx as int,
                Some(now),
            ));
            Some(idx)
        },
    }
}

/// What was last set of a switch that is set at every tick, and what was last wrong
/// with it.
#[derive(Debug)]
pub struct SyncState {
    pub last_want: Option<bool>,
    pub last_error: Option<String>,
}

/// Nothing was set yet.
impl Default for SyncState {
    fn default() -> (r: Self)
        ensures
            r.last_want is None,
            r.last_error is None,
    {
        SyncState { last_want: None, last_error: None }
    }
}

/// Keeps what came of setting a switch, and tells whether that is news.
pub fn sync_tick(state: &mut SyncState, want: bool, result: Result<(), String>) -> (news: bool)
    ensures
        match result {
            Ok(_) => {
                &&& news == (old(state).last_want != Some(want))
                &&& final(state).last_want == Some(want)
                &&& final(state).last_error is None
            },
            Err(msg) => {
                &&& news == !(old(state).last_error is Some && (old(state).last_error->0)@ == msg@)
                &&& final(state).last_want == old(state).last_want
                &&& final(state).last_error == Some(msg)
            },
        },
{
    match result {
        Ok(_) => {
            let news: bool = match state.last_want {
                Some(w) => w != want,
                None => true,
            };
            state.last_want = Some(want);
            state.last_error = None;
            news
        },
        Err(msg) => {
            let news: bool = match &state.last_error {
                Some(last) => !same_text(last.as_str(), msg.as_str()),
                None => true,
            };
            state.last_error = Some(msg);
            news
        },
    }
}

/// The player's figures as they were last shown, and whether the bag was.
#[derive(Debug, Clone, Copy)]
pub struct StatePoll {
    pub last: Option<PlayerState>,
    pub inventory_dumped: bool,
}

/// What to show.
#[derive(Debug, Clone, Copy, PartialEq, Eq, Structural)]
pub struct PollReport {
    pub figures: bool,
    pub inventory: bool,
}

/// Whether two players' figures look the same.
pub open spec fn same_figures(a: PlayerState, b: PlayerState) -> bool {
    a.hp == b.hp && a.max_hp == b.max_hp && a.mp == b.mp && a.max_mp == b.max_mp && a.food == b.food
        && a.weight == b.weight && a.map_id == b.map_id
}

/// What to show of the player's figures at a tick: the figures when they changed, the
/// bag once; nothing before there are figures.
pub fn state_poll(poll: &mut StatePoll, state: Option<PlayerState>) -> (r: PollReport)
    ensures
        ({
            let seen = state is Some && state->0.max_hp > 0;
            &&& r.figures == (seen && !(old(poll).last is Some && same_figures(
                old(poll).last->0,
                state->0,
            )))
            &&& r.inventory == (seen && !old(poll).inventory_dumped)
            &&& final(poll).last == if r.figures {
                state
            } else {
                old(poll).last
            }
            &&& final(poll).inventory_dumped == (old(poll).inventory_dumped || seen)
        }),
{
    match state {
        None => PollReport { figures: false, inventory: false },
        Some(s) => {
            if s.max_hp == 0 {
                return PollReport { figures: false, inventory: false };
            }
            let figures: bool = match poll.last {
                None => true,
                Some(p) => p.hp != s.hp || p.max_hp != s.max_hp || p.mp != s.mp || p.max_mp
                    != s.max_mp || p.food != s.food || p.weight != s.weight || p.map_id != s.map_id,
            };
            if figures {
                poll.last = Some(s);
            }
            let inventory: bool = !poll.inventory_dumped;
            poll.inventory_dumped = true;
            PollReport { figures, inventory }
        },
    }
}

/// What a line of the chat starts with to be green.
pub const CHAT_GREEN: [u8; 3] = [0x5C, 0x46, 0x32];

/// The tracker after a tick: it is switched off at any time, but on only in the world
/// and with a total to start from.
pub open spec fn exp_after(
    t: ExpTracker,
    want: bool,
    game_state: Option<u32>,
    total: Option<u32>,
) -> ExpTracker {
    if !want {
        if t.enabled {
            exp_tracker::off()
        } else {
            t
        }
    } else if game_state != Some(IN_WORLD) || total is None {
        t
    } else if !t.enabled {
        exp_tracker::started(total->0)
    } else {
        exp_tracker::after_tick(t, total->0)
    }
}

/// Follows the experience: gives the line to show, if there is a report.  `total` is
/// the total experience, if it could be read.
pub fn exp_tick(
    tracker: &mut ExpTracker,
    want: bool,
    game_state: Option<u32>,
    total: Option<u32>,
) -> (r: Option<Vec<u8>>)
    ensures
        *final(tracker) == exp_after(*old(tracker), want, game_state, total),
        match r {
            Some(line) => {
                &&& want && old(tracker).enabled && game_state == Some(IN_WORLD) && total is Some
                &&& exp_tracker::report(*old(tracker), total->0) is Some
                &&& line@ == CHAT_GREEN@ + exp_tracker::ascii(
                    exp_tracker::chat_line(exp_tracker::report(*old(tracker), total->0)->0),
                )
            },
            None => !(want && old(tracker).enabled && game_state == Some(IN_WORLD) && total is Some
                && exp_tracker::report(*old(tracker), total->0) is Some),
        },
{
    let in_world: bool = match game_state {
        Some(s) => s == IN_WORLD,
        None => false,
    };
    if !in_world {
        if !want && tracker.enabled {
            tracker.disable();
        }
        return None;
    }
    if want && !tracker.enabled {
        if let Some(total) = total {
            tracker.enable(total);
        }
        return None;
    }
    if !want && tracker.enabled {
        tracker.disable();
        return None;
    }
    if !want {
        return None;
    }
    let total: u32 = match total {
        None => return None,
        Some(total) => total,
    };
    match tracker.tick(total) {
        None => None,
        Some(report) => {
            let mut line: Vec<u8> = code::start(CHAT_GREEN.as_slice());
            let rest: Vec<u8> = format_chat_line(&report);
            code::push_bytes(&mut line, rest.as_slice());
            proof {
                reveal(code::put);
            }
            Some(line)
        },
    }
}

} // verus!
