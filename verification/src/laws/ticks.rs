//! What is done at a tick, and when.

use vstd::prelude::*;

use super::bag;
use super::bag::finds;
use super::bag::first_that;
use super::bag::none_that;
use super::bag::occurs;
use super::bag::occurs_at;
use crate::buff_dispatch::GameCall;
use crate::class_remap;
use crate::drink_hook::SkillTargetMode;
use crate::exp_tracker;
use crate::exp_tracker::ExpTracker;
use crate::inventory;
use crate::inventory::Item;
use crate::inventory::Want;
use crate::player_state::PlayerState;
use crate::runtime;
use crate::runtime::DeleteAction;
use crate::runtime::DrinkChoice;
use crate::runtime::StatusCooldowns;
use crate::runtime::TransformView;
use crate::settings::AuxSettings;
use crate::settings::BuffItem;
use crate::settings::CastTarget;
use crate::settings::TimerRow;
use crate::spell_book::SpellBook;
use crate::text;

verus! {

/// Whether at least `wait` nanoseconds lie between the last time, if there was one, and
/// now.
pub open spec fn rested(last: Option<u64>, now: u64, wait: int) -> bool {
    last matches Some(t) ==> t + wait <= now
}

/// Something is due where it was never done, or where its time has gone by since.
pub proof fn due_things_have_rested(last: Option<u64>, now: u64, wait: int)
    requires
        wait > 0,
    ensures
        runtime::due(last, now, wait) <==> rested(last, now, wait),
{
}

/// A percentage counts how many hundredths of the whole the part fills, rounded down:
/// it reaches `n` exactly where a hundred parts reach `n` wholes.  A whole of nothing
/// counts as one.
pub proof fn percents_are_hundredths(part: u32, whole: u32, n: int)
    requires
        part <= 42_949_672,
    ensures
        whole > 0 ==> (runtime::percent(part, whole) >= n <==> part * 100 >= n * whole),
        whole == 0 ==> runtime::percent(part, whole) == part * 100,
{
    if whole > 0 {
        let x = part * 100;
        let d = whole as int;
        let q = x / d;
        vstd::arithmetic::div_mod::lemma_fundamental_div_mod(x, d);
        vstd::arithmetic::div_mod::lemma_mod_bound(x, d);
        assert(q * d <= x < (q + 1) * d) by (nonlinear_arith)
            requires
                x == d * q + x % d,
                0 <= x % d < d,
        ;
        if q >= n {
            assert(n * d <= q * d) by (nonlinear_arith)
                requires
                    n <= q,
                    0 < d,
            ;
        } else {
            assert((q + 1) * d <= n * d) by (nonlinear_arith)
                requires
                    q + 1 <= n,
                    0 < d,
            ;
        }
        assert(runtime::percent(part, whole) == q);
    }
}

/// A percentage never falls when the part grows, nor rises when the whole does, also
/// where a hundred parts are more than 32 bits hold.
pub proof fn percents_grow_with_the_part(a: u32, b: u32, whole: u32, larger: u32)
    requires
        a <= b,
        whole <= larger,
    ensures
        runtime::percent(a, whole) <= runtime::percent(b, whole),
        runtime::percent(b, larger) <= runtime::percent(b, whole),
{
    let one = if whole > 1 {
        whole as int
    } else {
        1
    };
    let two = if larger > 1 {
        larger as int
    } else {
        1
    };
    let x = if a * 100 > u32::MAX {
        u32::MAX as int
    } else {
        a * 100
    };
    let y = if b * 100 > u32::MAX {
        u32::MAX as int
    } else {
        b * 100
    };
    vstd::arithmetic::div_mod::lemma_div_is_ordered(x, y, one);
    vstd::arithmetic::div_mod::lemma_div_is_ordered_by_denominator(y, one, two);
}

/// Magic points are restored exactly where the rule is on and names something, hit points
/// are at least what is set for them, and magic points at most what is set for them: in
/// hundredths of the player's own largest hit points and largest magic points where
/// percents are used, else as they are.
pub proof fn magic_points_are_restored_when_it_is_safe(s: AuxSettings, state: PlayerState)
    requires
        state.hp <= 42_949_672,
        state.mp <= 42_949_672,
        state.max_hp > 0,
        state.max_mp > 0,
    ensures
        s.potion_use_percent ==> (runtime::mp_safe(s, state) <==> {
            &&& s.mp_when_safe.enabled
            &&& text::trimmed(s.mp_when_safe.item@).len() > 0
            &&& state.hp * 100 >= s.mp_when_safe.hp_lower * state.max_hp
            &&& state.mp * 100 < (s.mp_when_safe.mp_upper + 1) * state.max_mp
        }),
        !s.potion_use_percent ==> (runtime::mp_safe(s, state) <==> {
            &&& s.mp_when_safe.enabled
            &&& text::trimmed(s.mp_when_safe.item@).len() > 0
            &&& state.hp >= s.mp_when_safe.hp_lower
            &&& state.mp <= s.mp_when_safe.mp_upper
        }),
{
    percents_are_hundredths(state.hp, state.max_hp, s.mp_when_safe.hp_lower as int);
    percents_are_hundredths(state.mp, state.max_mp, s.mp_when_safe.mp_upper + 1);
}

/// Full magic points are never restored where fewer than all of a hundred hundredths
/// are set.
pub proof fn full_magic_points_are_left_alone(s: AuxSettings, state: PlayerState)
    requires
        s.potion_use_percent,
        s.mp_when_safe.mp_upper < 100,
        state.mp == state.max_mp,
        0 < state.mp <= 42_949_672,
    ensures
        !runtime::mp_safe(s, state),
{
    percents_are_hundredths(state.mp, state.max_mp, 100);
}

/// Whether a row of potions is on, names something and hit points are below what it is
/// set to.
pub open spec fn row_is_low(s: AuxSettings, state: PlayerState, i: int) -> bool {
    &&& s.potion_rows@[i].enabled
    &&& s.potion_rows@[i].item@.len() > 0
    &&& if s.potion_use_percent {
        state.hp * 100 < s.potion_rows@[i].threshold * state.max_hp
    } else {
        state.hp < s.potion_rows@[i].threshold
    }
}

proof fn low_rows_trigger(s: AuxSettings, state: PlayerState, i: int)
    requires
        state.hp <= 42_949_672,
        state.max_hp > 0,
    ensures
        runtime::row_triggers(s, state, i) <==> row_is_low(s, state, i),
{
    percents_are_hundredths(state.hp, state.max_hp, s.potion_rows@[i].threshold as int);
}

proof fn first_row_of(s: AuxSettings, state: PlayerState, at: int)
    requires
        0 <= at <= 7,
        state.hp <= 42_949_672,
        state.max_hp > 0,
    ensures
        match runtime::first_row(s, state, at) {
            Some(i) => at <= i < 7 && row_is_low(s, state, i) && forall|k: int|
                at <= k < i ==> !row_is_low(s, state, k),
            None => forall|k: int| at <= k < 7 ==> !row_is_low(s, state, k),
        },
    decreases 7 - at,
{
    if at < 7 {
        low_rows_trigger(s, state, at);
        if !row_is_low(s, state, at) {
            first_row_of(s, state, at + 1);
        }
    }
}

/// In the world, with something set to drink: the first row that is low is drunk; where
/// no row is low, magic points are restored if it is safe; else nothing is drunk.
pub proof fn the_first_low_row_is_drunk(
    s: AuxSettings,
    ready: bool,
    state: PlayerState,
    set: int,
)
    requires
        ready,
        0 <= set < 7,
        s.potion_rows@[set].enabled,
        text::trimmed(s.potion_rows@[set].item@).len() > 0,
        state.max_hp > 0,
        state.hp <= 42_949_672,
    ensures
        match runtime::drink_choice(s, Some(3u32), ready, Some(state)) {
            DrinkChoice::Row(i) => i < 7 && row_is_low(s, state, i as int) && forall|k: int|
                0 <= k < i ==> !row_is_low(s, state, k),
            DrinkChoice::MpWhenSafe => runtime::mp_safe(s, state) && forall|k: int|
                0 <= k < 7 ==> !row_is_low(s, state, k),
            DrinkChoice::Nothing => !runtime::mp_safe(s, state) && forall|k: int|
                0 <= k < 7 ==> !row_is_low(s, state, k),
        },
{
    assert(s.potion_rows@[set].enabled);
    first_row_of(s, state, 0);
}

/// With no row set, magic points are still restored where it is safe.
pub proof fn magic_points_need_no_row(s: AuxSettings, ready: bool, state: PlayerState)
    requires
        ready,
        state.max_hp > 0,
        runtime::mp_safe(s, state),
        forall|k: int| 0 <= k < 7 ==> !(#[trigger] s.potion_rows@[k]).enabled,
    ensures
        runtime::drink_choice(s, Some(3u32), ready, Some(state)) == DrinkChoice::MpWhenSafe,
{
    no_row_triggers(s, state, 0);
}

proof fn no_row_triggers(s: AuxSettings, state: PlayerState, at: int)
    requires
        0 <= at <= 7,
        forall|k: int| 0 <= k < 7 ==> !(#[trigger] s.potion_rows@[k]).enabled,
    ensures
        runtime::first_row(s, state, at) is None,
    decreases 7 - at,
{
    if at < 7 {
        assert(!s.potion_rows@[at].enabled);
        no_row_triggers(s, state, at + 1);
    }
}

/// Outside the world, or while no calls can be made, nothing is done of anything; nor is
/// anything drunk by a player who could not be read or has no hit points at all.
pub proof fn nothing_is_done_outside_the_world(
    s: AuxSettings,
    game_state: Option<u32>,
    ready: bool,
    state: Option<PlayerState>,
    cooldowns: StatusCooldowns,
    now: u64,
    food: Option<u8>,
    poisoned: bool,
    last: Option<u64>,
)
    ensures
        game_state != Some(3u32) || !ready || state is None || state->0.max_hp == 0
            ==> runtime::drink_choice(s, game_state, ready, state) == DrinkChoice::Nothing,
        game_state != Some(3u32) || !ready ==> {
            let r = runtime::status_plan(s, game_state, ready, cooldowns, now, food, poisoned);
            &&& !r.eat_meat && !r.antidote && !r.whetstone && !r.transform
            &&& !runtime::deletes(s, game_state, ready)
            &&& !runtime::shouts(s, game_state, ready, last, now)
            &&& !runtime::can_act(game_state, ready)
        },
        game_state == Some(3u32) && ready ==> runtime::can_act(game_state, ready),
{
}

/// What a row names is drunk if it is an item: the first item of the bag with that name
/// but for the quantity; a spell is cast on oneself or without a target with the number
/// of the player's book; nothing else is done.
pub proof fn what_the_row_names_is_drunk(
    bi: BuffItem,
    bare: Seq<char>,
    items: Seq<Item>,
    i: int,
    book: SpellBook,
)
    ensures
        bi.item_type == 'I' && first_that(items, |it: Item| it.bare_name@ == bare, i)
            ==> runtime::drink_call(bi, bare, Some(items), Some(book)) == Some(
            GameCall::Drink(items[i].entry_addr),
        ),
        bi.item_type == 'I' && none_that(items, |it: Item| it.bare_name@ == bare)
            ==> runtime::drink_call(bi, bare, Some(items), Some(book)) is None,
        bi.item_type == 'I' ==> runtime::drink_call(bi, bare, None, Some(book)) is None,
        bi.item_type == 'S' && bi.cast_target is Self_ && book@.dom().contains(bi.name@)
            ==> runtime::drink_call(bi, bare, Some(items), Some(book)) == Some(
            GameCall::Skill { packed: book@[bi.name@], mode: SkillTargetMode::ForceSelfPacket },
        ),
        bi.item_type == 'S' && bi.cast_target is NoSpec && book@.dom().contains(bi.name@)
            ==> runtime::drink_call(bi, bare, Some(items), Some(book)) == Some(
            GameCall::Skill { packed: book@[bi.name@], mode: SkillTargetMode::NoSpec },
        ),
        bi.item_type == 'S' && (!book@.dom().contains(bi.name@) || !(bi.cast_target is Self_
            || bi.cast_target is NoSpec)) ==> runtime::drink_call(
            bi,
            bare,
            Some(items),
            Some(book),
        ) is None,
        bi.item_type == 'S' ==> runtime::drink_call(bi, bare, Some(items), None) is None,
        bi.item_type != 'I' && bi.item_type != 'S' ==> runtime::drink_call(
            bi,
            bare,
            Some(items),
            Some(book),
        ) is None,
{
    bare_items_are_found(items, bare, i);
}

proof fn bare_items_are_found(items: Seq<Item>, bare: Seq<char>, i: int)
    ensures
        first_that(items, |it: Item| it.bare_name@ == bare, i) ==> inventory::first_fit(
            items,
            Want::Bare(bare),
        ) == Some(i),
        none_that(items, |it: Item| it.bare_name@ == bare) ==> inventory::first_fit(
            items,
            Want::Bare(bare),
        ) is None,
{
    bag::the_first_such_item_is_found(items, bare, bare);
    let ok = |it: Item| it.bare_name@ == bare;
    the_first_is_unique(items, inventory::first_fit(items, Want::Bare(bare)), ok, i);
}

proof fn the_first_is_unique(
    items: Seq<Item>,
    found: Option<int>,
    ok: spec_fn(Item) -> bool,
    i: int,
)
    requires
        finds(items, found, ok),
    ensures
        first_that(items, ok, i) ==> found == Some(i),
        none_that(items, ok) ==> found is None,
{
    if first_that(items, ok, i) {
        assert(ok(items[i]));
        if let Some(k) = found {
            assert(ok(items[k]));
            if k < i {
                assert(!ok(items[k]));
            }
            if i < k {
                assert(!ok(items[i]));
            }
        }
    }
    if none_that(items, ok) {
        if let Some(k) = found {
            assert(ok(items[k]));
        }
    }
}

/// Whether something of the list is to be renewed: its state has a place in the table
/// and is not set, neither the last use of that kind for that state is less than two
/// seconds ago nor is it a second spell at the same tick.
pub open spec fn is_missing(
    bi: BuffItem,
    table: Seq<u8>,
    class: u8,
    used: Map<u64, u64>,
    now: u64,
    skill_cast: bool,
) -> bool {
    let key = ((bi.item_type as u32) * 4294967296 + bi.id) as u64;
    let at = class_remap::remapped(class, bi.id);
    &&& 0 <= bi.id
    &&& bi.id < table.len()
    &&& used.dom().contains(key) ==> used[key] + 2_000_000_000 <= now
    &&& skill_cast ==> bi.item_type != 'S'
    &&& !(0 <= at < table.len() && table[at as int] != 0)
}

/// The list is gone through in its order: the next one that is renewed is the first that
/// is missing, and none is passed over.
pub proof fn the_next_missing_one_is_renewed(
    list: Seq<BuffItem>,
    at: int,
    table: Seq<u8>,
    class: u8,
    used: Map<u64, u64>,
    now: u64,
    skill_cast: bool,
)
    requires
        0 <= at,
    ensures
        match runtime::next_wanted(list, at, table, class, used, now, skill_cast) {
            Some(i) => at <= i < list.len() && is_missing(
                list[i],
                table,
                class,
                used,
                now,
                skill_cast,
            ) && forall|k: int|
                at <= k < i ==> !is_missing(
                    #[trigger] list[k],
                    table,
                    class,
                    used,
                    now,
                    skill_cast,
                ),
            None => forall|k: int|
                at <= k < list.len() ==> !is_missing(
                    #[trigger] list[k],
                    table,
                    class,
                    used,
                    now,
                    skill_cast,
                ),
        },
    decreases list.len() - at,
{
    if at < list.len() {
        assert(runtime::buff_wanted(list[at], table, class, used, now, skill_cast) == is_missing(
            list[at],
            table,
            class,
            used,
            now,
            skill_cast,
        ));
        if !is_missing(list[at], table, class, used, now, skill_cast) {
            the_next_missing_one_is_renewed(list, at + 1, table, class, used, now, skill_cast);
        }
    }
}

/// In the world, each thing of the status page is done exactly where it is switched on,
/// names what it needs, is called for and was not done within the last five seconds:
/// eating while the food is read and below 225, an antidote while poisoned.
pub proof fn the_status_page_is_looked_after(
    s: AuxSettings,
    cooldowns: StatusCooldowns,
    now: u64,
    food: Option<u8>,
    poisoned: bool,
)
    ensures
        ({
            let r = runtime::status_plan(s, Some(3u32), true, cooldowns, now, food, poisoned);
            &&& r.eat_meat <==> s.status_eat_meat && food is Some && food->0 < 225 && rested(
                cooldowns.eat_meat,
                now,
                5_000_000_000,
            )
            &&& r.antidote <==> s.status_antidote_enabled && s.status_antidote_item@.len() > 0
                && poisoned && rested(cooldowns.antidote, now, 5_000_000_000)
            &&& r.whetstone <==> s.status_whetstone && rested(
                cooldowns.whetstone,
                now,
                5_000_000_000,
            )
            &&& r.transform <==> s.status_transform_enabled && s.status_transform_item@.len() > 0
                && rested(cooldowns.transform, now, 5_000_000_000)
        }),
{
}

/// Only what was done has its time set, to now.
pub proof fn only_what_was_done_is_marked(last: Option<u64>, now: u64)
    ensures
        runtime::marked(last, true, now) == Some(now),
        runtime::marked(last, false, now) == last,
{
}

/// Meat is eaten where there is meat: the first item that is called so but for the
/// quantity is used.
pub proof fn meat_is_eaten(items: Seq<Item>, i: int)
    ensures
        first_that(items, |it: Item| it.bare_name@ == "肉"@, i) ==> runtime::eat_call(items)
            == Some(GameCall::UseItem(items[i].entry_addr)),
        none_that(items, |it: Item| it.bare_name@ == "肉"@) ==> runtime::eat_call(items) is None,
{
    bare_items_are_found(items, "肉"@, i);
}

/// An antidote is the first item of the bag with its name but for the quantity, or a
/// spell of the book, forced on oneself.
pub proof fn antidotes_are_taken(
    bi: BuffItem,
    bare: Seq<char>,
    items: Seq<Item>,
    i: int,
    book: SpellBook,
)
    ensures
        bi.item_type == 'I' && first_that(items, |it: Item| it.bare_name@ == bare, i)
            ==> runtime::antidote_call(bi, bare, Some(items), Some(book)) == Some(
            GameCall::UseItem(items[i].entry_addr),
        ),
        bi.item_type == 'I' && none_that(items, |it: Item| it.bare_name@ == bare)
            ==> runtime::antidote_call(bi, bare, Some(items), Some(book)) is None,
        bi.item_type == 'S' && book@.dom().contains(bi.name@) ==> runtime::antidote_call(
            bi,
            bare,
            Some(items),
            Some(book),
        ) == Some(
            GameCall::Skill { packed: book@[bi.name@], mode: SkillTargetMode::ForceSelfPacket },
        ),
        bi.item_type == 'S' && !book@.dom().contains(bi.name@) ==> runtime::antidote_call(
            bi,
            bare,
            Some(items),
            Some(book),
        ) is None,
        bi.item_type != 'I' && bi.item_type != 'S' ==> runtime::antidote_call(
            bi,
            bare,
            Some(items),
            Some(book),
        ) is None,
{
    bare_items_are_found(items, bare, i);
}

/// A player whom either table tells to be transformed is left alone, and so is one whose
/// means is no item.  Else the first item of that name is used: as it is where nothing is
/// said of into what, else as a scroll with what is said, trimmed.
pub proof fn transforming_happens_once(
    item_type: char,
    bare: Seq<char>,
    option: Seq<char>,
    a: Option<u8>,
    b: Option<u8>,
    items: Seq<Item>,
    i: int,
)
    ensures
        ({
            let r = runtime::transform_view(item_type, bare, option, a, b, items);
            let set = (a matches Some(x) && x != 0) || (b matches Some(x) && x != 0);
            &&& set || item_type != 'I' ==> r is Nothing
            &&& !set && item_type == 'I' && none_that(items, |it: Item| it.bare_name@ == bare)
                ==> r is NotFound
            &&& !set && item_type == 'I' && first_that(
                items,
                |it: Item| it.bare_name@ == bare,
                i,
            ) ==> r == if text::trimmed(option).len() == 0 {
                TransformView::UseItem(items[i].entry_addr)
            } else {
                TransformView::Scroll(items[i].item_param, text::trimmed(option))
            }
        }),
{
    bare_items_are_found(items, bare, i);
}

/// A weapon is looked after only where its description can be read and says that it is
/// damaged; then the first whetstone is used on that weapon, and without one there is an
/// error.
pub proof fn damaged_weapons_are_whetted(
    items: Seq<Item>,
    weapon: int,
    desc_ptr: u32,
    desc: Seq<u8>,
    i: int,
)
    ensures
        ({
            let r = runtime::whetstone_call(items, weapon, desc_ptr, desc);
            let worn = desc_ptr >= 0x10_0000 && runtime::damaged(desc);
            &&& !worn ==> r == Ok::<Option<GameCall>, runtime::NoWhetstone>(None)
            &&& worn && none_that(items, |it: Item| it.bare_name@ == "磨刀石"@) ==> r is Err
            &&& worn && first_that(items, |it: Item| it.bare_name@ == "磨刀石"@, i) ==> r
                == Ok::<Option<GameCall>, runtime::NoWhetstone>(
                Some(
                    GameCall::UseOn {
                        source: items[i].item_param,
                        target: items[weapon].item_param,
                    },
                ),
            )
        }),
{
    bare_items_are_found(items, "磨刀石"@, i);
}

/// The weapon that is looked after is the first item whose name tells that it is wielded.
pub proof fn the_wielded_weapon_is_looked_after(items: Seq<Item>)
    ensures
        finds(
            items,
            inventory::first_fit(items, Want::Tagged(inventory::WIELDED@)),
            |it: Item| occurs(it.name@, "(揮舞)"@),
        ),
{
    bag::the_first_such_item_is_found(items, "(揮舞)"@, "(揮舞)"@);
}

/// Whether a name is in the bag and tells neither that the item is worn nor wielded.
pub open spec fn can_go(name: Seq<char>, names: Seq<Seq<char>>) -> bool {
    &&& exists|k: int| 0 <= k < names.len() && #[trigger] names[k] == name
    &&& !occurs(name, "(使用中)"@)
    &&& !occurs(name, "(揮舞)"@)
}

/// Of a list, the first name is picked that is in the bag and not in use; nothing is
/// picked only where there is no such name in the whole list.
pub proof fn the_first_listed_thing_goes(list: Seq<Seq<char>>, names: Seq<Seq<char>>)
    ensures
        match runtime::first_disposable(list, names) {
            Some(n) => exists|i: int|
                0 <= i < list.len() && #[trigger] list[i] == n && can_go(n, names) && forall|k: int|
                    0 <= k < i ==> !can_go(#[trigger] list[k], names),
            None => forall|k: int| 0 <= k < list.len() ==> !can_go(#[trigger] list[k], names),
        },
    decreases list.len(),
{
    if list.len() > 0 {
        bag::holding_is_standing_in(list[0], "(使用中)"@);
        bag::holding_is_standing_in(list[0], "(揮舞)"@);
        assert(runtime::disposable(list[0], names) == can_go(list[0], names));
        if !can_go(list[0], names) {
            let rest = list.drop_first();
            the_first_listed_thing_goes(rest, names);
            match runtime::first_disposable(rest, names) {
                Some(n) => {
                    let i = choose|i: int|
                        0 <= i < rest.len() && #[trigger] rest[i] == n && can_go(n, names)
                            && forall|k: int| 0 <= k < i ==> !can_go(#[trigger] rest[k], names);
                    assert(list[i + 1] == n);
                    assert forall|k: int| 0 <= k < i + 1 implies !can_go(
                        #[trigger] list[k],
                        names,
                    ) by {
                        if k > 0 {
                            assert(rest[k - 1] == list[k]);
                        }
                    }
                },
                None => {
                    assert forall|k: int| 0 <= k < list.len() implies !can_go(
                        #[trigger] list[k],
                        names,
                    ) by {
                        if k > 0 {
                            assert(rest[k - 1] == list[k]);
                        }
                    }
                },
            }
        } else {
            assert(list[0] == runtime::first_disposable(list, names)->0);
        }
    }
}

/// Being called so.
pub open spec fn called(n: Seq<char>) -> spec_fn(Item) -> bool {
    |it: Item| it.name@ == n
}

/// Having a name that starts so.
pub open spec fn starting_with(n: Seq<char>) -> spec_fn(Item) -> bool {
    |it: Item| occurs_at(it.name@, n, 0)
}

/// What is deleted is the first item with the picked name of the first list, all of its
/// count; only where nothing of the first list can go, the first item with the picked
/// name of the second list is dissolved, with the first item whose name starts with the
/// solvent's; nothing is touched otherwise.
pub proof fn listed_things_are_deleted_or_dissolved(
    to_delete: Seq<Seq<char>>,
    to_dissolve: Seq<Seq<char>>,
    items: Seq<Item>,
)
    ensures
        ({
            let names = Seq::new(items.len(), |k: int| items[k].name@);
            let first = runtime::first_disposable(to_delete, names);
            let second = runtime::first_disposable(to_dissolve, names);
            match runtime::delete_action(to_delete, to_dissolve, items) {
                DeleteAction::Nothing => first is None && second is None,
                DeleteAction::NoSolvent => first is None && second is Some && none_that(
                    items,
                    starting_with("溶解劑"@),
                ),
                DeleteAction::Act(GameCall::Delete { item, count }) => exists|i: int|
                    first is Some && #[trigger] first_that(
                        items,
                        called(first->0),
                        i,
                    ) && item == items[i].item_param && count == items[i].count,
                DeleteAction::Act(GameCall::UseOn { source, target }) => first is None
                    && second is Some && (exists|i: int|
                    #[trigger] first_that(items, called(second->0), i) && target
                        == items[i].item_param) && (exists|v: int|
                    #[trigger] first_that(items, starting_with("溶解劑"@), v)
                        && source == items[v].item_param),
                DeleteAction::Act(_) => false,
            }
        }),
{
    let names = Seq::new(items.len(), |k: int| items[k].name@);
    assert(names =~= runtime::item_names(items));
    the_first_listed_thing_goes(to_delete, names);
    the_first_listed_thing_goes(to_dissolve, names);
    bag::the_first_such_item_is_found(items, "溶解劑"@, "溶解劑"@);
    let ok = |it: Item| occurs_at(it.name@, "溶解劑"@, 0);
    assert(ok =~= starting_with("溶解劑"@));
    match inventory::first_fit(items, Want::Prefixed("溶解劑"@)) {
        Some(v) => {
            assert(first_that(items, starting_with("溶解劑"@), v));
        },
        None => {
            assert(none_that(items, starting_with("溶解劑"@)));
        },
    }
    let first = runtime::first_disposable(to_delete, names);
    let second = runtime::first_disposable(to_dissolve, names);
    if let Some(n) = first {
        listed_items_are_found(items, names, n);
    } else if let Some(n) = second {
        listed_items_are_found(items, names, n);
    }
}

proof fn listed_items_are_found(items: Seq<Item>, names: Seq<Seq<char>>, n: Seq<char>)
    requires
        names == Seq::new(items.len(), |k: int| items[k].name@),
        can_go(n, names),
    ensures
        inventory::first_fit(items, Want::Exact(n)) matches Some(i) && first_that(
            items,
            called(n),
            i,
        ),
{
    bag::the_first_such_item_is_found(items, n, n);
    let k = choose|k: int| 0 <= k < names.len() && #[trigger] names[k] == n;
    let ok = |it: Item| it.name@ == n;
    assert(ok(items[k]));
}

/// In the world, things are got rid of exactly where that is on and some list has a
/// name; messages are said exactly where that is on, there are messages and an interval,
/// and the interval has gone by since the last one.
pub proof fn lists_and_messages_take_effect_when_on(
    s: AuxSettings,
    last: Option<u64>,
    now: u64,
)
    ensures
        runtime::deletes(s, Some(3u32), true) <==> s.delete_enabled && s.delete_list@.len()
            + s.dissolve_list@.len() > 0,
        runtime::shouts(s, Some(3u32), true, last, now) <==> s.shout_enabled
            && s.shout_messages@.len() > 0 && s.shout_interval_sec > 0 && rested(
            last,
            now,
            s.shout_interval_sec * 1_000_000_000,
        ),
{
}

/// Messages take turns: the turn goes to the next message, and from the last to the
/// first; a turn beyond the end of the list is taken round it.
pub proof fn messages_take_turns(i: int, len: int)
    requires
        0 < len,
        0 <= i,
    ensures
        0 <= runtime::turn_of(i, len) < len,
        i < len ==> runtime::turn_of(i, len) == i,
        i >= len ==> runtime::turn_of(i, len) == runtime::turn_of(i - len, len),
        i < len - 1 ==> runtime::turn_after(i, len) == i + 1,
        i == len - 1 ==> runtime::turn_after(i, len) == 0,
        runtime::turn_after(i, len) == runtime::turn_after(runtime::turn_of(i, len), len),
{
    vstd::arithmetic::div_mod::lemma_mod_bound(i, len);
    if i < len {
        vstd::arithmetic::div_mod::lemma_small_mod(i as nat, len as nat);
        if i < len - 1 {
            vstd::arithmetic::div_mod::lemma_small_mod((i + 1) as nat, len as nat);
        } else {
            vstd::arithmetic::div_mod::lemma_mod_self_0(len);
        }
    } else {
        vstd::arithmetic::div_mod::lemma_mod_sub_multiples_vanish(i, len);
    }
    vstd::arithmetic::div_mod::lemma_mod_twice(i, len);
}

/// Whether a timer is on, has a command and its interval has gone by since it was last
/// done; one without an interval is always due.
pub open spec fn timer_is_up(row: TimerRow, last: Option<u64>, now: u64) -> bool {
    &&& row.enabled
    &&& row.command@.len() > 0
    &&& row.interval_sec > 0 ==> rested(last, now, row.interval_sec * 1_000_000_000)
}

/// The first timer that is up is done; none is done only where none is up.
pub proof fn the_first_timer_that_is_up_goes(
    rows: Seq<TimerRow>,
    last: Seq<Option<u64>>,
    now: u64,
    at: int,
)
    requires
        0 <= at <= 6,
    ensures
        match runtime::first_timer(rows, last, now, at) {
            Some(i) => at <= i < 6 && timer_is_up(rows[i], last[i], now) && forall|k: int|
                at <= k < i ==> !timer_is_up(#[trigger] rows[k], last[k], now),
            None => forall|k: int|
                at <= k < 6 ==> !timer_is_up(#[trigger] rows[k], last[k], now),
        },
    decreases 6 - at,
{
    if at < 6 {
        assert(runtime::timer_due(rows[at], last[at], now) == timer_is_up(
            rows[at],
            last[at],
            now,
        ));
        if !timer_is_up(rows[at], last[at], now) {
            the_first_timer_that_is_up_goes(rows, last, now, at + 1);
        }
    }
}

/// A timer that was reset since the last look starts anew now; the others go on.
pub proof fn reset_timers_start_anew(
    last: Seq<Option<u64>>,
    seen: Seq<u64>,
    resets: Seq<u64>,
    now: u64,
    i: int,
)
    requires
        0 <= i < 6,
    ensures
        runtime::after_resets(last, seen, resets, now).len() == 6,
        resets[i] == seen[i] ==> runtime::after_resets(last, seen, resets, now)[i] == last[i],
        resets[i] != seen[i] ==> runtime::after_resets(last, seen, resets, now)[i] == Some(now),
{
}

/// Figures count as the same exactly where nothing of what is shown differs.
pub proof fn figures_differ_in_what_is_shown(a: PlayerState, b: PlayerState)
    ensures
        runtime::same_figures(a, b) <==> (a.hp, a.max_hp, a.mp, a.max_mp, a.food, a.weight, a.map_id)
            == (b.hp, b.max_hp, b.mp, b.max_mp, b.food, b.weight, b.map_id),
{
}

/// The experience is followed from the moment that it is wanted in the world, and no
/// longer than it is wanted; outside the world, or where the total cannot be read, what
/// is known stays as it is.
pub proof fn experience_is_followed_while_wanted(
    t: ExpTracker,
    game_state: Option<u32>,
    total: Option<u32>,
)
    ensures
        !runtime::exp_after(t, false, game_state, total).enabled,
        !t.enabled ==> runtime::exp_after(t, false, game_state, total) == t,
        game_state != Some(3u32) || total is None ==> runtime::exp_after(t, true, game_state, total)
            == t,
        game_state == Some(3u32) && total is Some ==> runtime::exp_after(
            t,
            true,
            game_state,
            total,
        ).enabled,
        game_state == Some(3u32) && total is Some && !t.enabled ==> runtime::exp_after(
            t,
            true,
            game_state,
            total,
        ) == exp_tracker::started(total->0),
        game_state == Some(3u32) && total is Some && t.enabled ==> runtime::exp_after(
            t,
            true,
            game_state,
            total,
        ) == exp_tracker::after_tick(t, total->0),
{
}

} // verus!
