//! What is used, and on what.

use vstd::prelude::*;

use super::bag;
use super::bag::finds;
use super::bag::first_that;
use super::bag::none_that;
use super::bag::occurs;
use crate::buff_dispatch::item_step;
use crate::buff_dispatch::outcome_of;
use crate::buff_dispatch::packed_of;
use crate::buff_dispatch::similar_names;
use crate::buff_dispatch::skill_step;
use crate::buff_dispatch::step_of;
use crate::buff_dispatch::target_item;
use crate::buff_dispatch::CharIdRead;
use crate::buff_dispatch::DispatchCtx;
use crate::buff_dispatch::EntityRead;
use crate::buff_dispatch::GameCall;
use crate::buff_dispatch::Needed;
use crate::buff_dispatch::OutcomeView;
use crate::buff_dispatch::StepView;
use crate::drink_hook::SkillTargetMode;
use crate::inventory::InventoryRead;
use crate::inventory::Item;
use crate::settings::BuffItem;
use crate::settings::CastTarget;
use crate::spell_book::SpellBook;
use crate::spell_db::SpellDb;

verus! {

/// On a wielded item: what is targeted is the first item whose name tells that it is
/// wielded and, where a name is given, whose clean name is that; nothing is targeted
/// only where the bag holds no such item.
pub proof fn wielded_items_are_targeted(items: Seq<Item>, name: Option<String>, clean: Seq<char>)
    ensures
        finds(
            items,
            target_item(items, CastTarget::OnWieldedItem(name), clean),
            |it: Item| occurs(it.name@, "(揮舞)"@) && (name is Some ==> it.clean_name@ == clean),
        ),
{
    bag::the_first_such_item_is_found(items, "(揮舞)"@, "(揮舞)"@);
    bag::the_first_such_item_is_found(items, clean, "(揮舞)"@);
}

/// On a worn item: what is targeted is the first item whose name tells that it is worn
/// and, where a name is given, whose clean name is that; nothing is targeted only where
/// the bag holds no such item.
pub proof fn worn_items_are_targeted(items: Seq<Item>, name: Option<String>, clean: Seq<char>)
    ensures
        finds(
            items,
            target_item(items, CastTarget::OnInUseItem(name), clean),
            |it: Item| occurs(it.name@, "(使用中)"@) && (name is Some ==> it.clean_name@ == clean),
        ),
{
    bag::the_first_such_item_is_found(items, "(使用中)"@, "(使用中)"@);
    bag::the_first_such_item_is_found(items, clean, "(使用中)"@);
}

/// On an item of a name: what is targeted is the first item with that clean name,
/// whether it is in use or not.
pub proof fn named_items_are_targeted(items: Seq<Item>, name: String, clean: Seq<char>)
    ensures
        finds(
            items,
            target_item(items, CastTarget::OnNamedItem(name), clean),
            |it: Item| it.clean_name@ == clean,
        ),
{
    bag::the_first_such_item_is_found(items, clean, clean);
}

/// Whether a cast target is some item of the bag.
pub open spec fn on_some_item(target: CastTarget) -> bool {
    match target {
        CastTarget::OnInUseItem(_) => true,
        CastTarget::OnWieldedItem(_) => true,
        CastTarget::OnNamedItem(_) => true,
        _ => false,
    }
}

/// Whether an item is one that a cast target can mean.
pub open spec fn meant(target: CastTarget, clean: Seq<char>, it: Item) -> bool {
    match target {
        CastTarget::OnInUseItem(name) => occurs(it.name@, "(使用中)"@) && (name is Some
            ==> it.clean_name@ == clean),
        CastTarget::OnWieldedItem(name) => occurs(it.name@, "(揮舞)"@) && (name is Some
            ==> it.clean_name@ == clean),
        CastTarget::OnNamedItem(_) => it.clean_name@ == clean,
        _ => false,
    }
}

proof fn targets_are_meant(items: Seq<Item>, target: CastTarget, clean: Seq<char>)
    ensures
        finds(items, target_item(items, target, clean), |it: Item| meant(target, clean, it)),
{
    match target {
        CastTarget::OnInUseItem(name) => worn_items_are_targeted(items, name, clean),
        CastTarget::OnWieldedItem(name) => wielded_items_are_targeted(items, name, clean),
        CastTarget::OnNamedItem(name) => named_items_are_targeted(items, name, clean),
        _ => {},
    }
}

/// An item goes to its target.  `i` is the first item of the bag that has the clean name
/// of what is used.  On an item: it is used on the first item that is meant, whose packet
/// number is named; on somebody: on the object that was found; on oneself: on one's own
/// number; else it is just used.
pub proof fn items_go_to_their_targets(
    ctx: DispatchCtx,
    target: CastTarget,
    bag: Vec<Item>,
    i: int,
    t: int,
)
    requires
        ctx.inventory == InventoryRead::Items(bag),
        first_that(bag@, |it: Item| it.clean_name@ == ctx.clean_name@, i),
    ensures
        on_some_item(target) && first_that(
            bag@,
            |it: Item| meant(target, ctx.clean_target@, it),
            t,
        ) ==> item_step(ctx, target) == StepView::Act(
            GameCall::UseOn { source: bag@[i].item_param, target: bag@[t].item_param },
        ),
        on_some_item(target) && none_that(bag@, |it: Item| meant(target, ctx.clean_target@, it))
            ==> item_step(ctx, target) is Skip,
        target is OnNamedEntity ==> match ctx.entity {
            EntityRead::Target(id) => item_step(ctx, target) == StepView::Act(
                GameCall::UseOn { source: bag@[i].item_param, target: id },
            ),
            EntityRead::NotRead => item_step(ctx, target) == StepView::Read(Needed::Entity),
            _ => item_step(ctx, target) is Skip,
        },
        target is SelfItem ==> match ctx.char_id {
            CharIdRead::Id(id) => if id != 0 {
                item_step(ctx, target) == StepView::Act(
                    GameCall::UseOn { source: bag@[i].item_param, target: id },
                )
            } else {
                item_step(ctx, target) is Skip
            },
            CharIdRead::NotRead => item_step(ctx, target) == StepView::Read(Needed::SelfCharId),
            CharIdRead::Failed => item_step(ctx, target) is Skip,
        },
        !on_some_item(target) && !(target is OnNamedEntity) && !(target is SelfItem) && !(
        target is Info) ==> item_step(ctx, target) == StepView::Act(
            GameCall::UseItem(bag@[i].entry_addr),
        ),
{
    bag::the_first_such_item_is_found(bag@, ctx.clean_name@, ctx.clean_name@);
    targets_are_meant(bag@, target, ctx.clean_target@);
    let own = |it: Item| it.clean_name@ == ctx.clean_name@;
    let ok = |it: Item| meant(target, ctx.clean_target@, it);
    assert(own(bag@[i]));
    only_one_is_first(bag@, own, i);
    if first_that(bag@, ok, t) {
        only_one_is_first(bag@, ok, t);
    }
}

proof fn only_one_is_first(items: Seq<Item>, ok: spec_fn(Item) -> bool, i: int)
    requires
        first_that(items, ok, i),
    ensures
        forall|k: int| #[trigger] first_that(items, ok, k) ==> k == i,
        !none_that(items, ok),
{
    assert forall|k: int| #[trigger] first_that(items, ok, k) implies k == i by {
        if k < i {
            assert(!ok(items[k]));
        }
        if i < k {
            assert(!ok(items[i]));
        }
    }
    assert(ok(items[i]));
}

/// Nothing is used that is not in the bag, and nothing before the bag has been read;
/// showing the figures needs neither.
pub proof fn nothing_is_used_that_is_not_there(ctx: DispatchCtx, target: CastTarget)
    ensures
        target is Info <==> item_step(ctx, target) is Info,
        !(target is Info) && ctx.inventory is NotRead ==> item_step(ctx, target) == StepView::Read(
            Needed::Inventory,
        ),
        !(target is Info) && ctx.inventory is Failed ==> item_step(ctx, target) is Skip,
        !(target is Info) ==> (ctx.inventory matches InventoryRead::Items(bag) ==> (none_that(
            bag@,
            |it: Item| it.clean_name@ == ctx.clean_name@,
        ) ==> item_step(ctx, target) is Skip)),
{
    if let InventoryRead::Items(bag) = ctx.inventory {
        bag::the_first_such_item_is_found(bag@, ctx.clean_name@, ctx.clean_name@);
        if none_that(bag@, |it: Item| it.clean_name@ == ctx.clean_name@) {
            match crate::inventory::first_fit(
                bag@,
                crate::inventory::Want::Clean(ctx.clean_name@),
            ) {
                Some(i) => {
                    let own = |it: Item| it.clean_name@ == ctx.clean_name@;
                    assert(own(bag@[i]));
                },
                None => {},
            }
        }
    }
}

/// The number that is sent for a spell is the one of the player's book where the book
/// has the spell, else the one of the client's table; a spell that neither has is not
/// cast.
pub proof fn spells_have_their_numbers(
    name: Seq<char>,
    book: Option<SpellBook>,
    db: Option<SpellDb>,
)
    ensures
        book is Some && (book->0)@.dom().contains(name) ==> packed_of(name, book, db) == Some(
            (book->0)@[name],
        ),
        !(book is Some && (book->0)@.dom().contains(name)) && db is Some && (
        db->0)@.dom().contains(name) ==> packed_of(name, book, db) == Some((db->0)@[name]),
        !(book is Some && (book->0)@.dom().contains(name)) && !(db is Some && (
        db->0)@.dom().contains(name)) ==> packed_of(name, book, db) is None,
{
}

/// A spell goes to its target: on oneself it is forced on oneself, without a target or
/// under the mouse it names none, on an item it names the packet number of the first
/// item that is meant; it goes to nothing else.
pub proof fn spells_go_to_their_targets(
    ctx: DispatchCtx,
    name: Seq<char>,
    target: CastTarget,
    book: Option<SpellBook>,
    db: Option<SpellDb>,
    packed: u32,
    bag: Vec<Item>,
    t: int,
)
    requires
        packed_of(name, book, db) == Some(packed),
    ensures
        target is Self_ ==> skill_step(ctx, name, target, book, db) == StepView::Act(
            GameCall::Skill { packed, mode: SkillTargetMode::ForceSelfPacket },
        ),
        target is NoSpec || target is HoverTarget ==> skill_step(ctx, name, target, book, db)
            == StepView::Act(GameCall::Skill { packed, mode: SkillTargetMode::NoSpec }),
        on_some_item(target) && ctx.inventory is NotRead ==> skill_step(
            ctx,
            name,
            target,
            book,
            db,
        ) == StepView::Read(Needed::Inventory),
        on_some_item(target) && ctx.inventory == InventoryRead::Items(bag) && first_that(
            bag@,
            |it: Item| meant(target, ctx.clean_target@, it),
            t,
        ) ==> skill_step(ctx, name, target, book, db) == StepView::Act(
            GameCall::Skill {
                packed,
                mode: SkillTargetMode::ForceTargetPacket(bag@[t].item_param),
            },
        ),
        on_some_item(target) && ctx.inventory == InventoryRead::Items(bag) && none_that(
            bag@,
            |it: Item| meant(target, ctx.clean_target@, it),
        ) ==> skill_step(ctx, name, target, book, db) is Skip,
        on_some_item(target) && ctx.inventory is Failed ==> skill_step(
            ctx,
            name,
            target,
            book,
            db,
        ) is Skip,
        !(target is Self_ || target is NoSpec || target is HoverTarget || on_some_item(target))
            ==> skill_step(ctx, name, target, book, db) is Skip,
{
    targets_are_meant(bag@, target, ctx.clean_target@);
    let ok = |it: Item| meant(target, ctx.clean_target@, it);
    if first_that(bag@, ok, t) {
        only_one_is_first(bag@, ok, t);
    }
}

/// A spell whose number is not known is not cast.
pub proof fn unknown_spells_are_not_cast(
    ctx: DispatchCtx,
    name: Seq<char>,
    target: CastTarget,
    book: Option<SpellBook>,
    db: Option<SpellDb>,
)
    requires
        packed_of(name, book, db) is None,
    ensures
        skill_step(ctx, name, target, book, db) == StepView::Skip("spell_lookup_failed"@),
{
}

/// Items are used as items and spells as spells; keys and anything else are skipped.
pub proof fn each_kind_is_used_its_own_way(
    ctx: DispatchCtx,
    bi: BuffItem,
    book: Option<SpellBook>,
    db: Option<SpellDb>,
)
    ensures
        bi.item_type == 'I' ==> step_of(ctx, bi, book, db) == item_step(ctx, bi.cast_target),
        bi.item_type == 'S' ==> step_of(ctx, bi, book, db) == skill_step(
            ctx,
            bi.name@,
            bi.cast_target,
            book,
            db,
        ),
        bi.item_type != 'I' && bi.item_type != 'S' ==> step_of(ctx, bi, book, db) is Skip,
{
}

/// A call that was made counts as a spell cast where it cast a spell, else as an item
/// used; a call that failed counts as nothing sent.
pub proof fn only_calls_that_were_made_count(call: GameCall, ok: bool)
    ensures
        outcome_of(call, ok) is SkillCast <==> ok && call is Skill,
        outcome_of(call, ok) is Done <==> ok && !(call is Skill),
        outcome_of(call, ok) is Skipped <==> !ok,
{
}

/// For a spell that is not known, up to eight names are shown that start like it or hold
/// it, in their order; with fewer than eight, all such names are.
pub proof fn similar_names_are_shown(names: Seq<String>, needle: Seq<char>)
    ensures
        similar_names(names, needle).len() <= 8,
        forall|i: int|
            0 <= i < similar_names(names, needle).len() ==> alike(
                #[trigger] similar_names(names, needle)[i],
                needle,
            ) && exists|k: int|
                0 <= k < names.len() && (#[trigger] names[k])@ == similar_names(names, needle)[i],
        similar_names(names, needle).len() < 8 ==> forall|k: int|
            0 <= k < names.len() && alike((#[trigger] names[k])@, needle) ==> similar_names(
                names,
                needle,
            ).contains(names[k]@),
    decreases names.len(),
{
    if names.len() > 0 {
        let rest = names.drop_last();
        similar_names_are_shown(rest, needle);
        let before = similar_names(rest, needle);
        let r = similar_names(names, needle);
        bag::holding_is_standing_in(names.last()@, needle);
        assert(crate::buff_dispatch::similar(names.last()@, needle) == alike(
            names.last()@,
            needle,
        ));
        assert forall|i: int| 0 <= i < r.len() implies alike(#[trigger] r[i], needle) && exists|
            k: int,
        |
            0 <= k < names.len() && (#[trigger] names[k])@ == r[i] by {
            if i < before.len() {
                assert(r[i] == before[i]);
                let k = choose|k: int| 0 <= k < rest.len() && (#[trigger] rest[k])@ == before[i];
                assert(names[k]@ == r[i]);
            } else {
                assert(names[names.len() - 1]@ == r[i]);
            }
        }
        if r.len() < 8 {
            assert forall|k: int|
                0 <= k < names.len() && alike((#[trigger] names[k])@, needle) implies r.contains(
                names[k]@,
            ) by {
                if k < rest.len() {
                    assert(rest[k]@ == names[k]@);
                    assert(before.contains(names[k]@));
                    let i = choose|i: int| 0 <= i < before.len() && before[i] == names[k]@;
                    assert(r[i] == names[k]@);
                } else {
                    assert(r[r.len() - 1] == names[k]@);
                }
            }
        }
    }
}

/// Whether a name starts with the same character as another or holds it.
pub open spec fn alike(name: Seq<char>, needle: Seq<char>) -> bool {
    occurs(name, needle) || (name.len() > 0 && needle.len() > 0 && needle[0] == name[0])
}

} // verus!
