//! What to send for an item or a spell that is to be used.
//!
//! A use is worked out step by step: as long as something has to be read of the
//! client first, the step says what; at the end stands a call into the client, or
//! the reason why there is none.

use vstd::prelude::*;

use crate::drink_hook::SkillTargetMode;
use crate::inventory;
use crate::inventory::find;
use crate::inventory::InventoryRead;
use crate::inventory::Item;
use crate::inventory::Want;
use crate::inventory::Wanted;
use crate::inventory::IN_USE;
use crate::inventory::WIELDED;
use crate::name_table;
use crate::settings::BuffItem;
use crate::settings::CastTarget;
use crate::spell_book::SpellBook;
use crate::spell_db::SpellDb;
use crate::text;
use crate::text::contains_chars;
use crate::text::text_of;
use crate::text::to_chars;

verus! {

/// Where the player's own number stands in the client.
pub const SELF_CHAR_ID_ADDR: u32 = 0x00AB_F4B4;

/// Most names that are listed for a spell that is not known.
pub const MAX_CANDIDATES: usize = 8;

/// What came of a use.
#[derive(Debug, Clone, PartialEq, Eq)]
pub enum DispatchOutcome {
    /// An item was used, or figures were shown.
    Done,
    /// A spell was cast.
    SkillCast,
    /// Nothing was sent, for this reason.
    Skipped(&'static str),
}

/// What came of a use, with the reason as a sequence of characters.
pub enum OutcomeView {
    Done,
    SkillCast,
    Skipped(Seq<char>),
}

impl View for DispatchOutcome {
    type V = OutcomeView;

    open spec fn view(&self) -> OutcomeView {
        match self {
            DispatchOutcome::Done => OutcomeView::Done,
            DispatchOutcome::SkillCast => OutcomeView::SkillCast,
            DispatchOutcome::Skipped(reason) => OutcomeView::Skipped(reason@),
        }
    }
}

/// A call into the client.
#[derive(Debug, Clone, Copy, PartialEq, Eq, Structural)]
pub enum GameCall {
    /// Uses the item that stands there.
    UseItem(u32),
    /// Drinks the item that stands there.
    Drink(u32),
    /// Uses an item on something.
    UseOn { source: u32, target: u32 },
    /// Casts a spell.
    Skill { packed: u32, mode: SkillTargetMode },
    /// Deletes so many of an item.
    Delete { item: u32, count: u32 },
}

/// What has to be read of the client.
#[derive(Debug, Clone, Copy, PartialEq, Eq, Structural)]
pub enum Needed {
    Inventory,
    SelfCharId,
    /// The object that the cast target names.
    Entity,
}

/// The player's own number.
#[derive(Debug, Clone, Copy, PartialEq, Eq, Structural)]
pub enum CharIdRead {
    NotRead,
    Failed,
    Id(u32),
}

/// The object of a name.
#[derive(Debug, Clone, Copy, PartialEq, Eq, Structural)]
pub enum EntityRead {
    NotRead,
    Failed,
    NotFound,
    Target(u32),
}

/// What is known for a use.
#[derive(Debug)]
pub struct DispatchCtx {
    /// The clean name of what is used.
    pub clean_name: String,
    /// The clean name of the item that the cast target names, if it names one.
    pub clean_target: String,
    pub inventory: InventoryRead,
    pub char_id: CharIdRead,
    pub entity: EntityRead,
}

/// The next step of a use.
#[derive(Debug, Clone, Copy)]
pub enum DispatchStep {
    Read(Needed),
    /// Shows the player's figures.
    Info,
    Act(GameCall),
    Skip(&'static str),
}

/// The next step of a use, with the reason as a sequence of characters.
pub enum StepView {
    Read(Needed),
    Info,
    Act(GameCall),
    Skip(Seq<char>),
}

impl View for DispatchStep {
    type V = StepView;

    open spec fn view(&self) -> StepView {
        match self {
            DispatchStep::Read(needed) => StepView::Read(*needed),
            DispatchStep::Info => StepView::Info,
            DispatchStep::Act(call) => StepView::Act(*call),
            DispatchStep::Skip(reason) => StepView::Skip(reason@),
        }
    }
}

/// The item that a cast target names: a worn or wielded one (of that name), or one of
/// that name.
pub open spec fn target_item(items: Seq<Item>, target: CastTarget, clean_target: Seq<char>) -> Option<
    int,
> {
    match target {
        CastTarget::OnInUseItem(None) => inventory::first_fit(items, Want::Tagged(IN_USE@)),
        CastTarget::OnInUseItem(Some(_)) => inventory::first_fit(
            items,
            Want::TaggedClean(IN_USE@, clean_target),
        ),
        CastTarget::OnWieldedItem(None) => inventory::first_fit(items, Want::Tagged(WIELDED@)),
        CastTarget::OnWieldedItem(Some(_)) => inventory::first_fit(
            items,
            Want::TaggedClean(WIELDED@, clean_target),
        ),
        CastTarget::OnNamedItem(_) => inventory::first_fit(items, Want::Clean(clean_target)),
        _ => None,
    }
}

/// Whether a cast target is an item of the bag.
pub open spec fn targets_item(target: CastTarget) -> bool {
    target is OnInUseItem || target is OnWieldedItem || target is OnNamedItem
}

/// The number that names the target, where what is used itself is in the bag.
pub open spec fn item_step(ctx: DispatchCtx, target: CastTarget) -> StepView {
    if target is Info {
        StepView::Info
    } else {
        match ctx.inventory {
            InventoryRead::NotRead => StepView::Read(Needed::Inventory),
            InventoryRead::Failed => StepView::Skip("inventory_read_failed"@),
            InventoryRead::Items(items) => match inventory::first_fit(
                items@,
                Want::Clean(ctx.clean_name@),
            ) {
                None => StepView::Skip(
                    if targets_item(target) || target is OnNamedEntity || target is SelfItem {
                        "source_item_not_found"@
                    } else {
                        "inventory_not_found"@
                    },
                ),
                Some(i) => if targets_item(target) {
                    match target_item(items@, target, ctx.clean_target@) {
                        None => StepView::Skip("target_item_not_found"@),
                        Some(t) => StepView::Act(
                            GameCall::UseOn {
                                source: items@[i].item_param,
                                target: items@[t].item_param,
                            },
                        ),
                    }
                } else if target is OnNamedEntity {
                    match ctx.entity {
                        EntityRead::NotRead => StepView::Read(Needed::Entity),
                        EntityRead::Failed => StepView::Skip("entity_scan_failed"@),
                        EntityRead::NotFound => StepView::Skip("entity_not_found"@),
                        EntityRead::Target(id) => StepView::Act(
                            GameCall::UseOn { source: items@[i].item_param, target: id },
                        ),
                    }
                } else if target is SelfItem {
                    match ctx.char_id {
                        CharIdRead::NotRead => StepView::Read(Needed::SelfCharId),
                        CharIdRead::Failed => StepView::Skip("self_char_id_unavailable"@),
                        CharIdRead::Id(id) => if id == 0 {
                            StepView::Skip("self_char_id_unavailable"@)
                        } else {
                            StepView::Act(
                                GameCall::UseOn { source: items@[i].item_param, target: id },
                            )
                        },
                    }
                } else {
                    StepView::Act(GameCall::UseItem(items@[i].entry_addr))
                },
            },
        }
    }
}

/// The number of a spell: the player's own if it has been learnt, else the client's.
pub open spec fn packed_of(
    name: Seq<char>,
    book: Option<SpellBook>,
    db: Option<SpellDb>,
) -> Option<u32> {
    let learnt = match book {
        Some(b) => name_table::found(b@, name),
        None => None,
    };
    match learnt {
        Some(packed) => Some(packed),
        None => match db {
            Some(d) => name_table::found(d@, name),
            None => None,
        },
    }
}

/// The next step of casting a spell.
pub open spec fn skill_step(
    ctx: DispatchCtx,
    name: Seq<char>,
    target: CastTarget,
    book: Option<SpellBook>,
    db: Option<SpellDb>,
) -> StepView {
    match packed_of(name, book, db) {
        None => StepView::Skip("spell_lookup_failed"@),
        Some(packed) => if target is Self_ {
            StepView::Act(GameCall::Skill { packed, mode: SkillTargetMode::ForceSelfPacket })
        } else if target is NoSpec || target is HoverTarget {
            StepView::Act(GameCall::Skill { packed, mode: SkillTargetMode::NoSpec })
        } else if targets_item(target) {
            match ctx.inventory {
                InventoryRead::NotRead => StepView::Read(Needed::Inventory),
                InventoryRead::Failed => StepView::Skip("inventory_read_failed"@),
                InventoryRead::Items(items) => match target_item(
                    items@,
                    target,
                    ctx.clean_target@,
                ) {
                    None => StepView::Skip("target_item_not_found"@),
                    Some(t) => StepView::Act(
                        GameCall::Skill {
                            packed,
                            mode: SkillTargetMode::ForceTargetPacket(items@[t].item_param),
                        },
                    ),
                },
            }
        } else {
            StepView::Skip("invalid_cast_target"@)
        },
    }
}

/// The next step of using an item, a spell or a key.
pub open spec fn step_of(
    ctx: DispatchCtx,
    bi: BuffItem,
    book: Option<SpellBook>,
    db: Option<SpellDb>,
) -> StepView {
    if bi.item_type == 'I' {
        item_step(ctx, bi.cast_target)
    } else if bi.item_type == 'S' {
        skill_step(ctx, bi.name@, bi.cast_target, book, db)
    } else if bi.item_type == 'K' {
        StepView::Skip("key_macro_skipped"@)
    } else {
        StepView::Skip("unknown_item_type"@)
    }
}

/// Whether the tables are tables.
pub open spec fn tables_wf(book: Option<SpellBook>, db: Option<SpellDb>) -> bool {
    &&& book matches Some(b) ==> b.wf()
    &&& db matches Some(d) ==> d.wf()
}

fn find_target(items: &Vec<Item>, target: &CastTarget, clean_target: &str) -> (r: Option<usize>)
    ensures
        match r {
            Some(i) => i < items@.len() && target_item(items@, *target, clean_target@) == Some(
                i as int,
            ),
            None => target_item(items@, *target, clean_target@) is None,
        },
{
    match target {
        CastTarget::OnInUseItem(filter) => match filter {
            None => find(items, &Wanted::Tagged(IN_USE)),
            Some(_) => find(items, &Wanted::TaggedClean(IN_USE, clean_target)),
        },
        CastTarget::OnWieldedItem(filter) => match filter {
            None => find(items, &Wanted::Tagged(WIELDED)),
            Some(_) => find(items, &Wanted::TaggedClean(WIELDED, clean_target)),
        },
        CastTarget::OnNamedItem(_) => find(items, &Wanted::Clean(clean_target)),
        _ => None,
    }
}

fn dispatch_use_on_item(ctx: &DispatchCtx, target: &CastTarget, items: &Vec<Item>) -> (r:
    DispatchStep)
    requires
        targets_item(*target),
        ctx.inventory == InventoryRead::Items(*items),
    ensures
        r@ == item_step(*ctx, *target),
{
    let source: u32 = match find(items, &Wanted::Clean(ctx.clean_name.as_str())) {
        None => return DispatchStep::Skip("source_item_not_found"),
        Some(i) => items[i].item_param,
    };
    match find_target(items, target, ctx.clean_target.as_str()) {
        None => DispatchStep::Skip("target_item_not_found"),
        Some(t) => DispatchStep::Act(GameCall::UseOn { source, target: items[t].item_param }),
    }
}

fn dispatch_use_on_named_entity(ctx: &DispatchCtx, target: &CastTarget, items: &Vec<Item>) -> (r:
    DispatchStep)
    requires
        *target is OnNamedEntity,
        ctx.inventory == InventoryRead::Items(*items),
    ensures
        r@ == item_step(*ctx, *target),
{
    let source: u32 = match find(items, &Wanted::Clean(ctx.clean_name.as_str())) {
        None => return DispatchStep::Skip("source_item_not_found"),
        Some(i) => items[i].item_param,
    };
    match ctx.entity {
        EntityRead::NotRead => DispatchStep::Read(Needed::Entity),
        EntityRead::Failed => DispatchStep::Skip("entity_scan_failed"),
        EntityRead::NotFound => DispatchStep::Skip("entity_not_found"),
        EntityRead::Target(id) => DispatchStep::Act(GameCall::UseOn { source, target: id }),
    }
}

fn dispatch_use_on_self(ctx: &DispatchCtx, target: &CastTarget, items: &Vec<Item>) -> (r:
    DispatchStep)
    requires
        *target is SelfItem,
        ctx.inventory == InventoryRead::Items(*items),
    ensures
        r@ == item_step(*ctx, *target),
{
    let source: u32 = match find(items, &Wanted::Clean(ctx.clean_name.as_str())) {
        None => return DispatchStep::Skip("source_item_not_found"),
        Some(i) => items[i].item_param,
    };
    match ctx.char_id {
        CharIdRead::NotRead => DispatchStep::Read(Needed::SelfCharId),
        CharIdRead::Failed => DispatchStep::Skip("self_char_id_unavailable"),
        CharIdRead::Id(id) => {
            if id == 0 {
                return DispatchStep::Skip("self_char_id_unavailable");
            }
            DispatchStep::Act(GameCall::UseOn { source, target: id })
        },
    }
}

/// The next step of using an item.
pub fn dispatch_item(ctx: &DispatchCtx, bi: &BuffItem) -> (r: DispatchStep)
    ensures
        r@ == item_step(*ctx, bi.cast_target),
{
    if let CastTarget::Info = bi.cast_target {
        return DispatchStep::Info;
    }
    let items: &Vec<Item> = match &ctx.inventory {
        InventoryRead::NotRead => return DispatchStep::Read(Needed::Inventory),
        InventoryRead::Failed => return DispatchStep::Skip("inventory_read_failed"),
        InventoryRead::Items(items) => items,
    };
    match &bi.cast_target {
        CastTarget::OnInUseItem(_) => dispatch_use_on_item(ctx, &bi.cast_target, items),
        CastTarget::OnWieldedItem(_) => dispatch_use_on_item(ctx, &bi.cast_target, items),
        CastTarget::OnNamedItem(_) => dispatch_use_on_item(ctx, &bi.cast_target, items),
        CastTarget::OnNamedEntity(_) => dispatch_use_on_named_entity(ctx, &bi.cast_target, items),
        CastTarget::SelfItem => dispatch_use_on_self(ctx, &bi.cast_target, items),
        _ => match find(items, &Wanted::Clean(ctx.clean_name.as_str())) {
            None => DispatchStep::Skip("inventory_not_found"),
            Some(i) => DispatchStep::Act(GameCall::UseItem(items[i].entry_addr)),
        },
    }
}

fn lookup_packed(name: &str, book: &Option<SpellBook>, db: &Option<SpellDb>) -> (r: Option<u32>)
    requires
        tables_wf(*book, *db),
    ensures
        r == packed_of(name@, *book, *db),
{
    let learnt: Option<u32> = match book {
        Some(b) => b.lookup(name),
        None => None,
    };
    match learnt {
        Some(packed) => Some(packed),
        None => match db {
            Some(d) => d.lookup(name),
            None => None,
        },
    }
}

/// The next step of casting a spell.
pub fn dispatch_skill(
    ctx: &DispatchCtx,
    bi: &BuffItem,
    book: &Option<SpellBook>,
    db: &Option<SpellDb>,
) -> (r: DispatchStep)
    requires
        tables_wf(*book, *db),
    ensures
        r@ == skill_step(*ctx, bi.name@, bi.cast_target, *book, *db),
{
    let packed: u32 = match lookup_packed(bi.name.as_str(), book, db) {
        None => return DispatchStep::Skip("spell_lookup_failed"),
        Some(packed) => packed,
    };
    let on_item: bool = match &bi.cast_target {
        CastTarget::Self_ => {
            return DispatchStep::Act(
                GameCall::Skill { packed, mode: SkillTargetMode::ForceSelfPacket },
            )
        },
        CastTarget::NoSpec => {
            return DispatchStep::Act(GameCall::Skill { packed, mode: SkillTargetMode::NoSpec })
        },
        CastTarget::HoverTarget => {
            return DispatchStep::Act(GameCall::Skill { packed, mode: SkillTargetMode::NoSpec })
        },
        CastTarget::OnInUseItem(_) => true,
        CastTarget::OnWieldedItem(_) => true,
        CastTarget::OnNamedItem(_) => true,
        _ => false,
    };
    if !on_item {
        return DispatchStep::Skip("invalid_cast_target");
    }
    let items: &Vec<Item> = match &ctx.inventory {
        InventoryRead::NotRead => return DispatchStep::Read(Needed::Inventory),
        InventoryRead::Failed => return DispatchStep::Skip("inventory_read_failed"),
        InventoryRead::Items(items) => items,
    };
    match find_target(items, &bi.cast_target, ctx.clean_target.as_str()) {
        None => DispatchStep::Skip("target_item_not_found"),
        Some(t) => DispatchStep::Act(
            GameCall::Skill {
                packed,
                mode: SkillTargetMode::ForceTargetPacket(items[t].item_param),
            },
        ),
    }
}

/// The next step of using an item, a spell or a key.
pub fn execute_buff_item(
    ctx: &DispatchCtx,
    bi: &BuffItem,
    book: &Option<SpellBook>,
    db: &Option<SpellDb>,
) -> (r: DispatchStep)
    requires
        tables_wf(*book, *db),
    ensures
        r@ == step_of(*ctx, *bi, *book, *db),
{
    match bi.item_type {
        'I' => dispatch_item(ctx, bi),
        'S' => dispatch_skill(ctx, bi, book, db),
        'K' => DispatchStep::Skip("key_macro_skipped"),
        _ => DispatchStep::Skip("unknown_item_type"),
    }
}

/// Whether a use can end in a call.
pub open spec fn dispatchable(call: GameCall) -> bool {
    call is UseItem || call is UseOn || call is Skill
}

/// What comes of a call that was made (`ok`), or failed.
pub open spec fn outcome_of(call: GameCall, ok: bool) -> OutcomeView {
    if ok {
        if call is Skill {
            OutcomeView::SkillCast
        } else {
            OutcomeView::Done
        }
    } else {
        OutcomeView::Skipped(
            if call is UseItem {
                "execute_use_item_err"@
            } else if call is UseOn {
                "execute_use_on_wielded_err"@
            } else {
                "execute_skill_err"@
            },
        )
    }
}

/// What comes of a call that was made, or failed.
pub fn call_outcome(call: &GameCall, ok: bool) -> (r: DispatchOutcome)
    requires
        dispatchable(*call),
    ensures
        r@ == outcome_of(*call, ok),
{
    match call {
        GameCall::UseItem(_) => if ok {
            DispatchOutcome::Done
        } else {
            DispatchOutcome::Skipped("execute_use_item_err")
        },
        GameCall::UseOn { .. } => if ok {
            DispatchOutcome::Done
        } else {
            DispatchOutcome::Skipped("execute_use_on_wielded_err")
        },
        _ => if ok {
            DispatchOutcome::SkillCast
        } else {
            DispatchOutcome::Skipped("execute_skill_err")
        },
    }
}

/// An item is used or used on something, a spell is cast; nothing else is ever sent.
pub proof fn uses_end_in_their_calls(
    ctx: DispatchCtx,
    bi: BuffItem,
    book: Option<SpellBook>,
    db: Option<SpellDb>,
)
    ensures
        step_of(ctx, bi, book, db) matches StepView::Act(call) ==> dispatchable(call) && (call
            is Skill <==> bi.item_type == 'S'),
{
}

/// A use asks for each thing at most once: where something has been read, it is not
/// asked for again.
pub proof fn nothing_is_asked_twice(
    ctx: DispatchCtx,
    bi: BuffItem,
    book: Option<SpellBook>,
    db: Option<SpellDb>,
)
    ensures
        ctx.inventory !is NotRead ==> step_of(ctx, bi, book, db) != StepView::Read(
            Needed::Inventory,
        ),
        ctx.char_id !is NotRead ==> step_of(ctx, bi, book, db) != StepView::Read(
            Needed::SelfCharId,
        ),
        ctx.entity !is NotRead ==> step_of(ctx, bi, book, db) != StepView::Read(Needed::Entity),
{
}

/// What the player has learnt goes before what the client knows.
pub proof fn learnt_spells_go_first(name: Seq<char>, book: SpellBook, db: Option<SpellDb>)
    requires
        book@.dom().contains(name),
    ensures
        packed_of(name, Some(book), db) == Some(book@[name]),
{
}

/// Whether a name is worth showing for one that is not known: it starts with the
/// same character, or holds the other.
pub open spec fn similar(name: Seq<char>, needle: Seq<char>) -> bool {
    (needle.len() > 0 && name.len() > 0 && name[0] == needle[0]) || text::contains(name, needle)
}

/// The similar ones of several names.
pub open spec fn similar_names(names: Seq<String>, needle: Seq<char>) -> Seq<Seq<char>>
    decreases names.len(),
{
    if names.len() == 0 {
        Seq::empty()
    } else {
        let before = similar_names(names.drop_last(), needle);
        if before.len() < MAX_CANDIDATES && similar(names.last()@, needle) {
            before.push(names.last()@)
        } else {
            before
        }
    }
}

/// Up to eight names that are similar to one that is not known.
pub fn candidates(names: &Vec<String>, needle: &str) -> (r: Vec<String>)
    ensures
        Seq::new(r@.len(), |i: int| r@[i]@) == similar_names(names@, needle@),
{
    let wanted: Vec<char> = to_chars(needle);
    let mut r: Vec<String> = Vec::new();
    let mut i: usize = 0;
    assert(names@.take(0).len() == 0);
    assert(Seq::new(r@.len(), |k: int| r@[k]@) =~= similar_names(names@.take(0), needle@));
    while i < names.len()
        invariant
            i <= names@.len(),
            wanted@ == needle@,
            Seq::new(r@.len(), |k: int| r@[k]@) == similar_names(names@.take(i as int), needle@),
        decreases names@.len() - i,
    {
        assert(names@.take(i + 1).drop_last() =~= names@.take(i as int));
        assert(names@.take(i + 1).last() == names@[i as int]);
        let name: Vec<char> = to_chars(names[i].as_str());
        let alike: bool = (wanted.len() > 0 && name.len() > 0 && name[0] == wanted[0])
            || contains_chars(name.as_slice(), wanted.as_slice());
        let ghost before = Seq::new(r@.len(), |k: int| r@[k]@);
        if r.len() < MAX_CANDIDATES && alike {
            r.push(text_of(names[i].as_str()));
            assert(Seq::new(r@.len(), |k: int| r@[k]@) =~= before.push(names@[i as int]@));
        }
        i += 1;
    }
    assert(names@.take(names@.len() as int) =~= names@);
    r
}

} // verus!
