use assist::buff_dispatch::{
    call_outcome, candidates, dispatch_item, dispatch_skill, execute_buff_item, CharIdRead,
    DispatchCtx, DispatchOutcome, DispatchStep, EntityRead, GameCall, Needed,
};
use assist::drink_hook::SkillTargetMode;
use assist::entity_scan::{
    decode_name_at, find_entity_by_name, next_scan_addr, region_read_size, scan_region, EmptyName,
    EntityNames, PLAYER_VFPTR,
};
use assist::inventory::{find, holds, InventoryRead, Item, Wanted};
use assist::name_table::NameTable;
use assist::settings::{BuffItem, CastTarget};
use assist::spell_book::SpellBook;
use assist::spell_db::SpellDb;

fn item(entry_addr: u32, item_param: u32, name: &str, clean: &str) -> Item {
    Item {
        entry_addr,
        item_param,
        count: 1,
        name: name.to_string(),
        clean_name: clean.to_string(),
        bare_name: clean.to_string(),
    }
}

fn bag() -> InventoryRead {
    InventoryRead::Items(vec![
        item(0x1000, 1, "祝福卷軸 (3)", "祝福卷軸"),
        item(0x2000, 2, "鎖子甲 (使用中)", "鎖子甲"),
        item(0x3000, 3, "武士刀 (揮舞)", "武士刀"),
        item(0x4000, 4, "頭盔 (使用中)", "頭盔"),
    ])
}

fn ctx(name: &str, target: &str, inventory: InventoryRead) -> DispatchCtx {
    DispatchCtx {
        clean_name: name.to_string(),
        clean_target: target.to_string(),
        inventory,
        char_id: CharIdRead::NotRead,
        entity: EntityRead::NotRead,
    }
}

fn what(item_type: char, name: &str, cast_target: CastTarget) -> BuffItem {
    BuffItem { id: 0, name: name.to_string(), item_type, cast_target }
}

fn skip_of(step: DispatchStep) -> &'static str {
    match step {
        DispatchStep::Skip(reason) => reason,
        _ => panic!("no reason"),
    }
}

fn call_of(step: DispatchStep) -> GameCall {
    match step {
        DispatchStep::Act(call) => call,
        _ => panic!("no call"),
    }
}

fn book() -> Option<SpellBook> {
    let mut table = NameTable::new();
    table.insert_highest("加速術".to_string(), 42);
    Some(SpellBook { table, book_ptr: 0x1234 })
}

fn db() -> Option<SpellDb> {
    let mut table = NameTable::new();
    table.insert_first("加速術".to_string(), 40);
    table.insert_first("保護罩".to_string(), 8);
    Some(SpellDb { table, entries: 2 })
}

#[test]
fn items_are_used_where_they_stand() {
    let bi = what('I', "祝福卷軸", CastTarget::Item);
    let step = dispatch_item(&ctx("祝福卷軸", "", bag()), &bi);
    assert_eq!(call_of(step), GameCall::UseItem(0x1000));
    let bi = what('I', "祝福卷軸", CastTarget::DropItem);
    let step = dispatch_item(&ctx("祝福卷軸", "", bag()), &bi);
    assert_eq!(call_of(step), GameCall::UseItem(0x1000));
}

#[test]
fn items_are_used_on_items() {
    let on = |target: CastTarget, name: &str| {
        call_of(dispatch_item(&ctx("祝福卷軸", name, bag()), &what('I', "祝福卷軸", target)))
    };
    assert_eq!(on(CastTarget::OnInUseItem(None), ""), GameCall::UseOn { source: 1, target: 2 });
    assert_eq!(
        on(CastTarget::OnInUseItem(Some("頭盔".to_string())), "頭盔"),
        GameCall::UseOn { source: 1, target: 4 }
    );
    assert_eq!(on(CastTarget::OnWieldedItem(None), ""), GameCall::UseOn { source: 1, target: 3 });
    assert_eq!(
        on(CastTarget::OnNamedItem("武士刀".to_string()), "武士刀"),
        GameCall::UseOn { source: 1, target: 3 }
    );
}

#[test]
fn items_are_used_on_oneself() {
    let bi = what('I', "祝福卷軸", CastTarget::SelfItem);
    let mut c = ctx("祝福卷軸", "", bag());
    assert!(matches!(dispatch_item(&c, &bi), DispatchStep::Read(Needed::SelfCharId)));
    c.char_id = CharIdRead::Id(0xBF);
    assert_eq!(call_of(dispatch_item(&c, &bi)), GameCall::UseOn { source: 1, target: 0xBF });
    c.char_id = CharIdRead::Id(0);
    assert_eq!(skip_of(dispatch_item(&c, &bi)), "self_char_id_unavailable");
    c.char_id = CharIdRead::Failed;
    assert_eq!(skip_of(dispatch_item(&c, &bi)), "self_char_id_unavailable");
}

#[test]
fn items_are_used_on_named_objects() {
    let bi = what('I', "祝福卷軸", CastTarget::OnNamedEntity("Orc".to_string()));
    let mut c = ctx("祝福卷軸", "", bag());
    assert!(matches!(dispatch_item(&c, &bi), DispatchStep::Read(Needed::Entity)));
    c.entity = EntityRead::Target(77);
    assert_eq!(call_of(dispatch_item(&c, &bi)), GameCall::UseOn { source: 1, target: 77 });
    c.entity = EntityRead::NotFound;
    assert_eq!(skip_of(dispatch_item(&c, &bi)), "entity_not_found");
    c.entity = EntityRead::Failed;
    assert_eq!(skip_of(dispatch_item(&c, &bi)), "entity_scan_failed");
}

#[test]
fn each_missing_thing_has_its_reason() {
    let plain = what('I', "治癒藥水", CastTarget::Item);
    assert!(matches!(
        dispatch_item(&ctx("治癒藥水", "", InventoryRead::NotRead), &plain),
        DispatchStep::Read(Needed::Inventory)
    ));
    let c = ctx("治癒藥水", "", InventoryRead::Failed);
    assert_eq!(skip_of(dispatch_item(&c, &plain)), "inventory_read_failed");
    let c = ctx("治癒藥水", "", bag());
    assert_eq!(skip_of(dispatch_item(&c, &plain)), "inventory_not_found");
    let on = what('I', "治癒藥水", CastTarget::OnWieldedItem(None));
    assert_eq!(skip_of(dispatch_item(&c, &on)), "source_item_not_found");
    let on = what('I', "祝福卷軸", CastTarget::OnNamedItem("斗篷".to_string()));
    assert_eq!(skip_of(dispatch_item(&ctx("祝福卷軸", "斗篷", bag()), &on)), "target_item_not_found");
    assert!(matches!(
        dispatch_item(&c, &what('I', "", CastTarget::Info)),
        DispatchStep::Info
    ));
}

#[test]
fn spells_are_cast_with_the_learnt_number() {
    let c = ctx("", "", InventoryRead::NotRead);
    let cast = |name: &str, target: CastTarget| {
        call_of(dispatch_skill(&c, &what('S', name, target), &book(), &db()))
    };
    assert_eq!(
        cast("加速術", CastTarget::Self_),
        GameCall::Skill { packed: 42, mode: SkillTargetMode::ForceSelfPacket }
    );
    assert_eq!(
        cast("保護罩", CastTarget::NoSpec),
        GameCall::Skill { packed: 8, mode: SkillTargetMode::NoSpec }
    );
    assert_eq!(
        cast("保護罩", CastTarget::HoverTarget),
        GameCall::Skill { packed: 8, mode: SkillTargetMode::NoSpec }
    );
}

#[test]
fn spells_are_cast_on_items() {
    let bi = what('S', "加速術", CastTarget::OnWieldedItem(None));
    let step = dispatch_skill(&ctx("", "", bag()), &bi, &book(), &None);
    assert_eq!(
        call_of(step),
        GameCall::Skill { packed: 42, mode: SkillTargetMode::ForceTargetPacket(3) }
    );
    let step = dispatch_skill(&ctx("", "", InventoryRead::NotRead), &bi, &book(), &None);
    assert!(matches!(step, DispatchStep::Read(Needed::Inventory)));
    let step = dispatch_skill(&ctx("", "", InventoryRead::Failed), &bi, &book(), &None);
    assert_eq!(skip_of(step), "inventory_read_failed");
    let bi = what('S', "加速術", CastTarget::OnNamedItem("斗篷".to_string()));
    let step = dispatch_skill(&ctx("", "斗篷", bag()), &bi, &book(), &None);
    assert_eq!(skip_of(step), "target_item_not_found");
}

#[test]
fn unknown_spells_and_targets_are_left_out() {
    let c = ctx("", "", bag());
    let bi = what('S', "隕石雨", CastTarget::Self_);
    assert_eq!(skip_of(dispatch_skill(&c, &bi, &book(), &db())), "spell_lookup_failed");
    let bi = what('S', "加速術", CastTarget::Item);
    assert_eq!(skip_of(dispatch_skill(&c, &bi, &book(), &db())), "invalid_cast_target");
}

#[test]
fn uses_go_by_their_letter() {
    let c = ctx("祝福卷軸", "", bag());
    let step = execute_buff_item(&c, &what('I', "祝福卷軸", CastTarget::Item), &None, &None);
    assert_eq!(call_of(step), GameCall::UseItem(0x1000));
    let step = execute_buff_item(&c, &what('S', "加速術", CastTarget::Self_), &None, &db());
    assert_eq!(
        call_of(step),
        GameCall::Skill { packed: 40, mode: SkillTargetMode::ForceSelfPacket }
    );
    let step = execute_buff_item(&c, &what('K', "F1", CastTarget::Key(1)), &None, &None);
    assert_eq!(skip_of(step), "key_macro_skipped");
    let step = execute_buff_item(&c, &what('X', "F1", CastTarget::Item), &None, &None);
    assert_eq!(skip_of(step), "unknown_item_type");
}

#[test]
fn calls_end_in_their_outcomes() {
    let skill = GameCall::Skill { packed: 1, mode: SkillTargetMode::NoSpec };
    let on = GameCall::UseOn { source: 1, target: 2 };
    assert_eq!(call_outcome(&GameCall::UseItem(1), true), DispatchOutcome::Done);
    assert_eq!(call_outcome(&on, true), DispatchOutcome::Done);
    assert_eq!(call_outcome(&skill, true), DispatchOutcome::SkillCast);
    assert_eq!(
        call_outcome(&GameCall::UseItem(1), false),
        DispatchOutcome::Skipped("execute_use_item_err")
    );
    assert_eq!(call_outcome(&on, false), DispatchOutcome::Skipped("execute_use_on_wielded_err"));
    assert_eq!(call_outcome(&skill, false), DispatchOutcome::Skipped("execute_skill_err"));
}

#[test]
fn candidates_share_the_first_character_or_hold_the_name() {
    let names: Vec<String> =
        ["加速術", "大加速術", "保護罩", "加護"].iter().map(|s| s.to_string()).collect();
    assert_eq!(candidates(&names, "加速術"), vec!["加速術", "大加速術", "加護"]);
    let many: Vec<String> = (0..20).map(|i| format!("a{}", i)).collect();
    assert_eq!(candidates(&many, "a").len(), 8);
}

#[test]
fn the_first_fit_is_found() {
    let items = vec![
        item(1, 1, "肉 (2)", "肉"),
        item(2, 2, "肉 (9)", "肉"),
        item(3, 3, "武士刀 (揮舞)", "武士刀"),
    ];
    assert_eq!(find(&items, &Wanted::Clean("肉")), Some(0));
    assert_eq!(find(&items, &Wanted::Bare("肉")), Some(0));
    assert_eq!(find(&items, &Wanted::Exact("肉 (9)")), Some(1));
    assert_eq!(find(&items, &Wanted::Prefixed("武")), Some(2));
    assert_eq!(find(&items, &Wanted::Tagged("(揮舞)")), Some(2));
    assert_eq!(find(&items, &Wanted::TaggedClean("(揮舞)", "肉")), None);
    assert!(holds("武士刀 (揮舞)", "(揮舞)"));
    assert!(!holds("武士刀", "(揮舞)"));
}

fn seen(addr: u32, target_id: u32, names: [Option<&str>; 3]) -> EntityNames {
    EntityNames { addr, target_id, names: names.map(|n| n.map(|s| s.to_string())) }
}

#[test]
fn the_own_name_finds_oneself() {
    let me = seen(0x100, 7, [None, Some("Me"), None]);
    let others = vec![seen(0x200, 8, [Some("Me"), None, None])];
    let found = find_entity_by_name("Me", Some(&me), &others).unwrap().unwrap();
    assert_eq!((found.addr, found.target_id), (0x100, 7));
    assert_eq!(found.name, "Me");
}

#[test]
fn an_exact_name_goes_before_a_leading_one() {
    let list = vec![
        seen(0x200, 8, [Some("Orc"), None, None]),
        seen(0x300, 9, [None, None, Some("Orc Fighter")]),
    ];
    let found = find_entity_by_name("Orc Fighter", None, &list).unwrap().unwrap();
    assert_eq!(found.target_id, 9);
    let found = find_entity_by_name("Orc Archer", None, &list).unwrap().unwrap();
    assert_eq!(found.target_id, 8);
    assert!(find_entity_by_name("Elf", None, &list).unwrap().is_none());
}

#[test]
fn an_empty_name_is_refused() {
    assert!(matches!(find_entity_by_name("  ", None, &vec![]), Err(EmptyName)));
}

#[test]
fn regions_are_scanned_for_objects() {
    let mut buf = vec![0u8; 32];
    buf[8..12].copy_from_slice(&PLAYER_VFPTR.to_le_bytes());
    buf[24..28].copy_from_slice(&PLAYER_VFPTR.to_le_bytes());
    assert_eq!(scan_region(0x0200_0000, &buf), vec![0x0200_0008, 0x0200_0018]);
    assert_eq!(next_scan_addr(0x0100_0000, Some((0x0100_0000, 0x2000))), 0x0100_2000);
    assert_eq!(next_scan_addr(0x0100_0000, None), 0x0100_1000);
    assert_eq!(region_read_size(true, true, 0x2000), Some(0x2000));
    assert_eq!(region_read_size(false, true, 0x2000), None);
    assert_eq!(region_read_size(true, false, 0x2000), None);
}

#[test]
fn names_of_objects_end_at_the_zero() {
    assert_eq!(decode_name_at(Some(b"Orc\0xyz"), "?"), Some("Orc".to_string()));
    assert_eq!(decode_name_at(Some(&[0xB4, 0xFA, 0]), "測"), Some("測".to_string()));
    assert_eq!(decode_name_at(Some(&[0xB4, 0]), "\u{FFFD}"), None);
    assert_eq!(decode_name_at(Some(b"\0Orc"), ""), None);
    assert_eq!(decode_name_at(None, "Orc"), None);
}
