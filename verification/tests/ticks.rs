use assist::buff_dispatch::{DispatchOutcome, GameCall};
use assist::drink_hook::SkillTargetMode;
use assist::exp_tracker::{
    exp_to_next_pct, format_chat_line, level_from_total_exp, level_start_threshold, ExpTracker,
    TickReport,
};
use assist::hotkey::{fire_macro, game_focused, key_step, take_key, KeyStep};
use assist::inventory::Item;
use assist::name_table::NameTable;
use assist::player_state::{
    decode_xor_stat, read_player_state, stat_entry_addr, PlayerState, StatIndexError, StateReads,
};
use assist::runtime::{
    buff_tick, buff_tick_starts, buff_used, delete_tick, drink_action, drink_tick, eat_action,
    exp_tick, fire_status_action, mp_when_safe_triggered, names_of, pick_delete_action,
    pick_shout_message, pick_timer_action, second_state_clear, shout_settled, shout_tick, state_poll,
    status_tick, sync_tick, timer_tick, transform_tick, whetstone_tick, wielded_weapon, BuffPass,
    DeleteAction, DrinkChoice, NoWhetstone, PollReport, StatePoll, StatusCooldowns, StatusPlan,
    SyncState, TransformAction, DURABILITY_TAG, SECOND,
};
use assist::settings::{AuxSettings, BuffItem, CastTarget, TimerRow};
use assist::spell_book::SpellBook;
use std::collections::HashMap;

const WORLD: Option<u32> = Some(3);

fn item(entry_addr: u32, item_param: u32, count: u32, name: &str, bare: &str) -> Item {
    Item {
        entry_addr,
        item_param,
        count,
        name: name.to_string(),
        clean_name: bare.to_string(),
        bare_name: bare.to_string(),
    }
}

fn player(hp: u32, max_hp: u32, mp: u32, max_mp: u32) -> PlayerState {
    PlayerState { hp, max_hp, mp, max_mp, ..Default::default() }
}

fn book() -> Option<SpellBook> {
    let mut table = NameTable::new();
    table.insert_highest("初級治癒術".to_string(), 4);
    Some(SpellBook { table, book_ptr: 1 })
}

fn what(id: i32, item_type: char, name: &str, cast_target: CastTarget) -> BuffItem {
    BuffItem { id, name: name.to_string(), item_type, cast_target }
}

#[test]
fn the_upper_row_is_drunk() {
    let mut s = AuxSettings::default();
    s.potion_rows[2].enabled = true;
    s.potion_rows[2].threshold = 500;
    s.potion_rows[2].item = "治癒藥水".to_string();
    s.potion_rows[5].enabled = true;
    s.potion_rows[5].threshold = 800;
    s.potion_rows[5].item = "強力治癒藥水".to_string();
    let at = |hp: u32| drink_tick(&s, WORLD, true, Some(player(hp, 1000, 0, 0)));
    assert_eq!(at(400), DrinkChoice::Row(2));
    assert_eq!(at(500), DrinkChoice::Row(5));
    assert_eq!(at(800), DrinkChoice::Nothing);
}

#[test]
fn percents_are_of_the_most() {
    let mut s = AuxSettings::default();
    s.potion_use_percent = true;
    s.potion_rows[0].enabled = true;
    s.potion_rows[0].threshold = 50;
    s.potion_rows[0].item = "治癒藥水".to_string();
    let at = |hp: u32, max: u32| drink_tick(&s, WORLD, true, Some(player(hp, max, 0, 0)));
    assert_eq!(at(99, 200), DrinkChoice::Row(0));
    assert_eq!(at(100, 200), DrinkChoice::Nothing);
    assert_eq!(at(u32::MAX, u32::MAX), DrinkChoice::Row(0));
}

#[test]
fn nothing_is_drunk_outside_of_the_world() {
    let mut s = AuxSettings::default();
    s.potion_rows[0].enabled = true;
    s.potion_rows[0].threshold = 500;
    s.potion_rows[0].item = "治癒藥水".to_string();
    let hurt = Some(player(1, 1000, 0, 0));
    assert_eq!(drink_tick(&s, WORLD, true, hurt), DrinkChoice::Row(0));
    assert_eq!(drink_tick(&s, Some(2), true, hurt), DrinkChoice::Nothing);
    assert_eq!(drink_tick(&s, None, true, hurt), DrinkChoice::Nothing);
    assert_eq!(drink_tick(&s, WORLD, false, hurt), DrinkChoice::Nothing);
    assert_eq!(drink_tick(&s, WORLD, true, None), DrinkChoice::Nothing);
    assert_eq!(drink_tick(&s, WORLD, true, Some(player(0, 0, 0, 0))), DrinkChoice::Nothing);
    assert_eq!(drink_tick(&AuxSettings::default(), WORLD, true, hurt), DrinkChoice::Nothing);
}

#[test]
fn magic_points_come_last() {
    let mut s = AuxSettings::default();
    s.mp_when_safe.enabled = true;
    s.mp_when_safe.hp_lower = 500;
    s.mp_when_safe.mp_upper = 20;
    s.mp_when_safe.item = "心靈轉換/M".to_string();
    let good = player(500, 1000, 20, 100);
    assert_eq!(drink_tick(&s, WORLD, true, Some(good)), DrinkChoice::MpWhenSafe);
    assert!(!mp_when_safe_triggered(&s, &player(499, 1000, 20, 100)));
    assert!(!mp_when_safe_triggered(&s, &player(500, 1000, 21, 100)));
    s.potion_rows[0].enabled = true;
    s.potion_rows[0].threshold = 600;
    s.potion_rows[0].item = "治癒藥水".to_string();
    assert_eq!(drink_tick(&s, WORLD, true, Some(good)), DrinkChoice::Row(0));
}

#[test]
fn drinking_takes_an_item_or_a_spell() {
    let items = vec![item(0x10, 1, 5, "治癒藥水 (5)", "治癒藥水")];
    let potion = what(0, 'I', "治癒藥水", CastTarget::Item);
    assert_eq!(
        drink_action(&potion, "治癒藥水", Some(&items), &None),
        Some(GameCall::Drink(0x10))
    );
    assert_eq!(drink_action(&potion, "果汁", Some(&items), &None), None);
    assert_eq!(drink_action(&potion, "治癒藥水", None, &None), None);
    let spell = what(0, 'S', "初級治癒術", CastTarget::Self_);
    assert_eq!(
        drink_action(&spell, "", None, &book()),
        Some(GameCall::Skill { packed: 4, mode: SkillTargetMode::ForceSelfPacket })
    );
    assert_eq!(drink_action(&spell, "", None, &None), None);
    let spell = what(0, 'S', "初級治癒術", CastTarget::NoSpec);
    assert_eq!(
        drink_action(&spell, "", None, &book()),
        Some(GameCall::Skill { packed: 4, mode: SkillTargetMode::NoSpec })
    );
    let spell = what(0, 'S', "初級治癒術", CastTarget::HoverTarget);
    assert_eq!(drink_action(&spell, "", None, &book()), None);
    assert_eq!(drink_action(&what(0, 'K', "", CastTarget::Key(1)), "", None, &book()), None);
}

#[test]
fn missing_states_are_looked_for_in_order() {
    let list = vec![
        what(1, 'I', "a", CastTarget::Item),
        what(37, 'S', "b", CastTarget::Self_),
        what(3, 'S', "c", CastTarget::Self_),
    ];
    let mut table = [0u8; 0x1F0];
    table[1] = 1;
    let none: HashMap<u64, u64> = HashMap::new();
    let mut pass = BuffPass { at: 0, skill_cast: false };
    assert_eq!(buff_tick(&mut pass, &list, &table, 3, &none, 0), Some((1, 0x00AB_F6B8 + 42)));
    assert_eq!(pass.at, 2);
    pass.skill_cast = true;
    assert_eq!(buff_tick(&mut pass, &list, &table, 3, &none, 0), None);
    table[42] = 1;
    let mut pass = BuffPass { at: 0, skill_cast: false };
    assert_eq!(buff_tick(&mut pass, &list, &table, 3, &none, 0), Some((2, 0x00AB_F6B8 + 3)));
}

#[test]
fn states_outside_of_the_table_are_left_alone() {
    let list = vec![what(-1, 'I', "a", CastTarget::Item), what(0x1F0, 'I', "b", CastTarget::Item)];
    let none: HashMap<u64, u64> = HashMap::new();
    let mut pass = BuffPass { at: 0, skill_cast: false };
    assert_eq!(buff_tick(&mut pass, &list, &[0u8; 0x1F0], 0, &none, 0), None);
    assert!(second_state_clear(None));
    assert!(second_state_clear(Some(0)));
    assert!(!second_state_clear(Some(1)));
}

#[test]
fn what_was_used_rests_for_a_while() {
    let list = vec![what(7, 'S', "b", CastTarget::Self_), what(7, 'I', "c", CastTarget::Item)];
    let mut cooldowns: HashMap<u64, u64> = HashMap::new();
    let mut pass = BuffPass { at: 0, skill_cast: false };
    buff_used(&mut pass, &list[0], &DispatchOutcome::SkillCast, &mut cooldowns, 10 * SECOND);
    assert!(pass.skill_cast);
    assert_eq!(cooldowns.get(&((('S' as u64) << 32) + 7)), Some(&(10 * SECOND)));
    let table = [0u8; 0x1F0];
    let mut fresh = BuffPass { at: 0, skill_cast: false };
    assert_eq!(buff_tick(&mut fresh, &list, &table, 0, &cooldowns, 12 * SECOND - 1), Some((1, 0x00AB_F6BF)));
    let mut fresh = BuffPass { at: 0, skill_cast: false };
    assert_eq!(buff_tick(&mut fresh, &list, &table, 0, &cooldowns, 12 * SECOND), Some((0, 0x00AB_F6BF)));
}

#[test]
fn states_are_looked_at_when_switched_on() {
    let mut s = AuxSettings::default();
    s.buff_inventory_items = vec![what(7, 'S', "b", CastTarget::Self_)];
    s.buff_items = vec![what(7, 'S', "b", CastTarget::Self_)];
    assert!(!buff_tick_starts(&s, WORLD, true));
    s.buff_enabled = true;
    assert!(buff_tick_starts(&s, WORLD, true));
    assert!(!buff_tick_starts(&s, Some(1), true));
    assert!(!buff_tick_starts(&s, WORLD, false));
}

#[test]
fn the_status_page_has_its_times() {
    let mut s = AuxSettings::default();
    s.status_eat_meat = true;
    s.status_whetstone = true;
    s.status_antidote_enabled = true;
    s.status_antidote_item = "解毒藥水".to_string();
    s.status_transform_enabled = true;
    s.status_transform_item = "變形卷軸".to_string();
    let mut c = StatusCooldowns::default();
    let now = 100 * SECOND;
    let all = StatusPlan { eat_meat: true, antidote: true, whetstone: true, transform: true };
    let none = StatusPlan { eat_meat: false, antidote: false, whetstone: false, transform: false };
    assert_eq!(status_tick(&s, WORLD, true, &mut c, now, Some(224), true), all);
    assert_eq!(c.eat_meat, Some(now));
    assert_eq!(status_tick(&s, WORLD, true, &mut c, now, Some(224), true), none);
    assert_eq!(
        status_tick(&s, WORLD, true, &mut c, now + 5 * SECOND - 1, Some(224), true),
        none
    );
    assert_eq!(
        status_tick(&s, WORLD, true, &mut c, now + 5 * SECOND, Some(225), false),
        StatusPlan { eat_meat: false, antidote: false, whetstone: true, transform: true }
    );
    assert_eq!(
        status_tick(&s, WORLD, true, &mut c, now + 9 * SECOND, Some(224), true),
        StatusPlan { eat_meat: true, antidote: true, whetstone: false, transform: false }
    );
    assert_eq!(status_tick(&s, Some(1), true, &mut c, now * 2, Some(0), true), none);
}

#[test]
fn meat_is_eaten_and_antidotes_are_taken() {
    let items = vec![
        item(0x10, 1, 5, "解毒藥水 (5)", "解毒藥水"),
        item(0x20, 2, 3, "肉 (3)", "肉"),
    ];
    assert_eq!(eat_action(&items), Some(GameCall::UseItem(0x20)));
    assert_eq!(eat_action(&vec![]), None);
    let bi = what(0, 'I', "解毒藥水", CastTarget::Item);
    assert_eq!(
        fire_status_action(&bi, "解毒藥水", Some(&items), &None),
        Some(GameCall::UseItem(0x10))
    );
    let bi = what(0, 'S', "初級治癒術", CastTarget::NoSpec);
    assert_eq!(
        fire_status_action(&bi, "", None, &book()),
        Some(GameCall::Skill { packed: 4, mode: SkillTargetMode::ForceSelfPacket })
    );
    assert_eq!(fire_status_action(&bi, "", None, &None), None);
}

#[test]
fn transforming_needs_a_plain_shape() {
    let items = vec![item(0x10, 1, 5, "變形卷軸 (5)", "變形卷軸")];
    let go = |a: Option<u8>, b: Option<u8>, option: &str| {
        transform_tick('I', "變形卷軸", option, a, b, &items)
    };
    assert!(matches!(go(Some(0), Some(0), ""), TransformAction::UseItem(0x10)));
    match go(Some(0), None, " death 80 ") {
        TransformAction::Scroll(param, option) => {
            assert_eq!(param, 1);
            assert_eq!(option, "death 80");
        }
        _ => panic!("no scroll"),
    }
    assert!(matches!(go(Some(1), Some(0), ""), TransformAction::Nothing));
    assert!(matches!(go(Some(0), Some(1), ""), TransformAction::Nothing));
    let nothing = transform_tick('S', "變形卷軸", "", Some(0), Some(0), &items);
    assert!(matches!(nothing, TransformAction::Nothing));
    let missing = transform_tick('I', "卷軸", "", Some(0), Some(0), &items);
    assert!(matches!(missing, TransformAction::NotFound));
}

#[test]
fn damaged_weapons_are_whetted() {
    let items = vec![
        item(0x10, 1, 1, "武士刀 (揮舞)", "武士刀"),
        item(0x20, 2, 9, "磨刀石 (9)", "磨刀石"),
    ];
    assert_eq!(wielded_weapon(&items), Some(0));
    assert_eq!(wielded_weapon(&vec![]), None);
    let mut desc = vec![b'x'; 10];
    desc.extend_from_slice(&DURABILITY_TAG);
    desc.push(0);
    assert_eq!(
        whetstone_tick(&items, 0, 0x20_0000, &desc),
        Ok(Some(GameCall::UseOn { source: 2, target: 1 }))
    );
    assert_eq!(whetstone_tick(&items, 0, 0x20_0000, b"fine\0"), Ok(None));
    assert_eq!(whetstone_tick(&items, 0, 0x10, &desc), Ok(None));
    let bare = vec![item(0x10, 1, 1, "武士刀 (揮舞)", "武士刀")];
    assert_eq!(whetstone_tick(&bare, 0, 0x20_0000, &desc), Err(NoWhetstone));
}

#[test]
fn things_are_deleted_or_dissolved() {
    let mut s = AuxSettings::default();
    s.delete_enabled = true;
    s.delete_list = vec!["破布".to_string()];
    s.dissolve_list = vec!["+0 鋼刀".to_string()];
    let rag = || item(0x10, 1, 7, "破布", "破布");
    let sword = || item(0x20, 2, 1, "+0 鋼刀", "鋼刀");
    let solvent = || item(0x30, 3, 50, "溶解劑 (50)", "溶解劑");
    let all = vec![sword(), rag(), solvent()];
    assert_eq!(
        delete_tick(&s, WORLD, true, Some(&all)),
        DeleteAction::Act(GameCall::Delete { item: 1, count: 7 })
    );
    let rest = vec![sword(), solvent()];
    assert_eq!(
        delete_tick(&s, WORLD, true, Some(&rest)),
        DeleteAction::Act(GameCall::UseOn { source: 3, target: 2 })
    );
    assert_eq!(delete_tick(&s, WORLD, true, Some(&vec![sword()])), DeleteAction::NoSolvent);
    assert_eq!(delete_tick(&s, WORLD, true, Some(&vec![])), DeleteAction::Nothing);
    assert_eq!(delete_tick(&s, WORLD, true, None), DeleteAction::Nothing);
    assert_eq!(delete_tick(&s, WORLD, false, Some(&all)), DeleteAction::Nothing);
    s.delete_enabled = false;
    assert_eq!(delete_tick(&s, WORLD, true, Some(&all)), DeleteAction::Nothing);
    assert_eq!(names_of(&all), vec!["+0 鋼刀", "破布", "溶解劑 (50)"]);
}

#[test]
fn worn_things_are_never_picked() {
    let worn = vec!["鎖子甲 (使用中)".to_string()];
    assert_eq!(pick_delete_action(&worn, &worn, &worn), None);
}

#[test]
fn messages_take_turns() {
    let mut s = AuxSettings::default();
    s.shout_enabled = true;
    s.shout_interval_sec = 10;
    s.shout_messages = vec!["A".to_string(), "B".to_string()];
    let mut last = None;
    let mut next = 0;
    let t = 1000 * SECOND;
    assert_eq!(shout_tick(&s, WORLD, true, &mut last, &mut next, t), Some("A".to_string()));
    assert_eq!((last, next), (Some(t), 1));
    assert_eq!(shout_tick(&s, WORLD, true, &mut last, &mut next, t + 9 * SECOND), None);
    let t = t + 10 * SECOND;
    assert_eq!(shout_tick(&s, WORLD, true, &mut last, &mut next, t), Some("B".to_string()));
    assert_eq!(next, 0);
    s.shout_interval_sec = 0;
    assert_eq!(shout_tick(&s, WORLD, true, &mut last, &mut next, t * 2), None);
    let mut idx = 5;
    let msgs = vec!["A".to_string(), "B".to_string(), "C".to_string()];
    let first = pick_shout_message(&msgs, idx).unwrap().0;
    for _ in 0..3 {
        idx = pick_shout_message(&msgs, idx).unwrap().1;
    }
    assert_eq!(pick_shout_message(&msgs, idx).unwrap().0, first);
}

#[test]
fn unsaid_messages_are_said_at_the_next_turn() {
    let mut s = AuxSettings::default();
    s.shout_enabled = true;
    s.shout_interval_sec = 10;
    s.shout_messages = vec!["A".to_string(), "B".to_string()];
    let (mut last, mut next) = (Some(1), 1);
    let t = 1000 * SECOND;
    let (last_before, next_before) = (last, next);
    assert_eq!(shout_tick(&s, WORLD, true, &mut last, &mut next, t), Some("B".to_string()));
    shout_settled(false, &mut last, &mut next, last_before, next_before);
    assert_eq!((last, next), (Some(1), 1));
    let t = t + SECOND;
    assert_eq!(shout_tick(&s, WORLD, true, &mut last, &mut next, t), Some("B".to_string()));
    shout_settled(true, &mut last, &mut next, last_before, next_before);
    assert_eq!((last, next), (Some(t), 0));
    assert_eq!(shout_tick(&s, WORLD, true, &mut last, &mut next, t + SECOND), None);
}

fn timed(sec: u32, command: &str) -> TimerRow {
    TimerRow { enabled: true, interval_sec: sec, command: command.to_string() }
}

#[test]
fn timers_fire_and_start_anew() {
    let mut s = AuxSettings::default();
    s.timer_master_enabled = true;
    s.timer_rows[1] = timed(60, "肉/I");
    s.timer_rows[4] = timed(5, "強身術/M");
    let mut last = [None; 6];
    let mut seen = [0u64; 6];
    let resets = [0u64; 6];
    let t = 1000 * SECOND;
    assert_eq!(timer_tick(&s, WORLD, true, &resets, &mut last, &mut seen, t), Some(1));
    assert_eq!(last[1], Some(t));
    assert_eq!(timer_tick(&s, WORLD, true, &resets, &mut last, &mut seen, t), Some(4));
    assert_eq!(timer_tick(&s, WORLD, true, &resets, &mut last, &mut seen, t + SECOND), None);
    let resets = [0, 0, 0, 0, 1, 0];
    let later = t + 5 * SECOND;
    assert_eq!(timer_tick(&s, WORLD, true, &resets, &mut last, &mut seen, later), None);
    assert_eq!(last[4], Some(later));
    assert_eq!(seen[4], 1);
    assert_eq!(pick_timer_action(&s.timer_rows, &last, true, later + 5 * SECOND), Some(4));
}

#[test]
fn switching_is_reported_once() {
    let mut state = SyncState::default();
    assert!(sync_tick(&mut state, true, Err("no".to_string())));
    assert!(!sync_tick(&mut state, true, Err("no".to_string())));
    assert!(sync_tick(&mut state, true, Err("still no".to_string())));
    assert!(sync_tick(&mut state, true, Ok(())));
    assert!(!sync_tick(&mut state, true, Ok(())));
    assert!(sync_tick(&mut state, false, Ok(())));
}

#[test]
fn figures_are_shown_when_they_change() {
    let mut poll = StatePoll { last: None, inventory_dumped: false };
    let p = player(10, 20, 3, 4);
    assert_eq!(state_poll(&mut poll, Some(p)), PollReport { figures: true, inventory: true });
    assert_eq!(state_poll(&mut poll, Some(p)), PollReport { figures: false, inventory: false });
    let q = player(11, 20, 3, 4);
    assert_eq!(state_poll(&mut poll, Some(q)), PollReport { figures: true, inventory: false });
    assert_eq!(state_poll(&mut poll, None), PollReport { figures: false, inventory: false });
}

#[test]
fn experience_is_told_in_the_chat() {
    let mut t = ExpTracker::default();
    assert_eq!(exp_tick(&mut t, true, WORLD, Some(10_202)), None);
    assert!(t.enabled);
    assert_eq!(exp_tick(&mut t, true, WORLD, Some(10_202)), None);
    let line = exp_tick(&mut t, true, WORLD, Some(10_277)).unwrap();
    assert!(line.ends_with(b"75 / 2 / 4364 / 75"));
    assert_eq!(exp_tick(&mut t, true, Some(1), Some(10_377)), None);
    assert_eq!(exp_tick(&mut t, false, WORLD, Some(10_377)), None);
    assert!(!t.enabled);
}

#[test]
fn levels_bracket_totals() {
    for total in [0u64, 124, 125, 9_999, 10_000, 364_575_460, 400_640_553, 4_294_967_295] {
        let level = level_from_total_exp(total);
        assert!(level_start_threshold(level) <= total);
        assert!(total < level_start_threshold(level + 1));
    }
    assert_eq!(exp_to_next_pct(202, 4_641), 31);
    assert_eq!(exp_to_next_pct(0, 0), 0);
    assert_eq!(exp_to_next_pct(u64::MAX, 0), 0);
    assert_eq!(exp_to_next_pct(4_594, 4_641), 1);
    assert_eq!(exp_to_next_pct(4_595, 4_641), 46);
}

#[test]
fn reports_are_one_line() {
    let r = TickReport {
        level: 10,
        delta_kill: 75,
        to_next_pct: 31,
        to_levelup: 4_439,
        session_total: 175,
        leveled_up: false,
    };
    assert_eq!(format_chat_line(&r), b"75 / 31 / 4439 / 175");
}

#[test]
fn gains_add_up_to_the_growth() {
    let mut t = ExpTracker::default();
    t.enable(10_000);
    let mut sum = 0;
    for total in [10_100, 10_100, 10_350, 20_000] {
        if let Some(r) = t.tick(total) {
            sum += r.delta_kill;
            assert_eq!(r.session_total, sum);
        }
    }
    assert_eq!(sum, 10_000);
}

#[test]
fn function_keys_are_swallowed_in_the_game() {
    assert_eq!(key_step(0, 0x0100, 0x70, true), KeyStep::Swallow(0));
    assert_eq!(key_step(0, 0x0104, 0x73, true), KeyStep::Swallow(3));
    assert_eq!(key_step(0, 0x0100, 0x74, true), KeyStep::Pass);
    assert_eq!(key_step(0, 0x0100, 0x1_0070, true), KeyStep::Swallow(0));
    assert_eq!(key_step(0, 0x0100, 0x1_006F, true), KeyStep::Pass);
    assert_eq!(key_step(0, 0x0101, 0x70, true), KeyStep::Pass);
    assert_eq!(key_step(-1, 0x0100, 0x70, true), KeyStep::Pass);
    assert_eq!(key_step(0, 0x0100, 0x70, false), KeyStep::Pass);
    assert!(game_focused(Some(5), Some(5)));
    assert!(!game_focused(Some(5), Some(6)));
    assert!(!game_focused(None, None));
}

#[test]
fn held_keys_wait_their_time() {
    let mut s = AuxSettings::default();
    s.fkey_macros[1].enabled = true;
    s.fkey_macros[1].command = "肉/I".to_string();
    let mut last = [None; 4];
    let t = 100 * SECOND;
    assert!(take_key(1, &s.fkey_macros, &mut last, t));
    assert!(!take_key(1, &s.fkey_macros, &mut last, t + 499_999_999));
    assert!(take_key(1, &s.fkey_macros, &mut last, t + 500_000_000));
    assert!(!take_key(0, &s.fkey_macros, &mut last, t));
    assert!(!take_key(4, &s.fkey_macros, &mut last, t));
    assert!(fire_macro(true, 'I', false));
    assert!(fire_macro(true, 'S', true));
    assert!(!fire_macro(true, 'S', false));
    assert!(!fire_macro(false, 'I', true));
}

#[test]
fn figures_are_made_plain() {
    assert_eq!(decode_xor_stat(decode_xor_stat(1234, 0xABCD), 0xABCD), 1234);
    let magic = assist::address::STAT_XOR_MAGIC;
    assert_eq!(stat_entry_addr(magic ^ 3, 0x1000), Ok(0x100C));
    assert_eq!(stat_entry_addr(magic ^ 16, 0x1000), Err(StatIndexError { plain_idx: 16 }));
}

#[test]
fn figures_are_nothing_outside_of_the_world() {
    let mut reads = StateReads {
        game_state: WORLD,
        max_hp: Some(100),
        max_mp: Some(50),
        hp: Some(90),
        mp: None,
        food_raw: Some(225),
        weight_raw: Some(120),
        map_id: Some(4),
    };
    let p = read_player_state(&reads).unwrap();
    assert_eq!((p.hp, p.max_hp, p.mp, p.max_mp), (90, 100, 0, 50));
    assert_eq!((p.food, p.weight, p.map_id), (100, 50, 4));
    reads.max_hp = None;
    assert_eq!(read_player_state(&reads), None);
    reads.game_state = Some(1);
    assert_eq!(read_player_state(&reads), Some(PlayerState::default()));
    reads.game_state = None;
    assert_eq!(read_player_state(&reads), None);
}
