use assist::runtime::{
    mp_when_safe_triggered, pick_delete_action, pick_shout_message, pick_timer_action,
};
use assist::settings::{AuxSettings, MiscToggles, MpWhenSafe, PotionRow, TimerRow};
use assist::player_state::PlayerState;
use assist::attack_damage_hook::is_installed;

#[test]
fn potion_row_default() {
    let r = PotionRow::default();
    assert!(!r.enabled);
    assert_eq!(r.threshold, 0);
    assert_eq!(r.item, "");
}

#[test]
fn mp_when_safe_default() {
    let m = MpWhenSafe::default();
    assert!(!m.enabled);
    assert_eq!(m.hp_lower, 0);
    assert_eq!(m.mp_upper, 0);
    assert_eq!(m.item, "");
}

#[test]
fn mp_when_safe_triggers_when_raw_hp_is_safe_and_mp_is_low() {
    let mut s = AuxSettings::default();
    s.mp_when_safe.enabled = true;
    s.mp_when_safe.hp_lower = 800;
    s.mp_when_safe.mp_upper = 20;
    s.mp_when_safe.item = "心靈轉換/M".to_string();

    let state = PlayerState {
        hp: 900,
        max_hp: 1000,
        mp: 10,
        max_mp: 100,
        ..Default::default()
    };

    assert!(mp_when_safe_triggered(&s, &state));
}

#[test]
fn mp_when_safe_triggers_when_percent_hp_is_safe_and_mp_is_low() {
    let mut s = AuxSettings::default();
    s.potion_use_percent = true;
    s.mp_when_safe.enabled = true;
    s.mp_when_safe.hp_lower = 80;
    s.mp_when_safe.mp_upper = 20;
    s.mp_when_safe.item = "魂體轉換/M".to_string();

    let state = PlayerState {
        hp: 850,
        max_hp: 1000,
        mp: 19,
        max_mp: 100,
        ..Default::default()
    };

    assert!(mp_when_safe_triggered(&s, &state));
}

#[test]
fn mp_when_safe_does_not_trigger_when_disabled_or_empty() {
    let mut s = AuxSettings::default();
    s.mp_when_safe.enabled = true;
    s.mp_when_safe.hp_lower = 800;
    s.mp_when_safe.mp_upper = 20;

    let state = PlayerState {
        hp: 900,
        max_hp: 1000,
        mp: 10,
        max_mp: 100,
        ..Default::default()
    };

    assert!(!mp_when_safe_triggered(&s, &state));

    s.mp_when_safe.item = "心靈轉換/M".to_string();
    s.mp_when_safe.enabled = false;
    assert!(!mp_when_safe_triggered(&s, &state));
}

#[test]
fn misc_toggles_default_all_false() {
    let m = MiscToggles::default();
    assert!(!m.all_day);
    assert!(!m.underwater_pump);
    assert!(!m.low_cpu);
    assert!(!m.monster_level_color);
    assert!(!m.show_clock);
    assert!(!m.show_attack_dmg);
}

#[test]
fn attack_damage_hook_module_is_available() {
    assert!(!is_installed(&None));
}

#[test]
fn timer_row_default() {
    let t = TimerRow::default();
    assert!(!t.enabled);
    assert_eq!(t.interval_sec, 5);
    assert_eq!(t.command, "");
}

#[test]
fn aux_settings_default_8tabs() {
    let s = AuxSettings::default();
    assert_eq!(s.current_profile, "");

    assert_eq!(s.potion_rows.len(), 7);
    assert!(!s.potion_rows[0].enabled);
    assert!(!s.mp_when_safe.enabled);
    assert!(!s.potion_use_percent);
    assert!(!s.potion_show_inventory);

    assert!(!s.buff_enabled);
    assert_eq!(s.buff_items.len(), 0);

    assert!(!s.status_show_exp);
    assert_eq!(s.fkey_macros.len(), 4);
    assert!(!s.fkey_macros[0].enabled);

    assert!(!s.delete_enabled);
    assert!(s.delete_list.is_empty());
    assert!(s.dissolve_list.is_empty());

    assert!(!s.shout_enabled);
    assert_eq!(s.shout_interval_sec, 0);

    assert!(!s.misc.all_day);

    assert!(!s.timer_master_enabled);
    assert_eq!(s.timer_rows.len(), 6);
    assert_eq!(s.timer_rows[0].interval_sec, 5);
}

#[test]
fn aux_settings_is_clone() {
    let s = AuxSettings::default();
    let s2 = s.clone();
    assert_eq!(s.current_profile, s2.current_profile);
}

#[test]
fn delete_lists_default_empty() {
    let s = AuxSettings::default();
    assert!(!s.delete_enabled);
    assert!(s.delete_list.is_empty());
    assert!(s.dissolve_list.is_empty());
}

#[test]
fn delete_tick_picks_delete_list_first() {
    let delete_list = vec!["破布".to_string()];
    let dissolve_list = vec!["+0 鋼刀".to_string()];
    let inv = vec!["破布".to_string(), "+0 鋼刀".to_string()];
    let pick = pick_delete_action(&delete_list, &dissolve_list, &inv);
    assert_eq!(pick, Some(("delete", "破布".to_string())));
}

#[test]
fn delete_tick_falls_back_to_dissolve_when_delete_list_empty() {
    let delete_list: Vec<String> = vec![];
    let dissolve_list = vec!["+0 鋼刀".to_string()];
    let inv = vec!["破布".to_string(), "+0 鋼刀".to_string()];
    let pick = pick_delete_action(&delete_list, &dissolve_list, &inv);
    assert_eq!(pick, Some(("dissolve", "+0 鋼刀".to_string())));
}

#[test]
fn delete_tick_skips_equipped_items() {
    let delete_list = vec!["+7 馬爾斯奇古劍".to_string()];
    let dissolve_list: Vec<String> = vec![];
    let inv = vec!["+7 馬爾斯奇古劍 (揮舞)".to_string()];
    let pick = pick_delete_action(&delete_list, &dissolve_list, &inv);
    assert_eq!(pick, None);
}

#[test]
fn delete_tick_no_match_returns_none() {
    let delete_list = vec!["不存在的物品".to_string()];
    let dissolve_list: Vec<String> = vec![];
    let inv = vec!["別的東西".to_string()];
    assert_eq!(pick_delete_action(&delete_list, &dissolve_list, &inv), None);
}

#[test]
fn pick_shout_message_empty_returns_none() {
    let msgs: Vec<String> = vec![];
    assert_eq!(pick_shout_message(&msgs, 0), None);
    assert_eq!(pick_shout_message(&msgs, 999), None);
}

#[test]
fn pick_shout_message_round_robin_advances_idx() {
    let msgs = vec![
        "第一則".to_string(),
        "第二則".to_string(),
        "第三則".to_string(),
    ];
    assert_eq!(
        pick_shout_message(&msgs, 0),
        Some(("第一則".to_string(), 1))
    );
    assert_eq!(
        pick_shout_message(&msgs, 1),
        Some(("第二則".to_string(), 2))
    );
}

#[test]
fn pick_shout_message_idx_wraps_modulo_len() {
    let msgs = vec!["A".to_string(), "B".to_string()];
    assert_eq!(pick_shout_message(&msgs, 2), Some(("A".to_string(), 1)));
    assert_eq!(pick_shout_message(&msgs, 1), Some(("B".to_string(), 0)));
    assert_eq!(pick_shout_message(&msgs, 1001), Some(("B".to_string(), 0)));
}

fn make_timer_row(enabled: bool, interval_sec: u32, command: &str) -> TimerRow {
    TimerRow {
        enabled,
        interval_sec,
        command: command.to_string(),
    }
}

#[test]
fn pick_timer_action_master_off_returns_none() {
    let now = 10_000_000_000u64;
    let rows: [TimerRow; 6] = std::array::from_fn(|_| make_timer_row(true, 5, "肉/I"));
    let last_fire: [Option<u64>; 6] = [None; 6];
    assert_eq!(pick_timer_action(&rows, &last_fire, false, now), None);
}

#[test]
fn pick_timer_action_all_disabled_returns_none() {
    let now = 10_000_000_000u64;
    let rows: [TimerRow; 6] = std::array::from_fn(|_| make_timer_row(false, 5, "肉/I"));
    let last_fire: [Option<u64>; 6] = [None; 6];
    assert_eq!(pick_timer_action(&rows, &last_fire, true, now), None);
}

#[test]
fn pick_timer_action_row0_due_picks_0() {
    let now = 10_000_000_000u64;
    let mut rows: [TimerRow; 6] = std::array::from_fn(|_| make_timer_row(false, 5, ""));
    rows[0] = make_timer_row(true, 5, "肉/I");
    let last_fire: [Option<u64>; 6] = [None; 6];
    assert_eq!(pick_timer_action(&rows, &last_fire, true, now), Some(0));
}

#[test]
fn pick_timer_action_multiple_due_picks_smallest_idx() {
    let now = 10_000_000_000u64;
    let mut rows: [TimerRow; 6] = std::array::from_fn(|_| make_timer_row(false, 5, ""));
    rows[0] = make_timer_row(true, 5, "肉/I");
    rows[1] = make_timer_row(true, 5, "保護罩/ME");
    let last_fire: [Option<u64>; 6] = [None; 6];
    assert_eq!(pick_timer_action(&rows, &last_fire, true, now), Some(0));
}

#[test]
fn pick_timer_action_empty_command_skipped() {
    let now = 10_000_000_000u64;
    let mut rows: [TimerRow; 6] = std::array::from_fn(|_| make_timer_row(false, 5, ""));
    rows[0] = make_timer_row(true, 5, "");
    rows[1] = make_timer_row(true, 5, "肉/I");
    let last_fire: [Option<u64>; 6] = [None; 6];
    assert_eq!(pick_timer_action(&rows, &last_fire, true, now), Some(1));
}

#[test]
fn pick_timer_action_last_fire_none_treated_as_due() {
    let now = 10_000_000_000u64;
    let mut rows: [TimerRow; 6] = std::array::from_fn(|_| make_timer_row(false, 5, ""));
    rows[2] = make_timer_row(true, 60, "強身術/M");
    let last_fire: [Option<u64>; 6] = [None; 6];
    assert_eq!(pick_timer_action(&rows, &last_fire, true, now), Some(2));
}

#[test]
fn pick_timer_action_not_yet_due_returns_none() {
    let now = 10_000_000_000u64;
    let mut rows: [TimerRow; 6] = std::array::from_fn(|_| make_timer_row(false, 5, ""));
    rows[0] = make_timer_row(true, 60, "強身術/M");
    let mut last_fire: [Option<u64>; 6] = [None; 6];
    last_fire[0] = Some(now - 1_000_000_000);
    assert_eq!(pick_timer_action(&rows, &last_fire, true, now), None);
}
