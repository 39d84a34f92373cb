use assist::exp_tracker::{
    ExpTracker, exp_to_next_pct, level_from_total_exp, level_range, level_start_threshold,
};

#[test]
fn level_threshold_known_values() {
    assert_eq!(level_start_threshold(1), 0);
    assert_eq!(level_start_threshold(10), 10_000);
    assert_eq!(level_start_threshold(11), 14_641);
    assert_eq!(level_start_threshold(64), 364_575_461);
    assert_eq!(level_start_threshold(65), 400_640_553);
    assert_eq!(level_start_threshold(66), 400_640_553 + 36_065_092);
    assert_eq!(level_start_threshold(67), 400_640_553 + 2 * 36_065_092);
}

#[test]
fn level_range_basics() {
    assert_eq!(level_range(10), 4_641);
    assert_eq!(level_range(1), 125);
    assert_eq!(level_range(70), 36_065_092);
}

#[test]
fn real_snapshot_matches_user_observation() {
    let total = 10_202u64;
    let level = 10u32;
    let within = total - level_start_threshold(level);
    let range = level_range(level);
    assert_eq!(within, 202);
    assert_eq!(range, 4_641);
    let pct_int = within * 100 / range;
    assert_eq!(pct_int, 4);
    let to_next = exp_to_next_pct(within, range);
    assert_eq!(to_next, 31);
}

#[test]
fn tracker_first_tick_after_enable_no_report() {
    let mut t = ExpTracker::default();
    t.enable(10_202);
    assert!(t.tick(10_202).is_none());
}

#[test]
fn tracker_kill_produces_report() {
    let mut t = ExpTracker::default();
    t.enable(10_202);
    let r = t.tick(10_277).expect("應該產生報告");
    assert_eq!(r.delta_kill, 75);
    assert_eq!(r.session_total, 75);
    assert_eq!(r.level, 10);
    assert!(!r.leveled_up);
}

#[test]
fn tracker_disabled_no_report() {
    let mut t = ExpTracker::default();
    assert!(t.tick(10_202).is_none());
}

#[test]
fn tracker_levelup_detected_from_exp() {
    let mut t = ExpTracker::default();
    t.enable(14_500);
    let r = t.tick(14_700).expect("升級報告");
    assert!(r.leveled_up);
    assert_eq!(r.level, 11);
    let lv11_within = 14_700 - 14_641;
    assert_eq!(r.to_levelup, level_range(11) - lv11_within);
}

#[test]
fn tracker_session_total_accumulates() {
    let mut t = ExpTracker::default();
    t.enable(10_000);
    let r1 = t.tick(10_075).unwrap();
    assert_eq!(r1.delta_kill, 75);
    assert_eq!(r1.session_total, 75);
    let r2 = t.tick(10_175).unwrap();
    assert_eq!(r2.delta_kill, 100);
    assert_eq!(r2.session_total, 175);
}

#[test]
fn level_from_total_exp_basics() {
    assert_eq!(level_from_total_exp(0), 1);
    assert_eq!(level_from_total_exp(124), 1);
    assert_eq!(level_from_total_exp(125), 2);
    assert_eq!(level_from_total_exp(9_999), 9);
    assert_eq!(level_from_total_exp(10_000), 10);
    assert_eq!(level_from_total_exp(14_640), 10);
    assert_eq!(level_from_total_exp(14_641), 11);
    assert_eq!(level_from_total_exp(18_141), 11);
    assert_eq!(level_from_total_exp(400_640_553), 65);
    assert_eq!(level_from_total_exp(400_640_553 + 36_065_092), 66);
}

#[test]
fn screenshot_lv11_bug_regression() {
    let mut t = ExpTracker::default();
    t.enable(17_454);
    let r = t.tick(18_141).expect("應該產生報告");
    assert_eq!(r.level, 11);
    let within = 18_141 - 14_641;
    assert_eq!(r.to_levelup, 6_095 - within);
    assert!(r.to_levelup > 0);
}
