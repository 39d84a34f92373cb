use assist::notification::layout::{FLOAT_DRIFT_PX, float_layout, toast_layout};
use assist::notification::queue::{FLOAT_TTL, TOAST_TTL};
use assist::notification::types::{FloatKind, LiveFloat, LiveToast};

fn dummy_toast(spawned_at: u64) -> LiveToast {
    LiveToast {
        spawned_at,
        gfxid: 1,
        text: vec![],
    }
}

fn dummy_float(spawned_at: u64, kind: FloatKind, cascade: u8) -> LiveFloat {
    LiveFloat {
        spawned_at,
        kind,
        amount: 100,
        cascade_offset: cascade,
    }
}

#[test]
fn toast_slot_0_at_bottom() {
    let now = 10_000_000_000u64;
    let l = toast_layout(&dummy_toast(now), 0, 800, 600, now);
    assert_eq!(l.x, 10);
    assert_eq!(l.y, 600 - 50 - 0);
    assert_eq!(l.alpha, 255);
}

#[test]
fn toast_slot_3_y_above() {
    let now = 10_000_000_000u64;
    let l = toast_layout(&dummy_toast(now), 3, 800, 600, now);
    assert_eq!(l.y, 600 - 50 - 3 * 36);
}

#[test]
fn toast_alpha_full_before_fade() {
    let now = 10_000_000_000u64;
    let later = now + 4_499_000_000;
    let l = toast_layout(&dummy_toast(now), 0, 800, 600, later);
    assert_eq!(l.alpha, 255);
}

#[test]
fn toast_alpha_zero_at_ttl() {
    let now = 10_000_000_000u64;
    let later = now + TOAST_TTL;
    let l = toast_layout(&dummy_toast(now), 0, 800, 600, later);
    assert_eq!(l.alpha, 0);
}

#[test]
fn toast_alpha_half_mid_fade() {
    let now = 10_000_000_000u64;
    let later = now + 4_750_000_000;
    let l = toast_layout(&dummy_toast(now), 0, 800, 600, later);
    assert!((l.alpha as i32 - 127).abs() <= 2, "alpha={}", l.alpha);
}

#[test]
fn float_exp_at_screen_right_of_center_above() {
    let now = 10_000_000_000u64;
    let f = dummy_float(now, FloatKind::Exp, 0);
    let l = float_layout(&f, 800, 600, now);
    assert_eq!(l.x, 800 / 2 + 160);
    assert_eq!(l.y, 600 / 2 + 30);
    assert_eq!(l.alpha, 255);
}

#[test]
fn float_gold_at_screen_below_exp() {
    let now = 10_000_000_000u64;
    let f = dummy_float(now, FloatKind::Gold, 0);
    let l = float_layout(&f, 800, 600, now);
    assert_eq!(l.y, 600 / 2 + 60);
}

#[test]
fn float_drifts_up_over_time() {
    let now = 10_000_000_000u64;
    let f = dummy_float(now, FloatKind::Exp, 0);
    let l_start = float_layout(&f, 800, 600, now);
    let l_mid = float_layout(&f, 800, 600, now + 750_000_000);
    let l_end = float_layout(&f, 800, 600, now + FLOAT_TTL);
    assert_eq!(l_start.y - l_mid.y, 40);
    assert_eq!(l_start.y - l_end.y, FLOAT_DRIFT_PX);
}

#[test]
fn float_cascade_offset_lowers_y() {
    let now = 10_000_000_000u64;
    let f0 = dummy_float(now, FloatKind::Exp, 0);
    let f3 = dummy_float(now, FloatKind::Exp, 3);
    let l0 = float_layout(&f0, 800, 600, now);
    let l3 = float_layout(&f3, 800, 600, now);
    assert_eq!(l0.y - l3.y, -3 * 25);
}
