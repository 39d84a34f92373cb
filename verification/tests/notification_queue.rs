use assist::notification::queue::{FLOAT_TTL, NotificationQueue, TOAST_MAX, TOAST_TTL};
use assist::notification::types::{FloatKind, Notification};

fn t0() -> u64 {
    10_000_000_000
}

#[test]
fn push_toast_appears() {
    let mut q = NotificationQueue::new();
    let now = t0();
    q.push(
        Notification::ToastBottomLeft {
            gfxid: 1,
            text: vec![b'X'],
        },
        now,
    );
    assert_eq!(q.toast_count(), 1);
}

#[test]
fn toast_max_evicts_oldest() {
    let mut q = NotificationQueue::new();
    let now = t0();
    for i in 0..(TOAST_MAX + 5) {
        q.push(
            Notification::ToastBottomLeft {
                gfxid: i as u16,
                text: vec![],
            },
            now,
        );
    }
    assert_eq!(q.toast_count(), TOAST_MAX);
    let first = q.toasts.front().unwrap();
    assert_eq!(first.gfxid, 5);
}

#[test]
fn push_float_appears() {
    let mut q = NotificationQueue::new();
    q.push(
        Notification::FloatingScreen {
            kind: FloatKind::Exp,
            amount: 100,
        },
        t0(),
    );
    assert_eq!(q.float_count(), 1);
}

#[test]
fn same_kind_floats_coalesce_into_one() {
    let mut q = NotificationQueue::new();
    let now = t0();
    for _ in 0..200 {
        q.push(
            Notification::FloatingScreen {
                kind: FloatKind::Exp,
                amount: 5,
            },
            now,
        );
    }
    assert_eq!(q.float_count(), 1);
    assert_eq!(q.floats[0].amount, 5 * 200);
}

#[test]
fn exp_and_gold_are_separate_floats() {
    let mut q = NotificationQueue::new();
    let now = t0();
    q.push(
        Notification::FloatingScreen { kind: FloatKind::Exp, amount: 100 },
        now,
    );
    q.push(
        Notification::FloatingScreen { kind: FloatKind::Gold, amount: 50 },
        now,
    );
    assert_eq!(q.float_count(), 2);
}

#[test]
fn coalesce_resets_spawned_at_to_keep_float_fresh() {
    let mut q = NotificationQueue::new();
    let t_a = t0();
    q.push(
        Notification::FloatingScreen { kind: FloatKind::Exp, amount: 10 },
        t_a,
    );
    let t_b = t_a + 800_000_000;
    q.push(
        Notification::FloatingScreen { kind: FloatKind::Exp, amount: 20 },
        t_b,
    );
    assert_eq!(q.floats[0].amount, 30);
    assert_eq!(q.floats[0].spawned_at, t_b);
}

#[test]
fn tick_removes_expired_toasts() {
    let mut q = NotificationQueue::new();
    let now = t0();
    q.push(
        Notification::ToastBottomLeft {
            gfxid: 1,
            text: vec![],
        },
        now,
    );
    q.tick(now + TOAST_TTL + 1_000_000);
    assert_eq!(q.toast_count(), 0);
}

#[test]
fn tick_removes_expired_floats() {
    let mut q = NotificationQueue::new();
    let now = t0();
    q.push(
        Notification::FloatingScreen {
            kind: FloatKind::Gold,
            amount: 1,
        },
        now,
    );
    q.tick(now + FLOAT_TTL + 1_000_000);
    assert_eq!(q.float_count(), 0);
}
