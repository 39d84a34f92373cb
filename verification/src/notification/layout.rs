//! Where notifications stand on the screen, and how visible they are.

use vstd::prelude::*;

use super::queue;
use super::queue::FLOAT_TTL;
use super::queue::TOAST_TTL;
use super::types::FloatKind;
use super::types::LiveFloat;
use super::types::LiveToast;

verus! {

/// A place and a visibility.
#[derive(Debug, Clone, Copy, PartialEq, Eq, Structural)]
pub struct Layout {
    pub x: i32,
    pub y: i32,
    /// 0 invisible to 255 opaque.
    pub alpha: u8,
}

/// When a toast starts to fade, in nanoseconds.
pub const TOAST_FADE_START: u64 = 4_500_000_000;

/// When a floating number starts to fade, in nanoseconds.
pub const FLOAT_FADE_START: u64 = 1_200_000_000;

/// How far a floating number rises.
pub const FLOAT_DRIFT_PX: i32 = 80;

/// Full before `fade_start`, nothing from `ttl` on, and falling evenly, in steps
/// of whole microseconds, between them.
pub open spec fn fade(elapsed: int, fade_start: int, ttl: int) -> int {
    if elapsed >= ttl {
        0
    } else if elapsed < fade_start {
        255
    } else {
        255 - ((elapsed - fade_start) / 1000 * 255) / ((ttl - fade_start) / 1000)
    }
}

/// The older a notification, the less visible it is.
pub proof fn fade_never_rises(a: int, b: int, fade_start: int, ttl: int)
    requires
        0 <= a <= b,
        0 <= fade_start,
        fade_start + 1000 <= ttl,
    ensures
        0 <= fade(b, fade_start, ttl) <= fade(a, fade_start, ttl) <= 255,
{
    fade_bounds(a, fade_start, ttl);
    fade_bounds(b, fade_start, ttl);
    if fade_start <= a && b < ttl {
        let w = (ttl - fade_start) / 1000;
        let x = (a - fade_start) / 1000 * 255;
        let y = (b - fade_start) / 1000 * 255;
        assert(x <= y);
        vstd::arithmetic::div_mod::lemma_div_is_ordered(x, y, w);
    }
}

proof fn fade_bounds(a: int, fade_start: int, ttl: int)
    requires
        0 <= a,
        0 <= fade_start,
        fade_start + 1000 <= ttl,
    ensures
        0 <= fade(a, fade_start, ttl) <= 255,
        fade_start <= a < ttl ==> 0 <= ((a - fade_start) / 1000 * 255) / ((ttl - fade_start) / 1000)
            <= 255,
{
    if fade_start <= a < ttl {
        let w = (ttl - fade_start) / 1000;
        let i = (a - fade_start) / 1000;
        assert(0 <= i <= w && w > 0);
        assert(0 <= (i * 255) / w <= 255) by (nonlinear_arith)
            requires
                0 <= i <= w,
                w > 0,
        ;
    }
}

/// Where a toast stands: the newest of `slot` others above the lower left corner.
pub open spec fn toast_place(t: LiveToast, slot: int, screen_h: int, now: u64) -> (int, int, int) {
    (
        10,
        screen_h - 50 - slot * 36,
        fade(queue::age(t.spawned_at, now), TOAST_FADE_START as int, TOAST_TTL as int),
    )
}

/// Half of a number, rounded towards zero.
pub open spec fn half(x: i32) -> int {
    if x >= 0 {
        x / 2
    } else {
        -((-x) / 2)
    }
}

/// How far a number has risen.
pub open spec fn drift(elapsed: int) -> i32 {
    (elapsed / 1000 * FLOAT_DRIFT_PX / 1_500_000) as i32
}

/// Where a floating number stands: right of the middle of the screen, gold below
/// experience, rising.
pub open spec fn float_place(f: LiveFloat, screen_w: i32, screen_h: i32, now: u64) -> (int, int, int) {
    let elapsed = queue::age(f.spawned_at, now);
    (
        half(screen_w) + 160,
        half(screen_h) + float_base(f.kind) - drift(elapsed) + f.cascade_offset * 25,
        fade(elapsed, FLOAT_FADE_START as int, FLOAT_TTL as int),
    )
}

/// How far below the middle of the screen a number starts.
pub open spec fn float_base(kind: FloatKind) -> int {
    match kind {
        FloatKind::Exp => 30,
        FloatKind::Gold => 60,
    }
}

/// Whether the place of a floating number can be computed without overflow.
pub open spec fn float_fits(f: LiveFloat, screen_h: i32, now: u64) -> bool {
    let y = half(screen_h) + float_base(f.kind) - drift(queue::age(f.spawned_at, now));
    i32::MIN <= y <= i32::MAX && y + f.cascade_offset * 25 <= i32::MAX
}

/// While it is shown a number rises by at most [`FLOAT_DRIFT_PX`], and never sinks.
pub proof fn floats_rise(a: int, b: int)
    requires
        0 <= a <= b <= FLOAT_TTL,
    ensures
        0 <= drift(a) <= drift(b) <= FLOAT_DRIFT_PX,
        drift(FLOAT_TTL as int) == FLOAT_DRIFT_PX,
{
    let x = a / 1000 * 80;
    let y = b / 1000 * 80;
    assert(x <= y <= 1_500_000 * 80);
    vstd::arithmetic::div_mod::lemma_div_is_ordered(x, y, 1_500_000);
    vstd::arithmetic::div_mod::lemma_div_is_ordered(y, 120_000_000, 1_500_000);
}

/// The layout of a toast.
pub fn toast_layout(t: &LiveToast, slot: usize, _screen_w: i32, screen_h: i32, now: u64) -> (r: Layout)
    requires
        i32::MIN <= screen_h - 50,
        slot * 36 <= i32::MAX,
        i32::MIN <= screen_h - 50 - slot * 36,
    ensures
        (r.x as int, r.y as int, r.alpha as int) == toast_place(*t, slot as int, screen_h as int, now),
{
    let elapsed: u64 = now.saturating_sub(t.spawned_at);
    Layout {
        x: 10,
        y: screen_h - 50 - (slot as i32) * 36,
        alpha: fade_alpha(elapsed, TOAST_FADE_START, TOAST_TTL),
    }
}

fn risen_after(elapsed: u64) -> (r: i32)
    ensures
        r == drift(elapsed as int),
{
    #[verifier::truncate]
    (((elapsed / 1000) as u128 * 80 / 1_500_000) as i32)
}

/// Tells whether the place of a floating number can be computed.
pub fn can_place_float(f: &LiveFloat, screen_h: i32, now: u64) -> (r: bool)
    ensures
        r == float_fits(*f, screen_h, now),
{
    let base: i64 = match f.kind {
        FloatKind::Exp => 30,
        FloatKind::Gold => 60,
    };
    let y: i64 = (screen_h / 2) as i64 + base - risen_after(now.saturating_sub(f.spawned_at)) as i64;
    i32::MIN as i64 <= y && y <= i32::MAX as i64 && y + f.cascade_offset as i64 * 25
        <= i32::MAX as i64
}

/// The layout of a floating number.
pub fn float_layout(f: &LiveFloat, screen_w: i32, screen_h: i32, now: u64) -> (r: Layout)
    requires
        float_fits(*f, screen_h, now),
    ensures
        (r.x as int, r.y as int, r.alpha as int) == float_place(*f, screen_w, screen_h, now),
{
    let elapsed: u64 = now.saturating_sub(f.spawned_at);
    let risen: i32 = risen_after(elapsed);
    let kind_y_offset: i32 = match f.kind {
        FloatKind::Exp => 30,
        FloatKind::Gold => 60,
    };
    Layout {
        x: screen_w / 2 + 160,
        y: screen_h / 2 + kind_y_offset - risen + (f.cascade_offset as i32) * 25,
        alpha: fade_alpha(elapsed, FLOAT_FADE_START, FLOAT_TTL),
    }
}

/// The visibility after `elapsed` nanoseconds.
pub fn fade_alpha(elapsed: u64, fade_start: u64, ttl: u64) -> (r: u8)
    requires
        fade_start + 1000 <= ttl,
    ensures
        r == fade(elapsed as int, fade_start as int, ttl as int),
{
    if elapsed >= ttl {
        return 0;
    }
    if elapsed < fade_start {
        return 255;
    }
    let window: u64 = (ttl - fade_start) / 1000;
    let into_fade: u64 = (elapsed - fade_start) / 1000;
    proof {
        fade_bounds(elapsed as int, fade_start as int, ttl as int);
    }
    let progress: u128 = into_fade as u128 * 255 / window as u128;
    255 - progress as u8
}

} // verus!
