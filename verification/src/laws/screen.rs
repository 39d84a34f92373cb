//! What is shown on the screen.

use vstd::prelude::*;

use crate::code;
use crate::notification;
use crate::notification::dispatcher;
use crate::notification::layout;
use crate::notification::overlay;
use crate::notification::overlay::FloatView;
use crate::notification::overlay::Icon;
use crate::notification::overlay::IconSizes;
use crate::notification::overlay::OpView;
use crate::notification::overlay::Paint;
use crate::notification::overlay::ToastView;
use crate::notification::packet_hook;
use crate::notification::queue;
use crate::notification::renderer;
use crate::notification::renderer::DrawCmd;
use crate::notification::sprite_pak::DecodedPng;
use crate::notification::types;
use crate::notification::types::FloatKind;
use crate::notification::types::LiveFloat;
use crate::notification::types::LiveToast;
use crate::notification::types::NotificationView;
use crate::notification::Shown;
use crate::notification::Toggles;
use crate::text;

verus! {

/// The picture of a kind of number.
pub open spec fn icon_of(kind: FloatKind) -> Icon {
    match kind {
        FloatKind::Exp => Icon::Exp,
        FloatKind::Gold => Icon::Gold,
    }
}

/// The color of a kind of number: experience is green, gold yellow.
pub open spec fn color_of(kind: FloatKind) -> int {
    match kind {
        FloatKind::Exp => 0x60D72E,
        FloatKind::Gold => 0xDFCD65,
    }
}

/// Experience is shown as experience and gold as gold: every picture that is painted of
/// a number is that of its kind, and every text is either a black shadow or has the color
/// of its kind.
pub proof fn numbers_look_like_their_kind(
    buf_w: int,
    buf_h: int,
    f: FloatView,
    icons: IconSizes,
    k: int,
)
    requires
        0 <= k < overlay::float_ops(buf_w, buf_h, f, icons).len(),
    ensures
        overlay::float_ops(buf_w, buf_h, f, icons)[k] matches OpView::Blit(icon, _, _, _) ==> icon
            == icon_of(f.kind),
        overlay::float_ops(buf_w, buf_h, f, icons)[k] matches OpView::Text(_, _, _, color)
            ==> color == 0xFF000000 || color % 0x1000000 == color_of(f.kind),
{
    alpha_bounds(f.age_ms as int, 1500, 300);
}

/// A living number is painted with its picture where there is one, then its text twice,
/// as a shadow one pixel off and in the color and visibility of the number; plans of the
/// two kinds never share picture or color.
pub proof fn living_numbers_are_painted(buf_w: int, buf_h: int, f: FloatView, icons: IconSizes)
    requires
        f.age_ms < 1500,
        overlay::life_alpha(f.age_ms as int, 1500, 300) > 0,
    ensures
        ({
            let ops = overlay::float_ops(buf_w, buf_h, f, icons);
            let alpha = overlay::life_alpha(f.age_ms as int, 1500, 300);
            let size = match f.kind {
                FloatKind::Exp => icons.exp,
                FloatKind::Gold => icons.gold,
            };
            let n = if size is Some {
                1int
            } else {
                0
            };
            let line = seq!['+'] + types::grouped(text::decimal(f.amount as nat));
            let (x, y) = place_of(ops[n + 1]);
            let (px, py) = place_of(ops[0]);
            &&& ops.len() == n + 3
            &&& size is Some ==> ops[0] == OpView::Blit(icon_of(f.kind), px, py, alpha)
            &&& ops[n] == OpView::Text(line, x + 1, y + 1, 0xFF000000)
            &&& ops[n + 1] == OpView::Text(line, x, y, alpha * 0x1000000 + color_of(f.kind))
            &&& ops[n + 2] == OpView::Alpha(x, y, 120, 22, alpha)
            &&& size matches Some((w, h)) ==> x == px + (w as i32) + 2 && y == py
                + overlay::div_to_zero((h as i32) - 16, 2)
        }),
        icon_of(FloatKind::Exp) != icon_of(FloatKind::Gold),
        color_of(FloatKind::Exp) != color_of(FloatKind::Gold),
{
}

/// Where a step paints.
pub open spec fn place_of(op: OpView) -> (int, int) {
    match op {
        OpView::Mask(_, x, y, _, _) => (x, y),
        OpView::Fill(x, y, _, _, _) => (x, y),
        OpView::Blit(_, x, y, _) => (x, y),
        OpView::Text(_, x, y, _) => (x, y),
        OpView::Alpha(x, y, _, _, _) => (x, y),
    }
}

/// Where a number starts to be painted: its text if it has no picture.
pub open spec fn start_of(ops: Seq<OpView>) -> (int, int) {
    match ops[0] {
        OpView::Blit(_, x, y, _) => (x, y),
        OpView::Text(_, x, y, _) => (x - 5, y - 3),
        _ => (0, 0),
    }
}

/// Numbers start at 62 of 100 of the width and 41 of 100 of the height, gold eighteen
/// pixels below experience; each step of the cascade is 22 pixels lower, and every 25
/// milliseconds a number is a pixel higher.
pub proof fn numbers_start_right_of_the_middle_and_rise(
    buf_w: int,
    buf_h: int,
    f: FloatView,
    icons: IconSizes,
)
    requires
        0 <= buf_w,
        0 <= buf_h,
        overlay::life_alpha(f.age_ms as int, 1500, 300) > 0,
    ensures
        ({
            let (x, y) = start_of(overlay::float_ops(buf_w, buf_h, f, icons));
            let base = if f.kind == FloatKind::Gold {
                9int
            } else {
                -9
            };
            let height = y - base - f.cascade_offset * 22 + f.age_ms as int / 25;
            &&& 100 * x <= 62 * buf_w < 100 * (x + 1)
            &&& 100 * height <= 41 * buf_h < 100 * (height + 1)
        }),
{
    assert(f.age_ms * 60 / 1500 == f.age_ms as int / 25);
}

proof fn alpha_bounds(age: int, life: int, fade: int)
    requires
        0 <= age,
        0 < fade <= life,
    ensures
        0 <= overlay::life_alpha(age, life, fade) <= 255,
{
    if life - fade <= age < life {
        let left = life - age;
        assert(0 <= left * 255 / fade <= 255) by (nonlinear_arith)
            requires
                0 <= left <= fade,
                0 < fade,
        ;
    }
}

/// What is painted is full until the last `fade` milliseconds of its life, gone at the
/// end, and falls evenly in between: to as many of 255 as there is left of `fade`.
pub proof fn lives_fade_at_their_end(age: int, life: int, fade: int)
    requires
        0 <= age,
        0 < fade <= life,
    ensures
        age < life - fade ==> overlay::life_alpha(age, life, fade) == 255,
        age >= life ==> overlay::life_alpha(age, life, fade) == 0,
        life - fade <= age < life ==> overlay::life_alpha(age, life, fade) * fade <= (life - age)
            * 255 < (overlay::life_alpha(age, life, fade) + 1) * fade,
{
    if life - fade <= age < life {
        let x = (life - age) * 255;
        vstd::arithmetic::div_mod::lemma_fundamental_div_mod(x, fade);
        vstd::arithmetic::div_mod::lemma_mod_bound(x, fade);
        let q = x / fade;
        assert(q * fade <= x < (q + 1) * fade) by (nonlinear_arith)
            requires
                x == fade * q + x % fade,
                0 <= x % fade < fade,
        ;
    }
}

/// A toast is painted as a bar, then a frame, then the picture of the item in the middle
/// of the frame, then its text beside the frame: each at its visibility, the bar as a
/// black mask where there is a picture of it, else as a gray box.
pub proof fn toasts_show_their_item_and_text(
    buf_w: int,
    buf_h: int,
    i: int,
    gfxid: u16,
    line: Seq<char>,
    age: int,
    icons: IconSizes,
    item: Option<(u32, u32)>,
)
    requires
        0 <= buf_w,
        0 <= buf_h,
        overlay::life_alpha(age, 5000, 500) > 0,
    ensures
        ({
            let ops = overlay::toast_ops(buf_w, buf_h, i, gfxid, line, age, icons, item);
            let alpha = overlay::life_alpha(age, 5000, 500);
            let f = if icons.frame {
                1int
            } else {
                0
            };
            let p = if item is Some {
                1int
            } else {
                0
            };
            let (x, y) = place_of(ops[0]);
            &&& ops.len() == f + p + 3
            &&& 1000 * x <= 12 * buf_w < 1000 * (x + 1)
            &&& 100 * (y + 39 * (i + 1)) <= 71 * buf_h < 100 * (y + 39 * (i + 1) + 1)
            &&& icons.bar ==> ops[0] == OpView::Mask(Icon::Bar, x, y, 0, alpha)
            &&& !icons.bar ==> ops[0] == OpView::Fill(x, y, 329, 37, alpha * 0x1000000 + 0x202020)
            &&& icons.frame ==> ops[1] == OpView::Blit(Icon::Frame, x, y, alpha)
            &&& item matches Some((w, h)) ==> ops[1 + f] == OpView::Blit(
                Icon::Item(gfxid),
                x + overlay::room_beside(w),
                y + overlay::room_beside(h),
                alpha,
            )
            &&& ops[1 + f + p] == OpView::Text(line, x + 43, y + 10, alpha * 0x1000000 + 0xFFFFFF)
            &&& ops[2 + f + p] == OpView::Alpha(x + 43, y + 10, 286, 22, alpha)
        }),
{
}

/// A picture smaller than the frame's 37 pixels stands in its middle: as much room on
/// one side as on the other, but for an odd pixel.
pub proof fn small_pictures_stand_in_the_middle(side: u32)
    ensures
        side < 37 ==> 0 <= 37 - side - 2 * overlay::room_beside(side) <= 1,
        37 <= side <= i32::MAX ==> overlay::room_beside(side) == 0,
{
}

/// Of toasts and of numbers the first ten are painted, each with all of its steps, one
/// after the other.
pub proof fn the_first_ten_are_painted(
    buf_w: int,
    buf_h: int,
    toasts: Seq<ToastView>,
    floats: Seq<FloatView>,
    icons: IconSizes,
    items: Seq<Option<(u32, u32)>>,
    n: int,
)
    requires
        0 <= n,
    ensures
        overlay::toasts_ops(buf_w, buf_h, toasts, icons, items, 0).len() == 0,
        overlay::toasts_ops(buf_w, buf_h, toasts, icons, items, n + 1) == overlay::toasts_ops(
            buf_w,
            buf_h,
            toasts,
            icons,
            items,
            n,
        ) + overlay::toast_ops(
            buf_w,
            buf_h,
            n,
            toasts[n].gfxid,
            toasts[n].text@,
            toasts[n].age_ms as int,
            icons,
            items[n],
        ),
        overlay::floats_ops(buf_w, buf_h, floats, icons, 0).len() == 0,
        overlay::floats_ops(buf_w, buf_h, floats, icons, n + 1) == overlay::floats_ops(
            buf_w,
            buf_h,
            floats,
            icons,
            n,
        ) + overlay::float_ops(buf_w, buf_h, floats[n], icons),
        overlay::first_ten(n as nat) <= 10,
        overlay::first_ten(n as nat) <= n,
        overlay::first_ten(n as nat) == n || overlay::first_ten(n as nat) == 10,
{
}

/// Scaling a part by an alpha rounds to the nearest 255th; nothing stays of it without
/// alpha, all of it with full alpha, and it never exceeds either.
pub proof fn scaling_rounds_to_the_nearest(c: int, a: int)
    requires
        0 <= c <= 255,
        0 <= a <= 255,
    ensures
        -127 <= 255 * overlay::times_alpha(c, a) - c * a <= 127,
        overlay::times_alpha(c, 255) == c,
        overlay::times_alpha(255, a) == a,
        overlay::times_alpha(c, 0) == 0,
{
    let x = c * a + 127;
    assert(0 <= c * a) by (nonlinear_arith)
        requires
            0 <= c,
            0 <= a,
    ;
    assert(255 * (x / 255) <= x < 255 * (x / 255) + 255);
}

/// A pixel keeps its four parts apart: alpha highest, then red, green and blue.
pub proof fn pixels_keep_their_parts(a: int, r: int, g: int, b: int)
    requires
        0 <= a <= 255,
        0 <= r <= 255,
        0 <= g <= 255,
        0 <= b <= 255,
    ensures
        overlay::packed(a, r, g, b) / 16777216 == a,
        overlay::packed(a, r, g, b) / 65536 % 256 == r,
        overlay::packed(a, r, g, b) / 256 % 256 == g,
        overlay::packed(a, r, g, b) % 256 == b,
{
    let p = a * 16777216 + r * 65536 + g * 256 + b;
    assert(0 <= p <= u32::MAX);
    assert(p / 256 == a * 65536 + r * 256 + g && p % 256 == b);
    let q = a * 65536 + r * 256 + g;
    assert(q / 256 == a * 256 + r && q % 256 == g);
    let t = a * 256 + r;
    assert(t / 256 == a && t % 256 == r);
    assert(p / 65536 == t) by {
        assert(p == 65536 * t + (g * 256 + b));
    }
    assert(p / 16777216 == a) by {
        assert(p == 16777216 * a + (r * 65536 + g * 256 + b));
    }
}

/// An opaque pixel of a picture that is fully shown is painted as it is; a transparent
/// one leaves what was there.
pub proof fn pictures_are_painted_as_they_are(png: &DecodedPng, sy: int, sx: int, before: u32)
    ensures
        ({
            let k = (sy * png.width + sx) * 4;
            let painted = Paint::Picture(png, 255).painted(sy, sx, before);
            &&& png.rgba@[k + 3] == 0 ==> painted == before
            &&& png.rgba@[k + 3] == 255 ==> {
                &&& painted / 16777216 == 255
                &&& painted / 65536 % 256 == png.rgba@[k]
                &&& painted / 256 % 256 == png.rgba@[k + 1]
                &&& painted % 256 == png.rgba@[k + 2]
            }
            &&& Paint::Picture(png, 0).painted(sy, sx, before) == before
        }),
{
    let k = (sy * png.width + sx) * 4;
    let (r, g, b, a) = (
        png.rgba@[k] as int,
        png.rgba@[k + 1] as int,
        png.rgba@[k + 2] as int,
        png.rgba@[k + 3] as int,
    );
    scaling_rounds_to_the_nearest(a, 255);
    scaling_rounds_to_the_nearest(a, 0);
    scaling_rounds_to_the_nearest(r, 255);
    scaling_rounds_to_the_nearest(g, 255);
    scaling_rounds_to_the_nearest(b, 255);
    pixels_keep_their_parts(255, r, g, b);
}

/// A mask leaves what was there where the picture is white, and paints its color in full
/// where the picture is dark; in between it is twice as opaque as the picture is dark.
pub proof fn masks_paint_where_the_picture_is_dark(
    png: &DecodedPng,
    tint: u32,
    sy: int,
    sx: int,
    before: u32,
)
    requires
        tint <= 0xFFFFFF,
    ensures
        ({
            let gray = png.rgba@[(sy * png.width + sx) * 4];
            let painted = Paint::Mask(png, tint, 255).painted(sy, sx, before);
            &&& gray == 255 ==> painted == before
            &&& gray <= 127 ==> painted == 0xFF000000 + tint
            &&& 128 <= gray < 255 ==> painted / 16777216 == 510 - 2 * gray
            &&& Paint::Mask(png, tint, 0).painted(sy, sx, before) == before
        }),
{
    let gray = png.rgba@[(sy * png.width + sx) * 4];
    let m = overlay::mask_alpha(gray);
    let (r, g, b) = (
        (tint / 65536 % 256) as int,
        (tint / 256 % 256) as int,
        (tint % 256) as int,
    );
    scaling_rounds_to_the_nearest(m, 255);
    scaling_rounds_to_the_nearest(m, 0);
    scaling_rounds_to_the_nearest(r, m);
    scaling_rounds_to_the_nearest(g, m);
    scaling_rounds_to_the_nearest(b, m);
    scaling_rounds_to_the_nearest(r, 255);
    scaling_rounds_to_the_nearest(g, 255);
    scaling_rounds_to_the_nearest(b, 255);
    scaled_parts_fit(r, m);
    scaled_parts_fit(g, m);
    scaled_parts_fit(b, m);
    pixels_keep_their_parts(
        m,
        overlay::times_alpha(r, m),
        overlay::times_alpha(g, m),
        overlay::times_alpha(b, m),
    );
    assert(tint == r * 65536 + g * 256 + b);
}

proof fn scaled_parts_fit(c: int, a: int)
    requires
        0 <= c <= 255,
        0 <= a <= 255,
    ensures
        0 <= overlay::times_alpha(c, a) <= 255,
{
    assert(0 <= c * a <= 255 * 255) by (nonlinear_arith)
        requires
            0 <= c <= 255,
            0 <= a <= 255,
    ;
}

/// A box is painted as it is.  Text that has no alpha yet gets it, with its parts scaled;
/// what has alpha, and what is empty, stays.
pub proof fn boxes_and_text_get_their_alpha(pixel: u32, alpha: u8, before: u32, sy: int, sx: int)
    ensures
        Paint::Fill(pixel).painted(sy, sx, before) == pixel,
        before >= 0x1000000 || before == 0 ==> Paint::Alpha(alpha).painted(sy, sx, before)
            == before,
        0 < before < 0x1000000 ==> Paint::Alpha(alpha).painted(sy, sx, before) / 16777216 == alpha,
        0 < before < 0x1000000 ==> Paint::Alpha(255).painted(sy, sx, before) == 0xFF000000 + before,
{
    let (r, g, b) = (
        (before / 65536 % 256) as int,
        (before / 256 % 256) as int,
        (before % 256) as int,
    );
    scaled_parts_fit(r, alpha as int);
    scaled_parts_fit(g, alpha as int);
    scaled_parts_fit(b, alpha as int);
    scaling_rounds_to_the_nearest(r, 255);
    scaling_rounds_to_the_nearest(g, 255);
    scaling_rounds_to_the_nearest(b, 255);
    pixels_keep_their_parts(
        alpha as int,
        overlay::times_alpha(r, alpha as int),
        overlay::times_alpha(g, alpha as int),
        overlay::times_alpha(b, alpha as int),
    );
    if before < 0x1000000 {
        assert(before == r * 65536 + g * 256 + b);
    }
}

/// The age of what is painted is the whole milliseconds since it came.
pub proof fn ages_are_whole_milliseconds(then: u64, now: u64)
    requires
        then <= now,
        now - then < 4_294_967_296_000_000,
    ensures
        overlay::age_in_ms(then, now) * 1_000_000 <= now - then < (overlay::age_in_ms(then, now)
            + 1) * 1_000_000,
{
}

/// A toast stands ten pixels from the left, the first fifty from the bottom and each
/// further one 36 higher.
pub proof fn toasts_stack_upwards(t: LiveToast, slot: int, screen_h: int, now: u64)
    ensures
        layout::toast_place(t, 0, screen_h, now).1 + 50 == screen_h,
        layout::toast_place(t, slot, screen_h, now).0 == 10,
        layout::toast_place(t, slot, screen_h, now).1 - layout::toast_place(
            t,
            slot + 1,
            screen_h,
            now,
        ).1 == 36,
{
}

/// Numbers start 160 pixels right of the middle, experience 30 and gold 60 below it, each
/// step of the cascade 25 lower; in their second and a half they rise by 80 pixels,
/// evenly.
pub proof fn numbers_rise_from_the_middle(
    f: LiveFloat,
    screen_w: i32,
    screen_h: i32,
    now: u64,
)
    requires
        0 <= screen_w,
        0 <= screen_h,
        f.spawned_at <= now,
        now - f.spawned_at <= 1_500_000_000,
    ensures
        ({
            let (x, y, _) = layout::float_place(f, screen_w, screen_h, now);
            let base = if f.kind == FloatKind::Gold {
                60int
            } else {
                30
            };
            let risen = screen_h as int / 2 + base + f.cascade_offset * 25 - y;
            let us = (now - f.spawned_at) / 1000;
            &&& 0 <= screen_w - 2 * (x - 160) <= 1
            &&& risen * 1_500_000 <= us * 80 < (risen + 1) * 1_500_000
        }),
{
    let us = (now - f.spawned_at) / 1000;
    assert(queue::age(f.spawned_at, now) == now - f.spawned_at);
    assert(0 <= us <= 1_500_000);
    assert(0 <= us * 80 / 1_500_000 <= 80);
}

/// How visible something is: fully until it starts to fade, not at all from its end on,
/// and falling evenly by whole microseconds in between.
pub proof fn visibility_falls_evenly(elapsed: int, fade_start: int, ttl: int)
    requires
        0 <= elapsed,
        0 <= fade_start,
        fade_start + 1000 <= ttl,
    ensures
        elapsed < fade_start ==> layout::fade(elapsed, fade_start, ttl) == 255,
        elapsed >= ttl ==> layout::fade(elapsed, fade_start, ttl) == 0,
        fade_start <= elapsed < ttl ==> {
            let gone = 255 - layout::fade(elapsed, fade_start, ttl);
            let window = (ttl - fade_start) / 1000;
            gone * window <= (elapsed - fade_start) / 1000 * 255 < (gone + 1) * window
        },
{
    if fade_start <= elapsed < ttl {
        let x = (elapsed - fade_start) / 1000 * 255;
        let w = (ttl - fade_start) / 1000;
        vstd::arithmetic::div_mod::lemma_fundamental_div_mod(x, w);
        vstd::arithmetic::div_mod::lemma_mod_bound(x, w);
        let q = x / w;
        assert(q * w <= x < (q + 1) * w) by (nonlinear_arith)
            requires
                x == w * q + x % w,
                0 <= x % w < w,
        ;
    }
}

/// Toasts fade in the last half second of their five, numbers in the last three tenths
/// of their second and a half; what has faded is no longer alive.
pub proof fn what_has_faded_is_over(t: LiveToast, f: LiveFloat, slot: int, now: u64)
    ensures
        t.spawned_at + 5_000_000_000 <= now <==> !queue::toast_lives(t, now),
        f.spawned_at + 1_500_000_000 <= now <==> !queue::float_lives(f, now),
        now < t.spawned_at + 4_500_000_000 ==> layout::toast_place(t, slot, 0, now).2 == 255,
        now < f.spawned_at + 1_200_000_000 ==> layout::float_place(f, 0, 0, now).2 == 255,
        !queue::toast_lives(t, now) ==> layout::toast_place(t, slot, 0, now).2 == 0,
        !queue::float_lives(f, now) ==> layout::float_place(f, 0, 0, now).2 == 0,
        t.spawned_at + 4_501_961_000 <= now ==> layout::toast_place(t, slot, 0, now).2 < 255,
        f.spawned_at + 1_201_177_000 <= now ==> layout::float_place(f, 0, 0, now).2 < 255,
{
    let a = queue::age(t.spawned_at, now);
    let b = queue::age(f.spawned_at, now);
    visibility_falls_evenly(a, 4_500_000_000, 5_000_000_000);
    visibility_falls_evenly(b, 1_200_000_000, 1_500_000_000);
    assert(layout::toast_place(t, slot, 0, now).2 == layout::fade(
        a,
        4_500_000_000,
        5_000_000_000,
    ));
    assert(layout::float_place(f, 0, 0, now).2 == layout::fade(b, 1_200_000_000, 1_500_000_000));
    if t.spawned_at + 4_501_961_000 <= now && a < 5_000_000_000 {
        let gone = 255 - layout::fade(a, 4_500_000_000, 5_000_000_000);
        assert((a - 4_500_000_000) / 1000 * 255 >= 500_055);
        assert((5_000_000_000int - 4_500_000_000) / 1000 == 500_000);
        assert((gone + 1) * 500_000 > 500_055);
    }
    if f.spawned_at + 1_201_177_000 <= now && b < 1_500_000_000 {
        let gone = 255 - layout::fade(b, 1_200_000_000, 1_500_000_000);
        assert((b - 1_200_000_000) / 1000 * 255 >= 300_135);
        assert((1_500_000_000int - 1_200_000_000) / 1000 == 300_000);
        assert((gone + 1) * 300_000 > 300_135);
    }
}

/// In the client a toast is its background and, where it has a picture, the picture four
/// pixels right and two below; the next toast follows.
pub proof fn toasts_are_drawn_with_their_picture(
    toasts: Seq<LiveToast>,
    screen_h: int,
    now: u64,
)
    requires
        toasts.len() > 0,
        toasts.len() < 1000,
        -1_000_000 <= screen_h <= 1_000_000,
    ensures
        ({
            let before = renderer::toast_cmds(toasts.drop_last(), screen_h, now);
            let all = renderer::toast_cmds(toasts, screen_h, now);
            let t = toasts.last();
            let y = screen_h - 50 - (toasts.len() - 1) * 36;
            &&& all.len() == before.len() + if t.gfxid != 0 {
                2int
            } else {
                1
            }
            &&& all.take(before.len() as int) == before
            &&& all[before.len() as int] == (DrawCmd { gfxid: 1888, _pad: 0, x: 10, y: y as i32 })
            &&& t.gfxid != 0 ==> all.last() == (DrawCmd {
                gfxid: t.gfxid,
                _pad: 0,
                x: 14,
                y: (y + 2) as i32,
            })
        }),
        renderer::toast_cmds(Seq::empty(), screen_h, now).len() == 0,
{
    let before = renderer::toast_cmds(toasts.drop_last(), screen_h, now);
    let all = renderer::toast_cmds(toasts, screen_h, now);
    assert(all.take(before.len() as int) =~= before);
}

/// In the client each number is one picture, of its kind, at its place.
pub proof fn numbers_are_drawn_with_their_picture(
    floats: Seq<LiveFloat>,
    screen_w: i32,
    screen_h: i32,
    now: u64,
    i: int,
)
    requires
        0 <= i < floats.len(),
    ensures
        ({
            let cmds = renderer::float_cmds(floats, screen_w, screen_h, now);
            let (x, y, _) = layout::float_place(floats[i], screen_w, screen_h, now);
            &&& cmds.len() == floats.len()
            &&& cmds[i].gfxid == if floats[i].kind == FloatKind::Gold {
                1973u16
            } else {
                1971u16
            }
            &&& cmds[i].x == x as i32 && cmds[i].y == y as i32
        }),
{
}

/// A packet that tells of an item is understood: whatever picture and name are put into
/// one come out of it, of the name the first 64 bytes.
pub proof fn item_packets_are_understood(gfxid: u16, name: Seq<u8>, rest: Seq<u8>)
    requires
        forall|k: int| 0 <= k < name.len() ==> name[k] != 0,
    ensures
        ({
            let packet = seq![190u8] + code::le16(gfxid) + name + seq![0u8] + rest;
            dispatcher::parsed(packet) == Some(
                NotificationView::Toast(
                    gfxid,
                    if name.len() <= 64 {
                        name
                    } else {
                        name.take(64)
                    },
                ),
            )
        }),
{
    let packet = seq![190u8] + code::le16(gfxid) + name + seq![0u8] + rest;
    let tail = packet.skip(3);
    assert(tail =~= name + seq![0u8] + rest);
    dispatcher::first_zero_is_first(tail);
    let n = name.len() as int;
    assert(tail[n] == 0);
    match dispatcher::first_zero(tail) {
        Some(m) => {
            assert(m == n) by {
                if m < n {
                    assert(tail[m as int] == name[m as int]);
                }
            }
        },
        None => {},
    }
    assert(packet.subrange(1, 3) =~= code::le16(gfxid));
    code::le16_round_trip(gfxid);
    if n < 64 {
        assert(packet.subrange(3, 3 + n) =~= name);
    } else {
        assert(packet.subrange(3, 67) =~= name.take(64));
        if n == 64 {
            assert(name.take(64) =~= name);
        }
    }
}

/// A packet that tells of a drop is understood: 0 is experience and 1 gold, and whatever
/// amount is put into one comes out of it.
pub proof fn drop_packets_are_understood(kind: u8, amount: u32, rest: Seq<u8>)
    ensures
        ({
            let packet = seq![192u8, kind] + code::le32(amount) + rest;
            &&& kind == 0 ==> dispatcher::parsed(packet) == Some(
                NotificationView::Float(FloatKind::Exp, amount),
            )
            &&& kind == 1 ==> dispatcher::parsed(packet) == Some(
                NotificationView::Float(FloatKind::Gold, amount),
            )
            &&& kind > 1 ==> dispatcher::parsed(packet) is None
        }),
{
    let packet = seq![192u8, kind] + code::le32(amount) + rest;
    code::le32_round_trip(amount);
    assert(packet.subrange(2, 6) =~= code::le32(amount));
}

/// Other packets, and packets that are cut off, tell of nothing.
pub proof fn other_packets_tell_nothing(packet: Seq<u8>)
    ensures
        packet.len() < 4 || (packet[0] != 190 && packet[0] != 192) ==> dispatcher::parsed(packet)
            is None,
        packet.len() > 0 && packet[0] == 192 && packet.len() < 6 ==> dispatcher::parsed(packet)
            is None,
        packet.len() >= 4 && packet[0] == 190 && (forall|k: int|
            3 <= k < packet.len() ==> packet[k] != 0) ==> dispatcher::parsed(packet) is None,
{
    if packet.len() >= 4 && packet[0] == 190 && (forall|k: int|
        3 <= k < packet.len() ==> packet[k] != 0) {
        dispatcher::first_zero_is_first(packet.skip(3));
    }
}

/// Drops of one kind add up in one number, up to the largest there is, and start its life
/// anew; the other kind's number stays as it is, and so does the place of both.
pub proof fn drops_add_up(
    floats: Seq<LiveFloat>,
    kind: FloatKind,
    amount: u32,
    now: u64,
    i: int,
)
    requires
        forall|a: int, b: int|
            0 <= a < b < floats.len() ==> (#[trigger] floats[a]).kind != (
            #[trigger] floats[b]).kind,
    ensures
        ({
            let after = queue::after_drop(floats, kind, amount, now);
            &&& 0 <= i < floats.len() && floats[i].kind == kind ==> {
                &&& after.len() == floats.len()
                &&& after[i].kind == kind
                &&& after[i].spawned_at == now
                &&& after[i].cascade_offset == floats[i].cascade_offset
                &&& after[i].amount == floats[i].amount + amount || (after[i].amount == u32::MAX
                    && floats[i].amount + amount > u32::MAX)
            }
            &&& 0 <= i < floats.len() && floats[i].kind != kind ==> after[i] == floats[i]
            &&& (forall|k: int| 0 <= k < floats.len() ==> (#[trigger] floats[k]).kind != kind)
                ==> after == floats.push(
                LiveFloat { spawned_at: now, kind, amount, cascade_offset: 0 },
            )
        }),
{
    kinds_are_found(floats, kind);
    if 0 <= i < floats.len() && floats[i].kind == kind {
        match queue::float_of(floats, kind) {
            Some(k) => {
                if k < i {
                    assert(floats[k].kind != floats[i].kind);
                }
                if i < k {
                    assert(floats[i].kind != floats[k].kind);
                }
            },
            None => {},
        }
    }
}

proof fn kinds_are_found(floats: Seq<LiveFloat>, kind: FloatKind)
    ensures
        match queue::float_of(floats, kind) {
            Some(i) => 0 <= i < floats.len() && floats[i].kind == kind,
            None => forall|k: int| 0 <= k < floats.len() ==> (#[trigger] floats[k]).kind != kind,
        },
    decreases floats.len(),
{
    if floats.len() > 0 {
        kinds_are_found(floats.drop_last(), kind);
        if queue::float_of(floats, kind) is None {
            assert forall|k: int| 0 <= k < floats.len() implies (#[trigger] floats[k]).kind
                != kind by {
                if k < floats.len() - 1 {
                    assert(floats.drop_last()[k] == floats[k]);
                }
            }
        }
    }
}

/// Of toasts, the newest ten stay, in their order: a new one pushes out the oldest.
pub proof fn the_newest_toasts_stay(
    toasts: Seq<(u64, u16, Seq<u8>)>,
    new: (u64, u16, Seq<u8>),
    k: int,
)
    requires
        toasts.len() <= 10,
    ensures
        ({
            let after = queue::newest(toasts.push(new));
            &&& after.len() == if toasts.len() < 10 {
                toasts.len() + 1
            } else {
                10
            }
            &&& after.last() == new
            &&& 0 <= k < after.len() - 1 ==> after[k] == toasts[toasts.len() - (after.len() - 1)
                + k]
        }),
{
}

/// What a packet tells is shown where its kind is switched on: a toast at the end of the
/// toasts, a drop in its number; a kind that is switched off, and a packet that tells of
/// nothing, change nothing.
pub proof fn packets_are_shown_where_switched_on(
    s: Shown,
    toggles: Toggles,
    payload: Seq<u8>,
    now: u64,
)
    ensures
        ({
            let after = notification::after_packet(s, toggles, payload, now);
            match dispatcher::parsed(payload) {
                None => after == s,
                Some(NotificationView::Toast(gfxid, text)) => if toggles.toast {
                    after.floats == s.floats && after.toasts == queue::newest(
                        s.toasts.push((now, gfxid, text)),
                    )
                } else {
                    after == s
                },
                Some(NotificationView::Float(kind, amount)) => if toggles.float {
                    after.toasts == s.toasts && after.floats == queue::after_drop(
                        s.floats,
                        kind,
                        amount,
                        now,
                    )
                } else {
                    after == s
                },
            }
        }),
{
}

/// Of the slots that were written since the last look, none is missed while there are at
/// most as many as the ring holds; else the newest that it holds are read.
pub proof fn slots_are_read_in_turn(head: u32, tail: u32)
    ensures
        ({
            let written = (tail - head) % 0x1_0000_0000;
            let slots = packet_hook::RING_SLOTS as int;
            &&& written <= slots ==> packet_hook::first_slot(head, tail) == head
                && packet_hook::readable(head, tail) == written
            &&& written > slots ==> packet_hook::readable(head, tail) == slots
            &&& (packet_hook::first_slot(head, tail) + packet_hook::readable(head, tail))
                % 0x1_0000_0000 == tail
        }),
{
}

/// A slot that holds an item or a drop gives back the packet that was put into it.
pub proof fn slots_give_their_packet_back(gfxid: u16, name: Seq<u8>, kind: u8, amount: u32, rest: Seq<u8>, mark: Seq<u8>)
    requires
        mark.len() == 3,
        forall|k: int| 0 <= k < name.len() ==> name[k] != 0,
    ensures
        packet_hook::packet_of(seq![190u8] + mark + code::le16(gfxid) + name + seq![0u8] + rest)
            == seq![190u8] + code::le16(gfxid) + name + seq![0u8],
        packet_hook::packet_of(seq![192u8] + mark + seq![kind] + code::le32(amount) + rest)
            == seq![192u8] + seq![kind] + code::le32(amount),
{
    let item = seq![190u8] + mark + code::le16(gfxid) + name + seq![0u8] + rest;
    let payload = item.skip(4);
    let tail = payload.skip(2);
    assert(tail =~= name + seq![0u8] + rest);
    dispatcher::first_zero_is_first(tail);
    let n = name.len() as int;
    assert(tail[n] == 0);
    match dispatcher::first_zero(tail) {
        Some(m) => {
            assert(m == n) by {
                if m < n {
                    assert(tail[m as int] == name[m as int]);
                }
            }
        },
        None => {},
    }
    assert(packet_hook::packet_of(item) =~= seq![190u8] + code::le16(gfxid) + name + seq![0u8]);
    let drop = seq![192u8] + mark + seq![kind] + code::le32(amount) + rest;
    code::le32_round_trip(amount);
    assert(packet_hook::packet_of(drop) =~= seq![192u8] + seq![kind] + code::le32(amount));
}

/// Only slots that are marked as filled give a packet, and each of them gives one, in
/// their order.
pub proof fn filled_slots_give_packets(slots: Seq<Vec<u8>>)
    requires
        slots.len() > 0,
    ensures
        packet_hook::packets_of(slots) == if slots.last()@[1] == 1 {
            packet_hook::packets_of(slots.drop_last()).push(
                packet_hook::packet_of(slots.last()@),
            )
        } else {
            packet_hook::packets_of(slots.drop_last())
        },
        packet_hook::packets_of(Seq::empty()).len() == 0,
{
}

/// A number reads in groups of three digits from its end: behind each comma stand three
/// digits, and there is no comma but between groups.
pub proof fn digits_stand_in_threes(digits: Seq<char>)
    ensures
        digits.len() <= 3 ==> types::grouped(digits) == digits,
        digits.len() > 3 ==> {
            let g = types::grouped(digits);
            &&& g.len() == types::grouped(digits.take(digits.len() - 3)).len() + 4
            &&& g.skip(g.len() - 3) == digits.skip(digits.len() - 3)
            &&& g[g.len() - 4] == ','
            &&& g.take(g.len() - 4) == types::grouped(digits.take(digits.len() - 3))
        },
{
    if digits.len() > 3 {
        let g = types::grouped(digits);
        assert(g.skip(g.len() - 3) =~= digits.skip(digits.len() - 3));
        assert(g.take(g.len() - 4) =~= types::grouped(digits.take(digits.len() - 3)));
    }
}

} // verus!
