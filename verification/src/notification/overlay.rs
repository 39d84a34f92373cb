//! Painting notifications into the pixels of an overlay window.
//!
//! A frame is planned as a list of steps.  Steps that paint pixels are carried out
//! here, on 32-bit pixels of alpha, red, green and blue with the color multiplied
//! by alpha; text is drawn by the window system.

use vstd::prelude::*;

use super::sprite_pak::DecodedPng;
use super::types;
use super::types::with_commas;
use super::types::FloatKind;
use super::types::LiveFloat;
use super::types::LiveToast;
use super::queue;
use crate::text;
use crate::text::push_text;
use crate::text::text_of;

verus! {

pub const TOAST_W: i32 = 329;

pub const TOAST_H: i32 = 37;

pub const TOAST_GAP: i32 = 2;

/// How long a toast is shown, in milliseconds.
pub const TOAST_LIFE_MS: u32 = 5000;

/// How long a floating number is shown, in milliseconds.
pub const FLOAT_LIFE_MS: u32 = 1500;

pub const FLOAT_DRIFT_PX: i32 = 60;

/// A toast to paint.
#[derive(Debug, Clone)]
pub struct ToastView {
    pub gfxid: u16,
    pub text: String,
    pub age_ms: u32,
}

/// A floating number to paint.
#[derive(Debug, Clone, Copy, PartialEq, Eq, Structural)]
pub struct FloatView {
    pub kind: FloatKind,
    pub amount: u32,
    pub age_ms: u32,
    pub cascade_offset: u8,
}

/// Everything to paint, and when it was put together.
#[derive(Debug, Clone)]
pub struct Snapshot {
    pub toasts: Vec<ToastView>,
    pub floats: Vec<FloatView>,
    pub captured_at: Option<u64>,
}

impl Default for Snapshot {
    fn default() -> (r: Self)
        ensures
            r.toasts@.len() == 0,
            r.floats@.len() == 0,
            r.captured_at is None,
    {
        Snapshot { toasts: Vec::new(), floats: Vec::new(), captured_at: None }
    }
}

/// Milliseconds from `then` to `now`, as far as they fit into 32 bits.
pub open spec fn age_in_ms(then: u64, now: u64) -> u32 {
    (queue::age(then, now) / 1_000_000) as u32
}

fn age_ms(then: u64, now: u64) -> (r: u32)
    ensures
        r == age_in_ms(then, now),
{
    let ms: u64 = now.saturating_sub(then) / 1_000_000;
    #[verifier::truncate]
    (ms as u32)
}

/// What is to be painted of live notifications; `texts` are the decoded texts of the
/// toasts.
pub fn snapshot_of(
    toasts: &Vec<LiveToast>,
    texts: Vec<String>,
    floats: &Vec<LiveFloat>,
    now: u64,
) -> (r: Snapshot)
    requires
        texts@.len() == toasts@.len(),
    ensures
        r.captured_at == Some(now),
        r.toasts@.len() == toasts@.len(),
        forall|i: int|
            0 <= i < toasts@.len() ==> (#[trigger] r.toasts@[i]).gfxid == toasts@[i].gfxid
                && r.toasts@[i].text@ == texts@[i]@ && r.toasts@[i].age_ms == age_in_ms(
                toasts@[i].spawned_at,
                now,
            ),
        r.floats@.len() == floats@.len(),
        forall|i: int|
            0 <= i < floats@.len() ==> #[trigger] r.floats@[i] == (FloatView {
                kind: floats@[i].kind,
                amount: floats@[i].amount,
                age_ms: age_in_ms(floats@[i].spawned_at, now),
                cascade_offset: floats@[i].cascade_offset,
            }),
{
    let mut views: Vec<ToastView> = Vec::new();
    let mut i: usize = 0;
    while i < toasts.len()
        invariant
            i <= toasts@.len(),
            texts@.len() == toasts@.len(),
            views@.len() == i,
            forall|k: int|
                0 <= k < i ==> (#[trigger] views@[k]).gfxid == toasts@[k].gfxid && views@[k].text@
                    == texts@[k]@ && views@[k].age_ms == age_in_ms(toasts@[k].spawned_at, now),
        decreases toasts@.len() - i,
    {
        views.push(
            ToastView {
                gfxid: toasts[i].gfxid,
                text: text_of(texts[i].as_str()),
                age_ms: age_ms(toasts[i].spawned_at, now),
            },
        );
        i += 1;
    }
    let mut numbers: Vec<FloatView> = Vec::new();
    let mut j: usize = 0;
    while j < floats.len()
        invariant
            j <= floats@.len(),
            numbers@.len() == j,
            forall|k: int|
                0 <= k < j ==> #[trigger] numbers@[k] == (FloatView {
                    kind: floats@[k].kind,
                    amount: floats@[k].amount,
                    age_ms: age_in_ms(floats@[k].spawned_at, now),
                    cascade_offset: floats@[k].cascade_offset,
                }),
        decreases floats@.len() - j,
    {
        numbers.push(
            FloatView {
                kind: floats[j].kind,
                amount: floats[j].amount,
                age_ms: age_ms(floats[j].spawned_at, now),
                cascade_offset: floats[j].cascade_offset,
            },
        );
        j += 1;
    }
    Snapshot { toasts: views, floats: numbers, captured_at: Some(now) }
}

/// Replaces what is to be painted.
pub fn write_snapshot(slot: &mut Snapshot, snap: Snapshot)
    ensures
        *final(slot) == snap,
{
    *slot = snap;
}

/// A pixel from its four parts.
pub open spec fn packed(a: int, r: int, g: int, b: int) -> u32 {
    (a * 16777216 + r * 65536 + g * 256 + b) as u32
}

/// A part multiplied by alpha, rounded.
pub open spec fn times_alpha(c: int, a: int) -> int {
    (c * a + 127) / 255
}

/// How opaque a mask is where the picture has this gray: twice as opaque as it is dark,
/// up to fully opaque.
pub open spec fn mask_alpha(gray: u8) -> int {
    if 2 * (255 - gray) <= 255 {
        2 * (255 - gray)
    } else {
        255
    }
}

/// How a rectangle is painted.
pub enum Paint<'a> {
    /// With a picture, made more transparent.
    Picture(&'a DecodedPng, u8),
    /// With one color, as opaque as the picture is dark.
    Mask(&'a DecodedPng, u32, u8),
    /// With one pixel.
    Fill(u32),
    /// Only pixels that have a color but no alpha get this alpha.
    Alpha(u8),
}

impl<'a> Paint<'a> {
    /// A picture covers the rectangle.
    pub open spec fn covers(&self, w: int, h: int) -> bool {
        match self {
            Paint::Picture(png, _) => png.wf() && png.width == w && png.height == h,
            Paint::Mask(png, _, _) => png.wf() && png.width == w && png.height == h,
            _ => true,
        }
    }

    /// The pixel that replaces `before` in row `sy` and column `sx` of the
    /// rectangle.
    pub open spec fn painted(&self, sy: int, sx: int, before: u32) -> u32 {
        match self {
            Paint::Picture(png, scale) => {
                let k = (sy * png.width + sx) * 4;
                let a = times_alpha(png.rgba@[k + 3] as int, *scale as int);
                if a == 0 {
                    before
                } else {
                    packed(
                        a,
                        times_alpha(png.rgba@[k] as int, a),
                        times_alpha(png.rgba@[k + 1] as int, a),
                        times_alpha(png.rgba@[k + 2] as int, a),
                    )
                }
            },
            Paint::Mask(png, tint, scale) => {
                let k = (sy * png.width + sx) * 4;
                let a = times_alpha(mask_alpha(png.rgba@[k]), *scale as int);
                if a == 0 {
                    before
                } else {
                    packed(
                        a,
                        times_alpha((*tint / 65536 % 256) as int, a),
                        times_alpha((*tint / 256 % 256) as int, a),
                        times_alpha((*tint % 256) as int, a),
                    )
                }
            },
            Paint::Fill(pixel) => *pixel,
            Paint::Alpha(alpha) => if before / 16777216 != 0 || before == 0 {
                before
            } else {
                packed(
                    *alpha as int,
                    times_alpha((before / 65536 % 256) as int, *alpha as int),
                    times_alpha((before / 256 % 256) as int, *alpha as int),
                    times_alpha((before % 256) as int, *alpha as int),
                )
            },
        }
    }

    fn paint(&self, sy: usize, sx: usize, before: u32, w: usize, h: usize) -> (r: u32)
        requires
            self.covers(w as int, h as int),
            sy < h,
            sx < w,
        ensures
            r == self.painted(sy as int, sx as int, before),
    {
        match self {
            Paint::Picture(png, scale) => {
                let k: usize = byte_index(png, sy, sx);
                let a: u32 = scaled(png.rgba[k + 3] as u32, *scale as u32);
                if a == 0 {
                    return before;
                }
                let r: u32 = scaled(png.rgba[k] as u32, a);
                let g: u32 = scaled(png.rgba[k + 1] as u32, a);
                let b: u32 = scaled(png.rgba[k + 2] as u32, a);
                pack(a, r, g, b)
            },
            Paint::Mask(png, tint, scale) => {
                let k: usize = byte_index(png, sy, sx);
                let dark: u32 = 2 * (255 - png.rgba[k] as u32);
                let mask: u32 = if dark <= 255 {
                    dark
                } else {
                    255
                };
                let a: u32 = scaled(mask, *scale as u32);
                if a == 0 {
                    return before;
                }
                let r: u32 = scaled(*tint / 65536 % 256, a);
                let g: u32 = scaled(*tint / 256 % 256, a);
                let b: u32 = scaled(*tint % 256, a);
                pack(a, r, g, b)
            },
            Paint::Fill(pixel) => *pixel,
            Paint::Alpha(alpha) => {
                if before / 16777216 != 0 || before == 0 {
                    return before;
                }
                let a: u32 = *alpha as u32;
                let r: u32 = scaled(before / 65536 % 256, a);
                let g: u32 = scaled(before / 256 % 256, a);
                let b: u32 = scaled(before % 256, a);
                pack(a, r, g, b)
            },
        }
    }
}

fn byte_index(png: &DecodedPng, sy: usize, sx: usize) -> (k: usize)
    requires
        png.wf(),
        sy < png.height,
        sx < png.width,
    ensures
        k == (sy * png.width + sx) * 4,
        k + 4 <= png.rgba@.len(),
{
    proof {
        let w = png.width as int;
        let h = png.height as int;
        assert(sy * w + sx + 1 <= w * h && 0 <= sy * w) by (nonlinear_arith)
            requires
                0 <= sy < h,
                0 <= sx < w,
        ;
        assert((sy * w + sx) * 4 + 4 <= png.rgba.len());
    }
    (sy * png.width as usize + sx) * 4
}

fn scaled(c: u32, a: u32) -> (r: u32)
    requires
        c <= 255,
        a <= 255,
    ensures
        r == times_alpha(c as int, a as int),
        r <= 255,
{
    assert(c * a <= 255 * 255) by (nonlinear_arith)
        requires
            0 <= c <= 255,
            0 <= a <= 255,
    ;
    (c * a + 127) / 255
}

fn pack(a: u32, r: u32, g: u32, b: u32) -> (p: u32)
    requires
        a <= 255,
        r <= 255,
        g <= 255,
        b <= 255,
    ensures
        p == packed(a as int, r as int, g as int, b as int),
{
    a * 16777216 + r * 65536 + g * 256 + b
}

/// The pixel in a row and a column.
pub open spec fn px(pixels: Seq<u32>, width: int, row: int, col: int) -> u32 {
    pixels[row * width + col]
}

/// Whether every pixel of a rectangle (and only those) is painted.
pub open spec fn is_painted(
    before: Seq<u32>,
    after: Seq<u32>,
    width: int,
    height: int,
    x: int,
    y: int,
    w: int,
    h: int,
    paint: Paint,
) -> bool {
    &&& after.len() == before.len()
    &&& forall|row: int, col: int|
        0 <= row < height && 0 <= col < width ==> #[trigger] px(after, width, row, col) == if x
            <= col < x + w && y <= row < y + h {
            paint.painted(row - y, col - x, px(before, width, row, col))
        } else {
            px(before, width, row, col)
        }
}

/// Painting keeps everything outside of the rectangle.
pub proof fn painting_keeps_the_rest(
    before: Seq<u32>,
    after: Seq<u32>,
    width: int,
    height: int,
    x: int,
    y: int,
    w: int,
    h: int,
    paint: Paint,
    row: int,
    col: int,
)
    requires
        is_painted(before, after, width, height, x, y, w, h, paint),
        0 <= row < height,
        0 <= col < width,
        !(x <= col < x + w && y <= row < y + h),
    ensures
        px(after, width, row, col) == px(before, width, row, col),
{
}

/// Two pixels in different places are different elements.
proof fn places_differ(width: int, r1: int, c1: int, r2: int, c2: int)
    requires
        0 <= c1 < width,
        0 <= c2 < width,
        r1 * width + c1 == r2 * width + c2,
    ensures
        r1 == r2,
        c1 == c2,
{
    vstd::arithmetic::div_mod::lemma_fundamental_div_mod_converse(
        r1 * width + c1,
        width,
        r1,
        c1,
    );
    vstd::arithmetic::div_mod::lemma_fundamental_div_mod_converse(
        r2 * width + c2,
        width,
        r2,
        c2,
    );
}

proof fn place_fits(width: int, height: int, row: int, col: int)
    requires
        0 <= row < height,
        0 <= col < width,
    ensures
        0 <= row * width + col < width * height,
        0 <= row * width,
{
    assert(0 <= row * width + col < width * height && 0 <= row * width) by (nonlinear_arith)
        requires
            0 <= row < height,
            0 <= col < width,
    ;
}

/// Paints a rectangle, as far as it is on the canvas.
pub fn paint_rect(
    pixels: &mut [u32],
    width: i32,
    height: i32,
    x: i32,
    y: i32,
    w: i32,
    h: i32,
    paint: &Paint,
)
    requires
        0 <= width,
        0 <= height,
        old(pixels)@.len() == width * height,
        0 <= w,
        0 <= h,
        x + w <= i32::MAX,
        y + h <= i32::MAX,
        paint.covers(w as int, h as int),
    ensures
        is_painted(
            old(pixels)@,
            final(pixels)@,
            width as int,
            height as int,
            x as int,
            y as int,
            w as int,
            h as int,
            *paint,
        ),
{
    let x0: i32 = if x > 0 {
        x
    } else {
        0
    };
    let y0: i32 = if y > 0 {
        y
    } else {
        0
    };
    let x1: i32 = if x + w < width {
        x + w
    } else {
        width
    };
    let y1: i32 = if y + h < height {
        y + h
    } else {
        height
    };
    let ghost before = pixels@;
    if x1 <= x0 || y1 <= y0 {
        return;
    }
    let stride: usize = width as usize;
    let total: usize = pixels.len();
    let mut row: i32 = y0;
    while row < y1
        invariant
            0 <= width,
            0 <= height,
            0 <= w,
            0 <= h,
            x + w <= i32::MAX,
            y + h <= i32::MAX,
            paint.covers(w as int, h as int),
            stride == width,
            total == width * height,
            x0 == if x > 0 { x as int } else { 0 },
            y0 == if y > 0 { y as int } else { 0 },
            x1 == if x + w < width { x + w } else { width as int },
            y1 == if y + h < height { y + h } else { height as int },
            x0 < x1,
            y0 <= row <= y1,
            pixels@.len() == before.len() == total,
            forall|r: int, c: int|
                0 <= r < height && 0 <= c < width ==> #[trigger] px(pixels@, width as int, r, c)
                    == if r < row && x <= c < x + w && y <= r < y + h {
                    paint.painted(r - y, c - x, px(before, width as int, r, c))
                } else {
                    px(before, width as int, r, c)
                },
        decreases y1 - row,
    {
        let mut col: i32 = x0;
        while col < x1
            invariant
                0 <= width,
                0 <= height,
                0 <= w,
                0 <= h,
                x + w <= i32::MAX,
                y + h <= i32::MAX,
                paint.covers(w as int, h as int),
                stride == width,
                total == width * height,
                x0 == if x > 0 { x as int } else { 0 },
                y0 == if y > 0 { y as int } else { 0 },
                x1 == if x + w < width { x + w } else { width as int },
                y1 == if y + h < height { y + h } else { height as int },
                y0 <= row < y1,
                x0 <= col <= x1,
                pixels@.len() == before.len() == total,
                forall|r: int, c: int|
                    0 <= r < height && 0 <= c < width ==> #[trigger] px(pixels@, width as int, r, c)
                        == if (r < row || (r == row && c < col)) && x <= c < x + w && y <= r < y + h {
                        paint.painted(r - y, c - x, px(before, width as int, r, c))
                    } else {
                        px(before, width as int, r, c)
                    },
            decreases x1 - col,
        {
            proof {
                place_fits(width as int, height as int, row as int, col as int);
                assert(px(pixels@, width as int, row as int, col as int) == px(
                    before,
                    width as int,
                    row as int,
                    col as int,
                ));
            }
            let i: usize = row as usize * stride + col as usize;
            let sy: usize = (row as i64 - y as i64) as usize;
            let sx: usize = (col as i64 - x as i64) as usize;
            let value: u32 = paint.paint(sy, sx, pixels[i], w as usize, h as usize);
            let ghost last = pixels@;
            pixels[i] = value;
            proof {
                assert forall|r: int, c: int| 0 <= r < height && 0 <= c < width implies #[trigger] px(
                    pixels@,
                    width as int,
                    r,
                    c,
                ) == if (r < row || (r == row && c < col + 1)) && x <= c < x + w && y <= r < y + h {
                    paint.painted(r - y, c - x, px(before, width as int, r, c))
                } else {
                    px(before, width as int, r, c)
                } by {
                    place_fits(width as int, height as int, r, c);
                    if r * width + c == row * width + col {
                        places_differ(width as int, r, c, row as int, col as int);
                    } else {
                        assert(px(pixels@, width as int, r, c) == px(last, width as int, r, c));
                    }
                }
            }
            col += 1;
        }
        row += 1;
    }
}

/// Paints a picture, made more transparent.
pub fn blit_png(
    pixels: &mut [u32],
    width: i32,
    height: i32,
    png: &DecodedPng,
    x: i32,
    y: i32,
    alpha_scale: u8,
)
    requires
        0 <= width,
        0 <= height,
        old(pixels)@.len() == width * height,
        png.wf(),
        png.width <= i32::MAX,
        png.height <= i32::MAX,
        x + png.width <= i32::MAX,
        y + png.height <= i32::MAX,
    ensures
        is_painted(
            old(pixels)@,
            final(pixels)@,
            width as int,
            height as int,
            x as int,
            y as int,
            png.width as int,
            png.height as int,
            Paint::Picture(png, alpha_scale),
        ),
{
    paint_rect(
        pixels,
        width,
        height,
        x,
        y,
        png.width as i32,
        png.height as i32,
        &Paint::Picture(png, alpha_scale),
    );
}

/// Paints one color, twice as opaque as the picture is dark, up to fully opaque.
pub fn blit_grayscale_mask(
    pixels: &mut [u32],
    width: i32,
    height: i32,
    png: &DecodedPng,
    x: i32,
    y: i32,
    tint_rgb: u32,
    alpha_scale: u8,
)
    requires
        0 <= width,
        0 <= height,
        old(pixels)@.len() == width * height,
        png.wf(),
        png.width <= i32::MAX,
        png.height <= i32::MAX,
        x + png.width <= i32::MAX,
        y + png.height <= i32::MAX,
    ensures
        is_painted(
            old(pixels)@,
            final(pixels)@,
            width as int,
            height as int,
            x as int,
            y as int,
            png.width as int,
            png.height as int,
            Paint::Mask(png, tint_rgb, alpha_scale),
        ),
{
    paint_rect(
        pixels,
        width,
        height,
        x,
        y,
        png.width as i32,
        png.height as i32,
        &Paint::Mask(png, tint_rgb, alpha_scale),
    );
}

/// Fills a rectangle with one pixel.
pub fn fill_rect(
    pixels: &mut [u32],
    width: i32,
    height: i32,
    x: i32,
    y: i32,
    w: i32,
    h: i32,
    pixel: u32,
)
    requires
        0 <= width,
        0 <= height,
        old(pixels)@.len() == width * height,
        0 <= w,
        0 <= h,
        x + w <= i32::MAX,
        y + h <= i32::MAX,
    ensures
        is_painted(
            old(pixels)@,
            final(pixels)@,
            width as int,
            height as int,
            x as int,
            y as int,
            w as int,
            h as int,
            Paint::Fill(pixel),
        ),
{
    paint_rect(pixels, width, height, x, y, w, h, &Paint::Fill(pixel));
}

/// Gives pixels that have a color but no alpha (as text drawing leaves them) an
/// alpha.
pub fn force_alpha(
    pixels: &mut [u32],
    width: i32,
    height: i32,
    x: i32,
    y: i32,
    w: i32,
    h: i32,
    alpha: u8,
)
    requires
        0 <= width,
        0 <= height,
        old(pixels)@.len() == width * height,
        0 <= w,
        0 <= h,
        x + w <= i32::MAX,
        y + h <= i32::MAX,
    ensures
        is_painted(
            old(pixels)@,
            final(pixels)@,
            width as int,
            height as int,
            x as int,
            y as int,
            w as int,
            h as int,
            Paint::Alpha(alpha),
        ),
{
    paint_rect(pixels, width, height, x, y, w, h, &Paint::Alpha(alpha));
}

/// Makes the whole canvas transparent.
pub fn clear(pixels: &mut [u32])
    ensures
        final(pixels)@ == Seq::new(old(pixels)@.len(), |i: int| 0u32),
{
    let n: usize = pixels.len();
    let mut i: usize = 0;
    while i < n
        invariant
            n == pixels@.len(),
            pixels@.len() == old(pixels)@.len(),
            i <= n,
            forall|k: int| 0 <= k < i ==> pixels@[k] == 0,
        decreases n - i,
    {
        pixels[i] = 0;
        i += 1;
    }
    assert(pixels@ =~= Seq::new(old(pixels)@.len(), |i: int| 0u32));
}

/// A picture that is known under a name.
#[derive(Debug, Clone, Copy, PartialEq, Eq, Structural)]
pub enum Icon {
    /// The background of a toast.
    Bar,
    /// The frame around an item.
    Frame,
    /// The picture of an item.
    Item(u16),
    Exp,
    Gold,
}

/// One step of painting a frame.
#[derive(Debug)]
pub enum RenderOp {
    /// [`blit_grayscale_mask`] with a picture.
    Mask { icon: Icon, x: i32, y: i32, tint: u32, alpha: u8 },
    /// A rectangle of one color, given as alpha, red, green and blue.
    Fill { x: i32, y: i32, w: i32, h: i32, color: u32 },
    /// [`blit_png`] with a picture.
    Blit { icon: Icon, x: i32, y: i32, alpha: u8 },
    Text { text: String, x: i32, y: i32, color: u32 },
    /// [`force_alpha`].
    Alpha { x: i32, y: i32, w: i32, h: i32, alpha: u8 },
}

/// A step, with its text as a sequence of characters and plain numbers.
pub enum OpView {
    Mask(Icon, int, int, u32, int),
    Fill(int, int, int, int, int),
    Blit(Icon, int, int, int),
    Text(Seq<char>, int, int, int),
    Alpha(int, int, int, int, int),
}

impl View for RenderOp {
    type V = OpView;

    open spec fn view(&self) -> OpView {
        match self {
            RenderOp::Mask { icon, x, y, tint, alpha } => OpView::Mask(
                *icon,
                *x as int,
                *y as int,
                *tint,
                *alpha as int,
            ),
            RenderOp::Fill { x, y, w, h, color } => OpView::Fill(
                *x as int,
                *y as int,
                *w as int,
                *h as int,
                *color as int,
            ),
            RenderOp::Blit { icon, x, y, alpha } => OpView::Blit(
                *icon,
                *x as int,
                *y as int,
                *alpha as int,
            ),
            RenderOp::Text { text, x, y, color } => OpView::Text(
                text@,
                *x as int,
                *y as int,
                *color as int,
            ),
            RenderOp::Alpha { x, y, w, h, alpha } => OpView::Alpha(
                *x as int,
                *y as int,
                *w as int,
                *h as int,
                *alpha as int,
            ),
        }
    }
}

/// What each step is.
pub open spec fn op_views(ops: Seq<RenderOp>) -> Seq<OpView> {
    Seq::new(ops.len(), |i: int| ops[i]@)
}

/// Which pictures are there, and the sizes that matter.
#[derive(Debug, Clone, Copy)]
pub struct IconSizes {
    pub bar: bool,
    pub frame: bool,
    pub exp: Option<(u32, u32)>,
    pub gold: Option<(u32, u32)>,
}

/// `a / b`, rounded towards zero.
pub open spec fn div_to_zero(a: int, b: int) -> int {
    if a >= 0 {
        a / b
    } else {
        -((-a) / b)
    }
}

/// Full until `fade` milliseconds before the end of its life, then falling evenly.
pub open spec fn life_alpha(age: int, life: int, fade: int) -> int {
    if age >= life {
        0
    } else if age >= life - fade {
        (life - age) * 255 / fade
    } else {
        255
    }
}

/// How far from the edge of its frame a picture with a side of this length stands.
pub open spec fn room_beside(side: u32) -> int {
    if (side as i32) < 37 {
        (37 - (side as i32)) / 2
    } else {
        0
    }
}

/// The steps that paint toast number `i`.
pub open spec fn toast_ops(
    buf_w: int,
    buf_h: int,
    i: int,
    gfxid: u16,
    line: Seq<char>,
    age: int,
    icons: IconSizes,
    item: Option<(u32, u32)>,
) -> Seq<OpView> {
    let x = div_to_zero(buf_w * 12, 1000);
    let y = div_to_zero(buf_h * 71, 100) - (i + 1) * 39;
    let alpha = life_alpha(age, 5000, 500);
    if alpha == 0 {
        Seq::empty()
    } else {
        let background = if icons.bar {
            seq![OpView::Mask(Icon::Bar, x, y, 0, alpha)]
        } else {
            seq![OpView::Fill(x, y, 329, 37, alpha * 16777216 + 0x202020)]
        };
        let frame = if icons.frame {
            seq![OpView::Blit(Icon::Frame, x, y, alpha)]
        } else {
            Seq::empty()
        };
        let picture = match item {
            Some((w, h)) => seq![
                OpView::Blit(
                    Icon::Item(gfxid),
                    x + room_beside(w),
                    y + room_beside(h),
                    alpha,
                ),
            ],
            None => Seq::empty(),
        };
        background + frame + picture + seq![
            OpView::Text(line, x + 43, y + 10, alpha * 16777216 + 0xFFFFFF),
            OpView::Alpha(x + 43, y + 10, 286, 22, alpha),
        ]
    }
}

/// The steps that paint a floating number.
pub open spec fn float_ops(buf_w: int, buf_h: int, f: FloatView, icons: IconSizes) -> Seq<OpView> {
    let x = div_to_zero(buf_w * 62, 100);
    let y = div_to_zero(buf_h * 41, 100) + (match f.kind {
        FloatKind::Exp => -9int,
        FloatKind::Gold => 9int,
    }) - f.age_ms * 60 / 1500 + f.cascade_offset * 22;
    let alpha = life_alpha(f.age_ms as int, 1500, 300);
    let line = seq!['+'] + types::grouped(text::decimal(f.amount as nat));
    let (icon, size, color) = match f.kind {
        FloatKind::Exp => (Icon::Exp, icons.exp, 0x60D72Eint),
        FloatKind::Gold => (Icon::Gold, icons.gold, 0xDFCD65int),
    };
    if alpha == 0 {
        Seq::empty()
    } else {
        let (head, tx, ty) = match size {
            Some((w, h)) => (
                seq![OpView::Blit(icon, x, y, alpha)],
                x + (w as i32) + 2,
                y + div_to_zero((h as i32) - 16, 2),
            ),
            None => (Seq::empty(), x + 4, y + 2),
        };
        head + seq![
            OpView::Text(line, tx + 1, ty + 1, 0xFF000000),
            OpView::Text(line, tx, ty, alpha * 16777216 + color),
            OpView::Alpha(tx, ty, 120, 22, alpha),
        ]
    }
}

/// The steps of the first `n` toasts.
pub open spec fn toasts_ops(
    buf_w: int,
    buf_h: int,
    toasts: Seq<ToastView>,
    icons: IconSizes,
    items: Seq<Option<(u32, u32)>>,
    n: int,
) -> Seq<OpView>
    decreases n,
{
    if n <= 0 {
        Seq::empty()
    } else {
        toasts_ops(buf_w, buf_h, toasts, icons, items, n - 1) + toast_ops(
            buf_w,
            buf_h,
            n - 1,
            toasts[n - 1].gfxid,
            toasts[n - 1].text@,
            toasts[n - 1].age_ms as int,
            icons,
            items[n - 1],
        )
    }
}

/// The steps of the first `n` floating numbers.
pub open spec fn floats_ops(
    buf_w: int,
    buf_h: int,
    floats: Seq<FloatView>,
    icons: IconSizes,
    n: int,
) -> Seq<OpView>
    decreases n,
{
    if n <= 0 {
        Seq::empty()
    } else {
        floats_ops(buf_w, buf_h, floats, icons, n - 1) + float_ops(
            buf_w,
            buf_h,
            floats[n - 1],
            icons,
        )
    }
}

/// At most ten of each are painted.
pub open spec fn first_ten(n: nat) -> int {
    if n > 10 {
        10
    } else {
        n as int
    }
}

/// Nothing is painted of a notification whose life is over.
pub proof fn the_dead_are_not_painted(
    buf_w: int,
    buf_h: int,
    i: int,
    gfxid: u16,
    line: Seq<char>,
    age: int,
    icons: IconSizes,
    item: Option<(u32, u32)>,
)
    requires
        age >= TOAST_LIFE_MS,
    ensures
        toast_ops(buf_w, buf_h, i, gfxid, line, age, icons, item).len() == 0,
{
}

/// Whether the place of a toast's picture can be computed without overflow.
pub open spec fn toast_fits(t: ToastView, item: Option<(u32, u32)>) -> bool {
    life_alpha(t.age_ms as int, 5000, 500) > 0 ==> (item matches Some((w, h)) ==> 37 - (w as i32)
        <= i32::MAX && 37 - (h as i32) <= i32::MAX)
}

/// Whether the places of a floating number can be computed without overflow.
pub open spec fn number_fits(buf_w: i32, f: FloatView, icons: IconSizes) -> bool {
    let size = match f.kind {
        FloatKind::Exp => icons.exp,
        FloatKind::Gold => icons.gold,
    };
    let x = div_to_zero(buf_w * 62, 100);
    life_alpha(f.age_ms as int, 1500, 300) > 0 ==> (size matches Some((w, h)) ==> {
        &&& i32::MIN <= x + (w as i32)
        &&& x + (w as i32) + 3 <= i32::MAX
        &&& i32::MIN <= (h as i32) - 16
    })
}

/// Whether every place of a frame can be computed without overflow.
pub open spec fn frame_fits(
    buf_w: i32,
    buf_h: i32,
    toasts: Seq<ToastView>,
    floats: Seq<FloatView>,
    icons: IconSizes,
    items: Seq<Option<(u32, u32)>>,
) -> bool {
    &&& i32::MIN <= buf_w * 62 <= i32::MAX
    &&& i32::MIN <= buf_h * 71 <= i32::MAX
    &&& forall|i: int|
        0 <= i < first_ten(toasts.len()) ==> toast_fits(#[trigger] toasts[i], items[i])
    &&& forall|i: int|
        0 <= i < first_ten(floats.len()) ==> number_fits(buf_w, #[trigger] floats[i], icons)
}

/// Tells whether every place of a frame can be computed.
pub fn can_render(
    buf_w: i32,
    buf_h: i32,
    snap: &Snapshot,
    icons: &IconSizes,
    items: &Vec<Option<(u32, u32)>>,
) -> (r: bool)
    requires
        items@.len() == snap.toasts@.len(),
    ensures
        r == frame_fits(buf_w, buf_h, snap.toasts@, snap.floats@, *icons, items@),
{
    let wide: i64 = buf_w as i64 * 62;
    let high: i64 = buf_h as i64 * 71;
    if wide < i32::MIN as i64 || wide > i32::MAX as i64 || high < i32::MIN as i64 || high
        > i32::MAX as i64 {
        return false;
    }
    let mut i: usize = 0;
    while i < snap.toasts.len() && i < 10
        invariant
            items@.len() == snap.toasts@.len(),
            i <= snap.toasts@.len(),
            i <= 10,
            forall|k: int| 0 <= k < i ==> toast_fits(#[trigger] snap.toasts@[k], items@[k]),
        decreases 10 - i,
    {
        if !can_place_item(&snap.toasts[i], &items[i]) {
            assert(!toast_fits(snap.toasts@[i as int], items@[i as int]));
            return false;
        }
        i += 1;
    }
    let x: i32 = (buf_w * 62) / 100;
    let mut j: usize = 0;
    while j < snap.floats.len() && j < 10
        invariant
            x == div_to_zero(buf_w * 62, 100),
            j <= snap.floats@.len(),
            j <= 10,
            forall|k: int| 0 <= k < j ==> number_fits(buf_w, #[trigger] snap.floats@[k], *icons),
        decreases 10 - j,
    {
        if !can_place_number(buf_w, x, &snap.floats[j], icons) {
            assert(!number_fits(buf_w, snap.floats@[j as int], *icons));
            return false;
        }
        j += 1;
    }
    true
}

fn can_place_item(t: &ToastView, item: &Option<(u32, u32)>) -> (r: bool)
    ensures
        r == toast_fits(*t, *item),
{
    if alpha_of(t.age_ms, TOAST_LIFE_MS, 500) == 0 {
        return true;
    }
    match *item {
        Some((w, h)) => 37 - signed(w) as i64 <= i32::MAX as i64 && 37 - signed(h) as i64
            <= i32::MAX as i64,
        None => true,
    }
}

fn can_place_number(buf_w: i32, x: i32, f: &FloatView, icons: &IconSizes) -> (r: bool)
    requires
        x == div_to_zero(buf_w * 62, 100),
    ensures
        r == number_fits(buf_w, *f, *icons),
{
    if alpha_of(f.age_ms, FLOAT_LIFE_MS, 300) == 0 {
        return true;
    }
    let size = match f.kind {
        FloatKind::Exp => icons.exp,
        FloatKind::Gold => icons.gold,
    };
    match size {
        Some((w, h)) => {
            let right: i64 = x as i64 + signed(w) as i64;
            i32::MIN as i64 <= right && right + 3 <= i32::MAX as i64 && i32::MIN as i64 <= signed(
                h,
            ) as i64 - 16
        },
        None => true,
    }
}

/// A side as the 32 bits of it are taken when places are computed.
fn signed(side: u32) -> (r: i32)
    ensures
        r == side as i32,
{
    #[verifier::truncate]
    (side as i32)
}

fn alpha_of(age: u32, life: u32, fade: u32) -> (r: u8)
    requires
        0 < fade <= life <= 10_000,
    ensures
        r == life_alpha(age as int, life as int, fade as int),
{
    if age >= life {
        return 0;
    }
    if age >= life - fade {
        let left: u32 = life - age;
        assert(left * 255 / (fade as int) <= 255) by (nonlinear_arith)
            requires
                0 <= left <= fade,
                0 < fade,
        ;
        return (left * 255 / fade) as u8;
    }
    255
}

fn push_ops(ops: &mut Vec<RenderOp>, more: Vec<RenderOp>)
    ensures
        op_views(final(ops)@) == op_views(old(ops)@) + op_views(more@),
{
    let mut more = more;
    let ghost before = ops@;
    let ghost rest = more@;
    ops.append(&mut more);
    assert(op_views(ops@) =~= op_views(before) + op_views(rest));
}

fn render_toast(
    buf_w: i32,
    buf_h: i32,
    i: usize,
    t: &ToastView,
    icons: &IconSizes,
    item: &Option<(u32, u32)>,
) -> (r: Vec<RenderOp>)
    requires
        i < 10,
        i32::MIN <= buf_w * 62 <= i32::MAX,
        i32::MIN <= buf_h * 71 <= i32::MAX,
        toast_fits(*t, *item),
    ensures
        op_views(r@) == toast_ops(
            buf_w as int,
            buf_h as int,
            i as int,
            t.gfxid,
            t.text@,
            t.age_ms as int,
            *icons,
            *item,
        ),
{
    let mut ops: Vec<RenderOp> = Vec::new();
    let x: i32 = (buf_w * 12) / 1000;
    let y: i32 = (buf_h * 71) / 100 - (i as i32 + 1) * (TOAST_H + TOAST_GAP);
    let alpha: u8 = alpha_of(t.age_ms, TOAST_LIFE_MS, 500);
    let ghost want = toast_ops(
        buf_w as int,
        buf_h as int,
        i as int,
        t.gfxid,
        t.text@,
        t.age_ms as int,
        *icons,
        *item,
    );
    if alpha == 0 {
        assert(op_views(ops@) =~= want);
        return ops;
    }
    if icons.bar {
        ops.push(RenderOp::Mask { icon: Icon::Bar, x, y, tint: 0, alpha });
    } else {
        ops.push(
            RenderOp::Fill {
                x,
                y,
                w: TOAST_W,
                h: TOAST_H,
                color: alpha as u32 * 16777216 + 0x202020,
            },
        );
    }
    if icons.frame {
        ops.push(RenderOp::Blit { icon: Icon::Frame, x, y, alpha });
    }
    if let Some((w, h)) = *item {
        let (wide, high): (i32, i32) = (signed(w), signed(h));
        let dx: i32 = if wide < 37 {
            (37 - wide) / 2
        } else {
            0
        };
        let dy: i32 = if high < 37 {
            (37 - high) / 2
        } else {
            0
        };
        ops.push(RenderOp::Blit { icon: Icon::Item(t.gfxid), x: x + dx, y: y + dy, alpha });
    }
    ops.push(
        RenderOp::Text {
            text: text_of(t.text.as_str()),
            x: x + 43,
            y: y + 10,
            color: alpha as u32 * 16777216 + 0xFFFFFF,
        },
    );
    ops.push(RenderOp::Alpha { x: x + 43, y: y + 10, w: 286, h: 22, alpha });
    assert(op_views(ops@) =~= want);
    ops
}

fn render_float(buf_w: i32, buf_h: i32, f: &FloatView, icons: &IconSizes) -> (r: Vec<RenderOp>)
    requires
        i32::MIN <= buf_w * 62 <= i32::MAX,
        i32::MIN <= buf_h * 71 <= i32::MAX,
        number_fits(buf_w, *f, *icons),
    ensures
        op_views(r@) == float_ops(buf_w as int, buf_h as int, *f, *icons),
{
    let mut ops: Vec<RenderOp> = Vec::new();
    let alpha: u8 = alpha_of(f.age_ms, FLOAT_LIFE_MS, 300);
    let ghost want = float_ops(buf_w as int, buf_h as int, *f, *icons);
    if alpha == 0 {
        assert(op_views(ops@) =~= want);
        return ops;
    }
    let drift: i32 = (f.age_ms as i32) * FLOAT_DRIFT_PX / FLOAT_LIFE_MS as i32;
    let kind_y_offset: i32 = match f.kind {
        FloatKind::Exp => -9,
        FloatKind::Gold => 9,
    };
    let x: i32 = (buf_w * 62) / 100;
    let y: i32 = (buf_h * 41) / 100 + kind_y_offset - drift + f.cascade_offset as i32 * 22;
    let (icon, size, color) = match f.kind {
        FloatKind::Exp => (Icon::Exp, icons.exp, 0x60D72Eu32),
        FloatKind::Gold => (Icon::Gold, icons.gold, 0xDFCD65u32),
    };
    let (tx, ty): (i32, i32) = match size {
        Some((w, h)) => {
            ops.push(RenderOp::Blit { icon, x, y, alpha });
            (x + signed(w) + 2, y + (signed(h) - 16) / 2)
        },
        None => (x + 4, y + 2),
    };
    let mut line: String = String::new();
    line.push('+');
    push_text(&mut line, with_commas(f.amount).as_str());
    let shadow: String = text_of(line.as_str());
    assert(line@ =~= seq!['+'] + types::grouped(text::decimal(f.amount as nat)));
    ops.push(RenderOp::Text { text: shadow, x: tx + 1, y: ty + 1, color: 0xFF000000 });
    ops.push(RenderOp::Text { text: line, x: tx, y: ty, color: alpha as u32 * 16777216 + color });
    ops.push(RenderOp::Alpha { x: tx, y: ty, w: 120, h: 22, alpha });
    assert(op_views(ops@) =~= want);
    ops
}

/// The steps that paint a frame: up to ten toasts from the lower left upwards, then
/// up to ten floating numbers.  `items` are the sizes of the toasts' pictures, as
/// far as they are loaded.
pub fn render(
    buf_w: i32,
    buf_h: i32,
    snap: &Snapshot,
    icons: &IconSizes,
    items: &Vec<Option<(u32, u32)>>,
) -> (r: Vec<RenderOp>)
    requires
        items@.len() == snap.toasts@.len(),
        frame_fits(buf_w, buf_h, snap.toasts@, snap.floats@, *icons, items@),
    ensures
        op_views(r@) == toasts_ops(
            buf_w as int,
            buf_h as int,
            snap.toasts@,
            *icons,
            items@,
            first_ten(snap.toasts@.len()),
        ) + floats_ops(
            buf_w as int,
            buf_h as int,
            snap.floats@,
            *icons,
            first_ten(snap.floats@.len()),
        ),
{
    let mut ops: Vec<RenderOp> = Vec::new();
    let mut i: usize = 0;
    assert(op_views(ops@) =~= Seq::<OpView>::empty());
    while i < snap.toasts.len() && i < 10
        invariant
            frame_fits(buf_w, buf_h, snap.toasts@, snap.floats@, *icons, items@),
            items@.len() == snap.toasts@.len(),
            i <= snap.toasts@.len(),
            i <= 10,
            op_views(ops@) == toasts_ops(
                buf_w as int,
                buf_h as int,
                snap.toasts@,
                *icons,
                items@,
                i as int,
            ),
        decreases 10 - i,
    {
        let more: Vec<RenderOp> = render_toast(
            buf_w,
            buf_h,
            i,
            &snap.toasts[i],
            icons,
            &items[i],
        );
        push_ops(&mut ops, more);
        i += 1;
    }
    let ghost head = op_views(ops@);
    let mut j: usize = 0;
    assert(head =~= head + Seq::<OpView>::empty());
    while j < snap.floats.len() && j < 10
        invariant
            frame_fits(buf_w, buf_h, snap.toasts@, snap.floats@, *icons, items@),
            j <= snap.floats@.len(),
            j <= 10,
            op_views(ops@) == head + floats_ops(
                buf_w as int,
                buf_h as int,
                snap.floats@,
                *icons,
                j as int,
            ),
        decreases 10 - j,
    {
        let more: Vec<RenderOp> = render_float(buf_w, buf_h, &snap.floats[j], icons);
        let ghost before = floats_ops(buf_w as int, buf_h as int, snap.floats@, *icons, j as int);
        let ghost step = op_views(more@);
        push_ops(&mut ops, more);
        assert(head + before + step =~= head + (before + step));
        j += 1;
    }
    ops
}

} // verus!
