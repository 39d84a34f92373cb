//! Pictures, the archives that hold them, and the kinds of sprites.

use vstd::prelude::*;

use crate::laws::monsters;
use crate::notification;
use crate::notification::sprite_pak;
use crate::notification::sprite_pak::IdxView;
use crate::notification::tbt;
use crate::notification::PacketNote;
use crate::notification::Probe;
use crate::notification::ProbeReport;
use crate::sprite_types;
use crate::sprite_types::Records;
use crate::text;

verus! {

/// A span leaves out half as many columns as its first byte says, and paints as many
/// pixels as its second, two bytes each; columns before it are empty, and those behind
/// it are up to the spans that follow.
pub proof fn spans_paint_their_pixels(buf: Seq<u8>, p: int, n: int, x: int, col: int)
    requires
        0 <= p,
        0 < n,
        p + 2 + 2 * buf[p + 1] <= buf.len(),
    ensures
        ({
            let from = x + buf[p] as int / 2;
            let to = from + buf[p + 1];
            let at = p + 2 + 2 * (col - from);
            &&& col < from ==> tbt::span_pixel(buf, p, n, x, col) == 0
            &&& from <= col < to ==> tbt::span_pixel(buf, p, n, x, col) == buf[at] + 0x100 * buf[at
                + 1]
            &&& to <= col ==> tbt::span_pixel(buf, p, n, x, col) == tbt::span_pixel(
                buf,
                p + 2 + 2 * buf[p + 1],
                n - 1,
                to,
                col,
            )
            &&& tbt::span_pixel(buf, p, 0, x, col) == 0
        }),
{
    let from = x + buf[p] as int / 2;
    let to = from + buf[p + 1];
    if from <= col < to {
        let at = p + 2 + 2 * (col - from);
        let w = buf.subrange(at, at + 2);
        assert(w[0] == buf[at] && w[1] == buf[at + 1]);
    }
    if col < from {
        empty_before(buf, p + 2 + 2 * buf[p + 1], n - 1, to, col);
    }
}

proof fn empty_before(buf: Seq<u8>, p: int, n: int, x: int, col: int)
    requires
        col < x,
    ensures
        tbt::span_pixel(buf, p, n, x, col) == 0,
    decreases n,
{
    if n > 0 {
        empty_before(
            buf,
            p + 2 + 2 * buf[p + 1],
            n - 1,
            x + buf[p] / 2 + buf[p + 1],
            col,
        );
    }
}

/// A row is there where each of its spans is, and the next row starts behind the last of
/// them; the picture is as wide as its widest row.
pub proof fn spans_follow_each_other(buf: Seq<u8>, p: int, n: int, x: int, width: int)
    requires
        0 <= p,
        0 < n,
    ensures
        ({
            let s = tbt::scan_spans(buf, p, n, x, width);
            let whole = p + 1 < buf.len() && p + 2 + 2 * buf[p + 1] <= buf.len();
            let end = x + buf[p] as int / 2 + buf[p + 1];
            &&& !whole ==> !s.complete
            &&& whole ==> s == tbt::scan_spans(
                buf,
                p + 2 + 2 * buf[p + 1],
                n - 1,
                end,
                if end > width {
                    end
                } else {
                    width
                },
            )
            &&& p + 1 < buf.len() ==> s.width >= end
            &&& s.width >= width
        }),
        ({
            let s = tbt::scan_spans(buf, p, 0, x, width);
            s.complete && s.next == p && s.width == width
        }),
{
    widths_grow(buf, p, n, x, width);
    if p + 1 < buf.len() && p + 2 + 2 * buf[p + 1] <= buf.len() {
        let end = x + buf[p] as int / 2 + buf[p + 1];
        widths_grow(
            buf,
            p + 2 + 2 * buf[p + 1],
            n - 1,
            end,
            if end > width {
                end
            } else {
                width
            },
        );
    }
}

proof fn widths_grow(buf: Seq<u8>, p: int, n: int, x: int, width: int)
    ensures
        tbt::scan_spans(buf, p, n, x, width).width >= width,
    decreases n,
{
    if n > 0 && p + 1 < buf.len() {
        let end = x + buf[p] / 2 + buf[p + 1];
        widths_grow(
            buf,
            p + 2 + 2 * buf[p + 1],
            n - 1,
            end,
            if end > width {
                end
            } else {
                width
            },
        );
    }
}

/// Rows are counted from the fifth byte on, up to the height of the header, as long as
/// they are whole.
pub proof fn rows_are_counted_while_they_are_whole(
    buf: Seq<u8>,
    p: int,
    rows: int,
    done: int,
    width: int,
)
    ensures
        rows <= 0 || p >= buf.len() ==> tbt::scan_rows(buf, p, rows, done, width) == (done, width),
        0 < rows && 0 <= p < buf.len() ==> ({
            let s = tbt::scan_spans(buf, p + 1, buf[p] as int, 0, width);
            tbt::scan_rows(buf, p, rows, done, width) == if s.complete {
                tbt::scan_rows(buf, s.next, rows - 1, done + 1, s.width)
            } else {
                (done, s.width)
            }
        }),
        tbt::complete_rows(buf) == tbt::scan_rows(buf, 4, buf[3] as int, 0, buf[2] as int).0,
        tbt::picture_width(buf) == tbt::scan_rows(buf, 4, buf[3] as int, 0, buf[2] as int).1,
        tbt::row_start(buf, 0) == 4,
        done >= 0 ==> ({
            let p = tbt::row_start(buf, done);
            tbt::row_start(buf, done + 1) == tbt::scan_spans(
                buf,
                p + 1,
                buf[p] as int,
                0,
                0,
            ).next
        }),
{
}

/// Five bits of a color become eight by repeating their upper three; 0 is transparent,
/// everything else is opaque.
pub proof fn five_bits_become_eight(px: u16)
    ensures
        px != 0 ==> ({
            let r = tbt::rgba_byte(px, 0) as int;
            let g = tbt::rgba_byte(px, 1) as int;
            let b = tbt::rgba_byte(px, 2) as int;
            &&& px % 0x8000 == (r / 8) * 0x400 + (g / 8) * 0x20 + b / 8
            &&& r % 8 == r / 32 && g % 8 == g / 32 && b % 8 == b / 32
            &&& tbt::rgba_byte(px, 3) == 255
        }),
        px == 0 ==> forall|c: int| 0 <= c < 4 ==> #[trigger] tbt::rgba_byte(px, c) == 0,
{
    let (r, g, b) = (px / 1024 % 32, px / 32 % 32, px % 32);
    assert(px % 0x8000 == (px / 1024 % 32) * 1024 + (px / 32 % 32) * 32 + px % 32) by (bit_vector);
    upper_bits_are_repeated(r);
    upper_bits_are_repeated(g);
    upper_bits_are_repeated(b);
}

proof fn upper_bits_are_repeated(c: u16)
    requires
        c < 32,
    ensures
        ({
            let w = tbt::widened(c);
            &&& 0 <= w < 256
            &&& w / 8 == c
            &&& w % 8 == w / 32
        }),
{
}

/// A picture has four bytes for each pixel of its rows; rows that are not whole are
/// transparent.  Without width or height there is none.
pub proof fn pictures_have_four_bytes_a_pixel(buf: Seq<u8>, y: int, col: int, c: int)
    requires
        0 <= y,
        0 <= col,
        0 <= c < 4,
    ensures
        tbt::decoded(buf) is None <==> buf.len() < 4 || buf[2] == 0 || buf[3] == 0,
        tbt::decoded(buf) matches Some((rgba, w, h)) ==> {
            &&& h == buf[3]
            &&& w == tbt::picture_width(buf) >= buf[2]
            &&& rgba.len() == w * h * 4
            &&& y < h && col < w ==> rgba[(y * w + col) * 4 + c] == tbt::rgba_byte(
                tbt::pixel_at(buf, y, col),
                c,
            )
            &&& tbt::complete_rows(buf) <= y ==> tbt::pixel_at(buf, y, col) == 0
            &&& y < tbt::complete_rows(buf) ==> tbt::pixel_at(buf, y, col) == tbt::span_pixel(
                buf,
                tbt::row_start(buf, y) + 1,
                buf[tbt::row_start(buf, y)] as int,
                0,
                col,
            )
        },
{
    if tbt::has_header(buf) {
        tbt::picture_is_wide_enough(buf);
        let w = tbt::picture_width(buf);
        let h = buf[3] as int;
        assert(w * h * 4 >= 0) by (nonlinear_arith)
            requires
                w >= 0,
                h >= 0,
        ;
        if y < h && col < w {
            let k = y * w + col;
            assert(0 <= k < w * h) by (nonlinear_arith)
                requires
                    0 <= y < h,
                    0 <= col < w,
                    k == y * w + col,
            ;
            let i = k * 4 + c;
            assert(i / 4 == k && i % 4 == c);
            vstd::arithmetic::div_mod::lemma_fundamental_div_mod_converse(k, w, y, col);
        }
    }
}

/// An index is called "Sprite" something, and ends with ".idx" in any case.
pub proof fn indexes_are_told_by_their_names(name: Seq<char>)
    requires
        name.len() >= 10,
    ensures
        sprite_pak::is_index_name(name) <==> {
            let n = name.len() as int;
            &&& name[0] == 'S' && name[1] == 'p' && name[2] == 'r' && name[3] == 'i' && name[4]
                == 't' && name[5] == 'e'
            &&& name[n - 4] == '.'
            &&& name[n - 3] == 'i' || name[n - 3] == 'I'
            &&& name[n - 2] == 'd' || name[n - 2] == 'D'
            &&& name[n - 1] == 'x' || name[n - 1] == 'X'
        },
{
    let n = name.len() as int;
    let head = seq!['S', 'p', 'r', 'i', 't', 'e'];
    let tail = seq!['.', 'i', 'd', 'x'];
    let end = name.skip(n - 4);
    crate::laws::bag::holding_is_standing_in(name, head);
    assert(head[0] == 'S' && head[1] == 'p' && head[2] == 'r' && head[3] == 'i' && head[4] == 't'
        && head[5] == 'e');
    if crate::laws::bag::occurs_at(name, head, 0) {
        assert(name[0] == head[0] && name[1] == head[1] && name[2] == head[2] && name[3] == head[3]
            && name[4] == head[4] && name[5] == head[5]);
    }
    monsters::names_fit_but_for_case(end, tail);
    assert(end[0] == name[n - 4] && end[1] == name[n - 3] && end[2] == name[n - 2] && end[3]
        == name[n - 1]);
    if text::same_but_case(end, tail) {
        assert(monsters::same_letter(end[0], tail[0]) && monsters::same_letter(end[1], tail[1])
            && monsters::same_letter(end[2], tail[2]) && monsters::same_letter(end[3], tail[3]));
    }
}

/// An entry of an index takes 28 bytes behind the first four: where the file starts, its
/// name in up to twenty bytes, and its size.
pub proof fn entries_tell_place_name_and_size(data: Seq<u8>, pak: int, i: int, n: int)
    requires
        0 <= i,
        32 + i * 28 <= data.len(),
        0 <= n <= 20,
        forall|k: int| 0 <= k < n ==> #[trigger] data[8 + i * 28 + k] != 0,
        n == 20 || data[8 + i * 28 + n] == 0,
    ensures
        ({
            let f = sprite_pak::file_of(data, pak, i);
            &&& f.pak == pak
            &&& f.offset == monsters::four(data, 4 + i * 28)
            &&& f.size == monsters::four(data, 28 + i * 28)
            &&& f.name == data.subrange(8 + i * 28, 8 + i * 28 + n)
        }),
{
    let e = sprite_pak::entry_at(data, i);
    let a = e.subrange(0, 4);
    let b = e.subrange(24, 28);
    let at = 4 + i * 28;
    assert(a[0] == data[at] && a[1] == data[at + 1] && a[2] == data[at + 2] && a[3] == data[at
        + 3]);
    assert(b[0] == data[at + 24] && b[1] == data[at + 25] && b[2] == data[at + 26] && b[3]
        == data[at + 27]);
    let field = e.subrange(4, 24);
    assert forall|k: int| 0 <= k < 20 implies #[trigger] field[k] == data[8 + i * 28 + k] by {
    }
    crate::notification::dispatcher::first_zero_is_first(field);
    if n < 20 {
        assert(field[n] == 0);
    }
    assert(sprite_pak::name_bytes(e) =~= data.subrange(8 + i * 28, 8 + i * 28 + n));
}

/// An index has as many entries as it says, as far as it holds them whole.
pub proof fn indexes_hold_whole_entries(data: Seq<u8>)
    requires
        data.len() >= 4,
    ensures
        ({
            let n = sprite_pak::entry_count(data);
            let said = monsters::four(data, 0);
            &&& 0 <= n <= said
            &&& 4 + n * 28 <= data.len()
            &&& n < said ==> 4 + (n + 1) * 28 > data.len()
        }),
{
    let w = data.subrange(0, 4);
    assert(w[0] == data[0] && w[1] == data[1] && w[2] == data[2] && w[3] == data[3]);
}

/// Whether one of the first `n` entries of an index names a file.
pub open spec fn comes_from(f: IdxView, data: Seq<u8>, pak: int, n: int) -> bool {
    exists|i: int|
        0 <= i < n && f == #[trigger] sprite_pak::file_of(data, pak, i)
            && sprite_pak::names_a_file(data, i)
}

/// Every name of an index is known afterwards, by the file that bore it first.
pub proof fn the_first_file_of_a_name_counts(files: Seq<IdxView>, data: Seq<u8>, pak: int, n: int)
    ensures
        ({
            let all = sprite_pak::indexed(files, data, pak, n);
            &&& forall|i: int|
                0 <= i < n && sprite_pak::names_a_file(data, i) ==> sprite_pak::knows(
                    all,
                    #[trigger] sprite_pak::name_bytes(sprite_pak::entry_at(data, i)),
                )
            &&& forall|k: int|
                files.len() <= k < all.len() ==> comes_from(#[trigger] all[k], data, pak, n)
            &&& files.len() <= all.len()
            &&& forall|k: int| 0 <= k < files.len() ==> all[k] == files[k]
        }),
    decreases n,
{
    if n > 0 {
        the_first_file_of_a_name_counts(files, data, pak, n - 1);
        let before = sprite_pak::indexed(files, data, pak, n - 1);
        let all = sprite_pak::indexed(files, data, pak, n);
        assert forall|i: int| 0 <= i < n && sprite_pak::names_a_file(data, i) implies sprite_pak::knows(
            all,
            #[trigger] sprite_pak::name_bytes(sprite_pak::entry_at(data, i)),
        ) by {
            let name = sprite_pak::name_bytes(sprite_pak::entry_at(data, i));
            if sprite_pak::knows(before, name) {
                let k = choose|k: int| 0 <= k < before.len() && (#[trigger] before[k]).name == name;
                assert(all[k].name == name);
            } else {
                assert(all[all.len() - 1].name == name);
            }
        }
        assert forall|k: int| files.len() <= k < all.len() implies comes_from(
            #[trigger] all[k],
            data,
            pak,
            n,
        ) by {
            if k < before.len() {
                assert(comes_from(before[k], data, pak, n - 1));
                let i = choose|i: int|
                    0 <= i < n - 1 && before[k] == #[trigger] sprite_pak::file_of(data, pak, i)
                        && sprite_pak::names_a_file(data, i);
                assert(all[k] == sprite_pak::file_of(data, pak, i));
            } else {
                assert(all[k] == sprite_pak::file_of(data, pak, n - 1));
            }
        }
    }
}

/// Gray becomes three equal channels, what has no alpha is opaque, and everything else
/// stays as it is; a palette gives nothing.
pub proof fn samples_become_four_channels(frame: Seq<u8>, k: int)
    requires
        0 <= k,
    ensures
        sprite_pak::expanded(6, frame) == Some(frame),
        3 * k + 3 <= frame.len() ==> (sprite_pak::expanded(2, frame) matches Some(rgba)
            && rgba.len() == frame.len() / 3 * 4 && rgba[4 * k] == frame[3 * k] && rgba[4 * k + 1]
            == frame[3 * k + 1] && rgba[4 * k + 2] == frame[3 * k + 2] && rgba[4 * k + 3] == 255),
        k < frame.len() ==> (sprite_pak::expanded(0, frame) matches Some(rgba) && rgba.len()
            == frame.len() * 4 && rgba[4 * k] == frame[k] && rgba[4 * k + 1] == frame[k] && rgba[4
            * k + 2] == frame[k] && rgba[4 * k + 3] == 255),
        2 * k + 2 <= frame.len() ==> (sprite_pak::expanded(4, frame) matches Some(rgba)
            && rgba.len() == frame.len() / 2 * 4 && rgba[4 * k] == frame[2 * k] && rgba[4 * k + 1]
            == frame[2 * k] && rgba[4 * k + 2] == frame[2 * k] && rgba[4 * k + 3] == frame[2 * k
            + 1]),
        sprite_pak::expanded(3, frame) is None,
{
    assert((4 * k) / 4 == k && (4 * k + 1) / 4 == k && (4 * k + 2) / 4 == k && (4 * k + 3) / 4
        == k);
    assert((4 * k) % 4 == 0 && (4 * k + 1) % 4 == 1 && (4 * k + 2) % 4 == 2 && (4 * k + 3) % 4
        == 3);
}

/// Whether a pixel is black.
pub open spec fn black(rgba: Seq<u8>, k: int) -> bool {
    rgba[4 * k] == 0 && rgba[4 * k + 1] == 0 && rgba[4 * k + 2] == 0
}

/// Where black stands for transparent and all four corners are black, exactly the black
/// pixels become transparent; no color changes, and nothing does where a corner is not
/// black, or where it is not asked for.
pub proof fn black_corners_make_black_transparent(
    w: u32,
    h: u32,
    color: u8,
    rgba: Seq<u8>,
    asked: bool,
    k: int,
    c: int,
)
    requires
        w * h * 4 <= rgba.len(),
        0 <= k < w * h,
        0 <= c < 4,
        w >= 2,
        h >= 2,
    ensures
        ({
            let last = (h - 1) * w;
            let cut = asked && color != 4 && color != 6 && black(rgba, 0) && black(rgba, w - 1)
                && black(rgba, last) && black(rgba, last + w - 1);
            let r = sprite_pak::picture(w, h, color, rgba, asked);
            &&& r matches Some(p) && p.len() == rgba.len() && p[4 * k + c] == if cut && c == 3
                && black(rgba, k) {
                0u8
            } else {
                rgba[4 * k + c]
            }
        }),
{
    let last = (h - 1) * w;
    assert(last + w == h * w && 0 <= last && h * w == w * h) by (nonlinear_arith)
        requires
            last == (h - 1) * w,
            h >= 2,
            w >= 2,
    ;
    let ks = sprite_pak::corners(w as int, h as int);
    reveal_with_fuel(sprite_pak::all_black, 5);
    let k1 = ks.drop_first();
    let k2 = k1.drop_first();
    let k3 = k2.drop_first();
    assert(ks[0] == 0 && k1[0] == w - 1 && k2[0] == last && k3[0] == last + w - 1);
    assert(k3.drop_first().len() == 0);
    assert((4 * k + c) / 4 == k && (4 * k + c) % 4 == c);
}

/// The alpha of a pair is what the channel says that differs least, and the color times
/// the alpha is what was seen on black, to the nearest.
pub proof fn pairs_give_alpha_and_color(black: Seq<u8>, white: Seq<u8>, k: int, c: int)
    requires
        0 <= k,
        0 <= c < 3,
    ensures
        ({
            let alpha = sprite_pak::pair_alpha(black, white, k);
            let says = |d: int| 255 - (white[4 * k + d] - black[4 * k + d]);
            let b = black[4 * k + c] as int;
            let color = sprite_pak::pair_color(b, alpha);
            &&& 0 <= alpha <= 255
            &&& alpha <= says(c)
            &&& alpha == 255 || alpha == says(0) || alpha == says(1) || alpha == says(2)
            &&& 0 <= color <= 255
            &&& alpha == 0 ==> color == 0
            &&& alpha > 0 && color < 255 ==> 2 * (color * alpha - b * 255) <= alpha && 2 * (b * 255
                - color * alpha) <= alpha
            &&& alpha > 0 && color == 255 ==> 2 * (255 * alpha - b * 255) <= alpha
        }),
{
    let alpha = sprite_pak::pair_alpha(black, white, k);
    let b = black[4 * k + c] as int;
    if alpha > 0 {
        let x = b * 255 + alpha / 2;
        let q = x / alpha;
        let color = sprite_pak::pair_color(b, alpha);
        vstd::arithmetic::div_mod::lemma_fundamental_div_mod(x, alpha);
        vstd::arithmetic::div_mod::lemma_mod_bound(x, alpha);
        assert(alpha * q == q * alpha) by (nonlinear_arith);
        assert(q >= 0) by (nonlinear_arith)
            requires
                q == x / alpha,
                x >= 0,
                alpha > 0,
        ;
        if q > 255 {
            assert(255 * alpha <= q * alpha) by (nonlinear_arith)
                requires
                    q > 255,
                    alpha > 0,
            ;
        }
    }
}

/// The paired pixels hold the colors and, last, the alpha.
pub proof fn pairs_are_laid_out_as_pixels(
    black: Seq<u8>,
    white: Seq<u8>,
    pixels: int,
    k: int,
    c: int,
)
    requires
        0 <= k < pixels,
        0 <= c < 3,
    ensures
        ({
            let p = sprite_pak::paired(black, white, pixels);
            let alpha = sprite_pak::pair_alpha(black, white, k);
            &&& p.len() == 4 * pixels
            &&& p[4 * k + 3] == alpha
            &&& p[4 * k + c] == sprite_pak::pair_color(black[4 * k + c] as int, alpha)
        }),
{
    pairs_give_alpha_and_color(black, white, k, c);
    assert((4 * k + c) / 4 == k && (4 * k + 3) / 4 == k && (4 * k + c) % 4 == c && (4 * k + 3) % 4
        == 3);
}

/// Sprites are numbered in decimal, and a plus sign may stand before the digits.
pub proof fn numbers_are_read_in_decimal(n: nat, max: int)
    ensures
        sprite_types::number(text::decimal(n), max) == if n <= max {
            Some(n as int)
        } else {
            None
        },
        sprite_types::number(seq!['+'] + text::decimal(n), max) == if n <= max {
            Some(n as int)
        } else {
            None
        },
        sprite_types::number(Seq::empty(), max) is None,
{
    digits_only(n);
    text::decimal_round_trip(n);
    let d = text::decimal(n);
    let p = seq!['+'] + d;
    assert(p.drop_first() =~= d);
    assert(sprite_types::is_digit(d[0]));
}

proof fn digits_only(n: nat)
    ensures
        text::decimal(n).len() > 0,
        forall|i: int|
            0 <= i < text::decimal(n).len() ==> sprite_types::is_digit(
                #[trigger] text::decimal(n)[i],
            ),
    decreases n,
{
    if n >= 10 {
        digits_only(n / 10);
        let d = text::decimal(n / 10);
        assert forall|i: int| 0 <= i < text::decimal(n).len() implies sprite_types::is_digit(
            #[trigger] text::decimal(n)[i],
        ) by {
            if i < d.len() {
                assert(text::decimal(n)[i] == d[i]);
            }
        }
    }
}

proof fn digits_lead(d: Seq<char>, rest: Seq<char>)
    requires
        forall|i: int| 0 <= i < d.len() ==> sprite_types::is_digit(#[trigger] d[i]),
        rest.len() == 0 || !sprite_types::is_digit(rest[0]),
    ensures
        sprite_types::leading_digits(d + rest) == d.len(),
    decreases d.len(),
{
    let s = d + rest;
    if d.len() > 0 {
        assert(s[0] == d[0]);
        let e = d.drop_first();
        assert forall|i: int| 0 <= i < e.len() implies sprite_types::is_digit(#[trigger] e[i]) by {
            assert(e[i] == d[i + 1]);
        }
        assert(s.drop_first() =~= e + rest);
        digits_lead(e, rest);
    } else {
        assert(s =~= rest);
    }
}

/// A line that starts with a number, with or without a number sign, speaks of that
/// sprite.
pub proof fn lines_speak_of_the_sprite_in_front(n: nat, rest: Seq<char>)
    requires
        rest.len() == 0 || !('0' <= rest[0] && rest[0] <= '9'),
    ensures
        ({
            let plain = sprite_types::header(text::decimal(n) + rest);
            let signed = sprite_types::header(seq!['#'] + text::decimal(n) + rest);
            &&& plain is Some <==> n <= 65535
            &&& plain is Some ==> (plain->0).0 == n
            &&& signed == plain
        }),
{
    let d = text::decimal(n);
    digits_only(n);
    digits_lead(d, rest);
    numbers_are_read_in_decimal(n, 65535);
    let s = d + rest;
    assert(s[0] == d[0]);
    assert(sprite_types::is_digit(d[0]));
    assert(s.take(d.len() as int) =~= d);
    let t = seq!['#'] + d + rest;
    assert(t[0] == '#');
    assert(t.drop_first() =~= s);
}

/// What a line says is added to what was known: a likeness to the sprite in front, a
/// type to the sprite that was last in front.
pub proof fn lines_add_to_what_is_known(st: Records, line: Seq<char>, other: u16)
    ensures
        ({
            let after = sprite_types::after_line(st, line);
            let current = match sprite_types::header(line) {
                Some((sprite, _)) => Some(sprite),
                None => st.current,
            };
            let alias = match sprite_types::header(line) {
                Some((_, alias)) => alias,
                None => None,
            };
            let kind = sprite_types::line_type(line);
            &&& after.current == current
            &&& alias is Some ==> after.aliases.dom().contains(current->0)
                && after.aliases[current->0] == alias->0
            &&& kind is Some && current is Some ==> after.direct.dom().contains(current->0)
                && after.direct[current->0] == kind->0
            &&& kind is None || current != Some(other) ==> (after.direct.dom().contains(other)
                <==> st.direct.dom().contains(other)) && after.direct[other] == st.direct[other]
            &&& alias is None || current != Some(other) ==> (after.aliases.dom().contains(other)
                <==> st.aliases.dom().contains(other)) && after.aliases[other]
                == st.aliases[other]
        }),
{
}

/// A sprite without a type of its own has that of the one it looks like, sixteen sprites
/// deep; one that is neither known nor like another has none.
pub proof fn likenesses_are_followed(
    sprite: u16,
    direct: Map<u16, u8>,
    aliases: Map<u16, u16>,
    hops: nat,
)
    requires
        hops > 0,
    ensures
        sprite_types::resolved(sprite, direct, aliases, hops) == if direct.dom().contains(sprite) {
            Some(direct[sprite])
        } else if aliases.dom().contains(sprite) {
            sprite_types::resolved(aliases[sprite], direct, aliases, (hops - 1) as nat)
        } else {
            None
        },
        sprite_types::resolved(sprite, direct, aliases, 0) is None,
        ({
            let all = sprite_types::all_resolved(direct, aliases);
            let own = sprite_types::resolved(sprite, direct, aliases, 16);
            &&& all.dom().contains(sprite) <==> own is Some
            &&& own is Some ==> all[sprite] == own->0
        }),
{
}

/// Counters are reported every five seconds, by how much they grew; the first look only
/// remembers them.
pub proof fn counters_are_reported_by_their_growth(p: Probe, now: u64, total: u32, boxes: u32)
    requires
        total >= p.total,
        boxes >= p.packetbox,
    ensures
        now >= p.at + 5_000_000_000 ==> notification::probed(Some(p), now, total, boxes) == (
        ProbeReport::Grown {
            total: (total - p.total) as u32,
            packetbox: (boxes - p.packetbox) as u32,
        }),
        now < p.at + 5_000_000_000 ==> {
            &&& notification::probed(Some(p), now, total, boxes) == ProbeReport::Nothing
            &&& notification::probe_after(Some(p), now, total, boxes) == Some(p)
        },
        notification::probed(None, now, total, boxes) == ProbeReport::Baseline,
        now >= p.at + 5_000_000_000 ==> notification::probe_after(Some(p), now, total, boxes)
            == Some(Probe { at: now, total, packetbox: boxes }),
        notification::probe_after(None, now, total, boxes) == Some(
            Probe { at: now, total, packetbox: boxes },
        ),
{
}

/// Packet 190 is an item with its picture, packet 192 a drop with its kind and amount;
/// what is cut short says nothing, and everything else is unknown.
pub proof fn notes_tell_items_from_drops(payload: Seq<u8>)
    requires
        payload.len() >= 6,
        payload.len() <= usize::MAX,
    ensures
        payload[0] == 190 ==> notification::note_of(payload) == (PacketNote::Item {
            gfxid: monsters::two(payload, 1) as u16,
            name_bytes: (payload.len() - 4) as usize,
        }),
        payload[0] == 192 ==> notification::note_of(payload) == (PacketNote::Drop {
            kind: payload[1],
            amount: monsters::four(payload, 2) as u32,
        }),
        payload[0] != 190 && payload[0] != 192 ==> notification::note_of(payload) == (
        PacketNote::Unknown { sub_id: payload[0], len: payload.len() as usize }),
        notification::note_of(Seq::empty()) == PacketNote::Silent,
{
    let a = payload.subrange(1, 3);
    let b = payload.subrange(2, 6);
    assert(a[0] == payload[1] && a[1] == payload[2]);
    assert(b[0] == payload[2] && b[1] == payload[3] && b[2] == payload[4] && b[3] == payload[5]);
}

} // verus!
