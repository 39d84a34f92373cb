//! Item pictures in the client's run-length format.
//!
//! Four bytes of header (two offsets that do not matter here, width and height),
//! then one row after another: how many spans it has, and for each span how many
//! bytes to leave out (two per pixel), how many pixels follow, and these pixels
//! as 16-bit RGB555.  A row may go beyond the width of the header; the picture is
//! then as wide as its widest row.  A file may end early: the rows that are not
//! complete are transparent.

use std::collections::HashMap;
use std::collections::HashSet;

use vstd::prelude::*;

use super::sprite_pak::DecodedPng;
use crate::code;
use crate::code::read_u16_le;

verus! {

broadcast use vstd::std_specs::hash::group_hash_axioms;

/// Widest possible picture: 255 spans of 127 columns left out and 255 pixels.
pub const WIDTH_MAX: usize = 97_410;

/// Where the scan of a row ended: whether the row was complete, where the next one
/// starts, and how wide the picture is so far.
pub struct RowScan {
    pub complete: bool,
    pub next: int,
    pub width: int,
}

/// Scans `n` spans from `p` on, the first of which starts behind column `x`.
pub open spec fn scan_spans(buf: Seq<u8>, p: int, n: int, x: int, width: int) -> RowScan
    decreases n,
{
    if n <= 0 {
        RowScan { complete: true, next: p, width }
    } else if p + 1 >= buf.len() {
        RowScan { complete: false, next: p, width }
    } else {
        let end = x + buf[p] / 2 + buf[p + 1];
        let wide = if end > width {
            end
        } else {
            width
        };
        let next = p + 2 + 2 * buf[p + 1];
        if next > buf.len() {
            RowScan { complete: false, next, width: wide }
        } else {
            scan_spans(buf, next, n - 1, end, wide)
        }
    }
}

/// Scans up to `rows` rows from `p` on, `done` of which have been complete before:
/// how many are complete, and how wide the picture is.
pub open spec fn scan_rows(buf: Seq<u8>, p: int, rows: int, done: int, width: int) -> (int, int)
    decreases rows,
{
    if rows <= 0 || p >= buf.len() {
        (done, width)
    } else {
        let s = scan_spans(buf, p + 1, buf[p] as int, 0, width);
        if s.complete {
            scan_rows(buf, s.next, rows - 1, done + 1, s.width)
        } else {
            (done, s.width)
        }
    }
}

/// Where row `y` starts.
pub open spec fn row_start(buf: Seq<u8>, y: int) -> int
    decreases y,
{
    if y <= 0 {
        4
    } else {
        let p = row_start(buf, y - 1);
        scan_spans(buf, p + 1, buf[p] as int, 0, 0).next
    }
}

/// The pixel of column `col` in `n` spans from `p` on, 0 where no span covers it.
pub open spec fn span_pixel(buf: Seq<u8>, p: int, n: int, x: int, col: int) -> u16
    decreases n,
{
    if n <= 0 {
        0
    } else {
        let s = x + buf[p] / 2;
        let m = buf[p + 1] as int;
        if s <= col < s + m {
            code::from_le16(buf.subrange(p + 2 + 2 * (col - s), p + 4 + 2 * (col - s)))
        } else {
            span_pixel(buf, p + 2 + 2 * m, n - 1, s + m, col)
        }
    }
}

/// Header width and height are there and not zero.
pub open spec fn has_header(buf: Seq<u8>) -> bool {
    buf.len() >= 4 && buf[2] != 0 && buf[3] != 0
}

/// How many rows are complete.
pub open spec fn complete_rows(buf: Seq<u8>) -> int {
    scan_rows(buf, 4, buf[3] as int, 0, buf[2] as int).0
}

/// How wide the picture is.
pub open spec fn picture_width(buf: Seq<u8>) -> int {
    scan_rows(buf, 4, buf[3] as int, 0, buf[2] as int).1
}

/// The pixel in row `y` and column `col`.
pub open spec fn pixel_at(buf: Seq<u8>, y: int, col: int) -> u16 {
    if y < complete_rows(buf) {
        let p = row_start(buf, y);
        span_pixel(buf, p + 1, buf[p] as int, 0, col)
    } else {
        0
    }
}

/// Five bits widened to eight.
pub open spec fn widened(c: u16) -> int {
    c * 8 + c / 4
}

/// Byte `c` (red, green, blue, alpha) of a pixel; pixel 0 is transparent.
pub open spec fn rgba_byte(px: u16, c: int) -> u8 {
    if px == 0 {
        0
    } else if c == 0 {
        widened(px / 1024 % 32) as u8
    } else if c == 1 {
        widened(px / 32 % 32) as u8
    } else if c == 2 {
        widened(px % 32) as u8
    } else {
        0xFF
    }
}

/// The bytes of a picture.
pub open spec fn rgba_of(buf: Seq<u8>, width: int, height: int) -> Seq<u8> {
    Seq::new(
        (width * height * 4) as nat,
        |i: int| rgba_byte(pixel_at(buf, i / 4 / width, i / 4 % width), i % 4),
    )
}

/// The width of the picture changes nothing in where a row ends.
proof fn scan_width_is_apart(buf: Seq<u8>, p: int, n: int, x: int, w1: int, w2: int)
    ensures
        scan_spans(buf, p, n, x, w1).complete == scan_spans(buf, p, n, x, w2).complete,
        scan_spans(buf, p, n, x, w1).next == scan_spans(buf, p, n, x, w2).next,
        w1 <= scan_spans(buf, p, n, x, w1).width,
    decreases n,
{
    if n > 0 && p + 1 < buf.len() {
        let end = x + buf[p] / 2 + buf[p + 1];
        let next = p + 2 + 2 * buf[p + 1];
        if next <= buf.len() {
            scan_width_is_apart(
                buf,
                next,
                n - 1,
                end,
                if end > w1 {
                    end
                } else {
                    w1
                },
                if end > w2 {
                    end
                } else {
                    w2
                },
            );
        }
    }
}

/// At least as wide as the header says, and not wider than the spans can make it.
pub proof fn picture_is_wide_enough(buf: Seq<u8>)
    requires
        has_header(buf),
    ensures
        buf[2] <= picture_width(buf),
        0 <= complete_rows(buf) <= buf[3],
{
    rows_bounds(buf, 4, buf[3] as int, 0, buf[2] as int);
}

proof fn rows_bounds(buf: Seq<u8>, p: int, rows: int, done: int, width: int)
    requires
        0 <= rows,
    ensures
        width <= scan_rows(buf, p, rows, done, width).1,
        done <= scan_rows(buf, p, rows, done, width).0 <= done + rows,
    decreases rows,
{
    if rows > 0 && p < buf.len() {
        let s = scan_spans(buf, p + 1, buf[p] as int, 0, width);
        scan_width_is_apart(buf, p + 1, buf[p] as int, 0, width, width);
        if s.complete {
            rows_bounds(buf, s.next, rows - 1, done + 1, s.width);
        }
    }
}

/// No span of a row reaches below the column that it starts behind.
proof fn nothing_before(buf: Seq<u8>, p: int, n: int, x: int, col: int)
    requires
        col < x,
    ensures
        span_pixel(buf, p, n, x, col) == 0,
    decreases n,
{
    if n > 0 {
        nothing_before(
            buf,
            p + 2 + 2 * buf[p + 1],
            n - 1,
            x + buf[p] / 2 + buf[p + 1],
            col,
        );
    }
}

/// Scans one row.
fn scan_row(buf: &[u8], p: usize, width: usize) -> (r: (bool, usize, usize))
    requires
        p < buf@.len(),
        width <= WIDTH_MAX,
    ensures
        ({
            let s = scan_spans(buf@, p + 1, buf@[p as int] as int, 0, width as int);
            &&& r.0 == s.complete
            &&& r.0 ==> r.1 == s.next && p < r.1 <= buf@.len()
            &&& r.2 == s.width
            &&& r.2 <= WIDTH_MAX
        }),
{
    let ghost want = scan_spans(buf@, p + 1, buf@[p as int] as int, 0, width as int);
    let n: usize = buf[p] as usize;
    let mut q: usize = p + 1;
    let mut x: usize = 0;
    let mut wide: usize = width;
    let mut k: usize = 0;
    while k < n
        invariant
            k <= n <= 255,
            p < q <= buf@.len(),
            x <= k * 382,
            wide <= WIDTH_MAX,
            p < buf@.len(),
            want == scan_spans(buf@, p + 1, buf@[p as int] as int, 0, width as int),
            want == scan_spans(buf@, q as int, n - k, x as int, wide as int),
        decreases n - k,
    {
        if buf.len() - q < 2 {
            return (false, q, wide);
        }
        let skip: usize = buf[q] as usize / 2;
        let count: usize = buf[q + 1] as usize;
        let end: usize = x + skip + count;
        if end > wide {
            wide = end;
        }
        if buf.len() - (q + 2) < count * 2 {
            return (false, q, wide);
        }
        q = q + 2 + count * 2;
        x = end;
        k += 1;
    }
    (true, q, wide)
}

/// Scans the rows: how many are complete, and how wide the picture is.
fn scan_picture(buf: &[u8]) -> (r: (usize, usize))
    requires
        has_header(buf@),
    ensures
        r.0 == complete_rows(buf@),
        r.1 == picture_width(buf@),
        buf@[2] <= r.1 <= WIDTH_MAX,
        r.0 <= buf@[3],
{
    let height: usize = buf[3] as usize;
    let mut p: usize = 4;
    let mut width: usize = buf[2] as usize;
    let mut done: usize = 0;
    proof {
        picture_is_wide_enough(buf@);
    }
    while done < height && p < buf.len()
        invariant
            has_header(buf@),
            height == buf@[3],
            4 <= p <= buf@.len(),
            done <= height,
            width <= WIDTH_MAX,
            buf@[2] <= picture_width(buf@),
            (complete_rows(buf@), picture_width(buf@)) == scan_rows(
                buf@,
                p as int,
                height - done,
                done as int,
                width as int,
            ),
        decreases height - done,
    {
        let (complete, next, wide) = scan_row(buf, p, width);
        if !complete {
            return (done, wide);
        }
        p = next;
        width = wide;
        done += 1;
    }
    (done, width)
}

/// Decodes one complete row into pixels.
fn decode_row(buf: &[u8], p: usize, width: usize) -> (r: (Vec<u16>, usize))
    requires
        p < buf@.len(),
        scan_spans(buf@, p + 1, buf@[p as int] as int, 0, 0).complete,
        scan_spans(buf@, p + 1, buf@[p as int] as int, 0, 0).width <= width <= WIDTH_MAX,
    ensures
        r.0@.len() == width,
        forall|col: int|
            0 <= col < width ==> r.0@[col] == span_pixel(
                buf@,
                p + 1,
                buf@[p as int] as int,
                0,
                col,
            ),
        r.1 == scan_spans(buf@, p + 1, buf@[p as int] as int, 0, 0).next,
        p < r.1 <= buf@.len(),
{
    let ghost n0 = buf@[p as int] as int;
    let ghost scan = scan_spans(buf@, p + 1, n0, 0, 0);
    let n: usize = buf[p] as usize;
    let mut row: Vec<u16> = Vec::new();
    let mut q: usize = p + 1;
    let mut k: usize = 0;
    let ghost mut wide: int = 0;
    let total: usize = buf.len();
    proof {
        scan_width_is_apart(buf@, p + 1, n0, 0, 0, 0);
    }
    while k < n
        invariant
            k <= n <= 255,
            n == n0,
            total == buf@.len(),
            p < q <= buf@.len(),
            width <= WIDTH_MAX,
            row@.len() <= wide <= scan.width <= width,
            scan.complete,
            scan == scan_spans(buf@, q as int, n - k, row@.len() as int, wide),
            forall|col: int|
                0 <= col < row@.len() ==> row@[col] == #[trigger] span_pixel(
                    buf@,
                    p + 1,
                    n0,
                    0,
                    col,
                ),
            forall|col: int|
                row@.len() <= col ==> #[trigger] span_pixel(buf@, p + 1, n0, 0, col)
                    == span_pixel(buf@, q as int, n - k, row@.len() as int, col),
        decreases n - k,
    {
        let skip: usize = buf[q] as usize / 2;
        let count: usize = buf[q + 1] as usize;
        let x: usize = row.len();
        let ghost end = x + skip + count;
        let ghost wide2 = if end > wide {
            end
        } else {
            wide
        };
        let ghost next = q + 2 + 2 * count;
        proof {
            scan_width_is_apart(buf@, next as int, n - k - 1, end as int, wide2, wide2);
            assert(wide2 <= scan.width);
        }
        let ghost done_row = row@;
        let mut i: usize = 0;
        while i < skip
            invariant
                i <= skip <= 127,
                row@.len() == x + i,
                x <= WIDTH_MAX,
                forall|col: int| 0 <= col < x ==> row@[col] == done_row[col],
                forall|col: int| x <= col < x + i ==> row@[col] == 0,
            decreases skip - i,
        {
            row.push(0);
            i += 1;
        }
        let mut j: usize = 0;
        while j < count
            invariant
                j <= count <= 255,
                skip <= 127,
                row@.len() == x + skip + j,
                x <= WIDTH_MAX,
                total == buf@.len(),
                q + 2 + 2 * count <= total,
                forall|col: int| 0 <= col < x ==> row@[col] == done_row[col],
                forall|col: int| x <= col < x + skip ==> row@[col] == 0,
                forall|col: int|
                    x + skip <= col < x + skip + j ==> row@[col] == code::from_le16(
                        buf@.subrange(
                            q + 2 + 2 * (col - (x + skip)),
                            q + 4 + 2 * (col - (x + skip)),
                        ),
                    ),
            decreases count - j,
        {
            row.push(read_u16_le(buf, q + 2 + 2 * j));
            j += 1;
        }
        proof {
            assert forall|col: int| 0 <= col < row@.len() implies row@[col] == #[trigger] span_pixel(
                buf@,
                p + 1,
                n0,
                0,
                col,
            ) by {
                if col >= x {
                    assert(span_pixel(buf@, p + 1, n0, 0, col) == span_pixel(
                        buf@,
                        q as int,
                        n - k,
                        x as int,
                        col,
                    ));
                    if col < x + skip {
                        nothing_before(buf@, next as int, n - k - 1, end as int, col);
                    }
                } else {
                    assert(row@[col] == done_row[col]);
                }
            }
            assert forall|col: int| row@.len() <= col implies #[trigger] span_pixel(
                buf@,
                p + 1,
                n0,
                0,
                col,
            ) == span_pixel(buf@, next as int, n - k - 1, row@.len() as int, col) by {
            }
            wide = wide2;
        }
        q = q + 2 + count * 2;
        k += 1;
    }
    while row.len() < width
        invariant
            row@.len() <= width,
            forall|col: int|
                0 <= col < row@.len() ==> row@[col] == #[trigger] span_pixel(
                    buf@,
                    p + 1,
                    n0,
                    0,
                    col,
                ),
            forall|col: int|
                row@.len() <= col ==> #[trigger] span_pixel(buf@, p + 1, n0, 0, col) == 0,
        decreases width - row@.len(),
    {
        row.push(0);
    }
    (row, q)
}

/// Appends the bytes of a pixel.
fn push_pixel(rgba: &mut Vec<u8>, px: u16)
    ensures
        final(rgba)@ == old(rgba)@ + seq![
            rgba_byte(px, 0),
            rgba_byte(px, 1),
            rgba_byte(px, 2),
            rgba_byte(px, 3),
        ],
{
    if px == 0 {
        rgba.push(0);
        rgba.push(0);
        rgba.push(0);
        rgba.push(0);
    } else {
        let r5: u16 = px / 1024 % 32;
        let g5: u16 = px / 32 % 32;
        let b5: u16 = px % 32;
        rgba.push((r5 * 8 + r5 / 4) as u8);
        rgba.push((g5 * 8 + g5 / 4) as u8);
        rgba.push((b5 * 8 + b5 / 4) as u8);
        rgba.push(0xFF);
    }
    assert(rgba@ =~= old(rgba)@ + seq![
        rgba_byte(px, 0),
        rgba_byte(px, 1),
        rgba_byte(px, 2),
        rgba_byte(px, 3),
    ]);
}

/// Row, column and channel of a byte.
proof fn place_of_byte(width: int, y: int, col: int, c: int)
    requires
        0 <= y,
        0 <= col < width,
        0 <= c < 4,
    ensures
        ((y * width + col) * 4 + c) / 4 == y * width + col,
        ((y * width + col) * 4 + c) % 4 == c,
        (y * width + col) / width == y,
        (y * width + col) % width == col,
        0 <= y * width,
{
    vstd::arithmetic::div_mod::lemma_fundamental_div_mod_converse(y * width + col, width, y, col);
    assert(0 <= y * width) by (nonlinear_arith)
        requires
            0 <= y,
            0 <= width,
    ;
}

/// Appends the bytes of one row.
fn push_row(rgba: &mut Vec<u8>, row: &Vec<u16>, buf: &[u8], y: usize, width: usize, height: usize)
    requires
        width == picture_width(buf@),
        1 <= width,
        y < height,
        row@.len() == width,
        forall|col: int| 0 <= col < width ==> row@[col] == pixel_at(buf@, y as int, col),
        old(rgba)@ == rgba_of(buf@, width as int, height as int).take(y * width * 4),
    ensures
        final(rgba)@ == rgba_of(buf@, width as int, height as int).take((y + 1) * width * 4),
{
    let ghost want = rgba_of(buf@, width as int, height as int);
    proof {
        assert((y + 1) * width <= height * width && 0 <= y * width && (y + 1) * width == y * width
            + width) by (nonlinear_arith)
            requires
                0 <= y < height,
                0 <= width,
        ;
        assert(width * height == height * width) by (nonlinear_arith);
    }
    let mut col: usize = 0;
    while col < width
        invariant
            col <= width,
            width == picture_width(buf@),
            1 <= width,
            y < height,
            row@.len() == width,
            forall|c: int| 0 <= c < width ==> row@[c] == pixel_at(buf@, y as int, c),
            want == rgba_of(buf@, width as int, height as int),
            0 <= y * width,
            y * width + width <= width * height,
            rgba@ == want.take((y * width + col) * 4),
        decreases width - col,
    {
        let ghost before = rgba@;
        push_pixel(rgba, row[col]);
        proof {
            let i = (y * width + col) * 4;
            place_of_byte(width as int, y as int, col as int, 0);
            place_of_byte(width as int, y as int, col as int, 1);
            place_of_byte(width as int, y as int, col as int, 2);
            place_of_byte(width as int, y as int, col as int, 3);
            let px = row@[col as int];
            assert(want[i] == rgba_byte(px, 0));
            assert(want[i + 1] == rgba_byte(px, 1));
            assert(want[i + 2] == rgba_byte(px, 2));
            assert(want[i + 3] == rgba_byte(px, 3));
            assert(rgba@ =~= want.take(i + 4));
        }
        col += 1;
    }
}

/// What decoding gives: bytes, width and height.
pub open spec fn decoded(buf: Seq<u8>) -> Option<(Seq<u8>, int, int)> {
    if has_header(buf) {
        Some(
            (
                rgba_of(buf, picture_width(buf), buf[3] as int),
                picture_width(buf),
                buf[3] as int,
            ),
        )
    } else {
        None
    }
}

/// The rows before `complete_rows` are complete, and none is wider than the picture.
proof fn rows_are_complete(buf: Seq<u8>, y: int)
    requires
        has_header(buf),
        0 <= y < complete_rows(buf),
    ensures
        4 <= row_start(buf, y) < buf.len(),
        scan_spans(buf, row_start(buf, y) + 1, buf[row_start(buf, y)] as int, 0, 0).complete,
        scan_spans(buf, row_start(buf, y) + 1, buf[row_start(buf, y)] as int, 0, 0).width
            <= picture_width(buf),
{
    picture_is_wide_enough(buf);
    rows_from(buf, 0, y, buf[2] as int);
}

proof fn rows_from(buf: Seq<u8>, at: int, y: int, width: int)
    requires
        has_header(buf),
        0 <= at <= y < buf[3],
        4 <= row_start(buf, at) <= buf.len(),
        y < scan_rows(buf, row_start(buf, at), buf[3] - at, at, width).0,
        0 <= width,
    ensures
        4 <= row_start(buf, y) < buf.len(),
        scan_spans(buf, row_start(buf, y) + 1, buf[row_start(buf, y)] as int, 0, 0).complete,
        scan_spans(buf, row_start(buf, y) + 1, buf[row_start(buf, y)] as int, 0, 0).width
            <= scan_rows(buf, row_start(buf, at), buf[3] - at, at, width).1,
    decreases y - at,
{
    let p = row_start(buf, at);
    assert(p < buf.len());
    let s = scan_spans(buf, p + 1, buf[p] as int, 0, width);
    scan_width_is_apart(buf, p + 1, buf[p] as int, 0, width, 0);
    narrower_scan(buf, p + 1, buf[p] as int, 0, 0, width);
    assert(s.complete);
    next_is_behind(buf, p + 1, buf[p] as int, 0, width);
    rows_bounds(buf, s.next, buf[3] - at - 1, at + 1, s.width);
    if at < y {
        assert(row_start(buf, at + 1) == s.next);
        rows_from(buf, at + 1, y, s.width);
    }
}

/// Starting from a smaller width never gives a larger one.
proof fn narrower_scan(buf: Seq<u8>, p: int, n: int, x: int, w1: int, w2: int)
    requires
        w1 <= w2,
    ensures
        scan_spans(buf, p, n, x, w1).width <= scan_spans(buf, p, n, x, w2).width,
    decreases n,
{
    if n > 0 && p + 1 < buf.len() {
        let end = x + buf[p] / 2 + buf[p + 1];
        let next = p + 2 + 2 * buf[p + 1];
        if next <= buf.len() {
            narrower_scan(
                buf,
                next,
                n - 1,
                end,
                if end > w1 {
                    end
                } else {
                    w1
                },
                if end > w2 {
                    end
                } else {
                    w2
                },
            );
        }
    }
}

proof fn next_is_behind(buf: Seq<u8>, p: int, n: int, x: int, width: int)
    requires
        p <= buf.len(),
    ensures
        scan_spans(buf, p, n, x, width).complete ==> p <= scan_spans(buf, p, n, x, width).next
            <= buf.len(),
    decreases n,
{
    if n > 0 && p + 1 < buf.len() {
        let end = x + buf[p] / 2 + buf[p + 1];
        let next = p + 2 + 2 * buf[p + 1];
        if next <= buf.len() {
            next_is_behind(
                buf,
                next,
                n - 1,
                end,
                if end > width {
                    end
                } else {
                    width
                },
            );
        }
    }
}

/// Decodes a picture: its bytes, width and height; `None` without a header.
pub fn decode_tbt(buf: &[u8]) -> (r: Option<(Vec<u8>, u32, u32)>)
    ensures
        (match r {
            Some((rgba, w, h)) => Some((rgba@, w as int, h as int)),
            None => None,
        }) == decoded(buf@),
        r matches Some((rgba, w, h)) ==> rgba@.len() == w * h * 4,
{
    if buf.len() < 4 {
        return None;
    }
    let height: usize = buf[3] as usize;
    if buf[2] == 0 || height == 0 {
        return None;
    }
    let (done, width) = scan_picture(buf);
    let ghost want = rgba_of(buf@, width as int, height as int);
    let mut rgba: Vec<u8> = Vec::new();
    let mut p: usize = 4;
    let mut y: usize = 0;
    assert(want.take(0 * width * 4) =~= Seq::<u8>::empty());
    while y < height
        invariant
            has_header(buf@),
            y <= height,
            height == buf@[3],
            done == complete_rows(buf@),
            done <= height,
            1 <= width <= WIDTH_MAX,
            width == picture_width(buf@),
            want == rgba_of(buf@, width as int, height as int),
            rgba@ == want.take(y * width * 4),
            y < done ==> p == row_start(buf@, y as int),
        decreases height - y,
    {
        if y < done {
            proof {
                rows_are_complete(buf@, y as int);
            }
            let (row, next) = decode_row(buf, p, width);
            push_row(&mut rgba, &row, buf, y, width, height);
            p = next;
        } else {
            let row: Vec<u16> = vec![0u16; width];
            push_row(&mut rgba, &row, buf, y, width, height);
        }
        y += 1;
    }
    proof {
        assert(height * width * 4 == width * height * 4) by (nonlinear_arith);
        assert(0 <= width * height) by (nonlinear_arith)
            requires
                0 <= width,
                0 <= height,
        ;
        assert(want.take(height * width * 4) =~= want);
    }
    Some((rgba, width as u32, height as u32))
}

/// Pictures that were decoded, and the numbers of those that failed.
#[derive(Debug)]
pub struct IconStore {
    pub icons: HashMap<u16, DecodedPng>,
    pub failed: HashSet<u16>,
}

/// What came of an attempt to load a picture.
#[derive(Debug, Clone, Copy, PartialEq, Eq, Structural)]
pub enum IconLoad {
    /// It does not have to be loaded: there is none of that number, or it is there.
    Unneeded,
    Cached,
    /// It failed, for the first time.
    Failed,
    /// It failed again.
    FailedAgain,
}

impl IconStore {
    /// Every picture has bytes for its pixels.
    pub open spec fn wf(&self) -> bool {
        forall|k: u16| #[trigger] self.icons@.contains_key(k) ==> self.icons@[k].wf()
    }

    pub fn new() -> (r: Self)
        ensures
            r.wf(),
            r.icons@ == Map::<u16, DecodedPng>::empty(),
            r.failed@ == Set::<u16>::empty(),
    {
        IconStore { icons: HashMap::new(), failed: HashSet::new() }
    }

    /// Whether a picture has still to be loaded: number 0 stands for none.
    pub open spec fn lacks(&self, gfxid: u16) -> bool {
        gfxid != 0 && !self.icons@.contains_key(gfxid)
    }

    /// Whether a picture has still to be loaded.
    pub fn needs(&self, gfxid: u16) -> (r: bool)
        ensures
            r == self.lacks(gfxid),
    {
        gfxid != 0 && !self.icons.contains_key(&gfxid)
    }

    /// Takes the file of a picture (`None` where there is none), where the picture
    /// has still to be loaded; otherwise changes nothing.
    pub fn ensure_icon(&mut self, gfxid: u16, file: Option<&[u8]>) -> (r: IconLoad)
        requires
            old(self).wf(),
        ensures
            final(self).wf(),
            r == IconLoad::Unneeded <==> !old(self).lacks(gfxid),
            r == IconLoad::Unneeded ==> final(self).icons@ == old(self).icons@
                && final(self).failed@ == old(self).failed@,
            r == IconLoad::Cached <==> old(self).lacks(gfxid) && file is Some && decoded(
                file->0@,
            ) is Some,
            r == IconLoad::Cached ==> {
                let d = decoded(file->0@)->0;
                &&& final(self).icons@.contains_key(gfxid)
                &&& final(self).icons@[gfxid].rgba@ == d.0
                &&& final(self).icons@[gfxid].width == d.1
                &&& final(self).icons@[gfxid].height == d.2
                &&& final(self).icons@.remove(gfxid) == old(self).icons@
                &&& final(self).failed@ == old(self).failed@
            },
            r == IconLoad::Failed || r == IconLoad::FailedAgain ==> final(self).icons@ == old(
                self,
            ).icons@ && final(self).failed@ == old(self).failed@.insert(gfxid),
            r == IconLoad::FailedAgain ==> old(self).failed@.contains(gfxid),
            r == IconLoad::Failed ==> !old(self).failed@.contains(gfxid),
    {
        if !self.needs(gfxid) {
            return IconLoad::Unneeded;
        }
        let picture = match file {
            Some(buf) => decode_tbt(buf),
            None => None,
        };
        match picture {
            Some((rgba, width, height)) => {
                let _ = self.icons.insert(gfxid, DecodedPng { width, height, rgba });
                IconLoad::Cached
            },
            None => {
                if self.failed.insert(gfxid) {
                    IconLoad::Failed
                } else {
                    IconLoad::FailedAgain
                }
            },
        }
    }
}

/// The picture of a number, if it is loaded.
pub fn get_icon(store: &IconStore, gfxid: u16) -> (r: Option<&DecodedPng>)
    ensures
        r is Some <==> store.icons@.contains_key(gfxid),
        r matches Some(p) ==> *p == store.icons@[gfxid],
{
    store.icons.get(&gfxid)
}

} // verus!
