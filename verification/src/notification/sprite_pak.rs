//! Pictures in the client's archives.
//!
//! An archive is a pair of files.  The index file is a count and that many entries of
//! 28 bytes: where the file stands in the archive, its name in 20 bytes filled up with
//! zeros, and its size.

use vstd::prelude::*;

use super::dispatcher;
use crate::code;
use crate::code::read_u32_le;
use crate::text;
use crate::text::same_text;
use crate::text::starts_with;
use crate::text::to_chars;

verus! {

pub const HEADER_SIZE: usize = 4;

pub const ENTRY_SIZE: usize = 28;

pub const FILENAME_LEN: usize = 20;

pub const FILENAME_OFFSET: usize = 4;

pub const SIZE_OFFSET: usize = 24;

/// Longest file that is read as it is.
pub const RAW_MAX: u32 = 65_536;

/// A picture, four bytes per pixel (red, green, blue, alpha), row by row from the
/// top.  One that was decoded from fewer than eight bits per sample has too few bytes.
#[derive(Debug)]
pub struct DecodedPng {
    pub width: u32,
    pub height: u32,
    pub rgba: Vec<u8>,
}

impl DecodedPng {
    /// There are bytes for every pixel.
    pub open spec fn wf(&self) -> bool {
        self.width * self.height * 4 <= self.rgba@.len()
    }

    /// Tells whether there are bytes for every pixel.
    pub fn is_complete(&self) -> (r: bool)
        ensures
            r == self.wf(),
    {
        let (w, h) = (self.width, self.height);
        assert(0 <= w * h <= 0xFFFF_FFFF * 0xFFFF_FFFF) by (nonlinear_arith)
            requires
                0 <= w <= 0xFFFF_FFFF,
                0 <= h <= 0xFFFF_FFFF,
        ;
        (w as u128 * h as u128) * 4 <= self.rgba.len() as u128
    }
}

/// A file of an archive: the number of the archive, and where the file stands in
/// it.
#[derive(Debug)]
pub struct IdxEntry {
    pub name: String,
    pub pak: usize,
    pub offset: u32,
    pub size: u32,
}

/// Turns bytes into a text with `String::from_utf8`: it succeeds exactly on valid
/// UTF-8, and the text has these bytes.
#[verifier::external_body]
fn utf8_text(bytes: Vec<u8>) -> (r: Option<String>)
    ensures
        r is Some <==> vstd::utf8::valid_utf8(bytes@),
        r matches Some(s) ==> vstd::utf8::encode_utf8(s@) == bytes@,
{
    String::from_utf8(bytes).ok()
}

/// Whether a file name is that of an index: "Sprite" in front, ".idx" in any case
/// at the end.
pub open spec fn is_index_name(name: Seq<char>) -> bool {
    &&& text::has_prefix(name, seq!['S', 'p', 'r', 'i', 't', 'e'])
    &&& name.len() >= 4
    &&& text::same_but_case(name.skip(name.len() - 4), seq!['.', 'i', 'd', 'x'])
}

/// Tells the name of an index.
pub fn is_sprite_index(name: &str) -> (r: bool)
    ensures
        r == is_index_name(name@),
{
    let v: Vec<char> = to_chars(name);
    let head: [char; 6] = ['S', 'p', 'r', 'i', 't', 'e'];
    let tail: [char; 4] = ['.', 'i', 'd', 'x'];
    assert(head@ =~= seq!['S', 'p', 'r', 'i', 't', 'e']);
    assert(tail@ =~= seq!['.', 'i', 'd', 'x']);
    if !starts_with(v.as_slice(), &head) || v.len() < 4 {
        return false;
    }
    let end: &[char] = vstd::slice::slice_subrange(v.as_slice(), v.len() - 4, v.len());
    assert(end@ =~= v@.skip(v@.len() - 4));
    text::eq_ignore_ascii_case(end, &tail)
}

/// The bytes of the name in an entry.
pub open spec fn name_bytes(entry: Seq<u8>) -> Seq<u8> {
    let field = entry.subrange(4, 24);
    match dispatcher::first_zero(field) {
        Some(n) => field.take(n as int),
        None => field,
    }
}

/// The bytes of entry `i` of an index file.
pub open spec fn entry_at(data: Seq<u8>, i: int) -> Seq<u8> {
    data.subrange(4 + i * 28, 32 + i * 28)
}

/// How many entries an index file has: as many as its header says, as far as the file
/// holds them whole.
pub open spec fn entry_count(data: Seq<u8>) -> int {
    if data.len() < 4 {
        0
    } else {
        let said = code::from_le32(data.subrange(0, 4)) as int;
        let held = (data.len() - 4) / 28;
        if said <= held {
            said
        } else {
            held
        }
    }
}

/// Whether entry `i` names a file.
pub open spec fn names_a_file(data: Seq<u8>, i: int) -> bool {
    vstd::utf8::valid_utf8(name_bytes(entry_at(data, i))) && name_bytes(entry_at(data, i)).len() > 0
}

/// A file as the index knows it, with its name in bytes.
pub struct IdxView {
    pub name: Seq<u8>,
    pub pak: int,
    pub offset: u32,
    pub size: u32,
}

impl View for IdxEntry {
    type V = IdxView;

    open spec fn view(&self) -> IdxView {
        IdxView {
            name: vstd::utf8::encode_utf8(self.name@),
            pak: self.pak as int,
            offset: self.offset,
            size: self.size,
        }
    }
}

/// The file that entry `i` names.
pub open spec fn file_of(data: Seq<u8>, pak: int, i: int) -> IdxView {
    IdxView {
        name: name_bytes(entry_at(data, i)),
        pak,
        offset: code::from_le32(entry_at(data, i).subrange(0, 4)),
        size: code::from_le32(entry_at(data, i).subrange(24, 28)),
    }
}

/// Whether a file of that name is known.
pub open spec fn knows(files: Seq<IdxView>, name: Seq<u8>) -> bool {
    exists|k: int| 0 <= k < files.len() && (#[trigger] files[k]).name == name
}

/// The known files after the first `n` entries of an index file: a name that is
/// known already keeps its file.
pub open spec fn indexed(files: Seq<IdxView>, data: Seq<u8>, pak: int, n: int) -> Seq<IdxView>
    decreases n,
{
    if n <= 0 {
        files
    } else {
        let before = indexed(files, data, pak, n - 1);
        if names_a_file(data, n - 1) && !knows(before, name_bytes(entry_at(data, n - 1))) {
            before.push(file_of(data, pak, n - 1))
        } else {
            before
        }
    }
}

/// No two files have the same name.
pub open spec fn names_differ(files: Seq<IdxView>) -> bool {
    forall|i: int, j: int|
        0 <= i < j < files.len() ==> (#[trigger] files[i]).name != (#[trigger] files[j]).name
}

/// What each entry stands for.
pub open spec fn file_views(files: Seq<IdxEntry>) -> Seq<IdxView> {
    Seq::new(files.len(), |i: int| files[i]@)
}

/// Indexing another archive keeps every file that is known, and keeps names
/// different.
pub proof fn indexing_keeps_files(files: Seq<IdxView>, data: Seq<u8>, pak: int, n: int)
    requires
        names_differ(files),
    ensures
        names_differ(indexed(files, data, pak, n)),
        files.len() <= indexed(files, data, pak, n).len(),
        indexed(files, data, pak, n).take(files.len() as int) == files,
    decreases n,
{
    if n > 0 {
        indexing_keeps_files(files, data, pak, n - 1);
        let before = indexed(files, data, pak, n - 1);
        let after = indexed(files, data, pak, n);
        assert(after.take(files.len() as int) =~= files) by {
            assert(before.take(files.len() as int) =~= files);
        }
    } else {
        assert(files.take(files.len() as int) =~= files);
    }
}

/// The bytes of the name in an entry.
fn read_name(entry: &[u8]) -> (r: Vec<u8>)
    requires
        entry@.len() == 28,
    ensures
        r@ == name_bytes(entry@),
{
    let ghost field = entry@.subrange(4, 24);
    let mut n: usize = 0;
    while n < FILENAME_LEN && entry[FILENAME_OFFSET + n] != 0
        invariant
            n <= 20,
            entry@.len() == 28,
            field == entry@.subrange(4, 24),
            forall|i: int| 0 <= i < n ==> field[i] != 0,
        decreases 20 - n,
    {
        n += 1;
    }
    proof {
        dispatcher::first_zero_is_first(field);
        if n < 20 {
            assert(field[n as int] == 0);
        }
    }
    let r: Vec<u8> = code::start(vstd::slice::slice_subrange(entry, 4, 4 + n));
    assert(r@ =~= name_bytes(entry@));
    r
}

fn position_of(files: &Vec<IdxEntry>, name: &str) -> (r: Option<usize>)
    ensures
        r matches Some(k) ==> k < files@.len() && files@[k as int].name@ == name@,
        r is None ==> forall|k: int| 0 <= k < files@.len() ==> (#[trigger] files@[k]).name@ != name@,
{
    let mut i: usize = 0;
    while i < files.len()
        invariant
            i <= files@.len(),
            forall|k: int| 0 <= k < i ==> (#[trigger] files@[k]).name@ != name@,
        decreases files@.len() - i,
    {
        if same_text(files[i].name.as_str(), name) {
            return Some(i);
        }
        i += 1;
    }
    None
}

/// Two texts with the same bytes are equal.
proof fn same_bytes_same_text(a: Seq<char>, b: Seq<char>)
    requires
        vstd::utf8::encode_utf8(a) == vstd::utf8::encode_utf8(b),
    ensures
        a == b,
{
    vstd::utf8::encode_utf8_decode_utf8(a);
    vstd::utf8::encode_utf8_decode_utf8(b);
}

/// Adds the files of one archive to those that are known.
pub fn index_archive(files: &mut Vec<IdxEntry>, pak: usize, idx_data: &[u8])
    ensures
        file_views(final(files)@) == indexed(
            file_views(old(files)@),
            idx_data@,
            pak as int,
            entry_count(idx_data@),
        ),
{
    if idx_data.len() < HEADER_SIZE {
        return;
    }
    let said: u32 = read_u32_le(idx_data, 0);
    let held: usize = (idx_data.len() - HEADER_SIZE) / ENTRY_SIZE;
    let n: usize = if said as u64 <= held as u64 {
        said as usize
    } else {
        held
    };
    let ghost before = file_views(files@);
    let mut i: usize = 0;
    while i < n
        invariant
            i <= n,
            idx_data@.len() >= 4 + n * 28,
            n == entry_count(idx_data@),
            file_views(files@) == indexed(before, idx_data@, pak as int, i as int),
        decreases n - i,
    {
        assert(4 + i * 28 + 28 <= idx_data.len());
        let base: usize = HEADER_SIZE + i * ENTRY_SIZE;
        let entry: &[u8] = vstd::slice::slice_subrange(idx_data, base, base + ENTRY_SIZE);
        assert(entry@ == entry_at(idx_data@, i as int));
        let bytes: Vec<u8> = read_name(entry);
        let empty: bool = bytes.len() == 0;
        let ghost known = file_views(files@);
        if let Some(name) = utf8_text(bytes) {
            if !empty {
                match position_of(files, name.as_str()) {
                    Some(k) => {
                        assert(known[k as int].name == name_bytes(entry@));
                    },
                    None => {
                        proof {
                            if knows(known, name_bytes(entry@)) {
                                let k = choose|k: int|
                                    0 <= k < known.len() && (#[trigger] known[k]).name == name_bytes(
                                        entry@,
                                    );
                                same_bytes_same_text(files@[k].name@, name@);
                                assert(files@[k].name@ != name@);
                            }
                        }
                        files.push(
                            IdxEntry {
                                name,
                                pak,
                                offset: read_u32_le(entry, 0),
                                size: read_u32_le(entry, SIZE_OFFSET),
                            },
                        );
                        assert(file_views(files@) =~= known.push(
                            file_of(idx_data@, pak as int, i as int),
                        ));
                    },
                }
            }
        }
        i += 1;
    }
}

/// The file of a name.
pub fn find_file<'a>(files: &'a Vec<IdxEntry>, name: &str) -> (r: Option<&'a IdxEntry>)
    ensures
        r matches Some(e) ==> e.name@ == name@ && files@.contains(*e),
        r is None ==> forall|k: int| 0 <= k < files@.len() ==> (#[trigger] files@[k]).name@ != name@,
{
    match position_of(files, name) {
        Some(k) => {
            assert(files@[k as int] == files@[k as int]);
            Some(&files[k])
        },
        None => None,
    }
}

/// How many bytes of a file to read as they are.
pub fn raw_len(size: u32) -> (r: u32)
    ensures
        r == if size <= RAW_MAX {
            size
        } else {
            RAW_MAX
        },
{
    if size <= RAW_MAX {
        size
    } else {
        RAW_MAX
    }
}

/// The number that four bytes spell, most significant first.
pub open spec fn from_be32(s: Seq<u8>) -> int {
    s[3] + 256 * s[2] + 65536 * s[1] + 16777216 * s[0]
}

/// Whether the header of a PNG file names a picture whose pixels (of up to eight
/// bytes) could not be addressed.
pub open spec fn too_large(data: Seq<u8>) -> bool {
    data.len() >= 24 && from_be32(data.subrange(16, 20)) * from_be32(data.subrange(20, 24)) * 8
        > isize::MAX
}

/// What the `png` crate makes of the bytes of a PNG file: width, height, color type
/// (0 gray, 2 RGB, 3 palette, 4 gray with alpha, 6 RGBA) and samples of its first
/// frame.
pub uninterp spec fn png_frame(data: Seq<u8>) -> Option<(u32, u32, u8, Seq<u8>)>;

/// Decodes the first frame of a PNG file with `png::Decoder::new`, `read_info`,
/// `output_buffer_size` and `next_frame`, without any transformation.  The result
/// depends on the bytes alone and is named [`png_frame`]; that the samples of the
/// frame fill its width and height is not claimed.  A header that asks for a
/// buffer that cannot be allocated is ruled out.
#[verifier::external_body]
fn decode_frame(data: &[u8]) -> (r: Option<(u32, u32, u8, Vec<u8>)>)
    requires
        !too_large(data@),
    ensures
        (match r {
            Some((w, h, color, frame)) => Some((w, h, color, frame@)),
            None => None,
        }) == png_frame(data@),
{
    let mut reader = png::Decoder::new(data).read_info().ok()?;
    let mut frame = vec![0u8; reader.output_buffer_size()];
    let info = reader.next_frame(&mut frame).ok()?;
    Some((info.width, info.height, info.color_type as u8, frame))
}

/// The samples of a frame as RGBA; a palette is not supported.
pub open spec fn expanded(color: u8, frame: Seq<u8>) -> Option<Seq<u8>> {
    if color == 6 {
        Some(frame)
    } else if color == 2 {
        Some(
            Seq::new(
                (frame.len() / 3 * 4) as nat,
                |i: int|
                    if i % 4 == 3 {
                        0xFFu8
                    } else {
                        frame[i / 4 * 3 + i % 4]
                    },
            ),
        )
    } else if color == 0 {
        Some(
            Seq::new(
                (frame.len() * 4) as nat,
                |i: int|
                    if i % 4 == 3 {
                        0xFFu8
                    } else {
                        frame[i / 4]
                    },
            ),
        )
    } else if color == 4 {
        Some(
            Seq::new(
                (frame.len() / 2 * 4) as nat,
                |i: int|
                    if i % 4 == 3 {
                        frame[i / 4 * 2 + 1]
                    } else {
                        frame[i / 4 * 2]
                    },
            ),
        )
    } else {
        None
    }
}

/// Whether pixel `k` is pure black.
pub open spec fn is_black(rgba: Seq<u8>, k: int) -> bool {
    rgba[4 * k] == 0 && rgba[4 * k + 1] == 0 && rgba[4 * k + 2] == 0
}

/// Whether the pixels at `ks` are pure black, looked at in turn up to the first that is
/// not; `None` where the look comes to one that has no bytes.
pub open spec fn all_black(rgba: Seq<u8>, ks: Seq<int>) -> Option<bool>
    decreases ks.len(),
{
    if ks.len() == 0 {
        Some(true)
    } else if 4 * ks[0] + 4 > rgba.len() {
        None
    } else if !is_black(rgba, ks[0]) {
        Some(false)
    } else {
        all_black(rgba, ks.drop_first())
    }
}

/// The four corners.
pub open spec fn corners(w: int, h: int) -> Seq<int> {
    seq![0, w - 1, (h - 1) * w, (h - 1) * w + w - 1]
}

/// Pixels that are pure black made transparent.
pub open spec fn keyed(rgba: Seq<u8>, pixels: int) -> Seq<u8> {
    Seq::new(
        rgba.len(),
        |i: int|
            if i % 4 == 3 && i / 4 < pixels && is_black(rgba, i / 4) {
                0u8
            } else {
                rgba[i]
            },
    )
}

/// Whether black may stand for transparent: that is asked for, the frame has no alpha
/// and is wide and high enough to have four corners.
pub open spec fn keys(w: u32, h: u32, color: u8, auto_key: bool) -> bool {
    auto_key && color != 6 && color != 4 && w >= 2 && h >= 2
}

/// The pixels of a decoded frame: where black may stand for transparent, it does if all
/// four corners are black.  There are none where a corner that is looked at has no
/// bytes.
pub open spec fn picture(w: u32, h: u32, color: u8, rgba: Seq<u8>, auto_key: bool) -> Option<
    Seq<u8>,
> {
    if keys(w, h, color, auto_key) {
        match all_black(rgba, corners(w as int, h as int)) {
            Some(true) => Some(keyed(rgba, w * h)),
            Some(false) => Some(rgba),
            None => None,
        }
    } else {
        Some(rgba)
    }
}

/// The pixels of a decoded frame, if it has no palette.
pub open spec fn shown(frame: (u32, u32, u8, Seq<u8>), auto_key: bool) -> Option<Seq<u8>> {
    match expanded(frame.2, frame.3) {
        Some(rgba) => picture(frame.0, frame.1, frame.2, rgba, auto_key),
        None => None,
    }
}

/// Turns the samples of a frame into RGBA.
fn expand(color: u8, frame: Vec<u8>) -> (r: Option<Vec<u8>>)
    ensures
        (match r {
            Some(v) => Some(v@),
            None => None,
        }) == expanded(color, frame@),
{
    if color == 6 {
        return Some(frame);
    }
    let step: usize = if color == 2 {
        3
    } else if color == 0 {
        1
    } else if color == 4 {
        2
    } else {
        return None;
    };
    let ghost want = expanded(color, frame@)->0;
    let mut out: Vec<u8> = Vec::new();
    let n: usize = frame.len() / step;
    let mut i: usize = 0;
    while i < n
        invariant
            i <= n,
            (color == 2 && step == 3) || (color == 0 && step == 1) || (color == 4 && step == 2),
            want == expanded(color, frame@)->0,
            n * step <= frame@.len(),
            want.len() == n * 4,
            out@.len() == i * 4,
            out@ == want.take(i * 4),
        decreases n - i,
    {
        assert(i * step + step <= frame.len()) by (nonlinear_arith)
            requires
                i < n,
                n * step <= frame.len(),
        ;
        let at: usize = i * step;
        let ghost before = out@;
        if color == 2 {
            out.push(frame[at]);
            out.push(frame[at + 1]);
            out.push(frame[at + 2]);
            out.push(0xFF);
        } else if color == 0 {
            out.push(frame[at]);
            out.push(frame[at]);
            out.push(frame[at]);
            out.push(0xFF);
        } else {
            out.push(frame[at]);
            out.push(frame[at]);
            out.push(frame[at]);
            out.push(frame[at + 1]);
        }
        proof {
            let j = i as int;
            assert((4 * j) / 4 == j && (4 * j + 1) / 4 == j && (4 * j + 2) / 4 == j && (4 * j + 3)
                / 4 == j);
            assert((4 * j) % 4 == 0 && (4 * j + 1) % 4 == 1 && (4 * j + 2) % 4 == 2 && (4 * j + 3)
                % 4 == 3);
            assert(at == j * step);
            assert(out@ =~= want.take((j + 1) * 4));
        }
        i += 1;
    }
    assert(want.take(n * 4) =~= want);
    Some(out)
}

/// The picture in a decoded frame.
pub fn picture_of_frame(w: u32, h: u32, color: u8, frame: Vec<u8>, auto_key: bool) -> (r: Option<
    DecodedPng,
>)
    ensures
        r is Some <==> shown((w, h, color, frame@), auto_key) is Some,
        r matches Some(p) ==> p.width == w && p.height == h && p.rgba@ == shown(
            (w, h, color, frame@),
            auto_key,
        )->0,
{
    let mut rgba: Vec<u8> = match expand(color, frame) {
        Some(v) => v,
        None => {
            return None;
        },
    };
    if auto_key && color != 6 && color != 4 && w >= 2 && h >= 2 {
        match black_corners(&rgba, w, h) {
            None => {
                return None;
            },
            Some(black) => {
                if black {
                    assert(0 <= w * h) by (nonlinear_arith)
                        requires
                            0 <= w,
                            0 <= h,
                    ;
                    assert(4 * (w * h) <= rgba.len());
                    let pixels: usize = w as usize * h as usize;
                    key_black(&mut rgba, pixels);
                }
            },
        }
    }
    Some(DecodedPng { width: w, height: h, rgba })
}

/// Whether the pixel is black; `None` where it has no bytes.
fn black_pixel(rgba: &Vec<u8>, k: u64) -> (r: Option<bool>)
    ensures
        r is None <==> 4 * k + 4 > rgba@.len(),
        r matches Some(b) ==> b == is_black(rgba@, k as int),
{
    if k >= (rgba.len() / 4) as u64 {
        return None;
    }
    let at: usize = 4 * (k as usize);
    Some(rgba[at] == 0 && rgba[at + 1] == 0 && rgba[at + 2] == 0)
}

/// Looks at the corners.
fn black_corners(rgba: &Vec<u8>, w: u32, h: u32) -> (r: Option<bool>)
    requires
        w >= 2,
        h >= 2,
    ensures
        r == all_black(rgba@, corners(w as int, h as int)),
        r == Some(true) ==> 4 * (w * h) <= rgba@.len(),
{
    reveal_with_fuel(all_black, 5);
    let ghost (iw, ih) = (w as int, h as int);
    proof {
        assert(iw <= iw * ih && (ih - 1) * iw + iw == iw * ih && 0 <= (ih - 1) * iw && iw * ih
            <= 0xFFFF_FFFF * 0xFFFF_FFFF) by (nonlinear_arith)
            requires
                2 <= iw <= 0xFFFF_FFFF,
                2 <= ih <= 0xFFFF_FFFF,
        ;
        assert((h - 1) * w == (ih - 1) * iw);
        let ks = corners(iw, ih);
        assert(ks.drop_first() =~= seq![iw - 1, (ih - 1) * iw, (ih - 1) * iw + iw - 1]);
        assert(ks.drop_first().drop_first() =~= seq![(ih - 1) * iw, (ih - 1) * iw + iw - 1]);
        assert(ks.drop_first().drop_first().drop_first() =~= seq![(ih - 1) * iw + iw - 1]);
        assert(ks.drop_first().drop_first().drop_first().drop_first() =~= Seq::<int>::empty());
    }
    let last_row: u64 = (h as u64 - 1) * w as u64;
    match black_pixel(rgba, 0) {
        Some(true) => {},
        other => {
            return other;
        },
    }
    match black_pixel(rgba, w as u64 - 1) {
        Some(true) => {},
        other => {
            return other;
        },
    }
    match black_pixel(rgba, last_row) {
        Some(true) => {},
        other => {
            return other;
        },
    }
    black_pixel(rgba, last_row + w as u64 - 1)
}

/// Makes black pixels transparent.
fn key_black(rgba: &mut Vec<u8>, pixels: usize)
    requires
        4 * pixels <= old(rgba)@.len(),
    ensures
        final(rgba)@ == keyed(old(rgba)@, pixels as int),
{
    let ghost before = rgba@;
    let mut i: usize = 0;
    assert(keyed(before, 0) =~= before);
    while i < pixels
        invariant
            i <= pixels,
            4 * pixels <= rgba@.len(),
            rgba@ == keyed(before, i as int),
        decreases pixels - i,
    {
        assert(4 * i + 4 <= rgba.len());
        proof {
            assert forall|d: int| 0 <= d < 4 implies #[trigger] before[4 * i + d] == rgba@[4 * i + d] by {
                assert((4 * i + d) / 4 == i);
            }
            assert(before[4 * i + 0] == rgba@[4 * i + 0]);
            assert(before[4 * i + 1] == rgba@[4 * i + 1]);
            assert(before[4 * i + 2] == rgba@[4 * i + 2]);
        }
        if rgba[4 * i] == 0 && rgba[4 * i + 1] == 0 && rgba[4 * i + 2] == 0 {
            rgba.set(4 * i + 3, 0);
        }
        assert(rgba@ =~= keyed(before, i + 1)) by {
            assert forall|j: int| 0 <= j < before.len() implies rgba@[j] == keyed(before, i + 1)[j] by {
                if j != 4 * i + 3 && j % 4 == 3 {
                    assert(j / 4 != i);
                }
            }
        }
        i += 1;
    }
}

/// Whether the decoded frame fills its width and height.
pub open spec fn fills(frame: (u32, u32, u8, Seq<u8>)) -> bool {
    expanded(frame.2, frame.3) matches Some(rgba) && frame.0 * frame.1 * 4 <= rgba.len()
}

/// Decodes a PNG file.  There is no picture where the file cannot be decoded or has a
/// palette, where its header asks for more than can be addressed, or where a corner is
/// looked at that has no bytes.
pub fn decode_png_stream(data: &[u8], auto_key: bool) -> (r: Option<DecodedPng>)
    ensures
        r is Some <==> !too_large(data@) && png_frame(data@) is Some && shown(
            png_frame(data@)->0,
            auto_key,
        ) is Some,
        r matches Some(p) ==> {
            let f = png_frame(data@)->0;
            &&& p.width == f.0
            &&& p.height == f.1
            &&& p.rgba@ == shown(f, auto_key)->0
        },
{
    if header_too_large(data) {
        return None;
    }
    let (w, h, color, frame) = match decode_frame(data) {
        Some(f) => f,
        None => {
            return None;
        },
    };
    picture_of_frame(w, h, color, frame, auto_key)
}

fn header_too_large(data: &[u8]) -> (r: bool)
    ensures
        r == too_large(data@),
{
    if data.len() < 24 {
        return false;
    }
    let w: u64 = data[19] as u64 + 256 * (data[18] as u64) + 65536 * (data[17] as u64) + 16777216 * (
    data[16] as u64);
    let h: u64 = data[23] as u64 + 256 * (data[22] as u64) + 65536 * (data[21] as u64) + 16777216 * (
    data[20] as u64);
    assert(w == from_be32(data@.subrange(16, 20)));
    assert(h == from_be32(data@.subrange(20, 24)));
    assert(0 <= w * h <= 0xFFFF_FFFF * 0xFFFF_FFFF) by (nonlinear_arith)
        requires
            0 <= w <= 0xFFFF_FFFF,
            0 <= h <= 0xFFFF_FFFF,
    ;
    (w as u128 * h as u128) * 8 > isize::MAX as u128
}

/// Alpha of a pixel that shows `black` on black and `white` on white: the least of
/// what the three channels say.
pub open spec fn pair_alpha(black: Seq<u8>, white: Seq<u8>, k: int) -> int {
    let a = |c: int|
        if white[4 * k + c] > black[4 * k + c] {
            255 - (white[4 * k + c] - black[4 * k + c])
        } else {
            255int
        };
    let m = if a(0) <= a(1) {
        a(0)
    } else {
        a(1)
    };
    if m <= a(2) {
        m
    } else {
        a(2)
    }
}

/// The color of a channel with the black background divided out, rounded.
pub open spec fn pair_color(black: int, alpha: int) -> int {
    if alpha == 0 {
        0
    } else if (black * 255 + alpha / 2) / alpha <= 255 {
        (black * 255 + alpha / 2) / alpha
    } else {
        255
    }
}

/// The pixels of a picture that was drawn on black and on white.
pub open spec fn paired(black: Seq<u8>, white: Seq<u8>, pixels: int) -> Seq<u8> {
    Seq::new(
        (pixels * 4) as nat,
        |i: int|
            if i % 4 == 3 {
                pair_alpha(black, white, i / 4) as u8
            } else {
                pair_color(black[i] as int, pair_alpha(black, white, i / 4)) as u8
            },
    )
}

fn channel_alpha(black: u8, white: u8) -> (r: u32)
    ensures
        r == if white > black {
            255 - (white - black)
        } else {
            255
        },
{
    if white > black {
        255 - (white as u32 - black as u32)
    } else {
        255
    }
}

fn channel_color(black: u8, alpha: u32) -> (r: u8)
    requires
        alpha <= 255,
    ensures
        r == pair_color(black as int, alpha as int),
{
    if alpha == 0 {
        return 0;
    }
    let c: u32 = (black as u32 * 255 + alpha / 2) / alpha;
    if c <= 255 {
        c as u8
    } else {
        255
    }
}

/// The picture that shows `black` on a black and `white` on a white background;
/// `None` where their sizes differ.
pub fn pair_pngs(black: &DecodedPng, white: &DecodedPng) -> (r: Option<DecodedPng>)
    requires
        black.wf(),
        white.wf(),
    ensures
        r is Some <==> black.width == white.width && black.height == white.height,
        r matches Some(p) ==> p.wf() && p.width == black.width && p.height == black.height
            && p.rgba@ == paired(black.rgba@, white.rgba@, black.width * black.height),
{
    if black.width != white.width || black.height != white.height {
        return None;
    }
    let ghost n = black.width * black.height;
    assert(0 <= n) by (nonlinear_arith)
        requires
            n == black.width * black.height,
            0 <= black.width,
            0 <= black.height,
    ;
    assert(4 * n <= black.rgba.len());
    let pixels: usize = black.width as usize * black.height as usize;
    let mut rgba: Vec<u8> = Vec::new();
    let ghost want = paired(black.rgba@, white.rgba@, n);
    let mut i: usize = 0;
    while i < pixels
        invariant
            i <= pixels,
            pixels == n,
            4 * n <= black.rgba@.len(),
            4 * n <= white.rgba@.len(),
            want == paired(black.rgba@, white.rgba@, n),
            rgba@ == want.take(4 * i),
        decreases pixels - i,
    {
        assert(4 * i + 4 <= black.rgba.len());
        let off: usize = i * 4;
        let ar: u32 = channel_alpha(black.rgba[off], white.rgba[off]);
        let ag: u32 = channel_alpha(black.rgba[off + 1], white.rgba[off + 1]);
        let ab: u32 = channel_alpha(black.rgba[off + 2], white.rgba[off + 2]);
        let m: u32 = if ar <= ag {
            ar
        } else {
            ag
        };
        let alpha: u32 = if m <= ab {
            m
        } else {
            ab
        };
        proof {
            assert(black.rgba@[4 * i + 0] == black.rgba@[off as int]);
            assert(white.rgba@[4 * i + 0] == white.rgba@[off as int]);
            assert(alpha == pair_alpha(black.rgba@, white.rgba@, i as int));
        }
        rgba.push(channel_color(black.rgba[off], alpha));
        rgba.push(channel_color(black.rgba[off + 1], alpha));
        rgba.push(channel_color(black.rgba[off + 2], alpha));
        rgba.push(alpha as u8);
        proof {
            let j = i as int;
            assert((4 * j) / 4 == j && (4 * j + 1) / 4 == j && (4 * j + 2) / 4 == j && (4 * j + 3)
                / 4 == j);
            assert(rgba@ =~= want.take(4 * (j + 1)));
        }
        i += 1;
    }
    assert(want.take(4 * n) =~= want);
    Some(DecodedPng { width: black.width, height: black.height, rgba })
}

/// A fully visible pixel keeps its color, and one that shows its background
/// unchanged is transparent.
pub proof fn pairing_separates_color_and_alpha(black: Seq<u8>, white: Seq<u8>, k: int, c: int)
    requires
        0 <= k,
        0 <= c < 3,
        4 * k + 4 <= black.len(),
        4 * k + 4 <= white.len(),
    ensures
        (forall|d: int| 0 <= d < 3 ==> #[trigger] black[4 * k + d] == white[4 * k + d])
            ==> pair_alpha(black, white, k) == 255 && pair_color(black[4 * k + c] as int, 255)
            == black[4 * k + c],
        (black[4 * k + 0] == 0 && white[4 * k + 0] == 255) ==> pair_alpha(black, white, k) == 0,
{
}

/// The picture in a PNG file, with black corners standing for transparency; `data`
/// are the bytes of the archive from the file's start on, `None` where there is
/// no such file.
pub fn load_png(data: Option<&[u8]>) -> (r: Option<DecodedPng>)
    ensures
        r is Some <==> data is Some && !too_large(data->0@) && png_frame(data->0@) is Some && shown(
            png_frame(data->0@)->0,
            true,
        ) is Some,
        r matches Some(p) ==> {
            let f = png_frame(data->0@)->0;
            p.width == f.0 && p.height == f.1 && p.rgba@ == shown(f, true)->0
        },
{
    match data {
        Some(d) => decode_png_stream(d, true),
        None => None,
    }
}

/// The picture in a PNG file as it is.
pub fn load_png_raw(data: Option<&[u8]>) -> (r: Option<DecodedPng>)
    ensures
        r is Some <==> data is Some && !too_large(data->0@) && png_frame(data->0@) is Some && shown(
            png_frame(data->0@)->0,
            false,
        ) is Some,
        r matches Some(p) ==> {
            let f = png_frame(data->0@)->0;
            p.width == f.0 && p.height == f.1 && p.rgba@ == expanded(f.2, f.3)->0
        },
{
    match data {
        Some(d) => decode_png_stream(d, false),
        None => None,
    }
}

/// The picture that two PNG files show on black and on white.  There is none where
/// either has too few bytes for its pixels.
pub fn load_png_paired(black: Option<&[u8]>, white: Option<&[u8]>) -> (r: Option<DecodedPng>)
    ensures
        r matches Some(p) ==> {
            let b = png_frame(black->0@)->0;
            let w = png_frame(white->0@)->0;
            &&& black is Some && !too_large(black->0@) && png_frame(black->0@) is Some && fills(b)
            &&& white is Some && !too_large(white->0@) && png_frame(white->0@) is Some && fills(w)
            &&& b.0 == w.0 && b.1 == w.1
            &&& p.width == b.0 && p.height == b.1
            &&& p.rgba@ == paired(expanded(b.2, b.3)->0, expanded(w.2, w.3)->0, b.0 * b.1)
        },
        r is None ==> {
            let b = png_frame(black->0@)->0;
            let w = png_frame(white->0@)->0;
            ||| black is None || too_large(black->0@) || png_frame(black->0@) is None || !fills(b)
            ||| white is None || too_large(white->0@) || png_frame(white->0@) is None || !fills(w)
            ||| b.0 != w.0 || b.1 != w.1
        },
{
    match (load_png_raw(black), load_png_raw(white)) {
        (Some(b), Some(w)) => {
            if b.is_complete() && w.is_complete() {
                pair_pngs(&b, &w)
            } else {
                None
            }
        },
        _ => None,
    }
}

} // verus!
