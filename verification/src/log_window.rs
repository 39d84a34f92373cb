//! The text of a log window.

use vstd::prelude::*;

use crate::text::from_chars;
use crate::text::push_text;
use crate::text::to_chars;

verus! {

/// Most bytes of text that the window keeps.
pub const LOG_BUF_LIMIT: usize = 102400;

/// What the windows are told to do.
#[derive(Debug, Clone, Copy, PartialEq, Eq, Structural)]
pub enum Visibility {
    Hidden,
    Shown,
    Close,
}

/// What the window has to do.
#[derive(Debug, Clone, Copy, PartialEq, Eq, Structural)]
pub enum WindowStep {
    Hide,
    Show,
    Close,
    Stay,
}

/// What a window that is visible or not has to do.
pub open spec fn step_of(wanted: Visibility, visible: bool) -> WindowStep {
    match wanted {
        Visibility::Hidden => if visible {
            WindowStep::Hide
        } else {
            WindowStep::Stay
        },
        Visibility::Shown => if visible {
            WindowStep::Stay
        } else {
            WindowStep::Show
        },
        Visibility::Close => WindowStep::Close,
    }
}

/// What a window that is visible or not has to do.
pub fn sync_visible(wanted: Visibility, visible: bool) -> (r: WindowStep)
    ensures
        r == step_of(wanted, visible),
{
    match wanted {
        Visibility::Hidden => if visible {
            WindowStep::Hide
        } else {
            WindowStep::Stay
        },
        Visibility::Shown => if visible {
            WindowStep::Stay
        } else {
            WindowStep::Show
        },
        Visibility::Close => WindowStep::Close,
    }
}

/// Bytes of a character in UTF-8.
pub open spec fn char_width(c: char) -> nat {
    if (c as u32) < 0x80 {
        1
    } else if (c as u32) < 0x800 {
        2
    } else if (c as u32) < 0x1_0000 {
        3
    } else {
        4
    }
}

/// Bytes of a text in UTF-8.
pub open spec fn utf8_len(s: Seq<char>) -> nat
    decreases s.len(),
{
    if s.len() == 0 {
        0
    } else {
        char_width(s[0]) + utf8_len(s.drop_first())
    }
}

/// `s` without its first `n` bytes; a character of which only a part would go, goes
/// as a whole.
pub open spec fn without_bytes(s: Seq<char>, n: int) -> Seq<char>
    decreases s.len(),
{
    if n <= 0 || s.len() == 0 {
        s
    } else {
        without_bytes(s.drop_first(), n - char_width(s[0]))
    }
}

/// The end of a text, as far as the window keeps it.
pub open spec fn kept(s: Seq<char>) -> Seq<char> {
    without_bytes(s, utf8_len(s) - LOG_BUF_LIMIT)
}

proof fn without_bytes_fits(s: Seq<char>, n: int)
    ensures
        utf8_len(without_bytes(s, n)) <= utf8_len(s),
        n <= utf8_len(s) ==> utf8_len(without_bytes(s, n)) <= utf8_len(s) - n,
    decreases s.len(),
{
    if n > 0 && s.len() > 0 {
        without_bytes_fits(s.drop_first(), n - char_width(s[0]));
    }
}

/// The window never keeps more than its limit.
pub proof fn kept_is_within_the_limit(s: Seq<char>)
    ensures
        utf8_len(kept(s)) <= LOG_BUF_LIMIT,
        utf8_len(s) <= LOG_BUF_LIMIT ==> kept(s) == s,
{
    without_bytes_fits(s, utf8_len(s) - LOG_BUF_LIMIT);
}

fn width(c: char) -> (r: usize)
    ensures
        r == char_width(c),
{
    let n: u32 = c as u32;
    if n < 0x80 {
        1
    } else if n < 0x800 {
        2
    } else if n < 0x1_0000 {
        3
    } else {
        4
    }
}

proof fn utf8_len_bound(s: Seq<char>)
    ensures
        utf8_len(s) <= 4 * s.len(),
    decreases s.len(),
{
    if s.len() > 0 {
        utf8_len_bound(s.drop_first());
    }
}

/// Appends lines, each followed by a carriage return and a line feed, and keeps the
/// end of the text.
pub fn append_lines(buffer: &str, lines: &Vec<String>) -> (r: String)
    requires
        4 * joined(buffer@, lines@).len() <= usize::MAX,
    ensures
        r@ == appended(buffer@, lines@),
{
    let mut all: String = crate::text::text_of(buffer);
    if lines.len() == 0 {
        return all;
    }
    let mut i: usize = 0;
    assert(lines@.take(0).len() == 0);
    while i < lines.len()
        invariant
            i <= lines@.len(),
            all@ == joined(buffer@, lines@.take(i as int)),
        decreases lines@.len() - i,
    {
        assert(lines@.take(i + 1).drop_last() =~= lines@.take(i as int));
        assert(lines@.take(i + 1).last() == lines@[i as int]);
        push_text(&mut all, lines[i].as_str());
        all.push('\r');
        all.push('\n');
        assert(all@ =~= joined(buffer@, lines@.take(i as int)) + lines@[i as int]@ + seq![
            '\r',
            '\n',
        ]);
        i += 1;
    }
    assert(lines@.take(lines@.len() as int) =~= lines@);
    let v: Vec<char> = to_chars(all.as_str());
    let ghost full = v@;
    proof {
        utf8_len_bound(full);
    }
    let mut total: usize = 0;
    let mut k: usize = v.len();
    assert(full.skip(k as int).len() == 0);
    while k > 0
        invariant
            v@ == full,
            k <= full.len(),
            total == utf8_len(full.skip(k as int)),
            4 * full.len() <= usize::MAX,
        decreases k,
    {
        proof {
            assert(full.skip(k - 1).drop_first() =~= full.skip(k as int));
            utf8_len_bound(full.skip(k - 1));
        }
        total += width(v[k - 1]);
        k -= 1;
    }
    assert(full.skip(0) =~= full);
    if total <= LOG_BUF_LIMIT {
        return all;
    }
    let over: usize = total - LOG_BUF_LIMIT;
    let mut gone: usize = 0;
    let mut from: usize = 0;
    proof {
        kept_is_within_the_limit(full);
    }
    while from < v.len() && gone < over
        invariant
            v@ == full,
            from <= full.len(),
            gone <= 4 * from,
            4 * full.len() <= usize::MAX,
            over == utf8_len(full) - LOG_BUF_LIMIT,
            kept(full) == without_bytes(full.skip(from as int), over - gone),
        decreases full.len() - from,
    {
        assert(full.skip(from as int).drop_first() =~= full.skip(from + 1));
        gone += width(v[from]);
        from += 1;
    }
    let part: &[char] = vstd::slice::slice_subrange(v.as_slice(), from, v.len());
    assert(part@ =~= full.skip(from as int));
    from_chars(part)
}

/// The text that the window shows after lines were appended.
pub open spec fn appended(buffer: Seq<char>, lines: Seq<String>) -> Seq<char> {
    if lines.len() == 0 {
        buffer
    } else {
        kept(joined(buffer, lines))
    }
}

/// A text and lines behind it.
pub open spec fn joined(buffer: Seq<char>, lines: Seq<String>) -> Seq<char>
    decreases lines.len(),
{
    if lines.len() == 0 {
        buffer
    } else {
        joined(buffer, lines.drop_last()) + lines.last()@ + seq!['\r', '\n']
    }
}

} // verus!
