//! Spells, lines and files, by their names and texts.

use vstd::prelude::*;

use crate::chat;
use crate::code;
use crate::laws::bag;
use crate::log_window;
use crate::log_window::Visibility;
use crate::log_window::WindowStep;
use crate::profile;
use crate::spell_book;
use crate::spell_book::BookEntry;
use crate::spell_book::BookHead;
use crate::spell_book::SpellBook;
use crate::spell_book::SpellBookError;
use crate::spell_db;
use crate::spell_db::SpellRecord;
use crate::text;

verus! {

proof fn last_stands(s: Seq<char>, c: char, at: int)
    requires
        0 <= at < s.len(),
        s[at] == c,
        forall|k: int| at < k < s.len() ==> s[k] != c,
    ensures
        spell_db::last_of(s, c) == Some(at),
    decreases s.len(),
{
    if at < s.len() - 1 {
        assert(s.last() == s[s.len() - 1]);
        last_stands(s.drop_last(), c, at);
    }
}

proof fn unwhite_ends_stay(s: Seq<char>)
    requires
        s.len() > 0,
        !bag::white(s[0]),
        !bag::white(s.last()),
    ensures
        text::trimmed(s) == s,
        text::trim_end(s) == s,
{
}

/// Whether a text is made of digits, slashes and blanks, and is not empty.
pub open spec fn costs(s: Seq<char>) -> bool {
    s.len() > 0 && forall|i: int|
        0 <= i < s.len() ==> ('0' <= #[trigger] s[i] && s[i] <= '9') || s[i] == '/' || s[i] == ' '
}

/// Costs in brackets behind a name are not part of it; anything else in brackets is.
pub proof fn costs_are_no_part_of_a_name(name: Seq<char>, inner: Seq<char>)
    requires
        name.len() > 0,
        !bag::white(name[0]),
        !bag::white(name.last()),
        forall|i: int| 0 <= i < inner.len() ==> inner[i] != '(' && inner[i] != ')',
    ensures
        ({
            let full = name + seq!['('] + inner + seq![')'];
            spell_db::base_name(full) == if costs(inner) {
                name
            } else {
                full
            }
        }),
{
    let full = name + seq!['('] + inner + seq![')'];
    assert(full[0] == name[0]);
    assert(full.last() == ')');
    unwhite_ends_stay(full);
    let n = name.len() as int;
    assert forall|k: int| n < k < full.len() implies full[k] != '(' by {
        if k < full.len() - 1 {
            assert(full[k] == inner[k - n - 1]);
        }
    }
    last_stands(full, '(', n);
    let tail = full.skip(n);
    assert(tail[tail.len() - 1] == ')');
    last_stands(tail, ')', tail.len() - 1);
    assert(full.subrange(n + 1, n + tail.len() - 1) =~= inner);
    assert(full.take(n) =~= name);
    unwhite_ends_stay(name);
    if costs(inner) {
        assert(spell_db::is_cost(inner));
    }
    if spell_db::is_cost(inner) {
        assert forall|i: int| 0 <= i < inner.len() implies ('0' <= #[trigger] inner[i] && inner[i]
            <= '9') || inner[i] == '/' || inner[i] == ' ' by {
            assert(spell_db::is_cost_char(inner[i]));
        }
    }
}

/// An entry of the book names a spell where entry and name could be read and the name
/// says something; the number stands in its second word, lowest byte first.
pub proof fn entries_give_name_and_number(e: BookEntry, head: Vec<u8>, raw: Vec<u8>)
    requires
        e.head == Some(head),
        e.raw == Some(raw),
        head@.len() == 16,
    ensures
        spell_book::entry_spell(e) is Some <==> {
            &&& e.ptr != 0
            &&& head@[12] != 0 || head@[13] != 0 || head@[14] != 0 || head@[15] != 0
            &&& raw@.len() > 0 && raw@[0] != 0
            &&& spell_db::base_name(e.full@).len() > 0
        },
        spell_book::entry_spell(e) matches Some((name, number)) ==> {
            &&& name == spell_db::base_name(e.full@)
            &&& number == head@[4] + 0x100 * head@[5] + 0x1_0000 * head@[6] + 0x100_0000 * head@[7]
        },
{
    let ptr = head@.subrange(12, 16);
    let number = head@.subrange(4, 8);
    assert(ptr[0] == head@[12] && ptr[1] == head@[13] && ptr[2] == head@[14] && ptr[3] == head@[15]);
    assert(number[0] == head@[4] && number[1] == head@[5] && number[2] == head@[6] && number[3]
        == head@[7]);
}

/// What could not be read names no spell.
pub proof fn unread_entries_give_nothing(e: BookEntry)
    requires
        e.ptr == 0 || e.head is None || e.raw is None,
    ensures
        spell_book::entry_spell(e) is None,
{
}

/// Whether an entry gives a number to a name.
pub open spec fn gives(e: BookEntry, name: Seq<char>, number: u32) -> bool {
    spell_book::entry_spell(e) == Some((name, number))
}

/// A name has a number where some entry gives it one: the highest that any does.
pub proof fn numbers_are_the_highest(entries: Seq<BookEntry>, name: Seq<char>)
    ensures
        ({
            let all = spell_book::book_numbers(entries);
            &&& all.dom().contains(name) <==> exists|i: int, n: u32|
                0 <= i < entries.len() && #[trigger] gives(entries[i], name, n)
            &&& all.dom().contains(name) ==> exists|i: int|
                0 <= i < entries.len() && #[trigger] gives(entries[i], name, all[name])
            &&& forall|i: int, n: u32|
                0 <= i < entries.len() && #[trigger] gives(entries[i], name, n) ==> n <= all[name]
        }),
    decreases entries.len(),
{
    if entries.len() > 0 {
        let rest = entries.drop_last();
        let last = entries.last();
        numbers_are_the_highest(rest, name);
        let before = spell_book::book_numbers(rest);
        let all = spell_book::book_numbers(entries);
        assert(entries[entries.len() - 1] == last);
        assert forall|i: int, n: u32|
            0 <= i < entries.len() && #[trigger] gives(entries[i], name, n) implies n <= all[name]
            && all.dom().contains(name) by {
            if i < rest.len() {
                assert(gives(rest[i], name, n));
            }
        }
        if all.dom().contains(name) {
            if gives(last, name, all[name]) {
                assert(gives(entries[entries.len() - 1], name, all[name]));
            } else {
                let i = choose|i: int|
                    0 <= i < rest.len() && #[trigger] gives(rest[i], name, before[name]);
                assert(gives(entries[i], name, all[name]));
            }
        }
    }
}

/// What is wrong with a book is told in order: the book, its count, its array; a book
/// has between one and 1024 spells.
pub proof fn books_are_looked_at_in_order(head: BookHead)
    ensures
        ({
            let fault = spell_book::head_fault(head);
            &&& head.book_ptr is None ==> fault == Some(SpellBookError::PointerUnreadable)
            &&& head.book_ptr == Some(0u32) ==> fault == Some(SpellBookError::PointerNull)
            &&& head.book_ptr is Some && head.book_ptr->0 > 0 ==> {
                &&& head.count is None ==> fault == Some(SpellBookError::CountUnreadable)
                &&& head.count is Some && head.array_ptr is None ==> fault == Some(
                    SpellBookError::ArrayPointerUnreadable,
                )
                &&& head.count is Some && head.array_ptr is Some ==> {
                    &&& fault == Some(SpellBookError::Empty) <==> head.count->0 == 0
                        || head.array_ptr->0 == 0
                    &&& fault is None <==> 1 <= head.count->0 <= 1024 && head.array_ptr->0 > 0
                    &&& fault == Some(SpellBookError::CountTooLarge) <==> head.count->0 > 1024
                        && head.array_ptr->0 > 0
                }
            }
        }),
{
}

/// A book is used as long as it is the player's; another takes its place only where it
/// could be built.
pub proof fn books_are_used_while_they_are_the_players(
    book: SpellBook,
    current: u32,
    new: SpellBook,
    fault: SpellBookError,
)
    ensures
        spell_book::fresh(Some(book), current) <==> current > 0 && book.book_ptr == current,
        !spell_book::fresh(None, current),
        ({
            let kept = spell_book::refreshed(Some(book), current, Ok(new));
            kept == Some(
                if current > 0 && book.book_ptr == current {
                    book
                } else {
                    new
                },
            )
        }),
        spell_book::refreshed(None, current, Ok(new)) == Some(new),
        spell_book::refreshed(Some(book), current, Err(fault)) == Some(book),
        spell_book::refreshed(None, current, Err(fault)) is None,
{
}

/// How many bytes stand before the first zero.
proof fn before_zero(s: Seq<u8>, n: int)
    requires
        0 <= n <= s.len(),
        forall|i: int| 0 <= i < n ==> s[i] != 0,
        n == s.len() || s[n] == 0,
    ensures
        code::until_zero(s) == s.take(n),
    decreases n,
{
    if n > 0 {
        let rest = s.drop_first();
        assert forall|i: int| 0 <= i < n - 1 implies rest[i] != 0 by {
            assert(rest[i] == s[i + 1]);
        }
        before_zero(rest, n - 1);
        assert(code::until_zero(s) =~= s.take(n));
    } else {
        assert(s.take(0) =~= Seq::<u8>::empty());
    }
}

/// A text that was read ends before its first zero.
pub proof fn texts_end_at_the_zero(s: Seq<u8>, n: int)
    requires
        0 <= n <= s.len(),
        forall|i: int| 0 <= i < n ==> s[i] != 0,
        n == s.len() || s[n] == 0,
    ensures
        code::until_zero(s) == s.take(n),
{
    before_zero(s, n);
}

/// A record names a spell where its name ends within 64 bytes and says something.
pub proof fn records_give_their_name(rec: SpellRecord, raw: Vec<u8>, n: int)
    requires
        rec.raw == Some(raw),
        0 <= n <= raw@.len(),
        forall|i: int| 0 <= i < n ==> raw@[i] != 0,
        n == raw@.len() || raw@[n] == 0,
    ensures
        spell_db::record_name(rec) is Some <==> rec.ptr != 0 && 0 < n < 64 && spell_db::base_name(
            rec.full@,
        ).len() > 0,
        spell_db::record_name(rec) matches Some(name) ==> name == spell_db::base_name(rec.full@),
{
    before_zero(raw@, n);
}

/// A chat line holds up to 95 bytes of text and a zero, its color and its source; the
/// ring goes on at the next of its 150 slots.
pub proof fn chat_lines_hold_text_and_color(index: u32, line: Seq<u8>, color: u16, i: int)
    requires
        index < 150,
    ensures
        ({
            let w = chat::line_writes(index, line, color);
            let entry = w[0].1;
            &&& w.len() == 2
            &&& w[0].0 == 0x0099_6D00 + index * 0x126
            &&& entry.len() == 0x126
            &&& 0 <= i < 95 ==> entry[i] == if i < line.len() {
                line[i]
            } else {
                0u8
            }
            &&& entry[95] == 0
            &&& entry[0x60] + 0x100 * entry[0x61] == color
            &&& entry[0x62] == 0xFF && entry[0x63] == 0xFF
            &&& 0x64 <= i < 0x126 ==> entry[i] == 0
            &&& w[1].0 == 0x0098_0EA0
            &&& code::from_le32(w[1].1) == if index == 149 {
                0u32
            } else {
                (index + 1) as u32
            }
        }),
{
    let next = ((index + 1) % 150) as u32;
    code::le32_round_trip(next);
}

/// A window that shall not be seen is hidden where it is seen, and the other way round;
/// one that is as it shall be stays so; one that shall close closes.
pub proof fn windows_become_what_is_wanted(visible: bool)
    ensures
        log_window::step_of(Visibility::Hidden, true) == WindowStep::Hide,
        log_window::step_of(Visibility::Hidden, false) == WindowStep::Stay,
        log_window::step_of(Visibility::Shown, true) == WindowStep::Stay,
        log_window::step_of(Visibility::Shown, false) == WindowStep::Show,
        log_window::step_of(Visibility::Close, visible) == WindowStep::Close,
{
}

/// Characters take one byte up to 0x7F, two up to 0x7FF, three up to 0xFFFF, else four.
pub proof fn widths_are_those_of_utf8(c: char)
    ensures
        log_window::char_width(c) == 1 <==> c as u32 <= 0x7F,
        log_window::char_width(c) <= 2 <==> c as u32 <= 0x7FF,
        log_window::char_width(c) <= 3 <==> c as u32 <= 0xFFFF,
        1 <= log_window::char_width(c) <= 4,
{
}

/// The bytes of a text are the bytes of its parts.
pub proof fn bytes_add_up(a: Seq<char>, b: Seq<char>)
    ensures
        log_window::utf8_len(a + b) == log_window::utf8_len(a) + log_window::utf8_len(b),
        a.len() == 1 ==> log_window::utf8_len(a) == log_window::char_width(a[0]),
    decreases a.len(),
{
    if a.len() > 0 {
        assert((a + b).drop_first() =~= a.drop_first() + b);
        bytes_add_up(a.drop_first(), b);
        if a.len() == 1 {
            assert(log_window::utf8_len(a.drop_first()) == 0);
        }
    } else {
        assert(a + b =~= b);
    }
}

proof fn an_end_is_left(s: Seq<char>, n: int) -> (k: int)
    ensures
        0 <= k <= s.len(),
        log_window::without_bytes(s, n) == s.skip(k),
        k > 0 ==> log_window::utf8_len(s) - log_window::utf8_len(s.skip(k - 1)) < n,
    decreases s.len(),
{
    if n <= 0 || s.len() == 0 {
        assert(s.skip(0) =~= s);
        0
    } else {
        let rest = s.drop_first();
        let j = an_end_is_left(rest, n - log_window::char_width(s[0]));
        assert(s.skip(j + 1) =~= rest.skip(j));
        if j > 0 {
            assert(s.skip(j) =~= rest.skip(j - 1));
        } else {
            assert(s.skip(0) =~= s);
        }
        j + 1
    }
}

/// The window keeps the longest end of its text that fits into 102400 bytes.
pub proof fn the_longest_end_is_kept(s: Seq<char>) -> (k: int)
    ensures
        0 <= k <= s.len(),
        log_window::kept(s) == s.skip(k),
        log_window::utf8_len(s.skip(k)) <= 102400,
        k > 0 ==> log_window::utf8_len(s.skip(k - 1)) > 102400,
{
    log_window::kept_is_within_the_limit(s);
    an_end_is_left(s, log_window::utf8_len(s) - 102400)
}

/// A line goes behind all that was there, with a line end behind it; without lines
/// nothing changes.
pub proof fn lines_go_to_the_end(buffer: Seq<char>, lines: Seq<String>, line: String)
    ensures
        log_window::joined(buffer, lines.push(line)) == log_window::joined(buffer, lines) + line@
            + seq!['\r', '\n'],
        log_window::joined(buffer, Seq::empty()) == buffer,
        log_window::appended(buffer, Seq::empty()) == buffer,
        log_window::appended(buffer, lines.push(line)) == log_window::kept(
            log_window::joined(buffer, lines.push(line)),
        ),
{
    assert(lines.push(line).drop_last() =~= lines);
}

/// A file's name is the character's, with an underscore for each of the nine characters
/// that cannot stand there, and for each control character.
pub proof fn file_names_keep_what_they_can(name: Seq<char>, i: int)
    requires
        0 <= i < name.len(),
    ensures
        profile::sanitized(name).len() == name.len(),
        ({
            let c = name[i];
            let n = c as u32;
            let bad = seq!['<', '>', ':', '"', '/', '\\', '|', '?', '*'].contains(c) || n < 0x20
                || 0x7F <= n <= 0x9F;
            profile::sanitized(name)[i] == if bad {
                '_'
            } else {
                c
            }
        }),
{
    let c = name[i];
    let all = seq!['<', '>', ':', '"', '/', '\\', '|', '?', '*'];
    assert(all[0] == '<' && all[1] == '>' && all[2] == ':' && all[3] == '"' && all[4] == '/'
        && all[5] == '\\' && all[6] == '|' && all[7] == '?' && all[8] == '*');
}

/// The player's name is what was decoded, without white space around it; it is there
/// where everything on the way to it could be read and it says something.
pub proof fn player_names_are_trimmed(player: u32, ptr: u32, raw: Seq<u8>, decoded: Seq<char>)
    ensures
        ({
            let name = profile::name_read(Some(player), Some(ptr), Some(raw), decoded);
            &&& name is Some <==> player > 0 && ptr > 0 && raw.len() > 0 && raw[0] != 0
                && text::trimmed(decoded).len() > 0
            &&& name is Some ==> name->0 == text::trimmed(decoded)
        }),
        profile::name_read(None, Some(ptr), Some(raw), decoded) is None,
        profile::name_read(Some(player), None, Some(raw), decoded) is None,
        profile::name_read(Some(player), Some(ptr), None, decoded) is None,
{
}

} // verus!
