//! Names, and what is looked for in the bag.

use vstd::prelude::*;

use crate::inventory;
use crate::inventory::Item;
use crate::inventory::Want;
use crate::name_table;
use crate::notification::queue;
use crate::text;

verus! {

/// Whether `p` stands in `s`, character by character.
pub open spec fn occurs(s: Seq<char>, p: Seq<char>) -> bool {
    exists|at: int| #[trigger] occurs_at(s, p, at)
}

/// Whether `p` stands in `s` from `at` on, character by character.
pub open spec fn occurs_at(s: Seq<char>, p: Seq<char>, at: int) -> bool {
    0 <= at && at + p.len() <= s.len() && forall|k: int| 0 <= k < p.len() ==> s[at + k] == #[trigger] p[k]
}

/// A text holds another exactly where the other's characters stand in it, one after the
/// other; it starts with another where they stand at its beginning.
pub proof fn holding_is_standing_in(s: Seq<char>, p: Seq<char>)
    ensures
        text::contains(s, p) <==> occurs(s, p),
        text::has_prefix(s, p) <==> occurs_at(s, p, 0),
{
    assert forall|at: int| text::stands_at(s, p, at) <==> #[trigger] occurs_at(s, p, at) by {
        if text::stands_at(s, p, at) {
            assert forall|k: int| 0 <= k < p.len() implies s[at + k] == #[trigger] p[k] by {
                assert(s.subrange(at, at + p.len())[k] == p[k]);
            }
        }
        if occurs_at(s, p, at) {
            assert(s.subrange(at, at + p.len()) =~= p);
        }
    }
    if text::contains(s, p) {
        let at = choose|at: int| #[trigger] text::stands_at(s, p, at);
        assert(occurs_at(s, p, at));
    }
    if occurs(s, p) {
        let at = choose|at: int| #[trigger] occurs_at(s, p, at);
        assert(text::stands_at(s, p, at));
    }
    if text::has_prefix(s, p) {
        assert forall|k: int| 0 <= k < p.len() implies s[0 + k] == #[trigger] p[k] by {
            assert(s.take(p.len() as int)[k] == p[k]);
        }
    }
    if occurs_at(s, p, 0) {
        assert forall|k: int| 0 <= k < p.len() implies s[k] == p[k] by {
            assert(s[0 + k] == p[k]);
        }
        assert(s.take(p.len() as int) =~= p);
    }
}

/// Trimming takes nothing but white space, and only from the two ends: what is left is
/// one stretch of the text, white on neither end, with nothing but white space around
/// it.
pub proof fn trimming_takes_the_white_ends(s: Seq<char>) -> (at: int)
    ensures
        0 <= at <= at + text::trimmed(s).len() <= s.len(),
        text::trimmed(s) == s.subrange(at, at + text::trimmed(s).len()),
        forall|k: int| 0 <= k < at ==> white(#[trigger] s[k]),
        forall|k: int| at + text::trimmed(s).len() <= k < s.len() ==> white(#[trigger] s[k]),
        text::trimmed(s).len() > 0 ==> !white(text::trimmed(s)[0]) && !white(
            text::trimmed(s).last(),
        ),
{
    let t = text::trim_start(s);
    start_is_cut(s);
    end_is_cut(t);
    let at = s.len() - t.len();
    let r = text::trimmed(s);
    assert forall|k: int| at + r.len() <= k < s.len() implies white(#[trigger] s[k]) by {
        assert(t[k - at] == s[k]);
    }
    assert(r =~= s.subrange(at, at + r.len()));
    at
}

/// The white characters: tab to carriage return, the spaces, and the line and paragraph
/// separators.
pub open spec fn white(c: char) -> bool {
    let n = c as u32;
    ||| 9 <= n && n <= 13
    ||| n == 32 || n == 133 || n == 160 || n == 5760
    ||| 8192 <= n && n <= 8202
    ||| n == 8232 || n == 8233 || n == 8239 || n == 8287 || n == 12288
}

proof fn start_is_cut(s: Seq<char>)
    ensures
        text::trim_start(s).len() <= s.len(),
        text::trim_start(s) == s.skip(s.len() - text::trim_start(s).len()),
        forall|k: int|
            0 <= k < s.len() - text::trim_start(s).len() ==> white(#[trigger] s[k]),
        text::trim_start(s).len() > 0 ==> !white(text::trim_start(s)[0]),
    decreases s.len(),
{
    if s.len() > 0 && text::is_white(s[0]) {
        let t = s.drop_first();
        start_is_cut(t);
        let r = text::trim_start(s);
        assert(r =~= s.skip(s.len() - r.len()));
        assert forall|k: int| 0 <= k < s.len() - r.len() implies white(#[trigger] s[k]) by {
            if k > 0 {
                assert(t[k - 1] == s[k]);
            }
        }
    } else {
        assert(s =~= s.skip(0));
    }
}

proof fn end_is_cut(s: Seq<char>)
    ensures
        text::trim_end(s).len() <= s.len(),
        text::trim_end(s) == s.take(text::trim_end(s).len() as int),
        forall|k: int| text::trim_end(s).len() <= k < s.len() ==> white(#[trigger] s[k]),
        text::trim_end(s).len() > 0 ==> !white(text::trim_end(s).last()),
    decreases s.len(),
{
    if s.len() > 0 && text::is_white(s.last()) {
        let t = s.drop_last();
        end_is_cut(t);
        let r = text::trim_end(s);
        assert(r =~= s.take(r.len() as int));
        assert forall|k: int| r.len() <= k < s.len() implies white(#[trigger] s[k]) by {
            if k < s.len() - 1 {
                assert(t[k] == s[k]);
            }
        }
    } else {
        assert(s =~= s.take(s.len() as int));
    }
}

/// The time since something is what has to be added to then to get now; the future has
/// not begun.
pub proof fn ages_are_differences(then: u64, now: u64)
    ensures
        queue::age(then, now) >= 0,
        then <= now ==> then + queue::age(then, now) == now,
        now <= then ==> queue::age(then, now) == 0,
{
}

/// Whether `i` is the first item of which `ok` holds.
pub open spec fn first_that(items: Seq<Item>, ok: spec_fn(Item) -> bool, i: int) -> bool {
    0 <= i < items.len() && ok(items[i]) && forall|k: int| 0 <= k < i ==> !ok(#[trigger] items[k])
}

/// Whether `ok` holds of no item.
pub open spec fn none_that(items: Seq<Item>, ok: spec_fn(Item) -> bool) -> bool {
    forall|k: int| 0 <= k < items.len() ==> !ok(#[trigger] items[k])
}

/// Whether `found` is the first item of which `ok` holds, or `None` where it holds of
/// none.
pub open spec fn finds(items: Seq<Item>, found: Option<int>, ok: spec_fn(Item) -> bool) -> bool {
    match found {
        Some(i) => first_that(items, ok, i),
        None => none_that(items, ok),
    }
}

/// The first item is found whose name is, or starts with, or holds what is looked for;
/// whose clean name, or whose name but for the quantity, is that; nothing is found only
/// where there is no such item.
pub proof fn the_first_such_item_is_found(items: Seq<Item>, n: Seq<char>, t: Seq<char>)
    ensures
        finds(items, inventory::first_fit(items, Want::Exact(n)), |it: Item| it.name@ == n),
        finds(items, inventory::first_fit(items, Want::Clean(n)), |it: Item| it.clean_name@ == n),
        finds(items, inventory::first_fit(items, Want::Bare(n)), |it: Item| it.bare_name@ == n),
        finds(
            items,
            inventory::first_fit(items, Want::Prefixed(n)),
            |it: Item| occurs_at(it.name@, n, 0),
        ),
        finds(items, inventory::first_fit(items, Want::Tagged(n)), |it: Item| occurs(it.name@, n)),
        finds(
            items,
            inventory::first_fit(items, Want::TaggedClean(t, n)),
            |it: Item| occurs(it.name@, t) && it.clean_name@ == n,
        ),
{
    assert forall|s: Seq<char>, p: Seq<char>|
        #![trigger text::contains(s, p)]
        #![trigger occurs(s, p)]
        text::contains(s, p) == occurs(s, p) by {
        holding_is_standing_in(s, p);
    }
    assert forall|s: Seq<char>, p: Seq<char>|
        #![trigger text::has_prefix(s, p)]
        #![trigger occurs_at(s, p, 0)]
        text::has_prefix(s, p) == occurs_at(s, p, 0) by {
        holding_is_standing_in(s, p);
    }
    inventory::first_fit_is_first(items, Want::Exact(n), 0);
    inventory::first_fit_is_first(items, Want::Clean(n), 0);
    inventory::first_fit_is_first(items, Want::Bare(n), 0);
    inventory::first_fit_is_first(items, Want::Prefixed(n), 0);
    inventory::first_fit_is_first(items, Want::Tagged(n), 0);
    inventory::first_fit_is_first(items, Want::TaggedClean(t, n), 0);
}

/// A table gives the number of a name that stands in it, and nothing for another.
pub proof fn tables_give_their_numbers(table: Map<Seq<char>, u32>, name: Seq<char>)
    ensures
        table.dom().contains(name) ==> name_table::found(table, name) == Some(table[name]),
        !table.dom().contains(name) ==> name_table::found(table, name) is None,
{
}

} // verus!
