//! The player's bag.

use vstd::prelude::*;

use crate::text;
use crate::text::contains_chars;
use crate::text::same_text;
use crate::text::starts_with;
use crate::text::to_chars;

verus! {

/// What the client appends to the name of an item that is worn.
pub const IN_USE: &'static str = "(使用中)";

/// What the client appends to the name of a weapon that is wielded.
pub const WIELDED: &'static str = "(揮舞)";

/// An item of the bag.
#[derive(Debug)]
pub struct Item {
    /// Where the item stands in the client.
    pub entry_addr: u32,
    /// The number under which packets name the item.
    pub item_param: u32,
    pub count: u32,
    /// The name as the client shows it.
    pub name: String,
    /// The name without anything that the client adds to it.
    pub clean_name: String,
    /// The name without the quantity.
    pub bare_name: String,
}

/// What was read of the bag.
#[derive(Debug)]
pub enum InventoryRead {
    /// It has not been read yet.
    NotRead,
    /// It could not be read.
    Failed,
    Items(Vec<Item>),
}

/// Which item is looked for.
pub enum Wanted<'a> {
    /// One with this name.
    Exact(&'a str),
    /// One with this clean name.
    Clean(&'a str),
    /// One with this name but for the quantity.
    Bare(&'a str),
    /// One whose name starts with this.
    Prefixed(&'a str),
    /// One whose name holds this.
    Tagged(&'a str),
    /// One whose name holds the first text and whose clean name is the second.
    TaggedClean(&'a str, &'a str),
}

/// Which item is looked for, with names as sequences of characters.
pub enum Want {
    Exact(Seq<char>),
    Clean(Seq<char>),
    Bare(Seq<char>),
    Prefixed(Seq<char>),
    Tagged(Seq<char>),
    TaggedClean(Seq<char>, Seq<char>),
}

impl Want {
    /// Whether an item is looked for.
    pub open spec fn fits(self, item: Item) -> bool {
        match self {
            Want::Exact(n) => item.name@ == n,
            Want::Clean(n) => item.clean_name@ == n,
            Want::Bare(n) => item.bare_name@ == n,
            Want::Prefixed(p) => text::has_prefix(item.name@, p),
            Want::Tagged(t) => text::contains(item.name@, t),
            Want::TaggedClean(t, n) => text::contains(item.name@, t) && item.clean_name@ == n,
        }
    }
}

impl<'a> View for Wanted<'a> {
    type V = Want;

    open spec fn view(&self) -> Want {
        match self {
            Wanted::Exact(n) => Want::Exact(n@),
            Wanted::Clean(n) => Want::Clean(n@),
            Wanted::Bare(n) => Want::Bare(n@),
            Wanted::Prefixed(p) => Want::Prefixed(p@),
            Wanted::Tagged(t) => Want::Tagged(t@),
            Wanted::TaggedClean(t, n) => Want::TaggedClean(t@, n@),
        }
    }
}

impl<'a> Wanted<'a> {
    fn matches(&self, item: &Item) -> (r: bool)
        ensures
            r == self@.fits(*item),
    {
        match self {
            Wanted::Exact(n) => same_text(item.name.as_str(), n),
            Wanted::Clean(n) => same_text(item.clean_name.as_str(), n),
            Wanted::Bare(n) => same_text(item.bare_name.as_str(), n),
            Wanted::Prefixed(p) => {
                let name: Vec<char> = to_chars(item.name.as_str());
                let head: Vec<char> = to_chars(p);
                starts_with(name.as_slice(), head.as_slice())
            },
            Wanted::Tagged(t) => holds(item.name.as_str(), t),
            Wanted::TaggedClean(t, n) => holds(item.name.as_str(), t) && same_text(
                item.clean_name.as_str(),
                n,
            ),
        }
    }
}

/// Whether a text holds another.
pub fn holds(s: &str, p: &str) -> (r: bool)
    ensures
        r == text::contains(s@, p@),
{
    let name: Vec<char> = to_chars(s);
    let part: Vec<char> = to_chars(p);
    contains_chars(name.as_slice(), part.as_slice())
}

/// The first item that is looked for.
pub open spec fn first_fit(items: Seq<Item>, wanted: Want) -> Option<int> {
    first_fit_from(items, wanted, 0)
}

/// The first item from `at` on that is looked for.
pub open spec fn first_fit_from(items: Seq<Item>, wanted: Want, at: int) -> Option<int>
    decreases items.len() - at,
{
    if at < 0 || at >= items.len() {
        None
    } else if wanted.fits(items[at]) {
        Some(at)
    } else {
        first_fit_from(items, wanted, at + 1)
    }
}

/// The first fit is an item that fits, and no item before it does.
pub proof fn first_fit_is_first(items: Seq<Item>, wanted: Want, at: int)
    requires
        0 <= at,
    ensures
        first_fit_from(items, wanted, at) matches Some(i) ==> at <= i < items.len() && wanted.fits(
            items[i],
        ) && forall|k: int| at <= k < i ==> !wanted.fits(#[trigger] items[k]),
        first_fit_from(items, wanted, at) is None ==> forall|k: int|
            at <= k < items.len() ==> !wanted.fits(#[trigger] items[k]),
    decreases items.len() - at,
{
    if at < items.len() && !wanted.fits(items[at]) {
        first_fit_is_first(items, wanted, at + 1);
    }
}

/// Looks for an item.
pub fn find(items: &Vec<Item>, wanted: &Wanted) -> (r: Option<usize>)
    ensures
        match r {
            Some(i) => i < items@.len() && first_fit(items@, wanted@) == Some(i as int)
                && wanted@.fits(items@[i as int]),
            None => first_fit(items@, wanted@) is None,
        },
{
    let mut i: usize = 0;
    while i < items.len()
        invariant
            i <= items@.len(),
            first_fit(items@, wanted@) == first_fit_from(items@, wanted@, i as int),
        decreases items@.len() - i,
    {
        if wanted.matches(&items[i]) {
            return Some(i);
        }
        i += 1;
    }
    None
}

} // verus!
