//! The spells that the player has learnt, by name.
//!
//! The book is an object with a count and an array of pointers to entries; an entry
//! holds the number under which the spell is cast (at the player's level) and a
//! pointer to the name.

use vstd::prelude::*;

use crate::code;
use crate::code::read_u32_le;
use crate::code::zero_at;
use crate::name_table;
use crate::name_table::NameTable;
use crate::spell_db;
use crate::spell_db::strip_paren_suffix;
use crate::text::to_chars;

verus! {

/// Offset of the count in the book.
pub const COUNT_OFFSET: u32 = 0x2C;

/// Offset of the array's address in the book.
pub const ARRAY_OFFSET: u32 = 0x58;

/// Most entries that a book can have.
pub const MAX_COUNT: u32 = 1024;

/// How many bytes of an entry are read.
pub const ENTRY_BYTES: usize = 16;

/// How many bytes of a name are read.
pub const NAME_MAX_BYTES: usize = 64;

/// What was read of one entry.
#[derive(Debug, Clone)]
pub struct BookEntry {
    /// The pointer to the entry, 0 for none.
    pub ptr: u32,
    /// The entry, if it could be read.
    pub head: Option<Vec<u8>>,
    /// The start of the name, if it could be read.
    pub raw: Option<Vec<u8>>,
    /// The bytes of the name before the first zero, decoded.
    pub full: String,
}

/// Whether an entry that was read has all its bytes.
pub open spec fn entry_complete(e: BookEntry) -> bool {
    e.head matches Some(head) ==> head@.len() == ENTRY_BYTES
}

/// The name and the number that an entry gives, if it gives one.
pub open spec fn entry_spell(e: BookEntry) -> Option<(Seq<char>, u32)> {
    if e.ptr == 0 {
        None
    } else {
        match e.head {
            None => None,
            Some(head) => if code::from_le32(head@.subrange(12, 16)) == 0 {
                None
            } else {
                match e.raw {
                    None => None,
                    Some(raw) => if code::until_zero(raw@).len() == 0 || spell_db::base_name(
                        e.full@,
                    ).len() == 0 {
                        None
                    } else {
                        Some(
                            (spell_db::base_name(e.full@), code::from_le32(head@.subrange(4, 8))),
                        )
                    },
                }
            },
        }
    }
}

/// The numbers that entries give to names: the highest number of a name counts.
pub open spec fn book_numbers(entries: Seq<BookEntry>) -> Map<Seq<char>, u32>
    decreases entries.len(),
{
    if entries.len() == 0 {
        Map::empty()
    } else {
        let before = book_numbers(entries.drop_last());
        match entry_spell(entries.last()) {
            None => before,
            Some((name, packed)) => if before.dom().contains(name) && before[name] >= packed {
                before
            } else {
                before.insert(name, packed)
            },
        }
    }
}

/// The highest number of each name counts.
pub proof fn highest_number_counts(entries: Seq<BookEntry>, i: int)
    requires
        0 <= i < entries.len(),
        entry_spell(entries[i]) is Some,
    ensures
        book_numbers(entries).dom().contains((entry_spell(entries[i])->0).0),
        book_numbers(entries)[(entry_spell(entries[i])->0).0] >= (entry_spell(entries[i])->0).1,
    decreases entries.len(),
{
    if i < entries.len() - 1 {
        assert(entries.drop_last()[i] == entries[i]);
        highest_number_counts(entries.drop_last(), i);
    }
}

/// Why there is no book.
#[derive(Debug, Clone, Copy, PartialEq, Eq, Structural)]
pub enum SpellBookError {
    /// The pointer to the book could not be read.
    PointerUnreadable,
    /// The player is not in the world yet.
    PointerNull,
    /// The count could not be read.
    CountUnreadable,
    /// The array's address could not be read.
    ArrayPointerUnreadable,
    /// No spells, or no array.
    Empty,
    /// Too many spells to be a book.
    CountTooLarge,
    /// The array could not be read.
    ArrayUnreadable,
}

/// What was read of the book's object.
#[derive(Debug, Clone, Copy)]
pub struct BookHead {
    pub book_ptr: Option<u32>,
    pub count: Option<u32>,
    pub array_ptr: Option<u32>,
}

/// The first thing that is wrong with a book's object.
pub open spec fn head_fault(head: BookHead) -> Option<SpellBookError> {
    if head.book_ptr is None {
        Some(SpellBookError::PointerUnreadable)
    } else if head.book_ptr->0 == 0 {
        Some(SpellBookError::PointerNull)
    } else if head.count is None {
        Some(SpellBookError::CountUnreadable)
    } else if head.array_ptr is None {
        Some(SpellBookError::ArrayPointerUnreadable)
    } else if head.count->0 == 0 || head.array_ptr->0 == 0 {
        Some(SpellBookError::Empty)
    } else if head.count->0 > MAX_COUNT {
        Some(SpellBookError::CountTooLarge)
    } else {
        None
    }
}

/// The spells that the player has learnt, and the book that they were read from.
#[derive(Debug, Clone)]
pub struct SpellBook {
    pub table: NameTable,
    pub book_ptr: u32,
}

impl View for SpellBook {
    type V = Map<Seq<char>, u32>;

    open spec fn view(&self) -> Map<Seq<char>, u32> {
        self.table@
    }
}

impl Default for SpellBook {
    fn default() -> (r: Self)
        ensures
            r.wf(),
            r@ == Map::<Seq<char>, u32>::empty(),
            r.book_ptr == 0,
    {
        SpellBook { table: NameTable::new(), book_ptr: 0 }
    }
}

/// The number of entries that have to be read, if the book's object can be used.
pub fn check_head(head: &BookHead) -> (r: Result<u32, SpellBookError>)
    ensures
        match r {
            Ok(count) => head_fault(*head) is None && count == head.count->0,
            Err(e) => head_fault(*head) == Some(e),
        },
{
    let book_ptr: u32 = match head.book_ptr {
        None => return Err(SpellBookError::PointerUnreadable),
        Some(p) => p,
    };
    if book_ptr == 0 {
        return Err(SpellBookError::PointerNull);
    }
    let count: u32 = match head.count {
        None => return Err(SpellBookError::CountUnreadable),
        Some(n) => n,
    };
    let array_ptr: u32 = match head.array_ptr {
        None => return Err(SpellBookError::ArrayPointerUnreadable),
        Some(p) => p,
    };
    if count == 0 || array_ptr == 0 {
        return Err(SpellBookError::Empty);
    }
    if count > MAX_COUNT {
        return Err(SpellBookError::CountTooLarge);
    }
    Ok(count)
}

/// The name and the number of an entry.
fn spell_of_entry(e: &BookEntry) -> (r: Option<(String, u32)>)
    requires
        entry_complete(*e),
    ensures
        (match r {
            Some((name, packed)) => Some((name@, packed)),
            None => None,
        }) == entry_spell(*e),
{
    if e.ptr == 0 {
        return None;
    }
    match &e.head {
        None => None,
        Some(head) => {
            let packed: u32 = read_u32_le(head.as_slice(), 4);
            let name_ptr: u32 = read_u32_le(head.as_slice(), 12);
            if name_ptr == 0 {
                return None;
            }
            match &e.raw {
                None => None,
                Some(raw) => {
                    if zero_at(raw.as_slice()) == 0 {
                        return None;
                    }
                    let base: String = strip_paren_suffix(e.full.as_str());
                    let chars: Vec<char> = to_chars(base.as_str());
                    if chars.len() == 0 {
                        return None;
                    }
                    Some((base, packed))
                },
            }
        },
    }
}

impl SpellBook {
    /// The table is a table.
    pub open spec fn wf(&self) -> bool {
        self.table.wf()
    }

    /// Makes the book of what was read of it.
    pub fn build(head: &BookHead, entries: Option<&Vec<BookEntry>>) -> (r: Result<
        SpellBook,
        SpellBookError,
    >)
        requires
            head_fault(*head) is None && entries is Some ==> entries->0@.len() == head.count->0,
            entries matches Some(v) ==> forall|i: int|
                0 <= i < v@.len() ==> entry_complete(#[trigger] v@[i]),
        ensures
            match r {
                Ok(book) => {
                    &&& head_fault(*head) is None && entries is Some
                    &&& book.wf()
                    &&& book@ == book_numbers(entries->0@)
                    &&& Some(book.book_ptr) == head.book_ptr
                },
                Err(e) => match head_fault(*head) {
                    Some(fault) => e == fault,
                    None => entries is None && e == SpellBookError::ArrayUnreadable,
                },
            },
    {
        match check_head(head) {
            Err(e) => return Err(e),
            Ok(_) => {},
        }
        let book_ptr: u32 = match head.book_ptr {
            None => return Err(SpellBookError::PointerUnreadable),
            Some(p) => p,
        };
        match entries {
            None => Err(SpellBookError::ArrayUnreadable),
            Some(list) => {
                let mut table: NameTable = NameTable::new();
                let mut i: usize = 0;
                assert(list@.take(0).len() == 0);
                while i < list.len()
                    invariant
                        i <= list@.len(),
                        forall|k: int| 0 <= k < list@.len() ==> entry_complete(#[trigger] list@[k]),
                        table.wf(),
                        table@ == book_numbers(list@.take(i as int)),
                    decreases list@.len() - i,
                {
                    assert(list@.take(i + 1).drop_last() =~= list@.take(i as int));
                    assert(list@.take(i + 1).last() == list@[i as int]);
                    match spell_of_entry(&list[i]) {
                        None => {},
                        Some((name, packed)) => {
                            table.insert_highest(name, packed);
                        },
                    }
                    i += 1;
                }
                assert(list@.take(list@.len() as int) =~= list@);
                Ok(SpellBook { table, book_ptr })
            },
        }
    }

    /// The number of a spell.
    pub fn lookup(&self, name: &str) -> (r: Option<u32>)
        requires
            self.wf(),
        ensures
            r == name_table::found(self@, name@),
    {
        self.table.lookup(name)
    }

    /// How many spells there are.
    pub fn unique_names(&self) -> (r: usize)
        requires
            self.wf(),
        ensures
            self@.dom().finite(),
            r == self@.dom().len(),
    {
        self.table.len()
    }

    /// The names, each once.
    pub fn names_iter(&self) -> (r: Vec<String>)
        requires
            self.wf(),
        ensures
            forall|i: int, j: int|
                0 <= i < j < r@.len() ==> (#[trigger] r@[i])@ != (#[trigger] r@[j])@,
            forall|i: int| 0 <= i < r@.len() ==> self@.dom().contains((#[trigger] r@[i])@),
            forall|name: Seq<char>|
                #[trigger] self@.dom().contains(name) ==> exists|i: int|
                    0 <= i < r@.len() && (#[trigger] r@[i])@ == name,
    {
        self.table.names()
    }

    /// Whether the player's book is another one by now, or there is none.
    pub open spec fn stale(&self, current_book_ptr: u32) -> bool {
        current_book_ptr == 0 || self.book_ptr != current_book_ptr
    }

    /// Whether the player's book is another one by now, or there is none.
    pub fn is_stale_for(&self, current_book_ptr: u32) -> (r: bool)
        ensures
            r == self.stale(current_book_ptr),
    {
        current_book_ptr == 0 || self.book_ptr != current_book_ptr
    }
}

/// The address of the player's book, 0 where it could not be read.
pub fn read_current_book_ptr(read: Option<u32>) -> (r: u32)
    ensures
        r == match read {
            Some(p) => p,
            None => 0,
        },
{
    match read {
        Some(p) => p,
        None => 0,
    }
}

/// Whether a book that was read is still the player's.
pub open spec fn fresh(cache: Option<SpellBook>, current_book_ptr: u32) -> bool {
    cache is Some && !cache->0.stale(current_book_ptr)
}

/// Whether a book that was read is still the player's.
pub fn is_fresh(cache: &Option<SpellBook>, current_book_ptr: u32) -> (r: bool)
    ensures
        r == fresh(*cache, current_book_ptr),
{
    match cache {
        None => false,
        Some(book) => !book.is_stale_for(current_book_ptr),
    }
}

/// The book that is kept.
pub open spec fn refreshed(
    cache: Option<SpellBook>,
    current_book_ptr: u32,
    built: Result<SpellBook, SpellBookError>,
) -> Option<SpellBook> {
    if fresh(cache, current_book_ptr) || built is Err {
        cache
    } else {
        Some(built->Ok_0)
    }
}

/// Keeps a book that is still the player's; else a book that was built takes its
/// place.  Tells whether there is a book to use.
pub fn ensure_fresh(
    cache: &mut Option<SpellBook>,
    current_book_ptr: u32,
    built: Result<SpellBook, SpellBookError>,
) -> (r: bool)
    ensures
        r == (fresh(*old(cache), current_book_ptr) || built is Ok),
        *final(cache) == refreshed(*old(cache), current_book_ptr, built),
{
    if is_fresh(cache, current_book_ptr) {
        return true;
    }
    match built {
        Ok(book) => {
            *cache = Some(book);
            true
        },
        Err(_) => false,
    }
}

} // verus!
