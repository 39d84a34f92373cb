//! All spells of the client, by name.
//!
//! The client keeps an array of pointers to spell records; the index into the array
//! is the number under which a spell is cast, and a record starts with the spell's
//! name.  Behind the name stand costs in brackets.

use vstd::prelude::*;

use crate::code;
use crate::code::zero_at;
use crate::name_table;
use crate::name_table::NameTable;
use crate::text;
use crate::text::from_chars;
use crate::text::is_white_char;
use crate::text::to_chars;
use crate::text::trim_bounds;

verus! {

/// How many pointers of the array are looked at.
pub const MAX_SCAN: u32 = 256;

/// How many bytes of a name are read; a name that does not end within them is damaged.
pub const NAME_MAX_BYTES: usize = 64;

/// The last place at which a character stands.
pub open spec fn last_of(s: Seq<char>, c: char) -> Option<int>
    decreases s.len(),
{
    if s.len() == 0 {
        None
    } else if s.last() == c {
        Some(s.len() - 1)
    } else {
        last_of(s.drop_last(), c)
    }
}

/// Whether a character can be part of a cost: a digit, a slash or a blank.
pub open spec fn is_cost_char(c: char) -> bool {
    ('0' <= c <= '9') || c == '/' || c == ' '
}

/// Whether a text is a cost.
pub open spec fn is_cost(s: Seq<char>) -> bool {
    s.len() > 0 && forall|i: int| 0 <= i < s.len() ==> is_cost_char(#[trigger] s[i])
}

/// A spell's name without the costs behind it: what stands from the last opening
/// bracket on goes where a cost stands between the brackets.
pub open spec fn base_name(name: Seq<char>) -> Seq<char> {
    let t = text::trimmed(name);
    match last_of(t, '(') {
        None => t,
        Some(open) => match last_of(t.skip(open), ')') {
            None => t,
            Some(close) => if is_cost(t.subrange(open + 1, open + close)) {
                text::trim_end(t.take(open))
            } else {
                t
            },
        },
    }
}

proof fn last_of_facts(s: Seq<char>, c: char)
    ensures
        last_of(s, c) matches Some(i) ==> 0 <= i < s.len() && s[i] == c && forall|k: int|
            i < k < s.len() ==> s[k] != c,
        last_of(s, c) is None ==> forall|k: int| 0 <= k < s.len() ==> s[k] != c,
    decreases s.len(),
{
    if s.len() > 0 && s.last() != c {
        let rest = s.drop_last();
        last_of_facts(rest, c);
        assert forall|k: int| 0 <= k < rest.len() implies s[k] == rest[k] by {
        }
        assert(s[s.len() - 1] == s.last());
    }
}

/// A name without an opening bracket is only trimmed.
pub proof fn plain_names_are_kept(name: Seq<char>)
    requires
        forall|i: int| 0 <= i < name.len() ==> name[i] != '(',
    ensures
        base_name(name) == text::trimmed(name),
{
    last_of_facts(text::trimmed(name), '(');
    if let Some(open) = last_of(text::trimmed(name), '(') {
        trimmed_is_part(name);
        let at = choose|at: int|
            0 <= at && at + text::trimmed(name).len() <= name.len() && #[trigger] name.subrange(
                at,
                at + text::trimmed(name).len(),
            ) == text::trimmed(name);
        assert(name[at + open] == text::trimmed(name)[open]);
    }
}

proof fn trim_start_is_part(s: Seq<char>)
    ensures
        text::trim_start(s).len() <= s.len(),
        text::trim_start(s) == s.skip(s.len() - text::trim_start(s).len()),
    decreases s.len(),
{
    if s.len() > 0 && text::is_white(s[0]) {
        trim_start_is_part(s.drop_first());
        assert(text::trim_start(s) =~= s.skip(s.len() - text::trim_start(s).len()));
    } else {
        assert(s.skip(0) =~= s);
    }
}

proof fn trim_end_is_part(s: Seq<char>)
    ensures
        text::trim_end(s).len() <= s.len(),
        text::trim_end(s) == s.take(text::trim_end(s).len() as int),
    decreases s.len(),
{
    if s.len() > 0 && text::is_white(s.last()) {
        trim_end_is_part(s.drop_last());
        assert(text::trim_end(s) =~= s.take(text::trim_end(s).len() as int));
    } else {
        assert(s.take(s.len() as int) =~= s);
    }
}

proof fn trimmed_is_part(s: Seq<char>)
    ensures
        exists|at: int|
            0 <= at && at + text::trimmed(s).len() <= s.len() && #[trigger] s.subrange(
                at,
                at + text::trimmed(s).len(),
            ) == text::trimmed(s),
{
    trim_start_is_part(s);
    let mid = text::trim_start(s);
    trim_end_is_part(mid);
    let at = s.len() - mid.len();
    assert(s.subrange(at, at + text::trimmed(s).len()) =~= text::trimmed(s));
}

fn find_last(v: &[char], c: char) -> (r: Option<usize>)
    ensures
        match r {
            Some(i) => last_of(v@, c) == Some(i as int),
            None => last_of(v@, c) is None,
        },
{
    let mut n: usize = v.len();
    assert(v@.take(n as int) =~= v@);
    while n > 0
        invariant
            n <= v@.len(),
            last_of(v@, c) == last_of(v@.take(n as int), c),
        decreases n,
    {
        assert(v@.take(n as int).drop_last() =~= v@.take(n - 1));
        assert(v@.take(n as int).last() == v@[n - 1]);
        if v[n - 1] == c {
            return Some(n - 1);
        }
        n -= 1;
    }
    None
}

fn only_costs(v: &[char]) -> (r: bool)
    ensures
        r == is_cost(v@),
{
    if v.len() == 0 {
        return false;
    }
    let mut i: usize = 0;
    while i < v.len()
        invariant
            i <= v@.len(),
            forall|k: int| 0 <= k < i ==> is_cost_char(#[trigger] v@[k]),
        decreases v@.len() - i,
    {
        let c: char = v[i];
        if !(('0' <= c && c <= '9') || c == '/' || c == ' ') {
            return false;
        }
        i += 1;
    }
    true
}

/// A spell's name without the costs behind it.
pub fn strip_paren_suffix(name: &str) -> (r: String)
    ensures
        r@ == base_name(name@),
{
    let all: Vec<char> = to_chars(name);
    let (lo, hi) = trim_bounds(all.as_slice());
    let t: &[char] = vstd::slice::slice_subrange(all.as_slice(), lo, hi);
    match find_last(t, '(') {
        None => from_chars(t),
        Some(open) => {
            proof {
                last_of_facts(t@, '(');
            }
            let tail: &[char] = vstd::slice::slice_subrange(t, open, t.len());
            assert(tail@ =~= t@.skip(open as int));
            match find_last(tail, ')') {
                None => from_chars(t),
                Some(close) => {
                    proof {
                        last_of_facts(tail@, ')');
                        assert(tail@[0] == '(');
                    }
                    let inner: &[char] = vstd::slice::slice_subrange(t, open + 1, open + close);
                    if only_costs(inner) {
                        let mut end: usize = open;
                        while end > 0 && is_white_char(t[end - 1])
                            invariant
                                end <= open <= t@.len(),
                                text::trim_end(t@.take(open as int)) == text::trim_end(
                                    t@.take(end as int),
                                ),
                            decreases end,
                        {
                            assert(t@.take(end as int).drop_last() =~= t@.take(end - 1));
                            end -= 1;
                        }
                        assert(end > 0 ==> t@.take(end as int).last() == t@[end - 1]);
                        let base: &[char] = vstd::slice::slice_subrange(t, 0, end);
                        assert(base@ =~= t@.take(end as int));
                        from_chars(base)
                    } else {
                        from_chars(t)
                    }
                },
            }
        },
    }
}

/// What was read of one spell record.
#[derive(Debug, Clone)]
pub struct SpellRecord {
    /// The pointer to the record, 0 for none.
    pub ptr: u32,
    /// The start of the record, if it could be read.
    pub raw: Option<Vec<u8>>,
    /// The bytes before the first zero, decoded.
    pub full: String,
}

/// The name that a record gives, if it gives one that is not damaged.
pub open spec fn record_name(rec: SpellRecord) -> Option<Seq<char>> {
    if rec.ptr == 0 {
        None
    } else {
        match rec.raw {
            None => None,
            Some(raw) => if code::until_zero(raw@).len() == 0 || code::until_zero(raw@).len()
                >= NAME_MAX_BYTES || base_name(rec.full@).len() == 0 {
                None
            } else {
                Some(base_name(rec.full@))
            },
        }
    }
}

/// The numbers that records give to names: the first record of a name counts.
pub open spec fn record_numbers(records: Seq<SpellRecord>) -> Map<Seq<char>, u32>
    decreases records.len(),
{
    if records.len() == 0 {
        Map::empty()
    } else {
        let before = record_numbers(records.drop_last());
        match record_name(records.last()) {
            None => before,
            Some(name) => if before.dom().contains(name) {
                before
            } else {
                before.insert(name, (records.len() - 1) as u32)
            },
        }
    }
}

/// How many records give a name.
pub open spec fn named_records(records: Seq<SpellRecord>) -> nat
    decreases records.len(),
{
    if records.len() == 0 {
        0
    } else {
        named_records(records.drop_last()) + if record_name(records.last()) is Some {
            1nat
        } else {
            0nat
        }
    }
}

/// Each number belongs to a record of that name, and no earlier record has the name.
pub proof fn first_record_counts(records: Seq<SpellRecord>, i: int)
    requires
        0 <= i < records.len() <= MAX_SCAN,
        record_name(records[i]) is Some,
    ensures
        ({
            let name = record_name(records[i])->0;
            let table = record_numbers(records);
            &&& table.dom().contains(name)
            &&& table[name] <= i
            &&& record_name(records[table[name] as int]) == Some(name)
            &&& forall|k: int| 0 <= k < table[name] ==> record_name(#[trigger] records[k]) != Some(
                name,
            )
        }),
    decreases records.len(),
{
    let name = record_name(records[i])->0;
    let rest = records.drop_last();
    let before = record_numbers(rest);
    if i < rest.len() {
        assert(rest[i] == records[i]);
        first_record_counts(rest, i);
        assert forall|k: int| 0 <= k < before[name] implies record_name(#[trigger] records[k])
            != Some(name) by {
            assert(rest[k] == records[k]);
        }
        assert(rest[before[name] as int] == records[before[name] as int]);
    } else if before.dom().contains(name) {
        table_names_come_from_records(rest, name);
        let j = choose|j: int| 0 <= j < rest.len() && record_name(#[trigger] rest[j]) == Some(name);
        first_record_counts(rest, j);
        assert forall|k: int| 0 <= k < before[name] implies record_name(#[trigger] records[k])
            != Some(name) by {
            assert(rest[k] == records[k]);
        }
        assert(rest[before[name] as int] == records[before[name] as int]);
    } else {
        assert forall|k: int| 0 <= k < rest.len() implies record_name(#[trigger] records[k])
            != Some(name) by {
            if record_name(records[k]) == Some(name) {
                assert(rest[k] == records[k]);
                first_record_counts(rest, k);
            }
        }
    }
}

proof fn table_names_come_from_records(records: Seq<SpellRecord>, name: Seq<char>)
    requires
        record_numbers(records).dom().contains(name),
    ensures
        exists|j: int| 0 <= j < records.len() && record_name(#[trigger] records[j]) == Some(name),
    decreases records.len(),
{
    if records.len() > 0 {
        let rest = records.drop_last();
        if record_numbers(rest).dom().contains(name) {
            table_names_come_from_records(rest, name);
            let j = choose|j: int|
                0 <= j < rest.len() && record_name(#[trigger] rest[j]) == Some(name);
            assert(records[j] == rest[j]);
        } else {
            assert(record_name(records[records.len() - 1]) == Some(name));
        }
    }
}

/// Why there is no table.
#[derive(Debug, Clone, Copy, PartialEq, Eq, Structural)]
pub enum SpellDbError {
    /// The pointer to the array could not be read.
    PointerUnreadable,
    /// The player is not in the world yet.
    PointerNull,
    /// The array could not be read.
    ArrayUnreadable,
}

/// The spells of the client.
#[derive(Debug, Clone)]
pub struct SpellDb {
    pub table: NameTable,
    pub entries: usize,
}

impl View for SpellDb {
    type V = Map<Seq<char>, u32>;

    open spec fn view(&self) -> Map<Seq<char>, u32> {
        self.table@
    }
}

impl Default for SpellDb {
    fn default() -> (r: Self)
        ensures
            r.wf(),
            r@ == Map::<Seq<char>, u32>::empty(),
            r.entries == 0,
    {
        SpellDb { table: NameTable::new(), entries: 0 }
    }
}

/// The name of a record.
fn name_of_record(rec: &SpellRecord) -> (r: Option<String>)
    ensures
        (match r {
            Some(s) => Some(s@),
            None => None,
        }) == record_name(*rec),
{
    if rec.ptr == 0 {
        return None;
    }
    match &rec.raw {
        None => None,
        Some(raw) => {
            let n: usize = zero_at(raw.as_slice());
            if n == 0 || n >= NAME_MAX_BYTES {
                return None;
            }
            let base: String = strip_paren_suffix(rec.full.as_str());
            let chars: Vec<char> = to_chars(base.as_str());
            if chars.len() == 0 {
                return None;
            }
            Some(base)
        },
    }
}

impl SpellDb {
    /// The table is a table.
    pub open spec fn wf(&self) -> bool {
        self.table.wf()
    }

    /// Makes the table of what was read: the pointer to the array, and the records
    /// that the array's pointers lead to.
    pub fn build(array_base: Option<u32>, records: Option<&Vec<SpellRecord>>) -> (r: Result<
        SpellDb,
        SpellDbError,
    >)
        requires
            records matches Some(v) ==> v@.len() == MAX_SCAN,
        ensures
            match r {
                Ok(db) => {
                    &&& array_base is Some && array_base->0 != 0 && records is Some
                    &&& db.wf()
                    &&& db@ == record_numbers(records->0@)
                    &&& db.entries == named_records(records->0@)
                },
                Err(e) => e == match array_base {
                    None => SpellDbError::PointerUnreadable,
                    Some(base) => if base == 0 {
                        SpellDbError::PointerNull
                    } else {
                        SpellDbError::ArrayUnreadable
                    },
                } && (array_base is Some && array_base->0 != 0 ==> records is None),
            },
    {
        match array_base {
            None => return Err(SpellDbError::PointerUnreadable),
            Some(base) => {
                if base == 0 {
                    return Err(SpellDbError::PointerNull);
                }
            },
        }
        match records {
            None => Err(SpellDbError::ArrayUnreadable),
            Some(list) => {
                let mut table: NameTable = NameTable::new();
                let mut entries: usize = 0;
                let mut packed: usize = 0;
                assert(list@.take(0).len() == 0);
                while packed < list.len()
                    invariant
                        list@.len() == MAX_SCAN,
                        packed <= list@.len(),
                        entries <= packed,
                        table.wf(),
                        table@ == record_numbers(list@.take(packed as int)),
                        entries == named_records(list@.take(packed as int)),
                    decreases list@.len() - packed,
                {
                    assert(list@.take(packed + 1).drop_last() =~= list@.take(packed as int));
                    assert(list@.take(packed + 1).last() == list@[packed as int]);
                    match name_of_record(&list[packed]) {
                        None => {},
                        Some(name) => {
                            entries += 1;
                            table.insert_first(name, packed as u32);
                        },
                    }
                    packed += 1;
                }
                assert(list@.take(list@.len() as int) =~= list@);
                Ok(SpellDb { table, entries })
            },
        }
    }

    /// The number of a spell.
    pub fn lookup(&self, name: &str) -> (r: Option<u32>)
        requires
            self.wf(),
        ensures
            r == name_table::found(self@, name@),
    {
        self.table.lookup(name)
    }

    /// How many records have a name.
    pub fn entries(&self) -> (r: usize)
        ensures
            r == self.entries,
    {
        self.entries
    }

    /// How many names there are.
    pub fn unique_names(&self) -> (r: usize)
        requires
            self.wf(),
        ensures
            self@.dom().finite(),
            r == self@.dom().len(),
    {
        self.table.len()
    }

    /// The names, each once.
    pub fn names_iter(&self) -> (r: Vec<String>)
        requires
            self.wf(),
        ensures
            forall|i: int, j: int|
                0 <= i < j < r@.len() ==> (#[trigger] r@[i])@ != (#[trigger] r@[j])@,
            forall|i: int| 0 <= i < r@.len() ==> self@.dom().contains((#[trigger] r@[i])@),
            forall|name: Seq<char>|
                #[trigger] self@.dom().contains(name) ==> exists|i: int|
                    0 <= i < r@.len() && (#[trigger] r@[i])@ == name,
    {
        self.table.names()
    }
}

/// Keeps a table that was built, and tells whether there is one; a table that is
/// there already stays.
pub fn ensure_built(cache: &mut Option<SpellDb>, built: Result<SpellDb, SpellDbError>) -> (r: bool)
    ensures
        r == (*final(cache) is Some),
        *final(cache) == if *old(cache) is Some {
            *old(cache)
        } else {
            match built {
                Ok(db) => Some(db),
                Err(_) => None,
            }
        },
{
    if cache.is_some() {
        return true;
    }
    match built {
        Ok(db) => {
            *cache = Some(db);
            true
        },
        Err(_) => false,
    }
}

} // verus!
