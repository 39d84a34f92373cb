//! Numbers by name.

use vstd::prelude::*;

use crate::text::same_text;
use crate::text::text_of;

verus! {

/// A name and its number.
#[derive(Debug, Clone)]
pub struct NameEntry {
    pub name: String,
    pub packed: u32,
}

/// A table in which each name stands once.
#[derive(Debug, Clone)]
pub struct NameTable {
    pub list: Vec<NameEntry>,
}

/// The numbers that a list gives to names.
pub open spec fn numbers(list: Seq<NameEntry>) -> Map<Seq<char>, u32>
    decreases list.len(),
{
    if list.len() == 0 {
        Map::empty()
    } else {
        numbers(list.drop_last()).insert(list.last().name@, list.last().packed)
    }
}

/// Whether no name stands twice.
pub open spec fn names_differ(list: Seq<NameEntry>) -> bool {
    forall|i: int, j: int|
        0 <= i < j < list.len() ==> (#[trigger] list[i]).name@ != (#[trigger] list[j]).name@
}

proof fn numbers_facts(list: Seq<NameEntry>)
    requires
        names_differ(list),
    ensures
        numbers(list).dom().finite(),
        numbers(list).dom().len() == list.len(),
        forall|i: int|
            0 <= i < list.len() ==> numbers(list).dom().contains((#[trigger] list[i]).name@)
                && numbers(list)[list[i].name@] == list[i].packed,
        forall|name: Seq<char>|
            #[trigger] numbers(list).dom().contains(name) ==> exists|i: int|
                0 <= i < list.len() && (#[trigger] list[i]).name@ == name,
    decreases list.len(),
{
    if list.len() > 0 {
        let rest = list.drop_last();
        numbers_facts(rest);
        assert forall|i: int| 0 <= i < list.len() implies numbers(list).dom().contains(
            (#[trigger] list[i]).name@,
        ) && numbers(list)[list[i].name@] == list[i].packed by {
            if i < rest.len() {
                assert(rest[i] == list[i]);
            }
        }
        assert forall|name: Seq<char>| #[trigger] numbers(list).dom().contains(name) implies exists|
            i: int,
        |
            0 <= i < list.len() && (#[trigger] list[i]).name@ == name by {
            if name == list.last().name@ {
                assert(list[list.len() - 1].name@ == name);
            } else {
                assert(numbers(rest).dom().contains(name));
                let i = choose|i: int| 0 <= i < rest.len() && (#[trigger] rest[i]).name@ == name;
                assert(list[i].name@ == name);
            }
        }
        assert(!numbers(rest).dom().contains(list.last().name@)) by {
            if numbers(rest).dom().contains(list.last().name@) {
                let i = choose|i: int|
                    0 <= i < rest.len() && (#[trigger] rest[i]).name@ == list.last().name@;
                assert(list[i].name@ == list[list.len() - 1].name@);
            }
        }
    }
}

proof fn numbers_changed(list: Seq<NameEntry>, at: int, packed: u32)
    requires
        names_differ(list),
        0 <= at < list.len(),
    ensures
        ({
            let entry = NameEntry { name: list[at].name, packed };
            numbers(list.update(at, entry)) == numbers(list).insert(list[at].name@, packed)
        }),
    decreases list.len(),
{
    let entry = NameEntry { name: list[at].name, packed };
    let after = list.update(at, entry);
    let rest = list.drop_last();
    if at == list.len() - 1 {
        assert(after.drop_last() =~= rest);
        assert(numbers(after) =~= numbers(list).insert(list[at].name@, packed));
    } else {
        assert(after.drop_last() =~= rest.update(at, entry));
        assert(rest[at] == list[at]);
        numbers_changed(rest, at, packed);
        assert(list[at].name@ != list[list.len() - 1].name@);
        assert(numbers(after) =~= numbers(list).insert(list[at].name@, packed));
    }
}

impl View for NameTable {
    type V = Map<Seq<char>, u32>;

    open spec fn view(&self) -> Map<Seq<char>, u32> {
        numbers(self.list@)
    }
}

impl Default for NameTable {
    fn default() -> (r: Self)
        ensures
            r.wf(),
            r@ == Map::<Seq<char>, u32>::empty(),
    {
        NameTable { list: Vec::new() }
    }
}

/// A number by name, if the name is there.
pub open spec fn found(table: Map<Seq<char>, u32>, name: Seq<char>) -> Option<u32> {
    if table.dom().contains(name) {
        Some(table[name])
    } else {
        None
    }
}

impl NameTable {
    /// No name stands twice.
    pub open spec fn wf(&self) -> bool {
        names_differ(self.list@)
    }

    /// An empty table.
    pub fn new() -> (r: Self)
        ensures
            r.wf(),
            r@ == Map::<Seq<char>, u32>::empty(),
    {
        NameTable { list: Vec::new() }
    }

    fn position(&self, name: &str) -> (r: Option<usize>)
        requires
            self.wf(),
        ensures
            r matches Some(i) ==> i < self.list@.len() && self.list@[i as int].name@ == name@
                && self@.dom().contains(name@) && self@[name@] == self.list@[i as int].packed,
            r is None ==> !self@.dom().contains(name@) && forall|i: int|
                0 <= i < self.list@.len() ==> (#[trigger] self.list@[i]).name@ != name@,
    {
        proof {
            numbers_facts(self.list@);
        }
        let mut i: usize = 0;
        while i < self.list.len()
            invariant
                self.wf(),
                i <= self.list@.len(),
                forall|k: int| 0 <= k < i ==> (#[trigger] self.list@[k]).name@ != name@,
            decreases self.list@.len() - i,
        {
            if same_text(self.list[i].name.as_str(), name) {
                proof {
                    numbers_facts(self.list@);
                }
                return Some(i);
            }
            i += 1;
        }
        None
    }

    /// The number of a name.
    pub fn lookup(&self, name: &str) -> (r: Option<u32>)
        requires
            self.wf(),
        ensures
            r == found(self@, name@),
    {
        match self.position(name) {
            Some(i) => Some(self.list[i].packed),
            None => None,
        }
    }

    /// How many names there are.
    pub fn len(&self) -> (r: usize)
        requires
            self.wf(),
        ensures
            self@.dom().finite(),
            r == self@.dom().len(),
    {
        proof {
            numbers_facts(self.list@);
        }
        self.list.len()
    }

    /// The names.
    pub fn names(&self) -> (r: Vec<String>)
        requires
            self.wf(),
        ensures
            forall|i: int, j: int|
                0 <= i < j < r@.len() ==> (#[trigger] r@[i])@ != (#[trigger] r@[j])@,
            forall|i: int| 0 <= i < r@.len() ==> self@.dom().contains((#[trigger] r@[i])@),
            forall|name: Seq<char>|
                #[trigger] self@.dom().contains(name) ==> exists|i: int|
                    0 <= i < r@.len() && (#[trigger] r@[i])@ == name,
    {
        let mut r: Vec<String> = Vec::new();
        let mut i: usize = 0;
        while i < self.list.len()
            invariant
                i <= self.list@.len(),
                r@.len() == i,
                forall|k: int| 0 <= k < i ==> (#[trigger] r@[k])@ == self.list@[k].name@,
            decreases self.list@.len() - i,
        {
            r.push(text_of(self.list[i].name.as_str()));
            i += 1;
        }
        proof {
            numbers_facts(self.list@);
            assert forall|name: Seq<char>| #[trigger] self@.dom().contains(name) implies exists|
                i: int,
            |
                0 <= i < r@.len() && (#[trigger] r@[i])@ == name by {
                let i = choose|i: int|
                    0 <= i < self.list@.len() && (#[trigger] self.list@[i]).name@ == name;
                assert(r@[i]@ == name);
            }
            assert forall|i: int, j: int| 0 <= i < j < r@.len() implies (#[trigger] r@[i])@ != (
            #[trigger] r@[j])@ by {
                assert(self.list@[i].name@ != self.list@[j].name@);
            }
        }
        r
    }

    /// Gives a name a number, unless it has one.
    pub fn insert_first(&mut self, name: String, packed: u32)
        requires
            old(self).wf(),
        ensures
            final(self).wf(),
            final(self)@ == if old(self)@.dom().contains(name@) {
                old(self)@
            } else {
                old(self)@.insert(name@, packed)
            },
    {
        match self.position(name.as_str()) {
            Some(_) => {},
            None => {
                let ghost before = self.list@;
                self.list.push(NameEntry { name, packed });
                assert(self.list@.drop_last() =~= before);
            },
        }
    }

    /// Gives a name a number, unless it has a higher one.
    pub fn insert_highest(&mut self, name: String, packed: u32)
        requires
            old(self).wf(),
        ensures
            final(self).wf(),
            final(self)@ == if old(self)@.dom().contains(name@) && old(self)@[name@] >= packed {
                old(self)@
            } else {
                old(self)@.insert(name@, packed)
            },
    {
        match self.position(name.as_str()) {
            Some(i) => {
                if packed > self.list[i].packed {
                    let ghost before = self.list@;
                    proof {
                        numbers_changed(before, i as int, packed);
                    }
                    let kept: String = text_of(self.list[i].name.as_str());
                    self.list.set(i, NameEntry { name: kept, packed });
                    proof {
                        numbers_by_view(
                            self.list@,
                            before.update(
                                i as int,
                                NameEntry { name: before[i as int].name, packed },
                            ),
                        );
                    }
                }
            },
            None => {
                let ghost before = self.list@;
                self.list.push(NameEntry { name, packed });
                assert(self.list@.drop_last() =~= before);
            },
        }
    }
}

proof fn numbers_by_view(a: Seq<NameEntry>, b: Seq<NameEntry>)
    requires
        a.len() == b.len(),
        forall|i: int|
            0 <= i < a.len() ==> (#[trigger] a[i]).name@ == b[i].name@ && a[i].packed == b[i].packed,
    ensures
        numbers(a) == numbers(b),
    decreases a.len(),
{
    if a.len() > 0 {
        numbers_by_view(a.drop_last(), b.drop_last());
        assert(a[a.len() - 1].name@ == b[a.len() - 1].name@);
    }
}

} // verus!
