//! The address table: which address each label stands for.

use crate::error::addr_error::AddrError;
use crate::error::fault::Fault;
use vstd::prelude::*;

verus! {

/// The table that results from adding the given entries in order to an
/// empty table: a later entry for a label replaces an earlier one.
pub open spec fn table_of(entries: Seq<(Seq<char>, u16)>) -> Map<Seq<char>, u16>
    decreases entries.len(),
{
    if entries.len() == 0 {
        Map::empty()
    } else {
        table_of(entries.drop_last()).insert(entries.last().0, entries.last().1)
    }
}

/// No label has two entries.
pub open spec fn distinct(entries: Seq<(Seq<char>, u16)>) -> bool {
    forall|i: int, j: int|
        0 <= i < j < entries.len() ==> (#[trigger] entries[i]).0 != (#[trigger] entries[j]).0
}

/// A number of entries as `get_size` reports it: a number that does not
/// fit in 32 bits is reported as the largest that does.
pub open spec fn clamp_size(n: nat) -> u32 {
    if n > u32::MAX {
        u32::MAX
    } else {
        n as u32
    }
}

/// Manages label-to-address relationships
pub struct AddrTable {
    /// The table data: one entry for each label
    data: Vec<(String, u16)>,
}

impl View for AddrTable {
    type V = Map<Seq<char>, u16>;

    closed spec fn view(&self) -> Map<Seq<char>, u16> {
        table_of(self.entries())
    }
}

impl AddrTable {
    /// The entries of the table, each label as a sequence of characters.
    closed spec fn entries(self) -> Seq<(Seq<char>, u16)> {
        self.data@.map_values(|e: (String, u16)| (e.0@, e.1))
    }

    /// No label has two entries.
    #[verifier::type_invariant]
    spec fn well_formed(self) -> bool {
        distinct(self.entries())
    }

    /// Constructs a new `AddrTable` instance
    pub fn new() -> (table: Self)
        ensures
            table@ == Map::<Seq<char>, u16>::empty(),
    {
        let table = AddrTable { data: Vec::new() };
        assert(table.entries() =~= Seq::empty());
        table
    }

    /// Gets the number of entries in the table
    pub fn get_size(&self) -> (size: u32)
        ensures
            self@.dom().finite(),
            size == clamp_size(self@.dom().len()),
    {
        proof {
            use_type_invariant(self);
            lemma_table_size(self.entries());
        }
        let n = self.data.len();
        if n > u32::MAX as usize {
            u32::MAX
        } else {
            n as u32
        }
    }

    /// The index of the entry for `label`, if it has one.
    fn find(&self, label: &String) -> (found: Option<usize>)
        ensures
            match found {
                Some(i) => i < self.entries().len() && self.entries()[i as int].0 == label@,
                None => forall|i: int|
                    0 <= i < self.entries().len() ==> (#[trigger] self.entries()[i]).0 != label@,
            },
    {
        let mut i: usize = 0;
        while i < self.data.len()
            invariant
                i <= self.data.len(),
                self.entries().len() == self.data.len(),
                forall|k: int| 0 <= k < i ==> (#[trigger] self.entries()[k]).0 != label@,
            decreases self.data.len() - i,
        {
            if self.data[i].0 == *label {
                return Some(i);
            }
            i = i + 1;
        }
        None
    }

    /// Adds an entry to the table
    ///
    /// If the label has an entry already, the new address replaces the
    /// old one.
    pub fn add_entry(&mut self, label: &str, addr: u16)
        ensures
            final(self)@ == old(self)@.insert(label@, addr),
    {
        proof {
            use_type_invariant(&*self);
        }
        let key = String::from_str(label);
        let ghost before = self.entries();
        let found = self.find(&key);
        let mut data: Vec<(String, u16)> = Vec::new();
        proof {
            assert(data@.map_values(|e: (String, u16)| (e.0@, e.1)) =~= Seq::empty());
        }
        std::mem::swap(&mut data, &mut self.data);
        match found {
            Some(i) => {
                proof {
                    lemma_replace(before, i as int, addr);
                    assert(data@.update(i as int, (key, addr)).map_values(
                        |e: (String, u16)| (e.0@, e.1),
                    ) =~= before.update(i as int, (label@, addr)));
                }
                data[i] = (key, addr);
            },
            None => {
                proof {
                    assert(data@.push((key, addr)).map_values(|e: (String, u16)| (e.0@, e.1))
                        =~= before.push((label@, addr)));
                    assert(before.push((label@, addr)).drop_last() =~= before);
                }
                data.push((key, addr));
            },
        }
        self.data = data;
    }

    /// Determines whether a given label exists in the table
    pub fn has_entry(&self, label: &str) -> (found: bool)
        ensures
            found == self@.contains_key(label@),
    {
        proof {
            use_type_invariant(self);
            lemma_lookup(self.entries(), label@);
        }
        let key = String::from_str(label);
        self.find(&key).is_some()
    }

    /// Gets the address for a given label
    ///
    /// Fails, naming the label, if the label has no entry.
    pub fn get_entry(&self, label: &str) -> (res: Result<u16, AddrError>)
        ensures
            match res {
                Ok(addr) => self@.contains_key(label@) && addr == self@[label@],
                Err(e) => !self@.contains_key(label@) && e@ == (Fault::Address { label: label@ }),
            },
    {
        proof {
            use_type_invariant(self);
            lemma_lookup(self.entries(), label@);
        }
        let key = String::from_str(label);
        match self.find(&key) {
            Some(i) => Ok(self.data[i].1),
            None => Err(AddrError::new(label)),
        }
    }
}

/// A table holds a label exactly if one of its entries is for that
/// label, and with distinct entries it maps the label to the address of
/// that entry.
pub proof fn lemma_lookup(entries: Seq<(Seq<char>, u16)>, label: Seq<char>)
    ensures
        table_of(entries).contains_key(label) <==> exists|i: int|
            0 <= i < entries.len() && (#[trigger] entries[i]).0 == label,
        distinct(entries) ==> forall|i: int|
            0 <= i < entries.len() && (#[trigger] entries[i]).0 == label ==> table_of(
                entries,
            )[label] == entries[i].1,
    decreases entries.len(),
{
    if entries.len() > 0 {
        let rest = entries.drop_last();
        lemma_lookup(rest, label);
        assert(forall|i: int| 0 <= i < rest.len() ==> rest[i] == entries[i]);
        if entries.last().0 == label {
            assert(entries[entries.len() - 1].0 == label);
        } else if table_of(entries).contains_key(label) {
            let i = choose|i: int| 0 <= i < rest.len() && (#[trigger] rest[i]).0 == label;
            assert(entries[i].0 == label);
        }
        if distinct(entries) {
            assert(distinct(rest)) by {
                assert forall|i: int, j: int| 0 <= i < j < rest.len() implies (#[trigger] rest[i]).0
                    != (#[trigger] rest[j]).0 by {
                    assert(rest[i] == entries[i] && rest[j] == entries[j]);
                }
            }
            assert forall|i: int|
                0 <= i < entries.len() && (#[trigger] entries[i]).0 == label implies table_of(
                entries,
            )[label] == entries[i].1 by {
                if i < rest.len() {
                    assert(rest[i] == entries[i]);
                    assert(entries[i].0 != entries[entries.len() - 1].0);
                }
            }
        }
    }
}

/// Replacing the address in the entry of a label gives the table that
/// adding the label with the new address gives.
proof fn lemma_replace(entries: Seq<(Seq<char>, u16)>, at: int, addr: u16)
    requires
        distinct(entries),
        0 <= at < entries.len(),
    ensures
        distinct(entries.update(at, (entries[at].0, addr))),
        table_of(entries.update(at, (entries[at].0, addr))) == table_of(entries).insert(
            entries[at].0,
            addr,
        ),
    decreases entries.len(),
{
    let label = entries[at].0;
    let changed = entries.update(at, (label, addr));
    assert(distinct(changed)) by {
        assert forall|i: int, j: int| 0 <= i < j < changed.len() implies (#[trigger] changed[i]).0
            != (#[trigger] changed[j]).0 by {
            assert(changed[i].0 == entries[i].0 && changed[j].0 == entries[j].0);
        }
    }
    let rest = entries.drop_last();
    if at == entries.len() - 1 {
        assert(changed.drop_last() =~= rest);
        assert(table_of(changed) =~= table_of(entries).insert(label, addr));
    } else {
        assert(distinct(rest)) by {
            assert forall|i: int, j: int| 0 <= i < j < rest.len() implies (#[trigger] rest[i]).0
                != (#[trigger] rest[j]).0 by {
                assert(rest[i] == entries[i] && rest[j] == entries[j]);
            }
        }
        assert(rest[at] == entries[at]);
        lemma_replace(rest, at, addr);
        assert(changed.drop_last() =~= rest.update(at, (label, addr)));
        assert(entries[at].0 != entries[entries.len() - 1].0);
        assert(table_of(changed) =~= table_of(entries).insert(label, addr));
    }
}

/// A table of distinct entries holds as many labels as there are
/// entries.
proof fn lemma_table_size(entries: Seq<(Seq<char>, u16)>)
    requires
        distinct(entries),
    ensures
        table_of(entries).dom().finite(),
        table_of(entries).dom().len() == entries.len(),
    decreases entries.len(),
{
    if entries.len() > 0 {
        let rest = entries.drop_last();
        assert(distinct(rest)) by {
            assert forall|i: int, j: int| 0 <= i < j < rest.len() implies (#[trigger] rest[i]).0
                != (#[trigger] rest[j]).0 by {
                assert(rest[i] == entries[i] && rest[j] == entries[j]);
            }
        }
        lemma_table_size(rest);
        lemma_lookup(rest, entries.last().0);
        assert(!table_of(rest).contains_key(entries.last().0)) by {
            if table_of(rest).contains_key(entries.last().0) {
                let i = choose|i: int|
                    0 <= i < rest.len() && (#[trigger] rest[i]).0 == entries.last().0;
                assert(rest[i] == entries[i]);
                assert(entries[i].0 != entries[entries.len() - 1].0);
            }
        }
        assert(table_of(entries).dom() =~= table_of(rest).dom().insert(entries.last().0));
    }
}

} // verus!
