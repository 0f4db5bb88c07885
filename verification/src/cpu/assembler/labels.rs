//! The label table: names and the addresses they stand for.
use vstd::prelude::*;

use super::source::same_text;
use crate::text::chars_of;

verus! {

/// The address the first entry named `name` holds.
pub open spec fn lookup(entries: Seq<(Seq<char>, u16)>, name: Seq<char>) -> Option<u16>
    decreases entries.len(),
{
    if entries.len() == 0 {
        None
    } else if entries[0].0 == name {
        Some(entries[0].1)
    } else {
        lookup(entries.drop_first(), name)
    }
}

/// The index of the first entry named `name`, or the number of entries.
pub open spec fn position(entries: Seq<(Seq<char>, u16)>, name: Seq<char>) -> int
    decreases entries.len(),
{
    if entries.len() == 0 {
        0
    } else if entries[0].0 == name {
        0
    } else {
        1 + position(entries.drop_first(), name)
    }
}

/// How `position` and `lookup` agree: the entry found is the first with the name, and a name
/// with no entry has no position.
pub proof fn lemma_position(entries: Seq<(Seq<char>, u16)>, name: Seq<char>)
    ensures
        0 <= position(entries, name) <= entries.len(),
        position(entries, name) < entries.len() ==> entries[position(entries, name)].0 == name
            && lookup(entries, name) == Some(entries[position(entries, name)].1),
        position(entries, name) == entries.len() ==> lookup(entries, name) is None,
        forall|j: int| 0 <= j < position(entries, name) ==> entries[j].0 != name,
    decreases entries.len(),
{
    if entries.len() > 0 && entries[0].0 != name {
        lemma_position(entries.drop_first(), name);
        assert forall|j: int| 0 <= j < position(entries, name) implies entries[j].0 != name by {
            if j > 0 {
                assert(entries[j] == entries.drop_first()[j - 1]);
            }
        }
    }
}

/// Replacing the entry at the first position of `name` changes what `name` looks up and
/// nothing else.
proof fn lemma_update_at_position(entries: Seq<(Seq<char>, u16)>, name: Seq<char>, address: u16, other: Seq<char>)
    requires
        position(entries, name) < entries.len(),
    ensures
        lookup(entries.update(position(entries, name), (name, address)), other) == (if other == name {
            Some(address)
        } else {
            lookup(entries, other)
        }),
    decreases entries.len(),
{
    let p = position(entries, name);
    if entries[0].0 == name {
        assert(entries.update(0, (name, address)).drop_first() =~= entries.drop_first());
    } else {
        lemma_position(entries.drop_first(), name);
        lemma_update_at_position(entries.drop_first(), name, address, other);
        assert(entries.update(p, (name, address)).drop_first() =~= entries.drop_first().update(p - 1, (name, address)));
    }
}

/// Appending an entry for a name that has none makes it look up the new address.
proof fn lemma_push_new(entries: Seq<(Seq<char>, u16)>, name: Seq<char>, address: u16, other: Seq<char>)
    requires
        lookup(entries, name) is None,
    ensures
        lookup(entries.push((name, address)), other) == (if other == name {
            Some(address)
        } else {
            lookup(entries, other)
        }),
    decreases entries.len(),
{
    if entries.len() == 0 {
        assert(entries.push((name, address)).drop_first() =~= seq![]);
    } else {
        assert(entries.push((name, address)).drop_first() =~= entries.drop_first().push((name, address)));
        lemma_push_new(entries.drop_first(), name, address, other);
    }
}

/// What a map gives a name, if anything.
pub open spec fn map_get(m: Map<Seq<char>, u16>, name: Seq<char>) -> Option<u16> {
    if m.dom().contains(name) {
        Some(m[name])
    } else {
        None
    }
}

/// Label names and the addresses they stand for.
#[derive(Debug, Clone)]
pub struct Labels {
    pub(crate) entries: Vec<(Vec<char>, u16)>,
}

impl Labels {
    /// The entries as names and addresses.
    pub closed spec fn spec_entries(&self) -> Seq<(Seq<char>, u16)> {
        self.entries@.map_values(|e: (Vec<char>, u16)| (e.0@, e.1))
    }

    /// The address a name stands for, if it has one.
    pub open spec fn spec_get(&self, name: Seq<char>) -> Option<u16> {
        lookup(self.spec_entries(), name)
    }

    /// The table as a map from names to addresses.
    pub open spec fn view(&self) -> Map<Seq<char>, u16> {
        Map::new(|k: Seq<char>| self.spec_get(k) is Some, |k: Seq<char>| self.spec_get(k)->0)
    }

    /// A map lookup in the view is a lookup in the table.
    pub proof fn lemma_view(&self, name: Seq<char>)
        ensures
            map_get(self@, name) == self.spec_get(name),
    {
    }

    /// An empty table.
    pub fn new() -> (l: Self)
        ensures
            forall|name: Seq<char>| #[trigger] l.spec_get(name) is None,
    {
        let l = Labels { entries: Vec::new() };
        assert(l.spec_entries() =~= seq![]);
        l
    }

    /// Where the first entry named `name` stands.
    fn position_of(&self, name: &[char]) -> (i: usize)
        ensures
            i == position(self.spec_entries(), name@),
    {
        let mut i: usize = 0;
        assert(self.spec_entries().subrange(0, self.spec_entries().len() as int) =~= self.spec_entries());
        while i < self.entries.len()
            invariant
                i <= self.entries@.len(),
                self.spec_entries().len() == self.entries@.len(),
                position(self.spec_entries(), name@) == i + position(
                    self.spec_entries().subrange(i as int, self.spec_entries().len() as int),
                    name@,
                ),
            decreases self.entries@.len() - i,
        {
            let ghost rest = self.spec_entries().subrange(i as int, self.spec_entries().len() as int);
            assert(rest[0] == self.spec_entries()[i as int]);
            if same_text(self.entries[i].0.as_slice(), name) {
                return i;
            }
            assert(rest.drop_first() =~= self.spec_entries().subrange(i + 1, self.spec_entries().len() as int));
            i += 1;
        }
        i
    }

    /// The address `name` stands for.
    pub fn lookup_chars(&self, name: &[char]) -> (r: Option<u16>)
        ensures
            r == self.spec_get(name@),
    {
        let i = self.position_of(name);
        proof {
            lemma_position(self.spec_entries(), name@);
        }
        if i < self.entries.len() {
            Some(self.entries[i].1)
        } else {
            None
        }
    }

    /// The address `name` stands for.
    pub fn get(&self, name: &str) -> (r: Option<u16>)
        ensures
            r == self.spec_get(name@),
    {
        let chars = chars_of(name);
        self.lookup_chars(chars.as_slice())
    }

    /// Whether `name` has an address.
    pub fn contains_key(&self, name: &[char]) -> (b: bool)
        ensures
            b == self.spec_get(name@) is Some,
    {
        self.lookup_chars(name).is_some()
    }

    /// Give `name` the address `address`, replacing any it had.
    pub fn insert(&mut self, name: &[char], address: u16)
        ensures
            forall|other: Seq<char>| #[trigger] final(self).spec_get(other) == (if other == name@ {
                Some(address)
            } else {
                old(self).spec_get(other)
            }),
    {
        let i = self.position_of(name);
        proof {
            lemma_position(self.spec_entries(), name@);
        }
        let key = vstd::slice::slice_to_vec(name);
        if i < self.entries.len() {
            self.entries.set(i, (key, address));
            proof {
                assert(self.spec_entries() =~= old(self).spec_entries().update(i as int, (name@, address)));
                assert forall|other: Seq<char>| #[trigger] self.spec_get(other) == (if other == name@ {
                    Some(address)
                } else {
                    old(self).spec_get(other)
                }) by {
                    lemma_update_at_position(old(self).spec_entries(), name@, address, other);
                }
            }
        } else {
            self.entries.push((key, address));
            proof {
                assert(self.spec_entries() =~= old(self).spec_entries().push((name@, address)));
                assert forall|other: Seq<char>| #[trigger] self.spec_get(other) == (if other == name@ {
                    Some(address)
                } else {
                    old(self).spec_get(other)
                }) by {
                    lemma_push_new(old(self).spec_entries(), name@, address, other);
                }
            }
        }
    }

    /// Give `name` the address `address` unless it already has one.
    pub fn insert_if_absent(&mut self, name: &[char], address: u16)
        ensures
            forall|other: Seq<char>| #[trigger] final(self).spec_get(other) == (if other == name@ && old(
                self,
            ).spec_get(other) is None {
                Some(address)
            } else {
                old(self).spec_get(other)
            }),
    {
        if !self.contains_key(name) {
            self.insert(name, address);
        }
    }

    /// The entry at `index`.
    pub fn entry_at(&self, index: usize) -> (e: (Vec<char>, u16))
        requires
            index < self.spec_entries().len(),
        ensures
            e.0@ == self.spec_entries()[index as int].0,
            e.1 == self.spec_entries()[index as int].1,
    {
        let name = self.entries[index].0.clone();
        assert(name@ =~= self.entries@[index as int].0@);
        (name, self.entries[index].1)
    }

    /// How many names have an entry.
    pub fn len(&self) -> (n: usize)
        ensures
            n == self.spec_entries().len(),
    {
        self.entries.len()
    }
}

} // verus!
