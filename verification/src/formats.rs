//! The table of format overrides: for a type name, the format string that
//! replaces the type's own default.

use vstd::prelude::*;

verus! {

/// A mapping from type names to format strings. Two tables are equal where
/// they map the same type names to the same format strings.
#[derive(Debug, Clone, Eq)]
pub struct FormatTable {
    entries: Vec<(String, String)>,
}

/// The mapping that a list of entries stands for: a later entry overrides an
/// earlier one with the same key.
pub open spec fn table_of(entries: Seq<(String, String)>) -> Map<Seq<char>, Seq<char>>
    decreases entries.len(),
{
    if entries.len() == 0 {
        Map::empty()
    } else {
        table_of(entries.drop_last()).insert(entries.last().0@, entries.last().1@)
    }
}

proof fn lemma_replace_last_occurrence(
    entries: Seq<(String, String)>,
    i: int,
    entry: (String, String),
)
    requires
        0 <= i < entries.len(),
        entries[i].0@ == entry.0@,
        forall|j: int| i < j < entries.len() ==> (#[trigger] entries[j]).0@ != entry.0@,
    ensures
        table_of(entries.update(i, entry)) == table_of(entries).insert(entry.0@, entry.1@),
    decreases entries.len(),
{
    let updated = entries.update(i, entry);
    let last = entries.last();
    if i == entries.len() - 1 {
        assert(updated.drop_last() =~= entries.drop_last());
        assert(table_of(updated) =~= table_of(entries).insert(entry.0@, entry.1@));
    } else {
        assert(updated.drop_last() =~= entries.drop_last().update(i, entry));
        assert forall|j: int| i < j < entries.drop_last().len() implies (
        #[trigger] entries.drop_last()[j]).0@ != entry.0@ by {
            assert(entries.drop_last()[j] == entries[j]);
        }
        lemma_replace_last_occurrence(entries.drop_last(), i, entry);
        assert(updated.last() == last);
        assert(last.0@ != entry.0@);
        assert(table_of(updated) =~= table_of(entries).insert(entry.0@, entry.1@));
    }
}

proof fn lemma_absent_key(entries: Seq<(String, String)>, key: Seq<char>)
    requires
        forall|j: int| 0 <= j < entries.len() ==> (#[trigger] entries[j]).0@ != key,
    ensures
        !table_of(entries).contains_key(key),
    decreases entries.len(),
{
    if entries.len() > 0 {
        assert forall|j: int| 0 <= j < entries.drop_last().len() implies (
        #[trigger] entries.drop_last()[j]).0@ != key by {
            assert(entries.drop_last()[j] == entries[j]);
        }
        lemma_absent_key(entries.drop_last(), key);
        assert(entries.last() == entries[entries.len() - 1]);
    }
}

/// Every key of a list of entries is a key of its mapping.
proof fn lemma_last_key(entries: Seq<(String, String)>, i: int)
    requires
        0 <= i < entries.len(),
    ensures
        table_of(entries).contains_key(entries[i].0@),
    decreases entries.len(),
{
    if i < entries.len() - 1 {
        assert(entries.drop_last()[i] == entries[i]);
        lemma_last_key(entries.drop_last(), i);
    }
}

proof fn lemma_last_occurrence(entries: Seq<(String, String)>, i: int)
    requires
        0 <= i < entries.len(),
        forall|j: int| i < j < entries.len() ==> (#[trigger] entries[j]).0@ != entries[i].0@,
    ensures
        table_of(entries).contains_key(entries[i].0@),
        table_of(entries)[entries[i].0@] == entries[i].1@,
    decreases entries.len(),
{
    if i < entries.len() - 1 {
        assert forall|j: int| i < j < entries.drop_last().len() implies (
        #[trigger] entries.drop_last()[j]).0@ != entries[i].0@ by {
            assert(entries.drop_last()[j] == entries[j]);
        }
        assert(entries.drop_last()[i] == entries[i]);
        lemma_last_occurrence(entries.drop_last(), i);
        assert(entries.last() == entries[entries.len() - 1]);
    }
}

impl View for FormatTable {
    type V = Map<Seq<char>, Seq<char>>;

    closed spec fn view(&self) -> Map<Seq<char>, Seq<char>> {
        table_of(self.entries@)
    }
}

impl FormatTable {
    /// The table without entries.
    pub fn new() -> (table: Self)
        ensures
            table@ == Map::<Seq<char>, Seq<char>>::empty(),
    {
        FormatTable { entries: Vec::new() }
    }

    fn position(&self, key: &String) -> (at: Option<usize>)
        ensures
            match at {
                Some(i) => {
                    &&& i < self.entries@.len()
                    &&& self.entries@[i as int].0@ == key@
                    &&& forall|j: int|
                        i < j < self.entries@.len() ==> (#[trigger] self.entries@[j]).0@ != key@
                },
                None => forall|j: int|
                    0 <= j < self.entries@.len() ==> (#[trigger] self.entries@[j]).0@ != key@,
            },
    {
        let mut i: usize = self.entries.len();
        while i > 0
            invariant
                i <= self.entries@.len(),
                forall|j: int|
                    i <= j < self.entries@.len() ==> (#[trigger] self.entries@[j]).0@ != key@,
            decreases i,
        {
            i -= 1;
            if self.entries[i].0 == *key {
                return Some(i);
            }
        }
        None
    }

    /// The format string registered for `key`, if there is one.
    pub fn get(&self, key: &String) -> (found: Option<&String>)
        ensures
            match found {
                Some(format) => self@.contains_key(key@) && self@[key@] == format@,
                None => !self@.contains_key(key@),
            },
    {
        match self.position(key) {
            Some(i) => {
                proof {
                    lemma_last_occurrence(self.entries@, i as int);
                }
                Some(&self.entries[i].1)
            },
            None => {
                proof {
                    lemma_absent_key(self.entries@, key@);
                }
                None
            },
        }
    }

    /// Registers `format` for `key`, in place of what was registered before.
    pub fn insert(&mut self, key: String, format: String)
        ensures
            final(self)@ == old(self)@.insert(key@, format@),
    {
        match self.position(&key) {
            Some(i) => {
                proof {
                    lemma_replace_last_occurrence(self.entries@, i as int, (key, format));
                }
                self.entries.set(i, (key, format));
            },
            None => {
                let ghost before = self.entries@;
                self.entries.push((key, format));
                assert(self.entries@.drop_last() =~= before);
            },
        }
    }
}

impl FormatTable {
    /// Whether `other` registers for every type of `self` what `self`
    /// registers for it.
    pub open spec fn within(&self, other: &FormatTable) -> bool {
        forall|key: Seq<char>| #[trigger]
            self@.contains_key(key) ==> other@.contains_key(key) && other@[key] == self@[key]
    }

    /// Decides [`FormatTable::within`].
    fn is_within(&self, other: &FormatTable) -> (all: bool)
        ensures
            all == self.within(other),
    {
        let mut i: usize = 0;
        while i < self.entries.len()
            invariant
                i <= self.entries@.len(),
                forall|j: int|
                    0 <= j < i ==> other@.contains_key((#[trigger] self.entries@[j]).0@)
                        && other@[self.entries@[j].0@] == self@[self.entries@[j].0@],
            decreases self.entries.len() - i,
        {
            let key = &self.entries[i].0;
            let same = match self.get(key) {
                Some(here) => match other.get(key) {
                    Some(there) => *here == *there,
                    None => false,
                },
                None => true,
            };
            if !same {
                return false;
            }
            proof {
                if !self@.contains_key(key@) {
                    lemma_last_key(self.entries@, i as int);
                }
            }
            i += 1;
        }
        proof {
            assert forall|key: Seq<char>| #[trigger] self@.contains_key(key) implies other@.contains_key(
                key,
            ) && other@[key] == self@[key] by {
                if forall|j: int|
                    0 <= j < self.entries@.len() ==> (#[trigger] self.entries@[j]).0@ != key {
                    lemma_absent_key(self.entries@, key);
                } else {
                    let j = choose|j: int|
                        0 <= j < self.entries@.len() && (#[trigger] self.entries@[j]).0@ == key;
                    assert(other@.contains_key(self.entries@[j].0@));
                }
            }
        }
        true
    }
}

impl PartialEq for FormatTable {
    fn eq(&self, other: &FormatTable) -> (same: bool) {
        let same = self.is_within(other) && other.is_within(self);
        proof {
            if self.within(other) && other.within(self) {
                assert(self@ =~= other@);
            }
        }
        same
    }
}

impl vstd::std_specs::cmp::PartialEqSpecImpl for FormatTable {
    open spec fn obeys_eq_spec() -> bool {
        true
    }

    open spec fn eq_spec(&self, other: &FormatTable) -> bool {
        self@ == other@
    }
}

} // verus!
