//! A table from keys to values that tells keys apart by their identity.

use crate::identity::CustomKey;
use vstd::prelude::*;

verus! {

/// Values stored under keys. At most one entry exists for each identity.
pub struct KeyTable<V> {
    entries: Vec<(CustomKey, V)>,
}

impl<V> KeyTable<V> {
    /// The table is well formed: no two entries have the same identity.
    pub closed spec fn wf(&self) -> bool {
        forall|i: int, j: int|
            #![trigger self.entries@[i], self.entries@[j]]
            0 <= i < self.entries@.len() && 0 <= j < self.entries@.len() && self.entries@[i].0.id
                == self.entries@[j].0.id ==> i == j
    }

    /// Some entry has the identity `id`.
    spec fn holds(&self, id: u32) -> bool {
        exists|i: int| 0 <= i < self.entries@.len() && (#[trigger] self.entries@[i]).0.id == id
    }

    /// The position of an entry with the identity `id`, where one exists.
    spec fn position_of(&self, id: u32) -> int {
        choose|i: int| 0 <= i < self.entries@.len() && (#[trigger] self.entries@[i]).0.id == id
    }

    /// The table as a map from identities to the values stored under them.
    pub closed spec fn view(&self) -> Map<u32, V> {
        Map::new(|id: u32| self.holds(id), |id: u32| self.entries@[self.position_of(id)].1)
    }

    /// A table without entries.
    pub fn new() -> (table: Self)
        ensures
            table.wf(),
            table@ == Map::<u32, V>::empty(),
    {
        let table = KeyTable { entries: Vec::new() };
        assert(table@ =~= Map::<u32, V>::empty());
        table
    }

    /// The position of the entry that is equal to `key`, if there is one.
    fn find(&self, key: &CustomKey) -> (found: Option<usize>)
        ensures
            match found {
                Some(at) => at < self.entries@.len() && self.entries@[at as int].0.id == key.id,
                None => !self.holds(key.id),
            },
    {
        let mut at: usize = 0;
        while at < self.entries.len()
            invariant
                at <= self.entries@.len(),
                forall|i: int| 0 <= i < at ==> (#[trigger] self.entries@[i]).0.id != key.id,
            decreases self.entries@.len() - at,
        {
            if self.entries[at].0 == *key {
                return Some(at);
            }
            at += 1;
        }
        None
    }

    /// The value stored under the identity of `key`, if any. The name of
    /// `key` plays no part.
    pub fn get(&self, key: &CustomKey) -> (value: Option<&V>)
        requires
            self.wf(),
        ensures
            match value {
                Some(v) => self@.contains_key(key.id) && *v == self@[key.id],
                None => !self@.contains_key(key.id),
            },
    {
        match self.find(key) {
            Some(at) => {
                assert(self.holds(key.id));
                Some(&self.entries[at].1)
            },
            None => None,
        }
    }

    /// Stores `value` under the identity of `key` and returns the value that
    /// was stored there before, if any.
    pub fn insert(&mut self, key: CustomKey, value: V) -> (previous: Option<V>)
        requires
            old(self).wf(),
        ensures
            final(self).wf(),
            final(self)@ == old(self)@.insert(key.id, value),
            previous == if old(self)@.contains_key(key.id) {
                Some(old(self)@[key.id])
            } else {
                None::<V>
            },
    {
        let ghost before = *self;
        let id = key.id;
        let (kept, previous) = match self.find(&key) {
            Some(at) => {
                assert(before.holds(id));
                let (stored_key, stored) = self.entries.remove(at);
                (stored_key, Some(stored))
            },
            None => (key, None),
        };
        let ghost rest = self.entries@;
        self.entries.push((kept, value));
        proof {
            let after = *self;
            assert(forall|i: int| 0 <= i < rest.len() ==> (#[trigger] rest[i]).0.id != id);
            assert forall|other: u32| other != id implies (before.holds(other) <==> after.holds(
                other,
            )) by {
                if before.holds(other) {
                    let i = before.position_of(other);
                    let j = if previous is Some && i > before.position_of(id) {
                        i - 1
                    } else {
                        i
                    };
                    assert(after.entries@[j].0.id == other);
                }
                if after.holds(other) {
                    let j = after.position_of(other);
                    assert(j < rest.len());
                    let i = if previous is Some && j >= before.position_of(id) {
                        j + 1
                    } else {
                        j
                    };
                    assert(before.entries@[i].0.id == other);
                }
            }
            assert(after.entries@[rest.len() as int].0.id == id);
            assert(after.holds(id));
            assert forall|other: u32| after.holds(other) implies #[trigger] after@[other]
                == before@.insert(id, value)[other] by {
                let j = after.position_of(other);
                if other != id {
                    let i = before.position_of(other);
                    let k = if previous is Some && i > before.position_of(id) {
                        i - 1
                    } else {
                        i
                    };
                    assert(after.entries@[k].0.id == other);
                    assert(k == j);
                } else {
                    assert(j == rest.len());
                }
            }
            assert(after@ =~= before@.insert(id, value));
        }
        previous
    }
}

/// Stores two values under the identities 1 and 2, then asks for the value
/// under identity 1 with a key that has another name than the one stored.
pub fn custom_hash_example() -> (found: Option<&'static str>)
    ensures
        found matches Some(value) && value@ == "value1"@,
{
    let mut table: KeyTable<&'static str> = KeyTable::new();
    table.insert(CustomKey::new(1, "Alice".to_owned()), "value1");
    table.insert(CustomKey::new(2, "Bob".to_owned()), "value2");
    let key = CustomKey::new(1, "DifferentName".to_owned());
    match table.get(&key) {
        Some(value) => Some(*value),
        None => None,
    }
}

} // verus!
