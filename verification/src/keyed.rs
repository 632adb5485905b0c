//! A small map from application ids to values, kept in insertion order.
use crate::text::same_text;
use vstd::prelude::*;

verus! {

/// Values keyed by text, each key at most once, in insertion order.
pub struct KeyedList<V> {
    entries: Vec<(String, V)>,
}

/// The keys of a list of entries.
pub open spec fn entry_keys<V>(entries: Seq<(String, V)>) -> Seq<Seq<char>> {
    entries.map_values(|entry: (String, V)| entry.0@)
}

/// Whether no key occurs twice.
pub open spec fn keys_unique<V>(entries: Seq<(String, V)>) -> bool {
    forall|i: int, j: int| 0 <= i < j < entries.len() ==> (#[trigger] entries[i]).0@ != (#[trigger] entries[j]).0@
}

/// The map a list of entries describes.
pub open spec fn entries_map<V>(entries: Seq<(String, V)>) -> Map<Seq<char>, V>
    decreases entries.len(),
{
    if entries.len() == 0 {
        Map::empty()
    } else {
        entries_map(entries.drop_last()).insert(entries.last().0@, entries.last().1)
    }
}

proof fn lemma_entries_map<V>(entries: Seq<(String, V)>)
    requires
        keys_unique(entries),
    ensures
        forall|key: Seq<char>| #[trigger] entries_map(entries).contains_key(key) <==> exists|i: int|
            0 <= i < entries.len() && entries[i].0@ == key,
        forall|i: int| 0 <= i < entries.len() ==> #[trigger] entries_map(entries)[entries[i].0@] == entries[i].1,
    decreases entries.len(),
{
    if entries.len() > 0 {
        let shorter = entries.drop_last();
        assert(keys_unique(shorter)) by {
            assert forall|i: int, j: int| 0 <= i < j < shorter.len() implies (#[trigger] shorter[i]).0@ != (#[trigger] shorter[j]).0@ by {
                assert(shorter[i] == entries[i] && shorter[j] == entries[j]);
            }
        }
        lemma_entries_map(shorter);
        assert forall|key: Seq<char>| #[trigger] entries_map(entries).contains_key(key) <==> exists|i: int|
            0 <= i < entries.len() && entries[i].0@ == key by {
            if entries_map(entries).contains_key(key) {
                if key == entries.last().0@ {
                    assert(entries[entries.len() - 1].0@ == key);
                } else {
                    assert(entries_map(shorter).contains_key(key));
                    let i = choose|i: int| 0 <= i < shorter.len() && shorter[i].0@ == key;
                    assert(entries[i] == shorter[i]);
                }
            }
            if exists|i: int| 0 <= i < entries.len() && entries[i].0@ == key {
                let i = choose|i: int| 0 <= i < entries.len() && entries[i].0@ == key;
                if i < entries.len() - 1 {
                    assert(shorter[i] == entries[i]);
                    assert(entries_map(shorter).contains_key(key));
                }
            }
        }
        assert forall|i: int| 0 <= i < entries.len() implies #[trigger] entries_map(entries)[entries[i].0@] == entries[i].1 by {
            if i < entries.len() - 1 {
                assert(shorter[i] == entries[i]);
                assert(entries[i].0@ != entries[entries.len() - 1].0@);
                assert(entries_map(shorter)[shorter[i].0@] == shorter[i].1);
                assert(entries_map(shorter).contains_key(shorter[i].0@));
            }
        }
    }
}

impl<V> View for KeyedList<V> {
    type V = Map<Seq<char>, V>;

    closed spec fn view(&self) -> Map<Seq<char>, V> {
        entries_map(self.entries@)
    }
}

impl<V> KeyedList<V> {
    #[verifier::type_invariant]
    spec fn unique(self) -> bool {
        keys_unique(self.entries@)
    }

    /// The keys, in insertion order.
    pub closed spec fn key_order(&self) -> Seq<Seq<char>> {
        entry_keys(self.entries@)
    }

    /// An empty list.
    pub fn new() -> (res: Self)
        ensures
            res@ == Map::<Seq<char>, V>::empty(),
            res.key_order() == Seq::<Seq<char>>::empty(),
    {
        let res = KeyedList { entries: Vec::new() };
        assert(res.key_order() =~= Seq::<Seq<char>>::empty());
        res
    }

    fn position(&self, key: &str) -> (res: Option<usize>)
        ensures
            match res {
                Some(index) => index < self.entries@.len() && self.entries@[index as int].0@ == key@,
                None => forall|i: int| 0 <= i < self.entries@.len() ==> (#[trigger] self.entries@[i]).0@ != key@,
            },
    {
        let mut index: usize = 0;
        while index < self.entries.len()
            invariant
                index <= self.entries@.len(),
                forall|i: int| 0 <= i < index ==> (#[trigger] self.entries@[i]).0@ != key@,
            decreases self.entries@.len() - index,
        {
            if same_text(self.entries[index].0.as_str(), key) {
                return Some(index);
            }
            index = index + 1;
        }
        None
    }

    /// The value of a key.
    pub fn get(&self, key: &str) -> (res: Option<&V>)
        ensures
            self@.contains_key(key@) ==> res is Some && *res->0 == self@[key@],
            !self@.contains_key(key@) ==> res is None,
    {
        proof {
            use_type_invariant(self);
            lemma_entries_map(self.entries@);
        }
        match self.position(key) {
            Some(index) => Some(&self.entries[index].1),
            None => None,
        }
    }

    /// Whether a key is present.
    pub fn contains(&self, key: &str) -> (res: bool)
        ensures
            res == self@.contains_key(key@),
    {
        proof {
            use_type_invariant(self);
            lemma_entries_map(self.entries@);
        }
        self.position(key).is_some()
    }

    /// Sets the value of a key.
    pub fn insert(&mut self, key: String, value: V)
        ensures
            final(self)@ == old(self)@.insert(key@, value),
    {
        proof {
            use_type_invariant(&*self);
            lemma_entries_map(self.entries@);
        }
        let mut entries: Vec<(String, V)> = Vec::new();
        std::mem::swap(&mut entries, &mut self.entries);
        let ghost before = entries@;
        let found = {
            let mut index: usize = 0;
            let mut found: Option<usize> = None;
            while index < entries.len() && found.is_none()
                invariant
                    index <= entries@.len(),
                    entries@ == before,
                    found matches Some(at) ==> at < entries@.len() && entries@[at as int].0@ == key@,
                    found is None ==> forall|i: int| 0 <= i < index ==> (#[trigger] entries@[i]).0@ != key@,
                decreases entries@.len() - index, (if found is None { 1int } else { 0int }),
            {
                if same_text(entries[index].0.as_str(), key.as_str()) {
                    found = Some(index);
                } else {
                    index = index + 1;
                }
            }
            found
        };
        match found {
            Some(at) => {
                let ghost k = key@;
                entries.set(at, (key, value));
                proof {
                    assert(keys_unique(entries@)) by {
                        assert forall|i: int, j: int| 0 <= i < j < entries@.len() implies (#[trigger] entries@[i]).0@ != (#[trigger] entries@[j]).0@ by {
                            if i != at as int && j != at as int {
                                assert(entries@[i] == before[i] && entries@[j] == before[j]);
                            } else if i == at as int {
                                assert(entries@[j] == before[j]);
                                assert(before[i].0@ == k);
                            } else {
                                assert(entries@[i] == before[i]);
                                assert(before[j].0@ == k);
                            }
                        }
                    }
                    lemma_entries_map(entries@);
                    assert(entries_map(entries@) =~= entries_map(before).insert(k, value)) by {
                        assert forall|probe: Seq<char>| #[trigger] entries_map(entries@).contains_key(probe) == entries_map(before).insert(k, value).contains_key(probe) by {
                            if entries_map(before).contains_key(probe) {
                                let i = choose|i: int| 0 <= i < before.len() && before[i].0@ == probe;
                                assert(entries@[i].0@ == probe);
                            }
                            if entries_map(entries@).contains_key(probe) {
                                let i = choose|i: int| 0 <= i < entries@.len() && entries@[i].0@ == probe;
                                if i != at as int {
                                    assert(before[i].0@ == probe);
                                }
                            }
                        }
                        assert forall|probe: Seq<char>| #[trigger] entries_map(entries@).contains_key(probe) implies entries_map(entries@)[probe] == entries_map(before).insert(k, value)[probe] by {
                            let i = choose|i: int| 0 <= i < entries@.len() && entries@[i].0@ == probe;
                            if i != at as int {
                                assert(entries@[i] == before[i]);
                            }
                        }
                    }
                }
            },
            None => {
                let ghost k = key@;
                entries.push((key, value));
                proof {
                    assert(keys_unique(entries@)) by {
                        assert forall|i: int, j: int| 0 <= i < j < entries@.len() implies (#[trigger] entries@[i]).0@ != (#[trigger] entries@[j]).0@ by {
                            assert(entries@[i] == before[i]);
                            if j < before.len() {
                                assert(entries@[j] == before[j]);
                            }
                        }
                    }
                    assert(entries@.drop_last() =~= before);
                }
            },
        }
        self.entries = entries;
    }

    /// Removes a key, returning its value.
    pub fn remove(&mut self, key: &str) -> (res: Option<V>)
        ensures
            final(self)@ == old(self)@.remove(key@),
            old(self)@.contains_key(key@) ==> res is Some && res->0 == old(self)@[key@],
            !old(self)@.contains_key(key@) ==> res is None,
    {
        proof {
            use_type_invariant(&*self);
            lemma_entries_map(self.entries@);
        }
        match self.position(key) {
            Some(index) => {
                let mut entries: Vec<(String, V)> = Vec::new();
                std::mem::swap(&mut entries, &mut self.entries);
                let ghost before = entries@;
                let (_, value) = entries.remove(index);
                proof {
                    assert(keys_unique(entries@)) by {
                        assert forall|i: int, j: int| 0 <= i < j < entries@.len() implies (#[trigger] entries@[i]).0@ != (#[trigger] entries@[j]).0@ by {
                            let oi = if i < index { i } else { i + 1 };
                            let oj = if j < index { j } else { j + 1 };
                            assert(entries@[i] == before[oi] && entries@[j] == before[oj]);
                        }
                    }
                    lemma_entries_map(entries@);
                    assert(entries_map(entries@) =~= entries_map(before).remove(key@)) by {
                        assert forall|probe: Seq<char>| #[trigger] entries_map(entries@).contains_key(probe) == entries_map(before).remove(key@).contains_key(probe) by {
                            if entries_map(entries@).contains_key(probe) {
                                let i = choose|i: int| 0 <= i < entries@.len() && entries@[i].0@ == probe;
                                let oi = if i < index { i } else { i + 1 };
                                assert(entries@[i] == before[oi]);
                            }
                            if entries_map(before).remove(key@).contains_key(probe) {
                                let i = choose|i: int| 0 <= i < before.len() && before[i].0@ == probe;
                                assert(i != index as int);
                                let ni = if i < index { i } else { i - 1 };
                                assert(entries@[ni] == before[i]);
                            }
                        }
                        assert forall|probe: Seq<char>| #[trigger] entries_map(entries@).contains_key(probe) implies entries_map(entries@)[probe] == entries_map(before).remove(key@)[probe] by {
                            let i = choose|i: int| 0 <= i < entries@.len() && entries@[i].0@ == probe;
                            let oi = if i < index { i } else { i + 1 };
                            assert(entries@[i] == before[oi]);
                        }
                    }
                }
                self.entries = entries;
                Some(value)
            },
            None => {
                proof {
                    assert(self@ =~= self@.remove(key@));
                }
                None
            },
        }
    }

    /// Removes every entry.
    pub fn clear(&mut self)
        ensures
            final(self)@ == Map::<Seq<char>, V>::empty(),
    {
        self.entries = Vec::new();
    }

    /// The number of entries; every key is at some position of the order.
    pub fn len(&self) -> (res: usize)
        ensures
            res == self.key_order().len(),
            forall|key: Seq<char>| #[trigger] self@.contains_key(key) <==> exists|i: int|
                0 <= i < res && self.key_order()[i] == key,
            forall|i: int| 0 <= i < res ==> #[trigger] self@.contains_key(self.key_order()[i]),
            forall|i: int, j: int| 0 <= i < j < res ==> #[trigger] self.key_order()[i] != #[trigger] self.key_order()[j],
    {
        proof {
            use_type_invariant(self);
            lemma_entries_map(self.entries@);
            assert forall|key: Seq<char>| #[trigger] self@.contains_key(key) <==> exists|i: int|
                0 <= i < self.entries@.len() && self.key_order()[i] == key by {
                if self@.contains_key(key) {
                    let i = choose|i: int| 0 <= i < self.entries@.len() && self.entries@[i].0@ == key;
                    assert(self.key_order()[i] == key);
                }
            }
        }
        self.entries.len()
    }

    /// Replaces the value at a position of the insertion order.
    pub fn set_at(&mut self, index: usize, value: V)
        requires
            index < old(self).key_order().len(),
        ensures
            final(self)@ == old(self)@.insert(old(self).key_order()[index as int], value),
            final(self).key_order() == old(self).key_order(),
    {
        proof {
            use_type_invariant(&*self);
            lemma_entries_map(self.entries@);
        }
        let mut entries: Vec<(String, V)> = Vec::new();
        std::mem::swap(&mut entries, &mut self.entries);
        let ghost before = entries@;
        let (key, _) = entries.remove(index);
        entries.insert(index, (key, value));
        proof {
            assert(entries@ =~= before.update(index as int, (before[index as int].0, value)));
            assert(keys_unique(entries@)) by {
                assert forall|i: int, j: int| 0 <= i < j < entries@.len() implies (#[trigger] entries@[i]).0@ != (#[trigger] entries@[j]).0@ by {
                    assert(entries@[i].0 == before[i].0 && entries@[j].0 == before[j].0);
                }
            }
            lemma_entries_map(entries@);
            let k = before[index as int].0@;
            assert(entries_map(entries@) =~= entries_map(before).insert(k, value)) by {
                assert forall|probe: Seq<char>| #[trigger] entries_map(entries@).contains_key(probe) == entries_map(before).insert(k, value).contains_key(probe) by {
                    if entries_map(before).contains_key(probe) {
                        let i = choose|i: int| 0 <= i < before.len() && before[i].0@ == probe;
                        assert(entries@[i].0@ == probe);
                    }
                    if entries_map(entries@).contains_key(probe) {
                        let i = choose|i: int| 0 <= i < entries@.len() && entries@[i].0@ == probe;
                        assert(before[i].0@ == probe);
                    }
                }
                assert forall|probe: Seq<char>| #[trigger] entries_map(entries@).contains_key(probe) implies entries_map(entries@)[probe] == entries_map(before).insert(k, value)[probe] by {
                    let i = choose|i: int| 0 <= i < entries@.len() && entries@[i].0@ == probe;
                    if i != index as int {
                        assert(entries@[i] == before[i]);
                        assert(before[i].0@ != k);
                    }
                }
            }
            assert(entry_keys(entries@) =~= entry_keys(before));
        }
        self.entries = entries;
    }

    /// The key at a position of the insertion order.
    pub fn key_at(&self, index: usize) -> (res: &String)
        requires
            index < self.key_order().len(),
        ensures
            res@ == self.key_order()[index as int],
            self@.contains_key(res@),
    {
        proof {
            use_type_invariant(self);
            lemma_entries_map(self.entries@);
        }
        &self.entries[index].0
    }

    /// The value at a position of the insertion order.
    pub fn value_at(&self, index: usize) -> (res: &V)
        requires
            index < self.key_order().len(),
        ensures
            *res == self@[self.key_order()[index as int]],
    {
        proof {
            use_type_invariant(self);
            lemma_entries_map(self.entries@);
        }
        &self.entries[index].1
    }
}

} // verus!
