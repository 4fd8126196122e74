use vstd::prelude::*;
use crate::address::Address;

verus! {

/// One slot of a [`Table`]: an identity and what is stored under it.
pub struct Entry<V> {
    pub key: Address,
    pub value: V,
}

/// Whether slot `i` of `entries` exists and is keyed by `k`.
pub open spec fn keyed<V>(entries: Seq<Entry<V>>, i: int, k: Seq<u8>) -> bool {
    0 <= i < entries.len() && entries[i].key@ == k
}

/// No identity keys two slots.
pub open spec fn distinct_keys<V>(entries: Seq<Entry<V>>) -> bool {
    forall|i: int, j: int| 0 <= i < j < entries.len() ==> entries[i].key@ != entries[j].key@
}

/// The map that a sequence of slots stands for.
pub open spec fn map_of<V: View>(entries: Seq<Entry<V>>) -> Map<Seq<u8>, V::V> {
    Map::new(
        |k: Seq<u8>| exists|i: int| keyed(entries, i, k),
        |k: Seq<u8>| entries[choose|i: int| keyed(entries, i, k)].value@,
    )
}

/// With distinct keys, the map holds under each slot's key that slot's value.
pub proof fn lemma_map_at<V: View>(entries: Seq<Entry<V>>, i: int)
    requires
        distinct_keys(entries),
        0 <= i < entries.len(),
    ensures
        map_of(entries).contains_key(entries[i].key@),
        map_of(entries)[entries[i].key@] == entries[i].value@,
{
    let k = entries[i].key@;
    assert(keyed(entries, i, k));
    let c = choose|c: int| keyed(entries, c, k);
    assert(keyed(entries, c, k));
    assert(c == i);
}

/// Appending a slot under a fresh key inserts it into the map.
pub proof fn lemma_map_push<V: View>(entries: Seq<Entry<V>>, e: Entry<V>)
    requires
        distinct_keys(entries),
        !map_of(entries).contains_key(e.key@),
    ensures
        distinct_keys(entries.push(e)),
        map_of(entries.push(e)) == map_of(entries).insert(e.key@, e.value@),
{
    let after = entries.push(e);
    assert forall|i: int, j: int| 0 <= i < j < after.len() implies after[i].key@ != after[j].key@ by {
        if j == entries.len() {
            assert(keyed(entries, i, after[i].key@));
        }
    }
    assert forall|k: Seq<u8>| #[trigger] map_of(after).contains_key(k) == map_of(entries).insert(e.key@, e.value@).contains_key(k) by {
        if map_of(after).contains_key(k) {
            let i = choose|i: int| keyed(after, i, k);
            if i < entries.len() {
                assert(keyed(entries, i, k));
            }
        }
        if map_of(entries).contains_key(k) {
            let i = choose|i: int| keyed(entries, i, k);
            assert(keyed(after, i, k));
        }
        if k == e.key@ {
            assert(keyed(after, entries.len() as int, k));
        }
    }
    assert forall|k: Seq<u8>| map_of(after).contains_key(k) implies #[trigger] map_of(after)[k] == map_of(entries).insert(e.key@, e.value@)[k] by {
        let i = choose|i: int| keyed(after, i, k);
        lemma_map_at(after, i);
        if i < entries.len() {
            lemma_map_at(entries, i);
        }
    }
    assert(map_of(after) =~= map_of(entries).insert(e.key@, e.value@));
}

/// Replacing the value of slot `i` replaces the value under its key.
pub proof fn lemma_map_update<V: View>(entries: Seq<Entry<V>>, i: int, e: Entry<V>)
    requires
        distinct_keys(entries),
        0 <= i < entries.len(),
        e.key@ == entries[i].key@,
    ensures
        distinct_keys(entries.update(i, e)),
        map_of(entries.update(i, e)) == map_of(entries).insert(e.key@, e.value@),
{
    let after = entries.update(i, e);
    assert forall|a: int, b: int| 0 <= a < b < after.len() implies after[a].key@ != after[b].key@ by {
        assert(after[a].key@ == entries[a].key@);
        assert(after[b].key@ == entries[b].key@);
    }
    assert forall|k: Seq<u8>| #[trigger] map_of(after).contains_key(k) == map_of(entries).insert(e.key@, e.value@).contains_key(k) by {
        if map_of(after).contains_key(k) {
            let j = choose|j: int| keyed(after, j, k);
            assert(keyed(entries, j, k));
        }
        if map_of(entries).contains_key(k) {
            let j = choose|j: int| keyed(entries, j, k);
            assert(keyed(after, j, k));
        }
        if k == e.key@ {
            assert(keyed(after, i, k));
        }
    }
    assert forall|k: Seq<u8>| map_of(after).contains_key(k) implies #[trigger] map_of(after)[k] == map_of(entries).insert(e.key@, e.value@)[k] by {
        let j = choose|j: int| keyed(after, j, k);
        lemma_map_at(after, j);
        lemma_map_at(entries, j);
    }
    assert(map_of(after) =~= map_of(entries).insert(e.key@, e.value@));
}

/// Dropping slot `i` removes its key from the map.
pub proof fn lemma_map_remove<V: View>(entries: Seq<Entry<V>>, i: int)
    requires
        distinct_keys(entries),
        0 <= i < entries.len(),
    ensures
        distinct_keys(entries.remove(i)),
        map_of(entries.remove(i)) == map_of(entries).remove(entries[i].key@),
{
    let after = entries.remove(i);
    let gone = entries[i].key@;
    assert forall|a: int, b: int| 0 <= a < b < after.len() implies after[a].key@ != after[b].key@ by {
        let a0 = if a < i { a } else { a + 1 };
        let b0 = if b < i { b } else { b + 1 };
        assert(after[a] == entries[a0]);
        assert(after[b] == entries[b0]);
    }
    assert forall|k: Seq<u8>| #[trigger] map_of(after).contains_key(k) == map_of(entries).remove(gone).contains_key(k) by {
        if map_of(after).contains_key(k) {
            let j = choose|j: int| keyed(after, j, k);
            let j0 = if j < i { j } else { j + 1 };
            assert(after[j] == entries[j0]);
            assert(keyed(entries, j0, k));
        }
        if map_of(entries).contains_key(k) && k != gone {
            let j = choose|j: int| keyed(entries, j, k);
            let j1 = if j < i { j } else { j - 1 };
            assert(after[j1] == entries[j]);
            assert(keyed(after, j1, k));
        }
    }
    assert forall|k: Seq<u8>| map_of(after).contains_key(k) implies #[trigger] map_of(after)[k] == map_of(entries).remove(gone)[k] by {
        let j = choose|j: int| keyed(after, j, k);
        let j0 = if j < i { j } else { j + 1 };
        assert(after[j] == entries[j0]);
        lemma_map_at(after, j);
        lemma_map_at(entries, j0);
    }
    assert(map_of(after) =~= map_of(entries).remove(gone));
}

/// The map that a sequence of slots stands for has finitely many keys.
pub proof fn lemma_map_finite<V: View>(entries: Seq<Entry<V>>)
    ensures
        map_of(entries).dom().finite(),
{
    let keys = entries.map_values(|e: Entry<V>| e.key@);
    vstd::seq_lib::seq_to_set_is_finite(keys);
    assert forall|k: Seq<u8>| #[trigger] map_of(entries).dom().contains(k) == keys.to_set().contains(k) by {
        if map_of(entries).dom().contains(k) {
            let i = choose|i: int| keyed(entries, i, k);
            assert(keys[i] == k);
        }
        if keys.to_set().contains(k) {
            let i = choose|i: int| 0 <= i < keys.len() && keys[i] == k;
            assert(keyed(entries, i, k));
        }
    }
    assert(map_of(entries).dom() =~= keys.to_set());
}

/// A finite map from identities to values, kept as a list of slots in which
/// no identity occurs twice.
pub struct Table<V> {
    entries: Vec<Entry<V>>,
}

impl<V: View> View for Table<V> {
    type V = Map<Seq<u8>, V::V>;

    closed spec fn view(&self) -> Map<Seq<u8>, V::V> {
        map_of(self.entries@)
    }
}

impl<V: View> Table<V> {
    /// No identity keys two slots of the table.
    pub closed spec fn wf(&self) -> bool {
        distinct_keys(self.entries@)
    }

    /// A table holds finitely many keys.
    pub proof fn lemma_finite(&self)
        ensures
            self@.dom().finite(),
    {
        lemma_map_finite(self.entries@);
    }

    /// The table that holds nothing.
    pub fn new() -> (t: Self)
        ensures
            t.wf(),
            t@ == Map::<Seq<u8>, V::V>::empty(),
    {
        let t = Table { entries: Vec::new() };
        assert(t@ =~= Map::<Seq<u8>, V::V>::empty());
        t
    }

    /// The slot keyed by `key`, if there is one.
    fn find(&self, key: &Address) -> (r: Option<usize>)
        ensures
            match r {
                Some(i) => keyed(self.entries@, i as int, key@),
                None => !self@.contains_key(key@),
            },
    {
        let mut i: usize = 0;
        while i < self.entries.len()
            invariant
                i <= self.entries@.len(),
                forall|j: int| 0 <= j < i ==> !keyed(self.entries@, j, key@),
            decreases self.entries@.len() - i,
        {
            if self.entries[i].key.same(key) {
                return Some(i);
            }
            i += 1;
        }
        None
    }

    /// Whether anything is stored under `key`.
    pub fn contains(&self, key: &Address) -> (r: bool)
        requires
            self.wf(),
        ensures
            r == self@.contains_key(key@),
    {
        match self.find(key) {
            Some(i) => {
                proof {
                    lemma_map_at(self.entries@, i as int);
                }
                true
            },
            None => false,
        }
    }

    /// What is stored under `key`, if anything.
    pub fn get(&self, key: &Address) -> (r: Option<&V>)
        requires
            self.wf(),
        ensures
            match r {
                Some(v) => self@.contains_key(key@) && v@ == self@[key@],
                None => !self@.contains_key(key@),
            },
    {
        match self.find(key) {
            Some(i) => {
                proof {
                    lemma_map_at(self.entries@, i as int);
                }
                Some(&self.entries[i].value)
            },
            None => None,
        }
    }

    /// Stores `value` under `key`, in place of what was there.
    pub fn put(&mut self, key: Address, value: V)
        requires
            old(self).wf(),
        ensures
            final(self).wf(),
            final(self)@ == old(self)@.insert(key@, value@),
    {
        match self.find(&key) {
            Some(i) => {
                let entry = Entry { key, value };
                proof {
                    lemma_map_update(self.entries@, i as int, entry);
                }
                self.entries[i] = entry;
            },
            None => {
                let entry = Entry { key, value };
                proof {
                    lemma_map_push(self.entries@, entry);
                }
                self.entries.push(entry);
            },
        }
    }

    /// Removes what is stored under `key` and hands it out.
    pub fn remove(&mut self, key: &Address) -> (r: Option<V>)
        requires
            old(self).wf(),
        ensures
            final(self).wf(),
            final(self)@ == old(self)@.remove(key@),
            match r {
                Some(v) => old(self)@.contains_key(key@) && v@ == old(self)@[key@],
                None => !old(self)@.contains_key(key@),
            },
    {
        match self.find(key) {
            Some(i) => {
                proof {
                    lemma_map_at(self.entries@, i as int);
                    lemma_map_remove(self.entries@, i as int);
                }
                let entry = self.entries.remove(i);
                Some(entry.value)
            },
            None => {
                assert(self@ =~= self@.remove(key@));
                None
            },
        }
    }
}

impl<V: View + Copy> Table<V> {
    /// A second table with the same content.
    pub fn duplicate(&self) -> (t: Self)
        requires
            self.wf(),
        ensures
            t.wf(),
            t@ == self@,
    {
        let mut entries: Vec<Entry<V>> = Vec::new();
        let mut i: usize = 0;
        while i < self.entries.len()
            invariant
                i <= self.entries@.len(),
                entries@ == self.entries@.subrange(0, i as int),
            decreases self.entries@.len() - i,
        {
            let e = &self.entries[i];
            entries.push(Entry { key: e.key, value: e.value });
            assert(entries@ =~= self.entries@.subrange(0, i + 1));
            i += 1;
        }
        assert(entries@ =~= self.entries@);
        Table { entries }
    }
}

} // verus!
