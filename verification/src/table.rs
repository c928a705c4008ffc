//! A map from string keys to values, kept as a vector of keys that never
//! repeat beside a vector of their values. The services and caches of the
//! runtime hold their state in it; its abstract value is a `Map` from the
//! key's characters to the value.
use vstd::prelude::*;

verus! {

pub struct Table<V> {
    keys: Vec<String>,
    values: Vec<V>,
}

impl<V> Table<V> {
    /// Each key has its value, and no key occurs twice. Every table keeps
    /// this.
    #[verifier::type_invariant]
    pub closed spec fn wf(&self) -> bool {
        &&& self.keys@.len() == self.values@.len()
        &&& forall|i: int, j: int|
            0 <= i < self.keys@.len() && 0 <= j < self.keys@.len() && i != j
                ==> #[trigger] self.keys@[i]@ != #[trigger] self.keys@[j]@
    }

    /// The number of entries.
    pub closed spec fn count(&self) -> nat {
        self.keys@.len()
    }

    /// The key of the `i`-th entry.
    pub closed spec fn key_at(&self, i: int) -> Seq<char> {
        self.keys@[i]@
    }

    /// The value of the `i`-th entry.
    pub closed spec fn value_at(&self, i: int) -> V {
        self.values@[i]
    }

    pub closed spec fn has_key(&self, k: Seq<char>) -> bool {
        exists|i: int| 0 <= i < self.keys@.len() && #[trigger] self.keys@[i]@ == k
    }

    pub closed spec fn index_of(&self, k: Seq<char>) -> int {
        choose|i: int| 0 <= i < self.keys@.len() && #[trigger] self.keys@[i]@ == k
    }

    pub closed spec fn as_map(&self) -> Map<Seq<char>, V> {
        Map::new(|k: Seq<char>| self.has_key(k), |k: Seq<char>| self.values@[self.index_of(k)])
    }

    /// The `i`-th entry is the map's entry for its key.
    pub proof fn lemma_entry(&self, i: int)
        requires
            self.wf(),
            0 <= i < self.count(),
        ensures
            self@.contains_key(self.key_at(i)),
            self@[self.key_at(i)] == self.value_at(i),
    {
        let k = self.keys@[i]@;
        assert(self.has_key(k));
        let c = self.index_of(k);
        assert(self.keys@[c]@ == k);
        if c != i {
            assert(self.keys@[c]@ != self.keys@[i]@);
        }
    }

    /// Every key of the map is the key of some entry.
    pub proof fn lemma_key(&self, k: Seq<char>)
        requires
            self.wf(),
            self@.contains_key(k),
        ensures
            0 <= self.index_of(k) < self.count(),
            self.key_at(self.index_of(k)) == k,
    {
        assert(self.has_key(k));
    }

    /// The map holds exactly the keys of the entries.
    pub proof fn lemma_keys(&self)
        requires
            self.wf(),
        ensures
            forall|k: Seq<char>|
                self@.contains_key(k) <==> exists|i: int| 0 <= i < self.count() && #[trigger] self.key_at(i) == k,
    {
        assert forall|k: Seq<char>|
            self@.contains_key(k) <==> exists|i: int| 0 <= i < self.count() && #[trigger] self.key_at(i) == k by {
            if self@.contains_key(k) {
                self.lemma_key(k);
                let i = self.index_of(k);
                assert(self.key_at(i) == k);
            }
            if exists|i: int| 0 <= i < self.count() && #[trigger] self.key_at(i) == k {
                let i = choose|i: int| 0 <= i < self.count() && #[trigger] self.key_at(i) == k;
                self.lemma_entry(i);
            }
        }
    }

    /// As many keys as entries.
    pub proof fn lemma_len(&self)
        requires
            self.wf(),
        ensures
            self@.len() == self.count(),
    {
        let keys = self.keys@.map_values(|s: String| s@);
        self.lemma_keys();
        assert(self@.dom() =~= keys.to_set()) by {
            assert forall|k: Seq<char>| self@.dom().contains(k) implies keys.to_set().contains(k) by {
                let i = choose|i: int| 0 <= i < self.count() && #[trigger] self.key_at(i) == k;
                assert(keys[i] == k);
            }
            assert forall|k: Seq<char>| keys.to_set().contains(k) implies self@.dom().contains(k) by {
                let i = choose|i: int| 0 <= i < keys.len() && keys[i] == k;
                assert(self.key_at(i) == k);
            }
        }
        assert(keys.no_duplicates()) by {
            assert forall|i: int, j: int| 0 <= i < keys.len() && 0 <= j < keys.len() && i != j
                implies keys[i] != keys[j] by {
                assert(self.keys@[i]@ != self.keys@[j]@);
            }
        }
        keys.unique_seq_to_set();
    }

    /// An empty table.
    pub fn new() -> (t: Self)
        ensures
            t@ == Map::<Seq<char>, V>::empty(),
            t.count() == 0,
    {
        let t = Table { keys: Vec::new(), values: Vec::new() };
        assert(t@ =~= Map::<Seq<char>, V>::empty());
        t
    }

    /// The number of entries, which is the number of keys.
    pub fn len(&self) -> (n: usize)
        ensures
            n == self.count(),
            n == self@.len(),
    {
        proof {
            use_type_invariant(self);
            self.lemma_len();
        }
        self.keys.len()
    }

    fn find(&self, key: &String) -> (r: Option<usize>)
        ensures
            r matches Some(i) ==> i < self.count() && self.key_at(i as int) == key@,
            r is None ==> forall|i: int| 0 <= i < self.count() ==> #[trigger] self.key_at(i) != key@,
    {
        let n = self.keys.len();
        for i in 0..n
            invariant
                n == self.keys@.len(),
                forall|j: int| 0 <= j < i ==> #[trigger] self.key_at(j) != key@,
        {
            if self.keys[i] == *key {
                return Some(i);
            }
        }
        None
    }

    /// What a read of `k` gives: the value stored under it, if any.
    pub open spec fn lookup(&self, k: Seq<char>) -> Option<V> {
        if self@.contains_key(k) {
            Some(self@[k])
        } else {
            None
        }
    }

    /// The value stored under `key`.
    pub fn get(&self, key: &String) -> (r: Option<&V>)
        ensures
            r is Some <==> self@.contains_key(key@),
            r matches Some(v) ==> *v == self@[key@],
            match r {
                Some(v) => self.lookup(key@) == Some(*v),
                None => self.lookup(key@) is None,
            },
    {
        proof {
            use_type_invariant(self);
            self.lemma_keys();
        }
        match self.find(key) {
            Some(i) => {
                proof {
                    self.lemma_entry(i as int);
                }
                Some(&self.values[i])
            },
            None => None,
        }
    }

    /// The key of the `i`-th entry.
    pub fn key(&self, i: usize) -> (k: &String)
        requires
            i < self.count(),
        ensures
            k@ == self.key_at(i as int),
    {
        &self.keys[i]
    }

    /// The value of the `i`-th entry.
    pub fn value(&self, i: usize) -> (v: &V)
        requires
            i < self.count(),
        ensures
            *v == self.value_at(i as int),
    {
        proof {
            use_type_invariant(self);
        }
        &self.values[i]
    }

    /// `self` is `before` with the value of the `i`-th entry replaced by `v`.
    pub closed spec fn replaces(self, before: Self, i: int, v: V) -> bool {
        &&& 0 <= i < before.count()
        &&& self.keys@ == before.keys@
        &&& self.values@ == before.values@.update(i, v)
    }

    /// Replacing the value of one entry updates the map at that entry's key.
    pub broadcast proof fn lemma_replaces(after: Self, before: Self, i: int, v: V)
        requires
            before.wf(),
            #[trigger] after.replaces(before, i, v),
        ensures
            after.wf(),
            after@ == before@.insert(before.key_at(i), v),
    {
        Self::lemma_replaced(before, after, i, v);
    }

    /// Replacing the value of one entry updates the map at that entry's key.
    proof fn lemma_replaced(before: Self, after: Self, i: int, v: V)
        requires
            before.wf(),
            after.replaces(before, i, v),
        ensures
            after.wf(),
            after@ == before@.insert(before.key_at(i), v),
    {
        let key = before.key_at(i);
        before.lemma_keys();
        after.lemma_keys();
        assert forall|k2: Seq<char>| #![auto] after@.contains_key(k2) == before@.insert(key, v).contains_key(k2) by {
            if after@.contains_key(k2) {
                let j = choose|j: int| 0 <= j < after.count() && #[trigger] after.key_at(j) == k2;
                assert(before.key_at(j) == k2);
            }
            if before@.contains_key(k2) {
                let j = choose|j: int| 0 <= j < before.count() && #[trigger] before.key_at(j) == k2;
                assert(after.key_at(j) == k2);
            }
            if k2 == key {
                assert(after.key_at(i) == k2);
            }
        }
        assert forall|k2: Seq<char>| after@.contains_key(k2) implies #[trigger] after@[k2] == before@.insert(key, v)[k2] by {
            let j = choose|j: int| 0 <= j < after.count() && #[trigger] after.key_at(j) == k2;
            after.lemma_entry(j);
            if j != i {
                before.lemma_entry(j);
                assert(before.key_at(j) != before.key_at(i));
            }
        }
        assert(after@ =~= before@.insert(key, v));
    }

    /// Replaces the value of the `i`-th entry.
    pub fn set_value(&mut self, i: usize, v: V)
        requires
            i < old(self).count(),
        ensures
            final(self).count() == old(self).count(),
            forall|j: int| 0 <= j < old(self).count() ==> #[trigger] final(self).key_at(j) == old(self).key_at(j),
            forall|j: int| 0 <= j < old(self).count() && j != i ==> #[trigger] final(self).value_at(j) == old(self).value_at(j),
            final(self).value_at(i as int) == v,
            final(self)@ == old(self)@.insert(old(self).key_at(i as int), v),
    {
        proof {
            use_type_invariant(&*self);
        }
        let ghost before = *self;
        let mut t: Table<V> = Table::new();
        std::mem::swap(&mut t, self);
        let Table { keys, mut values } = t;
        values.set(i, v);
        proof {
            Self::lemma_replaced(before, Table { keys, values }, i as int, v);
        }
        *self = Table { keys, values };
    }

    /// Stores `value` under `key`, replacing what was there.
    pub fn insert(&mut self, key: String, value: V)
        ensures
            final(self)@ == old(self)@.insert(key@, value),
    {
        proof {
            use_type_invariant(&*self);
        }
        match self.find(&key) {
            Some(i) => {
                self.set_value(i, value);
            },
            None => {
                let ghost before = *self;
                let ghost k = key@;
                let mut t: Table<V> = Table::new();
                std::mem::swap(&mut t, self);
                let Table { mut keys, mut values } = t;
                keys.push(key);
                values.push(value);
                proof {
                    let after = Table { keys, values };
                    let n = before.count() as int;
                    assert(after.wf()) by {
                        assert forall|a: int, b: int|
                            0 <= a < after.keys@.len() && 0 <= b < after.keys@.len() && a != b
                            implies #[trigger] after.keys@[a]@ != #[trigger] after.keys@[b]@ by {
                            if a < n && b < n {
                                assert(after.keys@[a] == before.keys@[a]);
                                assert(after.keys@[b] == before.keys@[b]);
                            } else if a < n {
                                assert(before.key_at(a) != k);
                            } else {
                                assert(before.key_at(b) != k);
                            }
                        }
                    }
                    before.lemma_keys();
                    after.lemma_keys();
                    assert forall|k2: Seq<char>| #![auto] after@.contains_key(k2) == before@.insert(k, value).contains_key(k2) by {
                        if after@.contains_key(k2) {
                            let j = choose|j: int| 0 <= j < after.count() && #[trigger] after.key_at(j) == k2;
                            if j < n {
                                assert(before.key_at(j) == k2);
                            }
                        }
                        if before@.contains_key(k2) {
                            let j = choose|j: int| 0 <= j < before.count() && #[trigger] before.key_at(j) == k2;
                            assert(after.key_at(j) == k2);
                        }
                        if k2 == k {
                            assert(after.key_at(n) == k2);
                        }
                    }
                    assert forall|k2: Seq<char>| after@.contains_key(k2) implies #[trigger] after@[k2] == before@.insert(k, value)[k2] by {
                        let j = choose|j: int| 0 <= j < after.count() && #[trigger] after.key_at(j) == k2;
                        after.lemma_entry(j);
                        if j < n {
                            before.lemma_entry(j);
                        }
                    }
                    assert(after@ =~= before@.insert(k, value));
                }
                *self = Table { keys, values };
            },
        }
    }

    /// Takes the value stored under `key` out of the table.
    pub fn remove(&mut self, key: &String) -> (r: Option<V>)
        ensures
            r is Some <==> old(self)@.contains_key(key@),
            r matches Some(v) ==> v == old(self)@[key@],
            final(self)@ == old(self)@.remove(key@),
    {
        proof {
            use_type_invariant(&*self);
            self.lemma_keys();
        }
        match self.find(key) {
            None => {
                assert(self@ =~= self@.remove(key@));
                None
            },
            Some(i) => {
                let ghost before = *self;
                proof {
                    before.lemma_entry(i as int);
                }
                let mut t: Table<V> = Table::new();
                std::mem::swap(&mut t, self);
                let Table { mut keys, mut values } = t;
                let _k = keys.remove(i);
                let v = values.remove(i);
                proof {
                    let after = Table { keys, values };
                    let k = key@;
                    let ii = i as int;
                    assert forall|j: int| 0 <= j < after.count() implies #[trigger] after.keys@[j] == (if j < ii {
                        before.keys@[j]
                    } else {
                        before.keys@[j + 1]
                    }) && after.values@[j] == (if j < ii {
                        before.values@[j]
                    } else {
                        before.values@[j + 1]
                    }) by {}
                    assert(after.wf()) by {
                        assert forall|a: int, b: int|
                            0 <= a < after.keys@.len() && 0 <= b < after.keys@.len() && a != b
                            implies #[trigger] after.keys@[a]@ != #[trigger] after.keys@[b]@ by {
                            let a2 = if a < ii { a } else { a + 1 };
                            let b2 = if b < ii { b } else { b + 1 };
                            assert(after.keys@[a] == before.keys@[a2]);
                            assert(after.keys@[b] == before.keys@[b2]);
                            assert(before.keys@[a2]@ != before.keys@[b2]@);
                        }
                    }
                    before.lemma_keys();
                    after.lemma_keys();
                    assert forall|k2: Seq<char>| #![auto] after@.contains_key(k2) == before@.remove(k).contains_key(k2) by {
                        if after@.contains_key(k2) {
                            let j = choose|j: int| 0 <= j < after.count() && #[trigger] after.key_at(j) == k2;
                            let j2 = if j < ii { j } else { j + 1 };
                            assert(before.key_at(j2) == k2);
                            assert(before.keys@[j2]@ != before.keys@[ii]@);
                        }
                        if before@.contains_key(k2) && k2 != k {
                            let j = choose|j: int| 0 <= j < before.count() && #[trigger] before.key_at(j) == k2;
                            assert(j != ii);
                            let j2 = if j < ii { j } else { j - 1 };
                            assert(after.key_at(j2) == k2);
                        }
                    }
                    assert forall|k2: Seq<char>| after@.contains_key(k2) implies #[trigger] after@[k2] == before@.remove(k)[k2] by {
                        let j = choose|j: int| 0 <= j < after.count() && #[trigger] after.key_at(j) == k2;
                        after.lemma_entry(j);
                        let j2 = if j < ii { j } else { j + 1 };
                        before.lemma_entry(j2);
                    }
                    assert(after@ =~= before@.remove(k));
                }
                *self = Table { keys, values };
                Some(v)
            },
        }
    }

    /// A mutable reference to the value stored under `key`; whatever is
    /// written through it becomes the key's value. The value written is
    /// known only when the borrow ends, so the new map is stated as what
    /// follows from `replaces` (see `lemma_replaces`) at that point.
    pub fn get_mut(&mut self, key: &String) -> (r: Option<&mut V>)
        ensures
            r is Some <==> old(self)@.contains_key(key@),
            r matches Some(v) ==> {
                &&& *v == old(self)@[key@]
                &&& 0 <= old(self).index_of(key@) < old(self).count()
                &&& old(self).key_at(old(self).index_of(key@)) == key@
                &&& final(self).replaces(*old(self), old(self).index_of(key@), *final(v))
                &&& final(self).replaces(*old(self), old(self).index_of(key@), *final(v))
                    ==> final(self)@ == old(self)@.insert(key@, *final(v))
            },
            r is None ==> *final(self) == *old(self),
    {
        broadcast use Table::lemma_replaces;
        proof {
            use_type_invariant(&*self);
            self.lemma_keys();
        }
        match self.find(key) {
            Some(i) => {
                proof {
                    self.lemma_entry(i as int);
                }
                assert(self.has_key(key@));
                assert(self.index_of(key@) == i as int);
                let v = &mut self.values[i];
                Some(v)
            },
            None => None,
        }
    }
}

impl<V> View for Table<V> {
    type V = Map<Seq<char>, V>;

    closed spec fn view(&self) -> Map<Seq<char>, V> {
        self.as_map()
    }
}


/// A read gives back the last value written under the same key, a write
/// under one key leaves every other key as it was, and a removed key reads
/// as absent while the others stay. `before` is a table, `written` what
/// `insert(k, v)` leaves of it and `removed` what `remove(k)` leaves of it
/// (as their contracts state); `lookup` is what `get` returns.
pub proof fn law_read_after_write<V>(before: Table<V>, written: Table<V>, removed: Table<V>, k: Seq<char>, k2: Seq<char>, v: V)
    requires
        written@ == before@.insert(k, v),
        removed@ == before@.remove(k),
    ensures
        written.lookup(k) == Some(v),
        k2 != k ==> written.lookup(k2) == before.lookup(k2),
        removed.lookup(k) is None,
        k2 != k ==> removed.lookup(k2) == before.lookup(k2),
{
}

} // verus!
