//! An insertion-ordered map keyed by strings, in which no key occurs twice.
//! It stands where the framework keeps headers, query strings, route
//! parameters and cached values.

use vstd::prelude::*;

verus! {

/// The value stored under `k` in a list of entries: that of the first entry
/// whose key is `k`.
pub open spec fn entry_lookup<V: View>(s: Seq<(String, V)>, k: Seq<char>) -> Option<V::V>
    decreases s.len(),
{
    if s.len() == 0 {
        None
    } else if s[0].0@ == k {
        Some(s[0].1@)
    } else {
        entry_lookup(s.drop_first(), k)
    }
}

/// No key occurs twice in the list of entries.
pub open spec fn keys_unique<V>(s: Seq<(String, V)>) -> bool {
    forall|i: int, j: int| 0 <= i < j < s.len() ==> s[i].0@ != s[j].0@
}

/// The keys of the entries, in order.
pub open spec fn entry_keys<V>(s: Seq<(String, V)>) -> Seq<Seq<char>> {
    s.map_values(|e: (String, V)| e.0@)
}

proof fn lemma_lookup_found<V: View>(s: Seq<(String, V)>, i: int)
    requires
        keys_unique(s),
        0 <= i < s.len(),
    ensures
        entry_lookup(s, s[i].0@) == Some(s[i].1@),
    decreases s.len(),
{
    if i > 0 {
        lemma_lookup_found(s.drop_first(), i - 1);
    }
}

proof fn lemma_lookup_absent<V: View>(s: Seq<(String, V)>, k: Seq<char>)
    requires
        forall|i: int| 0 <= i < s.len() ==> s[i].0@ != k,
    ensures
        entry_lookup(s, k) is None,
    decreases s.len(),
{
    if s.len() > 0 {
        lemma_lookup_absent(s.drop_first(), k);
    }
}

proof fn lemma_lookup_some<V: View>(s: Seq<(String, V)>, k: Seq<char>)
    requires
        entry_lookup(s, k) is Some,
    ensures
        exists|i: int| 0 <= i < s.len() && s[i].0@ == k && entry_lookup(s, k) == Some(s[i].1@),
    decreases s.len(),
{
    if s[0].0@ != k {
        lemma_lookup_some(s.drop_first(), k);
        let i = choose|i: int|
            0 <= i < s.drop_first().len() && s.drop_first()[i].0@ == k && entry_lookup(
                s.drop_first(),
                k,
            ) == Some(s.drop_first()[i].1@);
        assert(s[i + 1] == s.drop_first()[i]);
    }
}

/// Looking a key up in a list without duplicate keys finds the entry with that key.
proof fn lemma_lookup_unique<V: View>(s: Seq<(String, V)>, k: Seq<char>)
    requires
        keys_unique(s),
    ensures
        entry_lookup(s, k) matches Some(v) ==> exists|i: int|
            0 <= i < s.len() && s[i].0@ == k && s[i].1@ == v,
        entry_lookup(s, k) is None ==> forall|i: int| 0 <= i < s.len() ==> s[i].0@ != k,
{
    if entry_lookup(s, k) is Some {
        lemma_lookup_some(s, k);
    } else {
        assert forall|i: int| 0 <= i < s.len() implies s[i].0@ != k by {
            if s[i].0@ == k {
                lemma_lookup_found(s, i);
            }
        }
    }
}

/// A map from strings to values that remembers the order in which keys
/// were first inserted.
#[derive(Debug)]
pub struct StrMap<V> {
    entries: Vec<(String, V)>,
}

impl<V: View> View for StrMap<V> {
    type V = Map<Seq<char>, V::V>;

    closed spec fn view(&self) -> Map<Seq<char>, V::V> {
        Map::new(
            |k: Seq<char>| entry_lookup(self.entries@, k) is Some,
            |k: Seq<char>| entry_lookup(self.entries@, k)->Some_0,
        )
    }
}

impl<V> StrMap<V> {
    #[verifier::type_invariant]
    closed spec fn inv(&self) -> bool {
        keys_unique(self.entries@)
    }
}

impl<V: View> StrMap<V> {
    /// The keys of the map, in the order in which they were first inserted.
    pub closed spec fn key_order(&self) -> Seq<Seq<char>> {
        entry_keys(self.entries@)
    }

    /// The entries of the map, in the order in which their keys were first inserted.
    pub closed spec fn entry_seq(&self) -> Seq<(String, V)> {
        self.entries@
    }

    /// There is one entry for each key of the insertion order, and the
    /// entry at each position has the key at that position.
    pub proof fn lemma_entry_seq_len(&self)
        ensures
            self.entry_seq().len() == self.key_order().len(),
            forall|i: int|
                0 <= i < self.key_order().len() ==> #[trigger] self.key_order()[i] == self.entry_seq()[i].0@,
    {
    }

    /// An empty map.
    pub fn new() -> (m: Self)
        ensures
            m@ == Map::<Seq<char>, V::V>::empty(),
            m.key_order() == Seq::<Seq<char>>::empty(),
    {
        let m = StrMap { entries: Vec::new() };
        assert(m@ =~= Map::<Seq<char>, V::V>::empty());
        assert(m.key_order() =~= Seq::<Seq<char>>::empty());
        m
    }

    fn index_of(&self, key: &str) -> (r: Option<usize>)
        ensures
            match r {
                Some(i) => i < self.entries@.len() && self.entries@[i as int].0@ == key@,
                None => forall|i: int| 0 <= i < self.entries@.len() ==> self.entries@[i].0@ != key@,
            },
    {
        let mut i: usize = 0;
        while i < self.entries.len()
            invariant
                i <= self.entries@.len(),
                forall|j: int| 0 <= j < i ==> self.entries@[j].0@ != key@,
            decreases self.entries@.len() - i,
        {
            if crate::text::str_eq(self.entries[i].0.as_str(), key) {
                return Some(i);
            }
            i += 1;
        }
        None
    }

    /// The number of keys in the map.
    pub fn len(&self) -> (n: usize)
        ensures
            n == self.key_order().len(),
    {
        self.entries.len()
    }

    /// The value stored under `key`, if any.
    pub fn get(&self, key: &str) -> (r: Option<&V>)
        ensures
            match r {
                Some(v) => self@.contains_key(key@) && self@[key@] == v@,
                None => !self@.contains_key(key@),
            },
    {
        proof {
            use_type_invariant(self);
        }
        match self.index_of(key) {
            Some(i) => {
                proof {
                    lemma_lookup_found(self.entries@, i as int);
                }
                Some(&self.entries[i].1)
            },
            None => {
                proof {
                    lemma_lookup_absent(self.entries@, key@);
                }
                None
            },
        }
    }

    /// Whether `key` has a value in the map.
    pub fn contains_key(&self, key: &str) -> (b: bool)
        ensures
            b == self@.contains_key(key@),
    {
        self.get(key).is_some()
    }

    /// Stores `value` under `key`; a key already present keeps its place in
    /// the order, a new key goes last.
    pub fn insert(&mut self, key: String, value: V)
        ensures
            final(self)@ == old(self)@.insert(key@, value@),
            old(self)@.contains_key(key@) ==> final(self).key_order() == old(self).key_order(),
            !old(self)@.contains_key(key@) ==> final(self).key_order() == old(self).key_order().push(
                key@,
            ),
    {
        proof {
            use_type_invariant(&*self);
        }
        let ghost old_entries = self.entries@;
        let ghost k = key@;
        match self.index_of(key.as_str()) {
            Some(i) => {
                proof {
                    lemma_lookup_found(old_entries, i as int);
                }
                let ghost vv = value@;
                let ghost new_entries = old_entries.update(i as int, (key, value));
                proof {
                    assert(keys_unique(new_entries));
                    assert forall|k2: Seq<char>|
                        #![auto]
                        entry_lookup(new_entries, k2) == (if k2 == k {
                            Some(vv)
                        } else {
                            entry_lookup(old_entries, k2)
                        }) by {
                        lemma_lookup_unique(new_entries, k2);
                        lemma_lookup_unique(old_entries, k2);
                        if k2 == k {
                            lemma_lookup_found(new_entries, i as int);
                        } else {
                            if entry_lookup(old_entries, k2) is Some {
                                let j = choose|j: int|
                                    0 <= j < old_entries.len() && old_entries[j].0@ == k2
                                        && old_entries[j].1@ == entry_lookup(
                                        old_entries,
                                        k2,
                                    )->Some_0;
                                lemma_lookup_found(new_entries, j);
                            }
                        }
                    }
                }
                let mut e: Vec<(String, V)> = Vec::new();
                std::mem::swap(&mut e, &mut self.entries);
                e.set(i, (key, value));
                self.entries = e;
                assert(self.entries@ == new_entries);
                assert(self@ =~= old(self)@.insert(k, vv));
                assert(entry_keys(self.entries@) =~= entry_keys(old_entries));
            },
            None => {
                let ghost vv = value@;
                let ghost new_entries = old_entries.push((key, value));
                proof {
                    assert(keys_unique(new_entries));
                    assert forall|k2: Seq<char>|
                        #![auto]
                        entry_lookup(new_entries, k2) == (if k2 == k {
                            Some(vv)
                        } else {
                            entry_lookup(old_entries, k2)
                        }) by {
                        lemma_lookup_unique(new_entries, k2);
                        lemma_lookup_unique(old_entries, k2);
                        if k2 == k {
                            lemma_lookup_found(new_entries, old_entries.len() as int);
                        } else {
                            if entry_lookup(old_entries, k2) is Some {
                                let j = choose|j: int|
                                    0 <= j < old_entries.len() && old_entries[j].0@ == k2
                                        && old_entries[j].1@ == entry_lookup(
                                        old_entries,
                                        k2,
                                    )->Some_0;
                                lemma_lookup_found(new_entries, j);
                            }
                        }
                    }
                    lemma_lookup_absent(old_entries, k);
                }
                let mut e: Vec<(String, V)> = Vec::new();
                std::mem::swap(&mut e, &mut self.entries);
                e.push((key, value));
                self.entries = e;
                assert(self.entries@ == new_entries);
                assert(self@ =~= old(self)@.insert(k, vv));
                assert(entry_keys(self.entries@) =~= entry_keys(old_entries).push(k));
            },
        }
    }

    /// Removes `key` and its value; returns whether the key was present.
    pub fn remove(&mut self, key: &str) -> (b: bool)
        ensures
            b == old(self)@.contains_key(key@),
            final(self)@ == old(self)@.remove(key@),
    {
        proof {
            use_type_invariant(&*self);
        }
        let ghost old_entries = self.entries@;
        match self.index_of(key) {
            Some(i) => {
                proof {
                    lemma_lookup_found(old_entries, i as int);
                }
                let ghost new_entries = old_entries.remove(i as int);
                proof {
                    assert(keys_unique(new_entries));
                    assert forall|k2: Seq<char>|
                        #![auto]
                        entry_lookup(new_entries, k2) == (if k2 == key@ {
                            None
                        } else {
                            entry_lookup(old_entries, k2)
                        }) by {
                        lemma_lookup_unique(new_entries, k2);
                        lemma_lookup_unique(old_entries, k2);
                        if k2 != key@ {
                            if entry_lookup(old_entries, k2) is Some {
                                let j = choose|j: int|
                                    0 <= j < old_entries.len() && old_entries[j].0@ == k2
                                        && old_entries[j].1@ == entry_lookup(
                                        old_entries,
                                        k2,
                                    )->Some_0;
                                if j < i {
                                    lemma_lookup_found(new_entries, j);
                                } else {
                                    lemma_lookup_found(new_entries, j - 1);
                                }
                            }
                        } else {
                            if entry_lookup(new_entries, k2) is Some {
                                let j = choose|j: int|
                                    0 <= j < new_entries.len() && new_entries[j].0@ == k2;
                                if j < i {
                                    assert(old_entries[j].0@ == k2);
                                } else {
                                    assert(old_entries[j + 1].0@ == k2);
                                }
                            }
                        }
                    }
                }
                let mut e: Vec<(String, V)> = Vec::new();
                std::mem::swap(&mut e, &mut self.entries);
                e.remove(i);
                self.entries = e;
                assert(self.entries@ == new_entries);
                assert(self@ =~= old(self)@.remove(key@));
                true
            },
            None => {
                proof {
                    lemma_lookup_absent(old_entries, key@);
                }
                assert(self@ =~= old(self)@.remove(key@));
                false
            },
        }
    }

    /// Removes every entry.
    pub fn clear(&mut self)
        ensures
            final(self)@ == Map::<Seq<char>, V::V>::empty(),
            final(self).key_order() == Seq::<Seq<char>>::empty(),
    {
        self.entries = Vec::new();
        assert(self@ =~= Map::<Seq<char>, V::V>::empty());
        assert(self.key_order() =~= Seq::<Seq<char>>::empty());
    }

    /// The keys of the map, in insertion order.
    pub fn keys(&self) -> (r: Vec<String>)
        ensures
            crate::text::texts(r@) == self.key_order(),
            forall|k: Seq<char>| #[trigger] self@.contains_key(k) <==> self.key_order().contains(k),
    {
        proof {
            use_type_invariant(self);
        }
        let mut out: Vec<String> = Vec::new();
        let mut i: usize = 0;
        while i < self.entries.len()
            invariant
                i <= self.entries@.len(),
                crate::text::texts(out@) == entry_keys(self.entries@).take(i as int),
            decreases self.entries@.len() - i,
        {
            let ghost before = out@;
            let k = self.entries[i].0.clone();
            assert(k@ == self.entries@[i as int].0@);
            out.push(k);
            assert(crate::text::texts(out@) =~= crate::text::texts(before).push(k@));
            assert(entry_keys(self.entries@).take(i + 1) =~= entry_keys(self.entries@).take(i as int).push(k@));
            assert(crate::text::texts(out@) =~= entry_keys(self.entries@).take(i + 1));
            i += 1;
        }
        assert(entry_keys(self.entries@).take(self.entries@.len() as int) =~= entry_keys(self.entries@));
        let ghost s = self.entries@;
        assert forall|k: Seq<char>| #[trigger] self@.contains_key(k) <==> self.key_order().contains(k) by {
            lemma_lookup_unique(s, k);
            if self.key_order().contains(k) {
                let i = choose|i: int| 0 <= i < self.key_order().len() && self.key_order()[i] == k;
                lemma_lookup_found(s, i);
            }
            if entry_lookup(s, k) is Some {
                let i = choose|i: int| 0 <= i < s.len() && s[i].0@ == k && s[i].1@ == entry_lookup(s, k)->Some_0;
                assert(self.key_order()[i] == k);
            }
        }
        out
    }

    /// The key and value at position `i` of the insertion order.
    pub fn entry_at(&self, i: usize) -> (r: (&String, &V))
        requires
            i < self.key_order().len(),
        ensures
            r.0 == self.entry_seq()[i as int].0,
            r.1 == self.entry_seq()[i as int].1,
            self@.contains_key(r.0@),
            self@[r.0@] == r.1@,
    {
        proof {
            use_type_invariant(self);
            lemma_lookup_found(self.entries@, i as int);
        }
        (&self.entries[i].0, &self.entries[i].1)
    }
}

impl StrMap<String> {
    /// A copy of the map, with the same order of keys.
    pub fn duplicate(&self) -> (r: Self)
        ensures
            r@ == self@,
            r.key_order() == self.key_order(),
            r.entry_seq() == self.entry_seq(),
    {
        proof {
            use_type_invariant(self);
        }
        let mut e: Vec<(String, String)> = Vec::new();
        let mut i: usize = 0;
        while i < self.entries.len()
            invariant
                i <= self.entries@.len(),
                e@ == self.entries@.subrange(0, i as int),
            decreases self.entries@.len() - i,
        {
            let k = self.entries[i].0.clone();
            let v = self.entries[i].1.clone();
            e.push((k, v));
            i += 1;
            assert(e@ =~= self.entries@.subrange(0, i as int));
        }
        assert(e@ =~= self.entries@);
        StrMap { entries: e }
    }
}

} // verus!
