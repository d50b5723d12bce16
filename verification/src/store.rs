//! A keyed store: entries with distinct string keys, kept in the order in which
//! each key was first inserted. It stands where a map keyed by name is needed.
use vstd::prelude::*;
use crate::text::str_eq;

verus! {

/// No key occurs twice among the entries.
pub open spec fn keys_distinct<V>(s: Seq<(String, V)>) -> bool {
    forall|i: int, j: int| 0 <= i < j < s.len() ==> (#[trigger] s[i]).0@ != (#[trigger] s[j]).0@
}

/// Some entry has key `k`.
pub open spec fn has_key<V>(s: Seq<(String, V)>, k: Seq<char>) -> bool {
    exists|i: int| 0 <= i < s.len() && (#[trigger] s[i]).0@ == k
}

/// The position of the entry with key `k`, or -1 where there is none.
pub open spec fn key_index<V>(s: Seq<(String, V)>, k: Seq<char>) -> int {
    if has_key(s, k) {
        choose|i: int| 0 <= i < s.len() && (#[trigger] s[i]).0@ == k
    } else {
        -1
    }
}

/// The value stored under `k`.
pub open spec fn lookup<V>(s: Seq<(String, V)>, k: Seq<char>) -> Option<V> {
    if has_key(s, k) {
        Some(s[key_index(s, k)].1)
    } else {
        None
    }
}

/// The entries after storing `v` under `k`: the entry with that key is replaced in
/// place, or a new entry is appended.
pub open spec fn stored<V>(s: Seq<(String, V)>, k: String, v: V) -> Seq<(String, V)> {
    if has_key(s, k@) {
        s.update(key_index(s, k@), (k, v))
    } else {
        s.push((k, v))
    }
}

/// The values of the entries, in entry order.
pub open spec fn values_of<V>(s: Seq<(String, V)>) -> Seq<V> {
    s.map_values(|e: (String, V)| e.1)
}

/// The values behind a sequence of references.
pub open spec fn derefs<T>(s: Seq<&T>) -> Seq<T> {
    s.map_values(|x: &T| *x)
}

/// The keys of the entries, in entry order.
pub open spec fn keys_of<V>(s: Seq<(String, V)>) -> Seq<Seq<char>> {
    s.map_values(|e: (String, V)| e.0@)
}

/// With distinct keys, an entry carrying key `k` sits at `key_index`.
pub proof fn lemma_key_index_unique<V>(s: Seq<(String, V)>, i: int)
    requires
        keys_distinct(s),
        0 <= i < s.len(),
    ensures
        has_key(s, s[i].0@),
        key_index(s, s[i].0@) == i,
        lookup(s, s[i].0@) == Some(s[i].1),
{
    assert(has_key(s, s[i].0@));
    let j = key_index(s, s[i].0@);
    if j != i {
        if j < i {
            assert(s[j].0@ != s[i].0@);
        } else {
            assert(s[i].0@ != s[j].0@);
        }
    }
}

/// Storing keeps keys distinct.
pub proof fn lemma_stored_distinct<V>(s: Seq<(String, V)>, k: String, v: V)
    requires
        keys_distinct(s),
    ensures
        keys_distinct(stored(s, k, v)),
{
    let t = stored(s, k, v);
    if has_key(s, k@) {
        let j = key_index(s, k@);
        assert forall|a: int, b: int| 0 <= a < b < t.len() implies (#[trigger] t[a]).0@ != (#[trigger] t[b]).0@ by {
            if a == j {
                assert(s[j].0@ == k@);
            } else if b == j {
                assert(s[j].0@ == k@);
            }
        }
    } else {
        assert forall|a: int, b: int| 0 <= a < b < t.len() implies (#[trigger] t[a]).0@ != (#[trigger] t[b]).0@ by {
            if b == s.len() as int {
                assert(t[a] == s[a]);
            }
        }
    }
}

/// What is stored under a key is what a lookup of that key then gives back,
/// and every other key keeps its value.
pub proof fn lemma_lookup_after_store<V>(s: Seq<(String, V)>, k: String, v: V, other: Seq<char>)
    requires
        keys_distinct(s),
    ensures
        lookup(stored(s, k, v), k@) == Some(v),
        other != k@ ==> lookup(stored(s, k, v), other) == lookup(s, other),
{
    let t = stored(s, k, v);
    lemma_stored_distinct(s, k, v);
    if has_key(s, k@) {
        let j = key_index(s, k@);
        lemma_key_index_unique(t, j);
        if other != k@ {
            if has_key(s, other) {
                let o = key_index(s, other);
                lemma_key_index_unique(s, o);
                assert(o != j);
                lemma_key_index_unique(t, o);
            } else {
                if has_key(t, other) {
                    let o = choose|i: int| 0 <= i < t.len() && (#[trigger] t[i]).0@ == other;
                    assert(s[o].0@ == other);
                }
            }
        }
    } else {
        lemma_key_index_unique(t, s.len() as int);
        if other != k@ {
            if has_key(s, other) {
                let o = key_index(s, other);
                lemma_key_index_unique(s, o);
                lemma_key_index_unique(t, o);
            } else {
                if has_key(t, other) {
                    let o = choose|i: int| 0 <= i < t.len() && (#[trigger] t[i]).0@ == other;
                    assert(s[o].0@ == other);
                }
            }
        }
    }
}

/// Removing an entry keeps keys distinct.
pub proof fn lemma_removed<V>(s: Seq<(String, V)>, i: int)
    requires
        keys_distinct(s),
        0 <= i < s.len(),
    ensures
        keys_distinct(s.remove(i)),
{
    let t = s.remove(i);
    assert forall|a: int, b: int| 0 <= a < b < t.len() implies (#[trigger] t[a]).0@ != (#[trigger] t[b]).0@ by {
        let a0 = if a < i { a } else { a + 1 };
        let b0 = if b < i { b } else { b + 1 };
        assert(t[a] == s[a0] && t[b] == s[b0]);
    }
}

/// After removing the entry at `i`, its key has no value and every other key keeps its own.
pub proof fn lemma_removed_lookup<V>(s: Seq<(String, V)>, i: int, k: Seq<char>)
    requires
        keys_distinct(s),
        0 <= i < s.len(),
    ensures
        k == s[i].0@ ==> lookup(s.remove(i), k) is None,
        k != s[i].0@ ==> lookup(s.remove(i), k) == lookup(s, k),
{
    let t = s.remove(i);
    lemma_removed(s, i);
    if has_key(t, k) {
        let o = choose|j: int| 0 <= j < t.len() && (#[trigger] t[j]).0@ == k;
        let o0 = if o < i { o } else { o + 1 };
        assert(t[o] == s[o0]);
        lemma_key_index_unique(t, o);
        lemma_key_index_unique(s, o0);
        if k == s[i].0@ {
            assert(o0 != i);
        }
    } else {
        if k != s[i].0@ && has_key(s, k) {
            let o0 = choose|j: int| 0 <= j < s.len() && (#[trigger] s[j]).0@ == k;
            let o = if o0 < i { o0 } else { o0 - 1 };
            assert(t[o] == s[o0]);
        }
    }
}

/// Entries under distinct string keys.
pub struct KeyedStore<V> {
    entries: Vec<(String, V)>,
}

impl<V> KeyedStore<V> {
    #[verifier::type_invariant]
    spec fn distinct(&self) -> bool {
        keys_distinct(self.entries@)
    }

    /// The entries, in the order in which their keys were first stored.
    pub closed spec fn entries(&self) -> Seq<(String, V)> {
        self.entries@
    }

    /// An empty store.
    pub fn new() -> (r: Self)
        ensures
            r.entries() == Seq::<(String, V)>::empty(),
    {
        KeyedStore { entries: Vec::new() }
    }

    /// The number of entries.
    pub fn len(&self) -> (n: usize)
        ensures
            n == self.entries().len(),
            keys_distinct(self.entries()),
    {
        proof {
            use_type_invariant(self);
        }
        self.entries.len()
    }

    /// The position of the entry with key `key`, if any.
    pub fn position(&self, key: &str) -> (r: Option<usize>)
        ensures
            keys_distinct(self.entries()),
            match r {
                Some(i) => has_key(self.entries(), key@) && i == key_index(self.entries(), key@)
                    && i < self.entries().len(),
                None => !has_key(self.entries(), key@),
            },
    {
        proof {
            use_type_invariant(self);
        }
        let n = self.entries.len();
        for i in 0..n
            invariant
                n == self.entries@.len(),
                keys_distinct(self.entries@),
                forall|j: int| 0 <= j < i ==> (#[trigger] self.entries@[j]).0@ != key@,
        {
            if str_eq(self.entries[i].0.as_str(), key) {
                proof {
                    lemma_key_index_unique(self.entries@, i as int);
                }
                return Some(i);
            }
        }
        None
    }

    /// Whether some entry has key `key`.
    pub fn contains_key(&self, key: &str) -> (r: bool)
        ensures
            r == has_key(self.entries(), key@),
    {
        self.position(key).is_some()
    }

    /// The value stored under `key`.
    pub fn get(&self, key: &str) -> (r: Option<&V>)
        ensures
            keys_distinct(self.entries()),
            match r {
                Some(v) => lookup(self.entries(), key@) == Some(*v),
                None => lookup(self.entries(), key@) is None,
            },
    {
        match self.position(key) {
            Some(i) => Some(&self.entries[i].1),
            None => None,
        }
    }

    /// Stores `v` under `key`, replacing the value of an existing entry with that key.
    pub fn insert(&mut self, key: String, v: V)
        ensures
            keys_distinct(old(self).entries()),
            final(self).entries() == stored(old(self).entries(), key, v),
    {
        proof {
            use_type_invariant(&*self);
        }
        let pos = self.position(key.as_str());
        proof {
            lemma_stored_distinct(self.entries@, key, v);
        }
        let mut entries: Vec<(String, V)> = Vec::new();
        std::mem::swap(&mut entries, &mut self.entries);
        match pos {
            Some(i) => {
                entries.set(i, (key, v));
            },
            None => {
                entries.push((key, v));
            },
        }
        self.entries = entries;
    }

    /// The values, in entry order.
    pub fn values(&self) -> (r: Vec<&V>)
        ensures
            r@.len() == self.entries().len(),
            forall|i: int| 0 <= i < r@.len() ==> *r@[i] == (#[trigger] self.entries()[i]).1,
            derefs(r@) == values_of(self.entries()),
    {
        let mut r: Vec<&V> = Vec::new();
        let n = self.entries.len();
        for i in 0..n
            invariant
                n == self.entries@.len(),
                r@.len() == i,
                forall|j: int| 0 <= j < i ==> *r@[j] == (#[trigger] self.entries@[j]).1,
        {
            r.push(&self.entries[i].1);
        }
        assert(derefs(r@) =~= values_of(self.entries@));
        r
    }

    /// Removes the entry with key `key`, if any.
    pub fn remove(&mut self, key: &str)
        ensures
            lookup(final(self).entries(), key@) is None,
            forall|k: Seq<char>| k != key@ ==> #[trigger] lookup(final(self).entries(), k) == lookup(old(self).entries(), k),
    {
        proof {
            use_type_invariant(&*self);
        }
        match self.position(key) {
            Some(i) => {
                let ghost s = self.entries@;
                let mut entries: Vec<(String, V)> = Vec::new();
                std::mem::swap(&mut entries, &mut self.entries);
                let _ = entries.remove(i);
                proof {
                    lemma_removed(s, i as int);
                    assert forall|k: Seq<char>| k != key@ implies #[trigger] lookup(entries@, k) == lookup(s, k) by {
                        lemma_removed_lookup(s, i as int, k);
                    }
                    lemma_removed_lookup(s, i as int, key@);
                }
                self.entries = entries;
            },
            None => {},
        }
    }

    /// Replaces the value at position `i` by what `f` makes of it, keeping its key and
    /// position.
    pub fn modify_at<F: FnOnce(V) -> V>(&mut self, i: usize, f: F)
        requires
            i < old(self).entries().len(),
            call_requires(f, (old(self).entries()[i as int].1,)),
        ensures
            exists|w: V| #![trigger call_ensures(f, (old(self).entries()[i as int].1,), w)]
                call_ensures(f, (old(self).entries()[i as int].1,), w)
                && final(self).entries() == old(self).entries().update(i as int, (old(self).entries()[i as int].0, w)),
    {
        proof {
            use_type_invariant(&*self);
        }
        let ghost s = self.entries@;
        let mut entries: Vec<(String, V)> = Vec::new();
        std::mem::swap(&mut entries, &mut self.entries);
        let (k, v) = entries.remove(i);
        let w = f(v);
        entries.insert(i, (k, w));
        proof {
            assert(entries@ =~= s.update(i as int, (k, w)));
            assert forall|a: int, b: int| 0 <= a < b < entries@.len()
                implies (#[trigger] entries@[a]).0@ != (#[trigger] entries@[b]).0@ by {
                assert(entries@[a].0 == s[a].0);
                assert(entries@[b].0 == s[b].0);
            }
        }
        self.entries = entries;
    }

    /// The entry at position `i`.
    pub fn entry_at(&self, i: usize) -> (r: (&String, &V))
        requires
            i < self.entries().len(),
        ensures
            *r.0 == self.entries()[i as int].0,
            *r.1 == self.entries()[i as int].1,
    {
        (&self.entries[i].0, &self.entries[i].1)
    }
}

impl<T> KeyedStore<Vec<T>> {
    /// Appends `item` to the list stored under `key`, starting an empty list where the
    /// key has none.
    pub fn push_into(&mut self, key: String, item: T)
        ensures
            lookup(final(self).entries(), key@) matches Some(l) && l@ == match lookup(old(self).entries(), key@) {
                Some(ol) => ol@,
                None => Seq::<T>::empty(),
            }.push(item),
            forall|k: Seq<char>| k != key@ ==> #[trigger] lookup(final(self).entries(), k) == lookup(old(self).entries(), k),
            has_key(old(self).entries(), key@) ==> keys_of(final(self).entries()) == keys_of(old(self).entries()),
            !has_key(old(self).entries(), key@) ==> keys_of(final(self).entries()) == keys_of(old(self).entries()).push(key@),
    {
        proof {
            use_type_invariant(&*self);
        }
        let pos = self.position(key.as_str());
        let mut entries: Vec<(String, Vec<T>)> = Vec::new();
        std::mem::swap(&mut entries, &mut self.entries);
        let ghost s = entries@;
        match pos {
            Some(i) => {
                let mut slot: (String, Vec<T>) = (String::new(), Vec::new());
                entries.set_and_swap(i, &mut slot);
                proof {
                    lemma_key_index_unique(s, i as int);
                }
                slot.1.push(item);
                let ghost k0 = slot.0;
                let ghost l = slot.1;
                entries.set_and_swap(i, &mut slot);
                proof {
                    assert(entries@ =~= stored(s, k0, l));
                    assert forall|k: Seq<char>| k != key@ implies #[trigger] lookup(entries@, k) == lookup(s, k) by {
                        lemma_lookup_after_store(s, k0, l, k);
                    }
                    lemma_lookup_after_store(s, k0, l, key@);
                    lemma_stored_distinct(s, k0, l);
                    assert(keys_of(entries@) =~= keys_of(s));
                }
            },
            None => {
                let mut l: Vec<T> = Vec::new();
                l.push(item);
                proof {
                    lemma_stored_distinct(s, key, l);
                    assert forall|k: Seq<char>| k != key@ implies #[trigger] lookup(s.push((key, l)), k) == lookup(s, k) by {
                        lemma_lookup_after_store(s, key, l, k);
                    }
                    lemma_lookup_after_store(s, key, l, key@);
                }
                entries.push((key, l));
                proof {
                    assert(keys_of(entries@) =~= keys_of(s).push(key@));
                }
            },
        }
        self.entries = entries;
    }
}

} // verus!
