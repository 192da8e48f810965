//! A key-value store backed by a vector of entries with pairwise distinct
//! keys, viewed as a `Map`. It stands in for the durable tuple-keyed
//! mapping that the two ledgers are layered on: it offers exactly the
//! operations the ledgers need (lookup, containment, overwrite, insert,
//! removal), each specified against the `Map` view.

use vstd::prelude::*;

verus! {

/// Exec-level key comparison that agrees with equality of the key values.
pub trait StoreKey: Sized + Copy {
    fn key_eq(&self, other: &Self) -> (r: bool)
        ensures
            r <==> *self == *other,
    ;
}

/// True when no two entries of `s` carry the same key.
spec fn distinct_keys<K, V>(s: Seq<(K, V)>) -> bool {
    forall|i: int, j: int| 0 <= i < j < s.len() ==> s[i].0 != s[j].0
}

/// True when some entry of `s` carries the key `k`.
spec fn has_key<K, V>(s: Seq<(K, V)>, k: K) -> bool {
    exists|i: int| 0 <= i < s.len() && s[i].0 == k
}

/// The index of the entry of `s` carrying `k`; meaningful only when
/// `has_key(s, k)` holds and the keys of `s` are distinct.
spec fn key_index<K, V>(s: Seq<(K, V)>, k: K) -> int {
    choose|i: int| 0 <= i < s.len() && s[i].0 == k
}

/// The entry sequence `s` read as a finite map.
spec fn seq_view<K, V>(s: Seq<(K, V)>) -> Map<K, V> {
    Map::new(|k: K| has_key(s, k), |k: K| s[key_index(s, k)].1)
}

/// An entry at index `i` carrying `k` pins down membership, and, where
/// the keys are distinct, the index and value that the view reads.
proof fn lemma_key_at<K, V>(s: Seq<(K, V)>, k: K, i: int)
    requires
        0 <= i < s.len(),
        s[i].0 == k,
    ensures
        has_key(s, k),
        seq_view(s).contains_key(k),
        distinct_keys(s) ==> key_index(s, k) == i && seq_view(s)[k] == s[i].1,
{
    assert(has_key(s, k)) by {
        assert(0 <= i < s.len() && s[i].0 == k);
    }
    if distinct_keys(s) {
        let j = key_index(s, k);
        assert(0 <= j < s.len() && s[j].0 == k);
        assert(j == i);
    }
}

/// Overwriting the entry at `i` in place, key unchanged, inserts into the view.
proof fn lemma_update_view<K, V>(s: Seq<(K, V)>, i: int, k: K, v: V)
    requires
        distinct_keys(s),
        0 <= i < s.len(),
        s[i].0 == k,
    ensures
        distinct_keys(s.update(i, (k, v))),
        seq_view(s.update(i, (k, v))) == seq_view(s).insert(k, v),
{
    let t = s.update(i, (k, v));
    assert forall|p: int| 0 <= p < t.len() implies t[p].0 == s[p].0 by {
        if p != i {
            assert(t[p] == s[p]);
        }
    }
    assert forall|k2: K| has_key(t, k2) implies has_key(s, k2) by {
        let w = choose|w: int| 0 <= w < t.len() && t[w].0 == k2;
        assert(s[w].0 == k2);
    }
    assert forall|k2: K| has_key(s, k2) implies has_key(t, k2) by {
        let w = choose|w: int| 0 <= w < s.len() && s[w].0 == k2;
        assert(t[w].0 == k2);
    }
    assert forall|k2: K| has_key(t, k2) implies #[trigger] seq_view(t)[k2] == seq_view(s).insert(
        k,
        v,
    )[k2] by {
        lemma_key_at(s, k, i);
        lemma_key_at(t, k, i);
        if k2 == k {
            assert(seq_view(t)[k2] == v);
        } else {
            let w = key_index(t, k2);
            assert(0 <= w < t.len() && t[w].0 == k2);
            assert(w != i);
            assert(s[w] == t[w]);
            lemma_key_at(s, k2, w);
            lemma_key_at(t, k2, w);
        }
    }
    assert(seq_view(t) =~= seq_view(s).insert(k, v));
}

/// Appending an entry with a fresh key inserts into the view.
proof fn lemma_push_view<K, V>(s: Seq<(K, V)>, k: K, v: V)
    requires
        distinct_keys(s),
        !has_key(s, k),
    ensures
        distinct_keys(s.push((k, v))),
        seq_view(s.push((k, v))) == seq_view(s).insert(k, v),
{
    let t = s.push((k, v));
    assert(t[s.len() as int] == (k, v));
    assert forall|p: int| 0 <= p < s.len() implies t[p] == s[p] by {}
    assert(distinct_keys(t)) by {
        assert forall|p: int, q: int| 0 <= p < q < t.len() implies t[p].0 != t[q].0 by {
            if q == s.len() {
                assert(t[p].0 == s[p].0);
                assert(s[p].0 != k);
            }
        }
    }
    assert forall|k2: K| has_key(t, k2) implies (k2 == k || has_key(s, k2)) by {
        let w = choose|w: int| 0 <= w < t.len() && t[w].0 == k2;
        if w < s.len() {
            assert(s[w].0 == k2);
        }
    }
    assert forall|k2: K| has_key(s, k2) implies has_key(t, k2) by {
        let w = choose|w: int| 0 <= w < s.len() && s[w].0 == k2;
        assert(t[w].0 == k2);
    }
    lemma_key_at(t, k, s.len() as int);
    assert forall|k2: K| has_key(t, k2) implies #[trigger] seq_view(t)[k2] == seq_view(s).insert(
        k,
        v,
    )[k2] by {
        if k2 == k {
            assert(seq_view(t)[k2] == v);
        } else {
            let w = key_index(t, k2);
            assert(0 <= w < t.len() && t[w].0 == k2);
            assert(w != s.len());
            assert(s[w] == t[w]);
            lemma_key_at(s, k2, w);
            lemma_key_at(t, k2, w);
        }
    }
    assert(seq_view(t) =~= seq_view(s).insert(k, v));
}

/// Removing the entry at `i` removes its key from the view.
proof fn lemma_remove_view<K, V>(s: Seq<(K, V)>, i: int)
    requires
        distinct_keys(s),
        0 <= i < s.len(),
    ensures
        distinct_keys(s.remove(i)),
        seq_view(s.remove(i)) == seq_view(s).remove(s[i].0),
{
    let t = s.remove(i);
    let k = s[i].0;
    s.remove_ensures(i);
    assert(distinct_keys(t)) by {
        assert forall|p: int, q: int| 0 <= p < q < t.len() implies t[p].0 != t[q].0 by {
            let p0 = if p < i { p } else { p + 1 };
            let q0 = if q < i { q } else { q + 1 };
            assert(t[p] == s[p0]);
            assert(t[q] == s[q0]);
        }
    }
    assert forall|k2: K| has_key(t, k2) implies has_key(s, k2) && k2 != k by {
        let w = choose|w: int| 0 <= w < t.len() && t[w].0 == k2;
        let w0 = if w < i { w } else { w + 1 };
        assert(t[w] == s[w0]);
        assert(s[w0].0 == k2);
        assert(w0 != i);
    }
    assert forall|k2: K| has_key(s, k2) && k2 != k implies has_key(t, k2) by {
        let w = choose|w: int| 0 <= w < s.len() && s[w].0 == k2;
        assert(w != i);
        let w1 = if w < i { w } else { w - 1 };
        assert(t[w1] == s[w]);
        assert(t[w1].0 == k2);
    }
    assert forall|k2: K| has_key(t, k2) implies #[trigger] seq_view(t)[k2] == seq_view(s)[k2] by {
        let w = key_index(t, k2);
        assert(0 <= w < t.len() && t[w].0 == k2);
        let w0 = if w < i { w } else { w + 1 };
        assert(t[w] == s[w0]);
        lemma_key_at(s, k2, w0);
        lemma_key_at(t, k2, w);
    }
    assert(seq_view(t) =~= seq_view(s).remove(k));
}

/// A mapping from keys to values, backed by a vector of entries with
/// pairwise distinct keys.
#[verifier::reject_recursive_types(K)]
pub struct KvMap<K, V> {
    entries: Vec<(K, V)>,
}

impl<K, V> KvMap<K, V> {
    #[verifier::type_invariant]
    spec fn wf(self) -> bool {
        distinct_keys(self.entries@)
    }
}

impl<K, V> View for KvMap<K, V> {
    type V = Map<K, V>;

    closed spec fn view(&self) -> Map<K, V> {
        seq_view(self.entries@)
    }
}

impl<K: StoreKey, V: Copy> KvMap<K, V> {
    /// An empty store.
    pub fn new() -> (m: Self)
        ensures
            m@ == Map::<K, V>::empty(),
    {
        let m = KvMap { entries: Vec::new() };
        proof {
            assert(m@ =~= Map::<K, V>::empty());
        }
        m
    }

    /// The index of the entry carrying `key`, if one is present.
    fn index_of(&self, key: &K) -> (r: Option<usize>)
        ensures
            match r {
                Some(i) => i < self.entries@.len() && self.entries@[i as int].0 == *key,
                None => !has_key(self.entries@, *key),
            },
    {
        let n = self.entries.len();
        let mut i: usize = 0;
        while i < n
            invariant
                n == self.entries@.len(),
                i <= n,
                forall|j: int| 0 <= j < i ==> self.entries@[j].0 != *key,
            decreases n - i,
        {
            if self.entries[i].0.key_eq(key) {
                return Some(i);
            }
            i = i + 1;
        }
        None
    }

    /// The value stored under `key`, if one is present.
    pub fn get(&self, key: &K) -> (r: Option<V>)
        ensures
            self@.contains_key(*key) ==> r == Some(self@[*key]),
            !self@.contains_key(*key) ==> r is None,
    {
        proof {
            use_type_invariant(self);
        }
        match self.index_of(key) {
            Some(i) => {
                let v = self.entries[i].1;
                proof {
                    lemma_key_at(self.entries@, *key, i as int);
                }
                Some(v)
            },
            None => None,
        }
    }

    /// Stores `value` under `key`, overwriting in place when the key is
    /// present and appending a fresh entry when it is not.
    pub fn set(&mut self, key: K, value: V)
        ensures
            final(self)@ == old(self)@.insert(key, value),
    {
        proof {
            use_type_invariant(&*self);
        }
        let ghost s = self.entries@;
        let idx = self.index_of(&key);
        let mut entries: Vec<(K, V)> = Vec::new();
        std::mem::swap(&mut entries, &mut self.entries);
        match idx {
            Some(i) => {
                entries[i] = (key, value);
                proof {
                    lemma_update_view(s, i as int, key, value);
                }
            },
            None => {
                entries.push((key, value));
                proof {
                    lemma_push_view(s, key, value);
                }
            },
        }
        self.entries = entries;
    }

    /// Removes the entry under `key`, if one is present; reports whether
    /// one was.
    pub fn remove(&mut self, key: &K) -> (r: bool)
        ensures
            r == old(self)@.contains_key(*key),
            final(self)@ == old(self)@.remove(*key),
    {
        proof {
            use_type_invariant(&*self);
        }
        let ghost s = self.entries@;
        let idx = self.index_of(&key);
        match idx {
            Some(i) => {
                let mut entries: Vec<(K, V)> = Vec::new();
                std::mem::swap(&mut entries, &mut self.entries);
                entries.remove(i);
                proof {
                    lemma_key_at(s, *key, i as int);
                    lemma_remove_view(s, i as int);
                }
                self.entries = entries;
                true
            },
            None => {
                proof {
                    assert(self@ =~= old(self)@.remove(*key));
                }
                false
            },
        }
    }

    /// Whether `key` is present.
    pub fn contains_key(&self, key: &K) -> (r: bool)
        ensures
            r == self@.contains_key(*key),
    {
        match self.index_of(key) {
            Some(i) => {
                proof {
                    assert(has_key(self.entries@, *key)) by {
                        assert(self.entries@[i as int].0 == *key);
                    }
                }
                true
            },
            None => false,
        }
    }
}

} // verus!
