//! One keyspace of the ledger's flat storage namespace: a store from
//! `u64` keys to values, realized as an association vector whose keys are
//! pairwise distinct. Its mathematical content is the [`Map`] returned by
//! the view; absence of a key is visible as absence from the map's domain.

use vstd::prelude::*;

verus! {

/// A durable store from `u64` keys to values of type `V`.
pub struct UMap<V> {
    entries: Vec<(u64, V)>,
}

/// The map described by an association sequence; later entries win,
/// though under [`unique_keys`] each key occurs at most once.
spec fn kvs_to_map<V>(s: Seq<(u64, V)>) -> Map<u64, V>
    decreases s.len(),
{
    if s.len() == 0 {
        Map::empty()
    } else {
        kvs_to_map(s.drop_last()).insert(s.last().0, s.last().1)
    }
}

/// Each key occurs at most once.
spec fn unique_keys<V>(s: Seq<(u64, V)>) -> bool {
    forall|i: int, j: int| 0 <= i < j < s.len() ==> (#[trigger] s[i]).0 != (#[trigger] s[j]).0
}

/// A key that occurs nowhere in the sequence is not in the map's domain.
proof fn lemma_kvs_absent<V>(s: Seq<(u64, V)>, k: u64)
    requires
        forall|j: int| 0 <= j < s.len() ==> (#[trigger] s[j]).0 != k,
    ensures
        !kvs_to_map(s).dom().contains(k),
    decreases s.len(),
{
    if s.len() > 0 {
        assert(forall|j: int|
            0 <= j < s.drop_last().len() ==> (#[trigger] s.drop_last()[j]).0 != k);
        lemma_kvs_absent(s.drop_last(), k);
        assert(s.last() == s[s.len() - 1]);
    }
}

/// Under unique keys, the entry at index `i` gives the map's value at its key.
proof fn lemma_kvs_present<V>(s: Seq<(u64, V)>, k: u64, i: int)
    requires
        unique_keys(s),
        0 <= i < s.len(),
        s[i].0 == k,
    ensures
        kvs_to_map(s).dom().contains(k),
        kvs_to_map(s)[k] == s[i].1,
    decreases s.len(),
{
    if i == s.len() - 1 {
        assert(s.last() == s[i]);
    } else {
        assert(unique_keys(s.drop_last())) by {
            assert(forall|x: int, y: int|
                0 <= x < y < s.drop_last().len() ==> (#[trigger] s.drop_last()[x]).0
                    != (#[trigger] s.drop_last()[y]).0) by {
                assert(forall|x: int| 0 <= x < s.len() - 1 ==> s.drop_last()[x] == s[x]);
            }
        }
        assert(s.drop_last()[i] == s[i]);
        lemma_kvs_present(s.drop_last(), k, i);
        assert(s.last() == s[s.len() - 1]);
        assert(s.last().0 != k);
    }
}

/// The domain of the described map is always finite.
proof fn lemma_kvs_finite<V>(s: Seq<(u64, V)>)
    ensures
        kvs_to_map(s).dom().finite(),
    decreases s.len(),
{
    if s.len() > 0 {
        lemma_kvs_finite(s.drop_last());
    }
}

/// Replacing the entry that holds key `k` describes a map insertion at `k`.
proof fn lemma_kvs_update<V>(s: Seq<(u64, V)>, i: int, k: u64, v: V)
    requires
        unique_keys(s),
        0 <= i < s.len(),
        s[i].0 == k,
    ensures
        kvs_to_map(s.update(i, (k, v))) =~= kvs_to_map(s).insert(k, v),
        unique_keys(s.update(i, (k, v))),
    decreases s.len(),
{
    let s2 = s.update(i, (k, v));
    assert(forall|x: int| 0 <= x < s.len() && x != i ==> s2[x] == s[x]);
    assert(s2[i].0 == s[i].0);
    assert(unique_keys(s2));
    if i == s.len() - 1 {
        assert(s2.drop_last() =~= s.drop_last());
        assert(s2.last() == (k, v));
        assert(s.last().0 == k);
    } else {
        assert(unique_keys(s.drop_last())) by {
            assert(forall|x: int| 0 <= x < s.len() - 1 ==> s.drop_last()[x] == s[x]);
        }
        assert(s.drop_last()[i] == s[i]);
        lemma_kvs_update(s.drop_last(), i, k, v);
        assert(s2.drop_last() =~= s.drop_last().update(i, (k, v)));
        assert(s2.last() == s.last());
        assert(s.last().0 != k);
    }
}

/// Removing the entry that holds key `k` describes a map removal of `k`.
proof fn lemma_kvs_remove<V>(s: Seq<(u64, V)>, i: int, k: u64)
    requires
        unique_keys(s),
        0 <= i < s.len(),
        s[i].0 == k,
    ensures
        kvs_to_map(s.remove(i)) =~= kvs_to_map(s).remove(k),
        unique_keys(s.remove(i)),
    decreases s.len(),
{
    let s2 = s.remove(i);
    s.remove_ensures(i);
    assert(unique_keys(s2)) by {
        assert(forall|x: int, y: int|
            0 <= x < y < s2.len() ==> (#[trigger] s2[x]).0 != (#[trigger] s2[y]).0) by {
            assert(forall|x: int| 0 <= x < i ==> s2[x] == s[x]);
            assert(forall|x: int| i <= x < s.len() - 1 ==> s2[x] == s[x + 1]);
        }
    }
    if i == s.len() - 1 {
        assert(s2 =~= s.drop_last());
        assert(forall|j: int| 0 <= j < s.len() - 1 ==> (#[trigger] s.drop_last()[j]).0 != k);
        lemma_kvs_absent(s.drop_last(), k);
        assert(s.last().0 == k);
    } else {
        assert(unique_keys(s.drop_last())) by {
            assert(forall|x: int| 0 <= x < s.len() - 1 ==> s.drop_last()[x] == s[x]);
        }
        assert(s.drop_last()[i] == s[i]);
        lemma_kvs_remove(s.drop_last(), i, k);
        assert(s2.drop_last() =~= s.drop_last().remove(i)) by {
            s.drop_last().remove_ensures(i);
        }
        assert(s2.last() == s.last());
        assert(s.last().0 != k);
    }
}

impl<V> View for UMap<V> {
    type V = Map<u64, V>;

    /// The mathematical map this store realizes.
    closed spec fn view(&self) -> Map<u64, V> {
        kvs_to_map(self.entries@)
    }
}

impl<V> UMap<V> {
    /// The representation holds each key at most once.
    pub closed spec fn wf(&self) -> bool {
        unique_keys(self.entries@)
    }

    /// The store's domain is finite in every state.
    pub proof fn lemma_dom_finite(&self)
        ensures
            self@.dom().finite(),
    {
        lemma_kvs_finite(self.entries@);
    }

    /// An empty store.
    pub fn new() -> (store: Self)
        ensures
            store.wf(),
            store@ == Map::<u64, V>::empty(),
    {
        UMap { entries: Vec::new() }
    }

    /// Looks the key up; `None` exactly when no record exists for it.
    pub fn get(&self, k: u64) -> (r: Option<&V>)
        requires
            self.wf(),
        ensures
            (match r {
                Some(v) => self@.dom().contains(k) && *v == self@[k],
                None => !self@.dom().contains(k),
            }),
    {
        let n = self.entries.len();
        let mut i: usize = 0;
        while i < n
            invariant
                n == self.entries.len(),
                0 <= i <= n,
                self.wf(),
                forall|j: int| 0 <= j < i ==> (#[trigger] self.entries@[j]).0 != k,
            decreases n - i,
        {
            if self.entries[i].0 == k {
                proof {
                    lemma_kvs_present(self.entries@, k, i as int);
                }
                return Some(&self.entries[i].1);
            }
            i = i + 1;
        }
        proof {
            lemma_kvs_absent(self.entries@, k);
        }
        None
    }

    /// Creates the record for `k` or overwrites it wholesale.
    pub fn insert(&mut self, k: u64, v: V)
        requires
            old(self).wf(),
        ensures
            final(self).wf(),
            final(self)@ == old(self)@.insert(k, v),
    {
        let n = self.entries.len();
        let mut i: usize = 0;
        while i < n
            invariant
                n == self.entries.len(),
                0 <= i <= n,
                self.wf(),
                *self == *old(self),
                forall|j: int| 0 <= j < i ==> (#[trigger] self.entries@[j]).0 != k,
            decreases n - i,
        {
            if self.entries[i].0 == k {
                proof {
                    lemma_kvs_update(self.entries@, i as int, k, v);
                }
                self.entries[i] = (k, v);
                return ;
            }
            i = i + 1;
        }
        proof {
            lemma_kvs_absent(self.entries@, k);
            assert(self.entries@.push((k, v)).drop_last() =~= self.entries@);
            assert(forall|x: int|
                0 <= x < self.entries@.len() ==> self.entries@.push((k, v))[x]
                    == self.entries@[x]);
            assert(kvs_to_map(self.entries@.push((k, v))) =~= kvs_to_map(self.entries@).insert(
                k,
                v,
            ));
            assert(unique_keys(self.entries@.push((k, v))));
        }
        self.entries.push((k, v));
    }

    /// Deletes the record for `k` and hands its value out; without one
    /// the store is unchanged.
    pub fn take(&mut self, k: u64) -> (r: Option<V>)
        requires
            old(self).wf(),
        ensures
            final(self).wf(),
            final(self)@ == old(self)@.remove(k),
            (match r {
                Some(v) => old(self)@.dom().contains(k) && v == old(self)@[k],
                None => !old(self)@.dom().contains(k),
            }),
    {
        let n = self.entries.len();
        let mut i: usize = 0;
        while i < n
            invariant
                n == self.entries.len(),
                0 <= i <= n,
                self.wf(),
                *self == *old(self),
                forall|j: int| 0 <= j < i ==> (#[trigger] self.entries@[j]).0 != k,
            decreases n - i,
        {
            if self.entries[i].0 == k {
                proof {
                    lemma_kvs_present(self.entries@, k, i as int);
                    lemma_kvs_remove(self.entries@, i as int, k);
                }
                let entry = self.entries.remove(i);
                return Some(entry.1);
            }
            i = i + 1;
        }
        proof {
            lemma_kvs_absent(self.entries@, k);
            assert(kvs_to_map(self.entries@).remove(k) =~= kvs_to_map(self.entries@));
        }
        None
    }

    /// Deletes the record for `k`; without one the store is unchanged.
    pub fn remove(&mut self, k: u64)
        requires
            old(self).wf(),
        ensures
            final(self).wf(),
            final(self)@ == old(self)@.remove(k),
    {
        let n = self.entries.len();
        let mut i: usize = 0;
        while i < n
            invariant
                n == self.entries.len(),
                0 <= i <= n,
                self.wf(),
                *self == *old(self),
                forall|j: int| 0 <= j < i ==> (#[trigger] self.entries@[j]).0 != k,
            decreases n - i,
        {
            if self.entries[i].0 == k {
                proof {
                    lemma_kvs_remove(self.entries@, i as int, k);
                }
                self.entries.remove(i);
                return ;
            }
            i = i + 1;
        }
        proof {
            lemma_kvs_absent(self.entries@, k);
            assert(kvs_to_map(self.entries@).remove(k) =~= kvs_to_map(self.entries@));
        }
    }
}

} // verus!
