//! The keyspace of the ledger's storage namespace whose keys are ordered
//! pairs of accounts, as the allowance registry needs for its
//! `(owner, spender)` records. Structure and contracts mirror
//! [`crate::umap::UMap`]; only the key shape differs.

use vstd::prelude::*;

verus! {

/// A durable store from `(u64, u64)` key pairs to values of type `V`.
pub struct PairMap<V> {
    entries: Vec<(u64, u64, V)>,
}

/// The key pair of an entry.
spec fn key_of<V>(e: (u64, u64, V)) -> (u64, u64) {
    (e.0, e.1)
}

/// The map described by an association sequence.
spec fn kvs_to_map<V>(s: Seq<(u64, u64, V)>) -> Map<(u64, u64), V>
    decreases s.len(),
{
    if s.len() == 0 {
        Map::empty()
    } else {
        kvs_to_map(s.drop_last()).insert(key_of(s.last()), s.last().2)
    }
}

/// Each key pair occurs at most once.
spec fn unique_keys<V>(s: Seq<(u64, u64, V)>) -> bool {
    forall|i: int, j: int|
        0 <= i < j < s.len() ==> key_of(#[trigger] s[i]) != key_of(#[trigger] s[j])
}

/// A key pair that occurs nowhere in the sequence is not in the map's domain.
proof fn lemma_kvs_absent<V>(s: Seq<(u64, u64, V)>, k: (u64, u64))
    requires
        forall|j: int| 0 <= j < s.len() ==> key_of(#[trigger] s[j]) != k,
    ensures
        !kvs_to_map(s).dom().contains(k),
    decreases s.len(),
{
    if s.len() > 0 {
        assert(forall|j: int|
            0 <= j < s.drop_last().len() ==> key_of(#[trigger] s.drop_last()[j]) != k);
        lemma_kvs_absent(s.drop_last(), k);
        assert(s.last() == s[s.len() - 1]);
    }
}

/// Under unique keys, the entry at index `i` gives the map's value at its key.
proof fn lemma_kvs_present<V>(s: Seq<(u64, u64, V)>, k: (u64, u64), i: int)
    requires
        unique_keys(s),
        0 <= i < s.len(),
        key_of(s[i]) == k,
    ensures
        kvs_to_map(s).dom().contains(k),
        kvs_to_map(s)[k] == s[i].2,
    decreases s.len(),
{
    if i == s.len() - 1 {
        assert(s.last() == s[i]);
    } else {
        assert(unique_keys(s.drop_last())) by {
            assert(forall|x: int| 0 <= x < s.len() - 1 ==> s.drop_last()[x] == s[x]);
        }
        assert(s.drop_last()[i] == s[i]);
        lemma_kvs_present(s.drop_last(), k, i);
        assert(s.last() == s[s.len() - 1]);
        assert(key_of(s.last()) != k);
    }
}

/// Replacing the entry that holds key `k` describes a map insertion at `k`.
proof fn lemma_kvs_update<V>(s: Seq<(u64, u64, V)>, i: int, k: (u64, u64), v: V)
    requires
        unique_keys(s),
        0 <= i < s.len(),
        key_of(s[i]) == k,
    ensures
        kvs_to_map(s.update(i, (k.0, k.1, v))) =~= kvs_to_map(s).insert(k, v),
        unique_keys(s.update(i, (k.0, k.1, v))),
    decreases s.len(),
{
    let s2 = s.update(i, (k.0, k.1, v));
    assert(forall|x: int| 0 <= x < s.len() && x != i ==> s2[x] == s[x]);
    assert(key_of(s2[i]) == key_of(s[i]));
    assert(unique_keys(s2));
    if i == s.len() - 1 {
        assert(s2.drop_last() =~= s.drop_last());
        assert(s2.last() == (k.0, k.1, v));
        assert(key_of(s.last()) == k);
    } else {
        assert(unique_keys(s.drop_last())) by {
            assert(forall|x: int| 0 <= x < s.len() - 1 ==> s.drop_last()[x] == s[x]);
        }
        assert(s.drop_last()[i] == s[i]);
        lemma_kvs_update(s.drop_last(), i, k, v);
        assert(s2.drop_last() =~= s.drop_last().update(i, (k.0, k.1, v)));
        assert(s2.last() == s.last());
        assert(key_of(s.last()) != k);
    }
}

impl<V> View for PairMap<V> {
    type V = Map<(u64, u64), V>;

    /// The mathematical map this store realizes.
    closed spec fn view(&self) -> Map<(u64, u64), V> {
        kvs_to_map(self.entries@)
    }
}

impl<V> PairMap<V> {
    /// The representation holds each key pair at most once.
    pub closed spec fn wf(&self) -> bool {
        unique_keys(self.entries@)
    }

    /// The store's domain is finite in every state.
    pub proof fn lemma_dom_finite(&self)
        ensures
            self@.dom().finite(),
    {
        lemma_kvs_finite(self.entries@);
    }

    /// An empty store.
    pub fn new() -> (store: Self)
        ensures
            store.wf(),
            store@ == Map::<(u64, u64), V>::empty(),
    {
        PairMap { entries: Vec::new() }
    }

    /// Looks the key pair up; `None` exactly when no record exists for it.
    pub fn get(&self, a: u64, b: u64) -> (r: Option<&V>)
        requires
            self.wf(),
        ensures
            (match r {
                Some(v) => self@.dom().contains((a, b)) && *v == self@[(a, b)],
                None => !self@.dom().contains((a, b)),
            }),
    {
        let n = self.entries.len();
        let mut i: usize = 0;
        while i < n
            invariant
                n == self.entries.len(),
                0 <= i <= n,
                self.wf(),
                forall|j: int| 0 <= j < i ==> key_of(#[trigger] self.entries@[j]) != (a, b),
            decreases n - i,
        {
            if self.entries[i].0 == a && self.entries[i].1 == b {
                proof {
                    lemma_kvs_present(self.entries@, (a, b), i as int);
                }
                return Some(&self.entries[i].2);
            }
            i = i + 1;
        }
        proof {
            lemma_kvs_absent(self.entries@, (a, b));
        }
        None
    }

    /// Creates the record for the key pair or overwrites it wholesale.
    pub fn insert(&mut self, a: u64, b: u64, v: V)
        requires
            old(self).wf(),
        ensures
            final(self).wf(),
            final(self)@ == old(self)@.insert((a, b), v),
    {
        let n = self.entries.len();
        let mut i: usize = 0;
        while i < n
            invariant
                n == self.entries.len(),
                0 <= i <= n,
                self.wf(),
                *self == *old(self),
                forall|j: int| 0 <= j < i ==> key_of(#[trigger] self.entries@[j]) != (a, b),
            decreases n - i,
        {
            if self.entries[i].0 == a && self.entries[i].1 == b {
                proof {
                    lemma_kvs_update(self.entries@, i as int, (a, b), v);
                }
                self.entries[i] = (a, b, v);
                return;
            }
            i = i + 1;
        }
        proof {
            lemma_kvs_absent(self.entries@, (a, b));
            assert(self.entries@.push((a, b, v)).drop_last() =~= self.entries@);
            assert(forall|x: int|
                0 <= x < self.entries@.len() ==> self.entries@.push((a, b, v))[x]
                    == self.entries@[x]);
            assert(kvs_to_map(self.entries@.push((a, b, v))) =~= kvs_to_map(
                self.entries@,
            ).insert((a, b), v));
            assert(unique_keys(self.entries@.push((a, b, v))));
        }
        self.entries.push((a, b, v));
    }
}

/// The domain of the described map is always finite.
proof fn lemma_kvs_finite<V>(s: Seq<(u64, u64, V)>)
    ensures
        kvs_to_map(s).dom().finite(),
    decreases s.len(),
{
    if s.len() > 0 {
        lemma_kvs_finite(s.drop_last());
    }
}

} // verus!
