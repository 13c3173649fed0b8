//! Summation over finite maps, for the ledger's supply accounting: the
//! total fungible supply is the sum of all balances, and the item
//! registry's per-account counts must add up to the number of live
//! ownership records.

use vstd::prelude::*;

verus! {

/// The sum of all values of a finite map; 0 for infinite domains, which
/// never arise in the ledger's stores.
pub open spec fn msum(m: Map<u64, int>) -> int
    decreases m.dom().len(),
{
    if m.dom().finite() && m.dom().len() > 0 {
        let k = m.dom().choose();
        m[k] + msum(m.remove(k))
    } else {
        0
    }
}

/// Splitting off any one key: the sum is that key's value plus the sum of
/// the rest, no matter which key the definition happened to split on.
pub proof fn lemma_msum_remove(m: Map<u64, int>, k: u64)
    requires
        m.dom().finite(),
        m.dom().contains(k),
    ensures
        msum(m) == m[k] + msum(m.remove(k)),
    decreases m.dom().len(),
{
    broadcast use vstd::set::group_set_axioms;

    let k0 = m.dom().choose();
    assert(m.dom().len() > 0);
    if k0 == k {
    } else {
        lemma_msum_remove(m.remove(k0), k);
        lemma_msum_remove(m.remove(k), k0);
        assert(m.remove(k0).remove(k) =~= m.remove(k).remove(k0));
        assert(m.remove(k0)[k] == m[k]);
        assert(m.remove(k)[k0] == m[k0]);
    }
}

/// Inserting a value changes the sum by the difference against the value
/// the key held before (0 when it held none).
pub proof fn lemma_msum_insert(m: Map<u64, int>, k: u64, v: int)
    requires
        m.dom().finite(),
    ensures
        msum(m.insert(k, v)) == msum(m) + v - (if m.dom().contains(k) {
            m[k]
        } else {
            0
        }),
{
    broadcast use vstd::set::group_set_axioms;

    let m1 = m.insert(k, v);
    lemma_msum_remove(m1, k);
    if m.dom().contains(k) {
        lemma_msum_remove(m, k);
        assert(m1.remove(k) =~= m.remove(k));
    } else {
        assert(m1.remove(k) =~= m);
    }
}

/// A balance map seen with mathematical-integer values.
pub open spec fn int_of_i128(m: Map<u64, i128>) -> Map<u64, int> {
    Map::new(|k: u64| m.dom().contains(k), |k: u64| m[k] as int)
}

/// A count map seen with mathematical-integer values.
pub open spec fn int_of_u32(m: Map<u64, u32>) -> Map<u64, int> {
    Map::new(|k: u64| m.dom().contains(k), |k: u64| m[k] as int)
}

/// Writing one balance changes the sum of all balances by the difference
/// against the balance the account held before.
pub proof fn lemma_sum_i128_insert(m: Map<u64, i128>, k: u64, v: i128)
    requires
        m.dom().finite(),
    ensures
        msum(int_of_i128(m.insert(k, v))) == msum(int_of_i128(m)) + v - (if m.dom().contains(k) {
            m[k] as int
        } else {
            0
        }),
{
    broadcast use vstd::set::group_set_axioms;

    assert(int_of_i128(m).dom() =~= m.dom());
    assert(int_of_i128(m.insert(k, v)) =~= int_of_i128(m).insert(k, v as int));
    lemma_msum_insert(int_of_i128(m), k, v as int);
}

/// Writing one count changes the sum of all counts by the difference
/// against the count the account held before.
pub proof fn lemma_sum_u32_insert(m: Map<u64, u32>, k: u64, v: u32)
    requires
        m.dom().finite(),
    ensures
        msum(int_of_u32(m.insert(k, v))) == msum(int_of_u32(m)) + v - (if m.dom().contains(k) {
            m[k] as int
        } else {
            0
        }),
{
    broadcast use vstd::set::group_set_axioms;

    assert(int_of_u32(m).dom() =~= m.dom());
    assert(int_of_u32(m.insert(k, v)) =~= int_of_u32(m).insert(k, v as int));
    lemma_msum_insert(int_of_u32(m), k, v as int);
}

} // verus!
