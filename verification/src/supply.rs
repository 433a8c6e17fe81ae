//! Sums of balances over finite maps, the arithmetic behind supply
//! conservation.

use vstd::prelude::*;

verus! {

/// The balance that `m` records for `account`, zero for an account it does not list.
pub open spec fn balance_in(m: Map<u64, i128>, account: u64) -> int {
    if m.contains_key(account) {
        m[account] as int
    } else {
        0
    }
}

/// The sum of all values of a finite map.
pub open spec fn map_sum(m: Map<u64, i128>) -> int
    decreases m.len(),
    when m.dom().finite()
{
    if m.len() == 0 {
        0
    } else {
        let k = m.dom().choose();
        m[k] + map_sum(m.remove(k))
    }
}

/// Every value of `m` is at least zero.
pub open spec fn all_non_negative(m: Map<u64, i128>) -> bool {
    forall|k: u64| #[trigger] m.contains_key(k) ==> m[k] >= 0
}

/// The sum does not depend on the order in which keys are taken out.
pub proof fn lemma_map_sum_remove(m: Map<u64, i128>, k: u64)
    requires
        m.dom().finite(),
        m.contains_key(k),
    ensures
        map_sum(m) == m[k] + map_sum(m.remove(k)),
    decreases m.len(),
{
    let c = m.dom().choose();
    assert(m.dom().contains(c));
    if c != k {
        let mc = m.remove(c);
        let mk = m.remove(k);
        lemma_map_sum_remove(mc, k);
        lemma_map_sum_remove(mk, c);
        assert(mc.remove(k) =~= mk.remove(c));
    }
}

/// Setting one value changes the sum by the difference of the two values.
pub proof fn lemma_map_sum_insert(m: Map<u64, i128>, k: u64, v: i128)
    requires
        m.dom().finite(),
    ensures
        m.insert(k, v).dom().finite(),
        map_sum(m.insert(k, v)) == map_sum(m) - balance_in(m, k) + v,
{
    let n = m.insert(k, v);
    lemma_map_sum_remove(n, k);
    if m.contains_key(k) {
        lemma_map_sum_remove(m, k);
        assert(n.remove(k) =~= m.remove(k));
    } else {
        assert(n.remove(k) =~= m);
    }
}

/// A map without negative values has a sum of at least zero.
pub proof fn lemma_map_sum_non_negative(m: Map<u64, i128>)
    requires
        m.dom().finite(),
        all_non_negative(m),
    ensures
        map_sum(m) >= 0,
    decreases m.len(),
{
    if m.len() > 0 {
        let k = m.dom().choose();
        assert(m.contains_key(k));
        lemma_map_sum_non_negative(m.remove(k));
    }
}

/// Without negative values, any two different balances together stay within the sum.
pub proof fn lemma_two_balances_within_sum(m: Map<u64, i128>, a: u64, b: u64)
    requires
        m.dom().finite(),
        all_non_negative(m),
    ensures
        balance_in(m, a) <= map_sum(m),
        a != b ==> balance_in(m, a) + balance_in(m, b) <= map_sum(m),
{
    lemma_map_sum_non_negative(m);
    if m.contains_key(a) {
        lemma_map_sum_remove(m, a);
        lemma_map_sum_non_negative(m.remove(a));
        if a != b && m.contains_key(b) {
            lemma_map_sum_remove(m.remove(a), b);
            lemma_map_sum_non_negative(m.remove(a).remove(b));
        }
    } else if m.contains_key(b) {
        lemma_map_sum_remove(m, b);
        lemma_map_sum_non_negative(m.remove(b));
    }
}

} // verus!
