//! Association lists: sequences of key/value pairs with distinct keys, read
//! as finite maps.  The ledgers keep allowances and metadata this way.

use vstd::prelude::*;

verus! {

/// No key occurs twice in `s`.
pub open spec fn keys_distinct<K, V>(s: Seq<(K, V)>) -> bool {
    forall|i: int, j: int| 0 <= i < s.len() && 0 <= j < s.len() && i != j ==> s[i].0 != s[j].0
}

/// Some pair of `s` has the key `k`.
pub open spec fn has_key<K, V>(s: Seq<(K, V)>, k: K) -> bool {
    exists|i: int| 0 <= i < s.len() && s[i].0 == k
}

/// The map that sends each key of `s` to the value paired with it.
pub open spec fn pairs_to_map<K, V>(s: Seq<(K, V)>) -> Map<K, V> {
    Map::new(|k: K| has_key(s, k), |k: K| s[choose|i: int| 0 <= i < s.len() && s[i].0 == k].1)
}

pub proof fn lemma_pairs_lookup<K, V>(s: Seq<(K, V)>, i: int)
    requires
        keys_distinct(s),
        0 <= i < s.len(),
    ensures
        pairs_to_map(s).contains_key(s[i].0),
        pairs_to_map(s)[s[i].0] == s[i].1,
{
    assert(has_key(s, s[i].0));
    let j = choose|j: int| 0 <= j < s.len() && s[j].0 == s[i].0;
    assert(j == i);
}

pub proof fn lemma_pairs_absent<K, V>(s: Seq<(K, V)>, k: K)
    requires
        forall|i: int| 0 <= i < s.len() ==> s[i].0 != k,
    ensures
        !pairs_to_map(s).contains_key(k),
{
}

pub proof fn lemma_pairs_empty<K, V>()
    ensures
        pairs_to_map(Seq::<(K, V)>::empty()) == Map::<K, V>::empty(),
{
    assert(pairs_to_map(Seq::<(K, V)>::empty()) =~= Map::<K, V>::empty());
}

pub proof fn lemma_pairs_update<K, V>(s: Seq<(K, V)>, i: int, v: V)
    requires
        keys_distinct(s),
        0 <= i < s.len(),
    ensures
        keys_distinct(s.update(i, (s[i].0, v))),
        pairs_to_map(s.update(i, (s[i].0, v))) == pairs_to_map(s).insert(s[i].0, v),
{
    let t = s.update(i, (s[i].0, v));
    assert forall|k: K| #[trigger] has_key(t, k) == has_key(s, k) by {
        if has_key(t, k) {
            let j = choose|j: int| 0 <= j < t.len() && t[j].0 == k;
            assert(s[j].0 == k);
        }
        if has_key(s, k) {
            let j = choose|j: int| 0 <= j < s.len() && s[j].0 == k;
            assert(t[j].0 == k);
        }
    }
    assert forall|k: K| #[trigger] pairs_to_map(t).contains_key(k) implies pairs_to_map(t)[k]
        == pairs_to_map(s).insert(s[i].0, v)[k] by {
        let j = choose|j: int| 0 <= j < t.len() && t[j].0 == k;
        lemma_pairs_lookup(t, j);
        lemma_pairs_lookup(s, j);
    }
    assert(pairs_to_map(t) =~= pairs_to_map(s).insert(s[i].0, v));
}

pub proof fn lemma_pairs_push<K, V>(s: Seq<(K, V)>, k: K, v: V)
    requires
        keys_distinct(s),
        !has_key(s, k),
    ensures
        keys_distinct(s.push((k, v))),
        pairs_to_map(s.push((k, v))) == pairs_to_map(s).insert(k, v),
{
    let t = s.push((k, v));
    assert forall|i: int, j: int| 0 <= i < t.len() && 0 <= j < t.len() && i != j implies t[i].0
        != t[j].0 by {
        if i == s.len() {
            assert(s[j].0 == t[j].0);
        } else if j == s.len() {
            assert(s[i].0 == t[i].0);
        }
    }
    assert forall|q: K| #[trigger] has_key(t, q) == (has_key(s, q) || q == k) by {
        if has_key(t, q) && q != k {
            let j = choose|j: int| 0 <= j < t.len() && t[j].0 == q;
            assert(s[j].0 == q);
        }
        if has_key(s, q) {
            let j = choose|j: int| 0 <= j < s.len() && s[j].0 == q;
            assert(t[j].0 == q);
        }
        if q == k {
            assert(t[s.len() as int].0 == q);
        }
    }
    assert forall|q: K| #[trigger] pairs_to_map(t).contains_key(q) implies pairs_to_map(t)[q]
        == pairs_to_map(s).insert(k, v)[q] by {
        let j = choose|j: int| 0 <= j < t.len() && t[j].0 == q;
        lemma_pairs_lookup(t, j);
        if j < s.len() {
            lemma_pairs_lookup(s, j);
        }
    }
    assert(pairs_to_map(t) =~= pairs_to_map(s).insert(k, v));
}

pub proof fn lemma_pairs_remove<K, V>(s: Seq<(K, V)>, i: int)
    requires
        keys_distinct(s),
        0 <= i < s.len(),
    ensures
        keys_distinct(s.remove(i)),
        pairs_to_map(s.remove(i)) == pairs_to_map(s).remove(s[i].0),
{
    let t = s.remove(i);
    assert forall|a: int, b: int| 0 <= a < t.len() && 0 <= b < t.len() && a != b implies t[a].0
        != t[b].0 by {
        let a1 = if a < i { a } else { a + 1 };
        let b1 = if b < i { b } else { b + 1 };
        assert(t[a] == s[a1]);
        assert(t[b] == s[b1]);
    }
    assert forall|q: K| #[trigger] has_key(t, q) == (has_key(s, q) && q != s[i].0) by {
        if has_key(t, q) {
            let j = choose|j: int| 0 <= j < t.len() && t[j].0 == q;
            let j1 = if j < i { j } else { j + 1 };
            assert(t[j] == s[j1]);
        }
        if has_key(s, q) && q != s[i].0 {
            let j = choose|j: int| 0 <= j < s.len() && s[j].0 == q;
            if j < i {
                assert(t[j] == s[j]);
            } else {
                assert(t[j - 1] == s[j]);
            }
        }
    }
    assert forall|q: K| #[trigger] pairs_to_map(t).contains_key(q) implies pairs_to_map(t)[q]
        == pairs_to_map(s).remove(s[i].0)[q] by {
        let j = choose|j: int| 0 <= j < t.len() && t[j].0 == q;
        lemma_pairs_lookup(t, j);
        let j1 = if j < i { j } else { j + 1 };
        assert(t[j] == s[j1]);
        lemma_pairs_lookup(s, j1);
    }
    assert(pairs_to_map(t) =~= pairs_to_map(s).remove(s[i].0));
}

/// Appending an element to a sequence adds it to the sequence's set.
pub proof fn lemma_push_to_set<A>(s: Seq<A>, x: A)
    ensures
        s.push(x).to_set() == s.to_set().insert(x),
{
    let t = s.push(x);
    assert forall|y: A| #[trigger] t.to_set().contains(y) == s.to_set().insert(x).contains(y) by {
        if t.contains(y) && y != x {
            let j = choose|j: int| 0 <= j < t.len() && t[j] == y;
            assert(s[j] == y);
        }
        if s.contains(y) {
            let j = choose|j: int| 0 <= j < s.len() && s[j] == y;
            assert(t[j] == y);
        }
        if y == x {
            assert(t[s.len() as int] == y);
        }
    }
    assert(t.to_set() =~= s.to_set().insert(x));
}

/// Appending a new element to a sequence without repetitions keeps it without
/// repetitions and adds the element to its set.
pub proof fn lemma_push_new_element<A>(s: Seq<A>, x: A)
    requires
        s.no_duplicates(),
        !s.contains(x),
    ensures
        s.push(x).no_duplicates(),
        s.push(x).to_set() == s.to_set().insert(x),
{
    let t = s.push(x);
    assert forall|i: int, j: int| 0 <= i < t.len() && 0 <= j < t.len() && i != j implies t[i]
        != t[j] by {
        if i == s.len() {
            assert(t[j] == s[j]);
        } else if j == s.len() {
            assert(t[i] == s[i]);
        } else {
            assert(t[i] == s[i] && t[j] == s[j]);
        }
    }
    assert forall|y: A| #[trigger] t.to_set().contains(y) == s.to_set().insert(x).contains(y) by {
        if t.contains(y) && y != x {
            let j = choose|j: int| 0 <= j < t.len() && t[j] == y;
            assert(s[j] == y);
        }
        if s.contains(y) {
            let j = choose|j: int| 0 <= j < s.len() && s[j] == y;
            assert(t[j] == y);
        }
        if y == x {
            assert(t[s.len() as int] == y);
        }
    }
    assert(t.to_set() =~= s.to_set().insert(x));
}

/// Removing an element from a sequence without repetitions keeps it without
/// repetitions and takes exactly that element out of its set.
pub proof fn lemma_remove_element<A>(s: Seq<A>, i: int)
    requires
        s.no_duplicates(),
        0 <= i < s.len(),
    ensures
        s.remove(i).no_duplicates(),
        s.remove(i).to_set() == s.to_set().remove(s[i]),
{
    let t = s.remove(i);
    assert forall|a: int, b: int| 0 <= a < t.len() && 0 <= b < t.len() && a != b implies t[a]
        != t[b] by {
        let a1 = if a < i { a } else { a + 1 };
        let b1 = if b < i { b } else { b + 1 };
        assert(t[a] == s[a1]);
        assert(t[b] == s[b1]);
    }
    assert forall|y: A| #[trigger] t.to_set().contains(y) == s.to_set().remove(s[i]).contains(y) by {
        if t.contains(y) {
            let j = choose|j: int| 0 <= j < t.len() && t[j] == y;
            let j1 = if j < i { j } else { j + 1 };
            assert(t[j] == s[j1]);
        }
        if s.contains(y) && y != s[i] {
            let j = choose|j: int| 0 <= j < s.len() && s[j] == y;
            if j < i {
                assert(t[j] == s[j]);
            } else {
                assert(t[j - 1] == s[j]);
            }
        }
    }
    assert(t.to_set() =~= s.to_set().remove(s[i]));
}

} // verus!
