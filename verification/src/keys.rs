//! The keys that a table has left for new rows. A reliable engine gives keys
//! from 1 upwards, so a key is free where it is at least 1 and no row has it.

use vstd::prelude::*;

verus! {

/// `free` are `n` keys that a new row of a table with the keys `taken` could
/// get: keys are given from 1 upwards.
pub open spec fn are_free(taken: Set<i64>, free: Set<i64>, n: nat) -> bool {
    &&& free.finite()
    &&& free.len() == n
    &&& forall|k: i64| free.contains(k) ==> 1 <= k && !taken.contains(k)
}

/// A table with the keys `taken` has at least `n` keys left for new rows.
pub open spec fn keys_free(taken: Set<i64>, n: nat) -> bool {
    exists|free: Set<i64>| are_free(taken, free, n)
}

/// `key` is the smallest key that a new row of a table with the keys `taken`
/// could get.
pub open spec fn smallest_free(taken: Set<i64>, key: i64) -> bool {
    &&& 1 <= key
    &&& !taken.contains(key)
    &&& forall|k: i64| 1 <= k < key ==> taken.contains(k)
}

/// The keys from 1 to `n`.
pub open spec fn first_keys(n: nat) -> Set<i64> {
    Set::new(|k: i64| 1 <= k <= n)
}

/// There are `n` keys from 1 to `n`.
pub proof fn lemma_first_keys(n: nat)
    requires
        n <= i64::MAX,
    ensures
        first_keys(n).finite(),
        first_keys(n).len() == n,
    decreases n,
{
    if n == 0 {
        assert(first_keys(n) =~= Set::<i64>::empty());
    } else {
        lemma_first_keys((n - 1) as nat);
        assert(first_keys(n) =~= first_keys((n - 1) as nat).insert(n as i64));
    }
}

/// A table without rows has every key left.
pub proof fn lemma_keys_free_in_empty(n: nat)
    requires
        n <= i64::MAX,
    ensures
        keys_free(Set::<i64>::empty(), n),
{
    lemma_first_keys(n);
    assert(are_free(Set::<i64>::empty(), first_keys(n), n));
}

/// A table that has `n` keys left has any smaller number left.
pub proof fn lemma_keys_free_fewer(taken: Set<i64>, n: nat, m: nat)
    requires
        keys_free(taken, n),
        m <= n,
    ensures
        keys_free(taken, m),
    decreases n - m,
{
    if m < n {
        let free = choose|free: Set<i64>| are_free(taken, free, n);
        let k = free.choose();
        assert(are_free(taken, free.remove(k), (n - 1) as nat));
        lemma_keys_free_fewer(taken, (n - 1) as nat, m);
    }
}

/// A new row takes at most one of the keys that were left.
pub proof fn lemma_keys_free_after_insert(taken: Set<i64>, key: i64, n: nat)
    requires
        keys_free(taken, n + 1),
    ensures
        keys_free(taken.insert(key), n),
{
    let more = n + 1;
    let free = choose|free: Set<i64>| are_free(taken, free, more);
    let gone = if free.contains(key) {
        key
    } else {
        free.choose()
    };
    assert(are_free(taken.insert(key), free.remove(gone), n));
}

/// Rows that go leave the keys that were left as they are.
pub proof fn lemma_keys_free_after_removal(taken: Set<i64>, fewer: Set<i64>, n: nat)
    requires
        keys_free(taken, n),
        fewer.subset_of(taken),
    ensures
        keys_free(fewer, n),
{
    let free = choose|free: Set<i64>| are_free(taken, free, n);
    assert(are_free(fewer, free, n));
}

/// Rows that come take at most one key each of the keys that were left.
pub proof fn lemma_keys_free_after_inserts(taken: Set<i64>, keys: Seq<i64>, n: nat)
    requires
        keys_free(taken, n + keys.len()),
    ensures
        keys_free(taken.union(keys.to_set()), n),
    decreases keys.len(),
{
    if keys.len() == 0 {
        assert(taken.union(keys.to_set()) =~= taken);
    } else {
        let rest = keys.drop_last();
        let last = keys.last();
        lemma_keys_free_after_inserts(taken, rest, n + 1);
        lemma_keys_free_after_insert(taken.union(rest.to_set()), last, n);
        assert(keys =~= rest.push(last));
        rest.lemma_push_to_set_commute(last);
        assert(taken.union(keys.to_set()) =~= taken.union(rest.to_set()).insert(last));
    }
}

} // verus!
