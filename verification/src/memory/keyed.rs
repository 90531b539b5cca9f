//! Rows held in a vector in ascending order of their keys, read as a map from
//! key to row.

use vstd::prelude::*;
use crate::keys::{are_free, keys_free, smallest_free};

verus! {

/// The keys grow strictly along the sequence, so none occurs twice.
pub open spec fn ascending<V>(s: Seq<(i64, V)>) -> bool {
    forall|i: int, j: int| 0 <= i < j < s.len() ==> (#[trigger] s[i]).0 < (#[trigger] s[j]).0
}

/// Some row of `s` has the key `id`.
pub open spec fn has_key<V>(s: Seq<(i64, V)>, id: i64) -> bool {
    exists|i: int| 0 <= i < s.len() && (#[trigger] s[i]).0 == id
}

/// The place of a row with the key `id`.
pub open spec fn place<V>(s: Seq<(i64, V)>, id: i64) -> int {
    choose|i: int| 0 <= i < s.len() && (#[trigger] s[i]).0 == id
}

/// The rows of `s` by key.
pub open spec fn keyed<V>(s: Seq<(i64, V)>) -> Map<i64, V> {
    Map::new(|id: i64| has_key(s, id), |id: i64| s[place(s, id)].1)
}

/// The row at place `i` is the row that the map has for its key.
pub proof fn lemma_keyed_at<V>(s: Seq<(i64, V)>, i: int)
    requires
        ascending(s),
        0 <= i < s.len(),
    ensures
        keyed(s).contains_pair(s[i].0, s[i].1),
{
    let id = s[i].0;
    assert(has_key(s, id));
    let k = place(s, id);
    assert(k == i) by {
        if k < i {
            assert(s[k].0 < s[i].0);
        } else if i < k {
            assert(s[i].0 < s[k].0);
        }
    }
}

/// A key that the map lacks is the key of no row.
pub proof fn lemma_keyed_lacks<V>(s: Seq<(i64, V)>, id: i64)
    requires
        forall|i: int| 0 <= i < s.len() ==> (#[trigger] s[i]).0 != id,
    ensures
        !keyed(s).dom().contains(id),
{
}

/// No key is below 1.
pub open spec fn positive<V>(s: Seq<(i64, V)>) -> bool {
    forall|i: int| 0 <= i < s.len() ==> 1 <= (#[trigger] s[i]).0
}

/// The first `n` rows have the keys from 1 to `n`.
pub open spec fn dense<V>(s: Seq<(i64, V)>, n: int) -> bool {
    forall|i: int| 0 <= i < n ==> (#[trigger] s[i]).0 == i + 1
}

/// Putting a row between the rows with lower and those with higher keys
/// inserts it into the map.
pub proof fn lemma_keyed_insert<V>(s: Seq<(i64, V)>, i: int, row: (i64, V))
    requires
        ascending(s),
        0 <= i <= s.len(),
        forall|k: int| 0 <= k < i ==> (#[trigger] s[k]).0 < row.0,
        forall|k: int| i <= k < s.len() ==> row.0 < (#[trigger] s[k]).0,
    ensures
        ascending(s.insert(i, row)),
        positive(s) && 1 <= row.0 ==> positive(s.insert(i, row)),
        !keyed(s).dom().contains(row.0),
        keyed(s.insert(i, row)) == keyed(s).insert(row.0, row.1),
{
    let t = s.insert(i, row);
    assert forall|a: int, b: int| 0 <= a < b < t.len() implies (#[trigger] t[a]).0 < (
    #[trigger] t[b]).0 by {
        let a2 = if a < i { a } else { a - 1 };
        let b2 = if b < i { b } else { b - 1 };
        if a != i {
            assert(t[a] == s[a2]);
        }
        if b != i {
            assert(t[b] == s[b2]);
        }
    }
    if has_key(s, row.0) {
        let k = place(s, row.0);
        assert(s[k].0 == row.0);
    }
    assert forall|id: i64| keyed(t).dom().contains(id) <==> keyed(s).insert(
        row.0,
        row.1,
    ).dom().contains(id) by {
        if has_key(t, id) {
            let k = place(t, id);
            if k != i {
                let k2 = if k < i { k } else { k - 1 };
                assert(s[k2] == t[k]);
            }
        }
        if has_key(s, id) {
            let k = place(s, id);
            let k2 = if k < i { k } else { k + 1 };
            assert(t[k2] == s[k]);
        }
        if id == row.0 {
            assert(t[i].0 == id);
        }
    }
    assert forall|id: i64| keyed(t).dom().contains(id) implies keyed(t)[id] == keyed(s).insert(
        row.0,
        row.1,
    )[id] by {
        let k = place(t, id);
        lemma_keyed_at(t, k);
        if k != i {
            let k2 = if k < i { k } else { k - 1 };
            assert(s[k2] == t[k]);
            lemma_keyed_at(s, k2);
        }
    }
    assert(keyed(t) =~= keyed(s).insert(row.0, row.1));
}

/// Where the rows stop having the keys 1, 2, 3 and so on, the next of these
/// keys is the smallest that is free, and the row goes there.
pub proof fn lemma_smallest_free<V>(s: Seq<(i64, V)>, n: int)
    requires
        ascending(s),
        positive(s),
        0 <= n <= s.len(),
        n < i64::MAX,
        dense(s, n),
        n < s.len() ==> s[n].0 != n + 1,
    ensures
        smallest_free(keyed(s).dom(), (n + 1) as i64),
        forall|k: int| 0 <= k < n ==> (#[trigger] s[k]).0 < n + 1,
        forall|k: int| n <= k < s.len() ==> n + 1 < (#[trigger] s[k]).0,
{
    let key = (n + 1) as i64;
    assert forall|k: int| n <= k < s.len() implies key < (#[trigger] s[k]).0 by {
        if n > 0 {
            assert(s[n - 1].0 == n);
            assert(s[n - 1].0 < s[k].0);
        }
        if k > n {
            assert(s[n].0 < s[k].0);
        }
    }
    if has_key(s, key) {
        let k = place(s, key);
        assert(s[k].0 == key);
    }
    assert forall|k: i64| 1 <= k < key implies keyed(s).dom().contains(k) by {
        assert(s[k - 1].0 == k);
    }
}

/// Where the rows have the keys from 1 to the largest there is, no key is
/// left.
pub proof fn lemma_no_key_left<V>(s: Seq<(i64, V)>, n: int)
    requires
        0 <= n <= s.len(),
        n >= i64::MAX,
        dense(s, n),
    ensures
        !keys_free(keyed(s).dom(), 1),
{
    if keys_free(keyed(s).dom(), 1) {
        let free = choose|free: Set<i64>| are_free(keyed(s).dom(), free, 1);
        let k = free.choose();
        assert(free.contains(k));
        assert(s[k - 1].0 == k);
        assert(has_key(s, k));
    }
}

/// Taking the row at place `i` out removes its key from the map.
pub proof fn lemma_keyed_remove<V>(s: Seq<(i64, V)>, i: int)
    requires
        ascending(s),
        0 <= i < s.len(),
    ensures
        ascending(s.remove(i)),
        positive(s) ==> positive(s.remove(i)),
        keyed(s.remove(i)) == keyed(s).remove(s[i].0),
{
    let t = s.remove(i);
    let gone = s[i].0;
    assert forall|a: int, b: int| 0 <= a < b < t.len() implies (#[trigger] t[a]).0 < (
    #[trigger] t[b]).0 by {
        let a2 = if a < i { a } else { a + 1 };
        let b2 = if b < i { b } else { b + 1 };
        assert(t[a] == s[a2] && t[b] == s[b2]);
    }
    assert forall|id: i64| keyed(t).dom().contains(id) <==> keyed(s).remove(gone).dom().contains(
        id,
    ) by {
        if has_key(t, id) {
            let k = place(t, id);
            let k2 = if k < i { k } else { k + 1 };
            assert(s[k2] == t[k]);
            if k2 < i {
                assert(s[k2].0 < s[i].0);
            } else {
                assert(s[i].0 < s[k2].0);
            }
        }
        if has_key(s, id) && id != gone {
            let k = place(s, id);
            let k2 = if k < i { k } else { k - 1 };
            assert(t[k2] == s[k]);
        }
    }
    assert forall|id: i64| keyed(t).dom().contains(id) implies keyed(t)[id] == keyed(s).remove(
        gone,
    )[id] by {
        let k = place(t, id);
        let k2 = if k < i { k } else { k + 1 };
        assert(s[k2] == t[k]);
        lemma_keyed_at(t, k);
        lemma_keyed_at(s, k2);
    }
    assert(keyed(t) =~= keyed(s).remove(gone));
}

/// Replacing the row at place `i` by one with the same key overwrites the
/// entry of that key in the map.
pub proof fn lemma_keyed_update<V>(s: Seq<(i64, V)>, i: int, row: (i64, V))
    requires
        ascending(s),
        0 <= i < s.len(),
        row.0 == s[i].0,
    ensures
        ascending(s.update(i, row)),
        positive(s) ==> positive(s.update(i, row)),
        keyed(s.update(i, row)) == keyed(s).insert(row.0, row.1),
{
    let t = s.update(i, row);
    assert forall|a: int, b: int| 0 <= a < b < t.len() implies (#[trigger] t[a]).0 < (
    #[trigger] t[b]).0 by {
        assert(t[a].0 == s[a].0 && t[b].0 == s[b].0);
    }
    assert forall|id: i64| keyed(t).dom().contains(id) <==> keyed(s).insert(
        row.0,
        row.1,
    ).dom().contains(id) by {
        if has_key(t, id) {
            let k = place(t, id);
            assert(s[k].0 == id);
        }
        if has_key(s, id) {
            let k = place(s, id);
            assert(t[k].0 == id);
        }
        if id == row.0 {
            assert(t[i].0 == id);
        }
    }
    assert forall|id: i64| keyed(t).dom().contains(id) implies keyed(t)[id] == keyed(s).insert(
        row.0,
        row.1,
    )[id] by {
        let k = place(t, id);
        lemma_keyed_at(t, k);
        if k != i {
            assert(s[k] == t[k]);
            lemma_keyed_at(s, k);
        }
    }
    assert(keyed(t) =~= keyed(s).insert(row.0, row.1));
}

} // verus!
