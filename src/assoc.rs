//! Association lists: sequences of key/value pairs with unique keys, in
//! insertion order. This is the model of the per-room member table and of
//! the registry's room table.

use vstd::prelude::*;

verus! {

pub open spec fn keys_unique<K, V>(s: Seq<(K, V)>) -> bool {
    forall|i: int, j: int|
        0 <= i < s.len() && 0 <= j < s.len() && i != j ==> #[trigger] s[i].0 != #[trigger] s[j].0
}

pub open spec fn has_key<K, V>(s: Seq<(K, V)>, k: K) -> bool {
    exists|i: int| 0 <= i < s.len() && #[trigger] s[i].0 == k
}

/// Position of key `k` (meaningful only when `has_key(s, k)`).
pub open spec fn key_index<K, V>(s: Seq<(K, V)>, k: K) -> int {
    choose|i: int| 0 <= i < s.len() && #[trigger] s[i].0 == k
}

pub open spec fn lookup<K, V>(s: Seq<(K, V)>, k: K) -> Option<V> {
    if has_key(s, k) {
        Some(s[key_index(s, k)].1)
    } else {
        None
    }
}

/// Binds `k` to `v`: in place when `k` is present, appended otherwise.
pub open spec fn put<K, V>(s: Seq<(K, V)>, k: K, v: V) -> Seq<(K, V)> {
    if has_key(s, k) {
        s.update(key_index(s, k), (k, v))
    } else {
        s.push((k, v))
    }
}

/// Removes the binding of `k`, if any, keeping the order of the others.
pub open spec fn drop_key<K, V>(s: Seq<(K, V)>, k: K) -> Seq<(K, V)> {
    if has_key(s, k) {
        s.remove(key_index(s, k))
    } else {
        s
    }
}

/// The keys, in order.
pub open spec fn keys<K, V>(s: Seq<(K, V)>) -> Seq<K> {
    s.map_values(|p: (K, V)| p.0)
}

pub proof fn lemma_key_index<K, V>(s: Seq<(K, V)>, k: K, i: int)
    requires
        keys_unique(s),
        0 <= i < s.len(),
        s[i].0 == k,
    ensures
        has_key(s, k),
        key_index(s, k) == i,
        lookup(s, k) == Some(s[i].1),
{
}

pub proof fn lemma_put<K, V>(s: Seq<(K, V)>, k: K, v: V)
    requires
        keys_unique(s),
    ensures
        keys_unique(put(s, k, v)),
        lookup(put(s, k, v), k) == Some(v),
        forall|k2: K| k2 != k ==> #[trigger] lookup(put(s, k, v), k2) == lookup(s, k2),
        put(s, k, v).len() == if has_key(s, k) {
            s.len()
        } else {
            s.len() + 1
        },
{
    let t = put(s, k, v);
    if has_key(s, k) {
        let p = key_index(s, k);
        assert(t[p].0 == k);
        lemma_key_index(t, k, p);
        assert forall|k2: K| k2 != k implies #[trigger] lookup(t, k2) == lookup(s, k2) by {
            if has_key(s, k2) {
                let q = key_index(s, k2);
                assert(t[q].0 == k2);
                lemma_key_index(t, k2, q);
            }
            if has_key(t, k2) {
                let q = key_index(t, k2);
                assert(s[q].0 == k2);
            }
        }
    } else {
        let p = s.len() as int;
        assert(t[p].0 == k);
        assert(keys_unique(t));
        lemma_key_index(t, k, p);
        assert forall|k2: K| k2 != k implies #[trigger] lookup(t, k2) == lookup(s, k2) by {
            if has_key(s, k2) {
                let q = key_index(s, k2);
                assert(t[q].0 == k2);
                lemma_key_index(t, k2, q);
            }
            if has_key(t, k2) {
                let q = key_index(t, k2);
                assert(s[q].0 == k2);
            }
        }
    }
}

pub proof fn lemma_drop_key<K, V>(s: Seq<(K, V)>, k: K)
    requires
        keys_unique(s),
    ensures
        keys_unique(drop_key(s, k)),
        lookup(drop_key(s, k), k) is None,
        forall|k2: K| k2 != k ==> #[trigger] lookup(drop_key(s, k), k2) == lookup(s, k2),
        drop_key(s, k).len() == if has_key(s, k) {
            s.len() - 1
        } else {
            s.len() as int
        },
{
    if has_key(s, k) {
        let p = key_index(s, k);
        let t = drop_key(s, k);
        assert(t =~= s.remove(p));
        assert forall|i: int| 0 <= i < t.len() implies #[trigger] t[i] == s[if i < p {
            i
        } else {
            i + 1
        }] by {}
        assert(keys_unique(t)) by {
            assert forall|i: int, j: int|
                0 <= i < t.len() && 0 <= j < t.len() && i != j implies #[trigger] t[i].0
                != #[trigger] t[j].0 by {
                let si = if i < p {
                    i
                } else {
                    i + 1
                };
                let sj = if j < p {
                    j
                } else {
                    j + 1
                };
                assert(t[i] == s[si]);
                assert(t[j] == s[sj]);
            }
        }
        if has_key(t, k) {
            let q = key_index(t, k);
            let sq = if q < p {
                q
            } else {
                q + 1
            };
            assert(t[q] == s[sq]);
        }
        assert forall|k2: K| k2 != k implies #[trigger] lookup(t, k2) == lookup(s, k2) by {
            if has_key(s, k2) {
                let q = key_index(s, k2);
                assert(q != p);
                let tq = if q < p {
                    q
                } else {
                    q - 1
                };
                assert(t[tq] == s[q]);
                lemma_key_index(t, k2, tq);
            }
            if has_key(t, k2) {
                let q = key_index(t, k2);
                let sq = if q < p {
                    q
                } else {
                    q + 1
                };
                assert(t[q] == s[sq]);
                lemma_key_index(s, k2, sq);
            }
        }
    }
}

} // verus!
