//! Association lists: sequences of `(key, value)` pairs read as finite maps.
//!
//! Insertion replaces the value of a present key in place and appends a new
//! key at the end, so a list whose keys are unique stays so.

use vstd::prelude::*;

verus! {

/// The value stored under `k`: that of the last pair with key `k`.
pub open spec fn assoc_get<K, V>(s: Seq<(K, V)>, k: K) -> Option<V>
    decreases s.len(),
{
    if s.len() == 0 {
        None
    } else if s.last().0 == k {
        Some(s.last().1)
    } else {
        assoc_get(s.drop_last(), k)
    }
}

/// No key occurs twice.
pub open spec fn keys_unique<K, V>(s: Seq<(K, V)>) -> bool {
    forall|i: int, j: int| 0 <= i < j < s.len() ==> #[trigger] s[i].0 != #[trigger] s[j].0
}

/// Whether some pair has key `k`.
pub open spec fn assoc_has<K, V>(s: Seq<(K, V)>, k: K) -> bool {
    exists|i: int| 0 <= i < s.len() && #[trigger] s[i].0 == k
}

/// The position of a pair with key `k`, when there is one.
pub open spec fn assoc_index<K, V>(s: Seq<(K, V)>, k: K) -> int {
    choose|i: int| 0 <= i < s.len() && #[trigger] s[i].0 == k
}

/// `s` with `k` mapped to `v`: the pair of `k` replaced in place, or a new pair
/// appended.
pub open spec fn assoc_insert<K, V>(s: Seq<(K, V)>, k: K, v: V) -> Seq<(K, V)> {
    if assoc_has(s, k) {
        s.update(assoc_index(s, k), (k, v))
    } else {
        s.push((k, v))
    }
}

/// `s` without the pair of `k`; the other pairs keep their order.
pub open spec fn assoc_remove<K, V>(s: Seq<(K, V)>, k: K) -> Seq<(K, V)> {
    if assoc_has(s, k) {
        s.remove(assoc_index(s, k))
    } else {
        s
    }
}

/// In a list with unique keys, each pair is what its key looks up.
pub proof fn lemma_assoc_get_at<K, V>(s: Seq<(K, V)>, i: int)
    requires
        keys_unique(s),
        0 <= i < s.len(),
    ensures
        assoc_get(s, s[i].0) == Some(s[i].1),
    decreases s.len(),
{
    if i != s.len() - 1 {
        assert(s[i].0 != s[s.len() - 1].0);
        let w = s.drop_last();
        assert(w[i] == s[i]);
        assert(keys_unique(w)) by {
            assert forall|a: int, b: int| 0 <= a < b < w.len() implies #[trigger] w[a].0 != #[trigger] w[b].0 by {
                assert(w[a] == s[a] && w[b] == s[b]);
            }
        }
        lemma_assoc_get_at(w, i);
    }
}

/// A key that no pair carries looks up nothing.
pub proof fn lemma_assoc_get_absent<K, V>(s: Seq<(K, V)>, k: K)
    requires
        !assoc_has(s, k),
    ensures
        assoc_get(s, k) is None,
    decreases s.len(),
{
    if s.len() > 0 {
        let w = s.drop_last();
        assert(s[s.len() - 1].0 != k);
        assert(!assoc_has(w, k)) by {
            if assoc_has(w, k) {
                let j = choose|j: int| 0 <= j < w.len() && #[trigger] w[j].0 == k;
                assert(s[j] == w[j]);
            }
        }
        lemma_assoc_get_absent(w, k);
    }
}

/// Lookup in a list with unique keys: present exactly when some pair has the key.
pub proof fn lemma_assoc_get<K, V>(s: Seq<(K, V)>, k: K)
    requires
        keys_unique(s),
    ensures
        assoc_has(s, k) ==> assoc_get(s, k) == Some(s[assoc_index(s, k)].1),
        assoc_has(s, k) ==> 0 <= assoc_index(s, k) < s.len() && s[assoc_index(s, k)].0 == k,
        !assoc_has(s, k) ==> assoc_get(s, k) is None,
{
    if assoc_has(s, k) {
        let i = assoc_index(s, k);
        lemma_assoc_get_at(s, i);
    } else {
        lemma_assoc_get_absent(s, k);
    }
}

/// Insertion keeps keys unique, maps `k` to `v` and leaves every other key alone.
pub proof fn lemma_assoc_insert<K, V>(s: Seq<(K, V)>, k: K, v: V)
    requires
        keys_unique(s),
    ensures
        keys_unique(assoc_insert(s, k, v)),
        assoc_get(assoc_insert(s, k, v), k) == Some(v),
        forall|k2: K| k2 != k ==> #[trigger] assoc_get(assoc_insert(s, k, v), k2) == assoc_get(s, k2),
{
    let t = assoc_insert(s, k, v);
    if assoc_has(s, k) {
        let i = assoc_index(s, k);
        assert(keys_unique(t)) by {
            assert forall|a: int, b: int| 0 <= a < b < t.len() implies #[trigger] t[a].0 != #[trigger] t[b].0 by {
                assert(s[a].0 != s[b].0);
            }
        }
        lemma_assoc_get_at(t, i);
        assert forall|k2: K| k2 != k implies #[trigger] assoc_get(t, k2) == assoc_get(s, k2) by {
            if assoc_has(s, k2) {
                let j = assoc_index(s, k2);
                lemma_assoc_get_at(s, j);
                assert(t[j] == s[j]);
                lemma_assoc_get_at(t, j);
            } else {
                lemma_assoc_get_absent(s, k2);
                assert(!assoc_has(t, k2)) by {
                    if assoc_has(t, k2) {
                        let j = choose|j: int| 0 <= j < t.len() && #[trigger] t[j].0 == k2;
                        assert(t[j] == s[j]);
                    }
                }
                lemma_assoc_get_absent(t, k2);
            }
        }
    } else {
        assert(keys_unique(t)) by {
            assert forall|a: int, b: int| 0 <= a < b < t.len() implies #[trigger] t[a].0 != #[trigger] t[b].0 by {
                if b == s.len() {
                    assert(t[a] == s[a]);
                } else {
                    assert(t[a] == s[a] && t[b] == s[b]);
                }
            }
        }
        assert(t.drop_last() =~= s);
        assert forall|k2: K| k2 != k implies #[trigger] assoc_get(t, k2) == assoc_get(s, k2) by {}
    }
}

/// Removal keeps keys unique, drops `k` and leaves every other key alone.
pub proof fn lemma_assoc_remove<K, V>(s: Seq<(K, V)>, k: K)
    requires
        keys_unique(s),
    ensures
        keys_unique(assoc_remove(s, k)),
        assoc_get(assoc_remove(s, k), k) is None,
        forall|k2: K| k2 != k ==> #[trigger] assoc_get(assoc_remove(s, k), k2) == assoc_get(s, k2),
{
    let t = assoc_remove(s, k);
    if assoc_has(s, k) {
        let i = assoc_index(s, k);
        assert(keys_unique(t)) by {
            assert forall|a: int, b: int| 0 <= a < b < t.len() implies #[trigger] t[a].0 != #[trigger] t[b].0 by {
                let a2 = if a < i { a } else { a + 1 };
                let b2 = if b < i { b } else { b + 1 };
                assert(t[a] == s[a2] && t[b] == s[b2]);
            }
        }
        assert(!assoc_has(t, k)) by {
            if assoc_has(t, k) {
                let j = choose|j: int| 0 <= j < t.len() && #[trigger] t[j].0 == k;
                let j2 = if j < i { j } else { j + 1 };
                assert(t[j] == s[j2]);
            }
        }
        lemma_assoc_get_absent(t, k);
        assert forall|k2: K| k2 != k implies #[trigger] assoc_get(t, k2) == assoc_get(s, k2) by {
            if assoc_has(s, k2) {
                let j = assoc_index(s, k2);
                lemma_assoc_get_at(s, j);
                let j2 = if j < i { j } else { j - 1 };
                assert(t[j2] == s[j]);
                lemma_assoc_get_at(t, j2);
            } else {
                lemma_assoc_get_absent(s, k2);
                assert(!assoc_has(t, k2)) by {
                    if assoc_has(t, k2) {
                        let j = choose|j: int| 0 <= j < t.len() && #[trigger] t[j].0 == k2;
                        let j2 = if j < i { j } else { j + 1 };
                        assert(t[j] == s[j2]);
                    }
                }
                lemma_assoc_get_absent(t, k2);
            }
        }
    } else {
        lemma_assoc_get_absent(s, k);
    }
}

} // verus!
