//! Association lists: sequences of key/value pairs read from the end, so that the
//! last pair written for a key is the one that counts.
use vstd::prelude::*;

verus! {

/// The value stored for `k`: the one of the last pair whose key is `k`.
pub open spec fn assoc_get<K, V>(s: Seq<(K, V)>, k: K) -> Option<V>
    decreases s.len(),
{
    if s.len() == 0 {
        None
    } else if s.last().0 == k {
        Some(s.last().1)
    } else {
        assoc_get(s.drop_last(), k)
    }
}

/// Keys occur at most once.
pub open spec fn assoc_unique<K, V>(s: Seq<(K, V)>) -> bool {
    forall|i: int, j: int| 0 <= i < j < s.len() ==> s[i].0 != s[j].0
}

/// The list after writing `v` under `k`: the pair of `k` is replaced where it
/// stands, or a new pair is appended.
pub open spec fn assoc_set<K, V>(s: Seq<(K, V)>, k: K, v: V) -> Seq<(K, V)> {
    if exists|i: int| 0 <= i < s.len() && s[i].0 == k {
        s.update(choose|i: int| 0 <= i < s.len() && s[i].0 == k, (k, v))
    } else {
        s.push((k, v))
    }
}

pub proof fn lemma_assoc_get_absent<K, V>(s: Seq<(K, V)>, k: K)
    requires
        forall|i: int| 0 <= i < s.len() ==> s[i].0 != k,
    ensures
        assoc_get(s, k) == None::<V>,
    decreases s.len(),
{
    if s.len() > 0 {
        lemma_assoc_get_absent(s.drop_last(), k);
    }
}

pub proof fn lemma_assoc_get_at<K, V>(s: Seq<(K, V)>, i: int)
    requires
        0 <= i < s.len(),
        assoc_unique(s),
    ensures
        assoc_get(s, s[i].0) == Some(s[i].1),
    decreases s.len(),
{
    if i < s.len() - 1 {
        lemma_assoc_get_at(s.drop_last(), i);
    }
}

pub proof fn lemma_assoc_set<K, V>(s: Seq<(K, V)>, k: K, v: V)
    requires
        assoc_unique(s),
    ensures
        assoc_unique(assoc_set(s, k, v)),
        forall|x: K| #[trigger]
            assoc_get(assoc_set(s, k, v), x) == if x == k {
                Some(v)
            } else {
                assoc_get(s, x)
            },
{
    let t = assoc_set(s, k, v);
    assert(assoc_unique(t)) by {
        if exists|i: int| 0 <= i < s.len() && s[i].0 == k {
            let m = choose|i: int| 0 <= i < s.len() && s[i].0 == k;
            assert forall|i: int, j: int| 0 <= i < j < t.len() implies t[i].0 != t[j].0 by {
                assert(t[i].0 == s[i].0 && t[j].0 == s[j].0);
            }
        } else {
            assert forall|i: int, j: int| 0 <= i < j < t.len() implies t[i].0 != t[j].0 by {
                if j < s.len() {
                    assert(t[i] == s[i] && t[j] == s[j]);
                }
            }
        }
    }
    if exists|i: int| 0 <= i < s.len() && s[i].0 == k {
        let m = choose|i: int| 0 <= i < s.len() && s[i].0 == k;
        assert(t == s.update(m, (k, v)));
        assert forall|x: K| #[trigger]
            assoc_get(t, x) == if x == k { Some(v) } else { assoc_get(s, x) } by {
            if x == k {
                assert(t[m] == (k, v));
                lemma_assoc_get_at(t, m);
            } else if exists|i: int| 0 <= i < s.len() && s[i].0 == x {
                let i = choose|i: int| 0 <= i < s.len() && s[i].0 == x;
                assert(t[i] == s[i]);
                lemma_assoc_get_at(t, i);
                lemma_assoc_get_at(s, i);
            } else {
                assert forall|i: int| 0 <= i < t.len() implies t[i].0 != x by {
                    if i != m {
                        assert(t[i] == s[i]);
                    }
                }
                lemma_assoc_get_absent(t, x);
                lemma_assoc_get_absent(s, x);
            }
        }
    } else {
        assert(t == s.push((k, v)));
        assert forall|x: K| #[trigger]
            assoc_get(t, x) == if x == k { Some(v) } else { assoc_get(s, x) } by {
            assert(t.drop_last() == s);
        }
    }
}

} // verus!
