//! Association sequences: the spec-level model of the core's keyed state.
//!
//! A board maps text keys to text values and a table maps row ids to cell
//! maps; both are held executably as vectors of pairs with pairwise
//! distinct keys.  The spec functions here define lookup and last-write-wins
//! update/removal over such sequences, and the lemmas relate them to the
//! index-level edits the executable code performs.

use vstd::prelude::*;

verus! {

/// The value bound to `k`: the first pair with key `k`, if any.
pub open spec fn a_lookup<K, V>(s: Seq<(K, V)>, k: K) -> Option<V>
    decreases s.len(),
{
    if s.len() == 0 {
        None::<V>
    } else if s[0].0 == k {
        Some(s[0].1)
    } else {
        a_lookup(s.subrange(1, s.len() as int), k)
    }
}

/// Whether some pair binds `k`.
pub open spec fn a_has<K, V>(s: Seq<(K, V)>, k: K) -> bool {
    a_lookup(s, k) is Some
}

/// Bind `k` to `v`: overwrite the first pair with key `k`, or append.
pub open spec fn a_set<K, V>(s: Seq<(K, V)>, k: K, v: V) -> Seq<(K, V)>
    decreases s.len(),
{
    if s.len() == 0 {
        seq![(k, v)]
    } else if s[0].0 == k {
        seq![(k, v)] + s.subrange(1, s.len() as int)
    } else {
        seq![s[0]] + a_set(s.subrange(1, s.len() as int), k, v)
    }
}

/// Drop the first pair with key `k`, if any.
pub open spec fn a_remove<K, V>(s: Seq<(K, V)>, k: K) -> Seq<(K, V)>
    decreases s.len(),
{
    if s.len() == 0 {
        s
    } else if s[0].0 == k {
        s.subrange(1, s.len() as int)
    } else {
        seq![s[0]] + a_remove(s.subrange(1, s.len() as int), k)
    }
}

/// Pairwise distinct keys: each key is bound at most once.
pub open spec fn a_unique<K, V>(s: Seq<(K, V)>) -> bool {
    forall|i: int, j: int| 0 <= i < j < s.len() ==> s[i].0 != s[j].0
}

/// A key is bound iff some index holds it; when the occurrence is the
/// first, lookup returns exactly that pair's value.
pub proof fn lemma_lookup_at<K, V>(s: Seq<(K, V)>, i: int)
    requires
        0 <= i < s.len(),
        forall|j: int| 0 <= j < i ==> s[j].0 != s[i].0,
    ensures
        a_lookup(s, s[i].0) == Some(s[i].1),
    decreases s.len(),
{
    if i > 0 {
        let t = s.subrange(1, s.len() as int);
        lemma_lookup_at(t, i - 1);
    }
}

/// A key occurring at no index is unbound, and conversely.
pub proof fn lemma_lookup_none_iff<K, V>(s: Seq<(K, V)>, k: K)
    ensures
        (a_lookup(s, k) is None) <==> (forall|j: int| 0 <= j < s.len() ==> s[j].0 != k),
    decreases s.len(),
{
    if s.len() > 0 {
        let t = s.subrange(1, s.len() as int);
        lemma_lookup_none_iff(t, k);
        if s[0].0 != k && (a_lookup(t, k) is None) {
            assert forall|j: int| 0 <= j < s.len() implies s[j].0 != k by {
                if j > 0 {
                    assert(t[j - 1] == s[j]);
                }
            }
        }
        if forall|j: int| 0 <= j < s.len() ==> s[j].0 != k {
            assert forall|j: int| 0 <= j < t.len() implies t[j].0 != k by {
                assert(t[j] == s[j + 1]);
            }
        }
    }
}

/// Binding a key present first at index `i` is the index-level update.
pub proof fn lemma_set_at<K, V>(s: Seq<(K, V)>, i: int, v: V)
    requires
        0 <= i < s.len(),
        forall|j: int| 0 <= j < i ==> s[j].0 != s[i].0,
    ensures
        a_set(s, s[i].0, v) == s.update(i, (s[i].0, v)),
    decreases s.len(),
{
    let t = s.subrange(1, s.len() as int);
    if i == 0 {
        assert(a_set(s, s[0].0, v) =~= s.update(0, (s[0].0, v)));
    } else {
        lemma_set_at(t, i - 1, v);
        assert(a_set(s, s[i].0, v) =~= s.update(i, (s[i].0, v)));
    }
}

/// Binding an unbound key appends the new pair.
pub proof fn lemma_set_absent<K, V>(s: Seq<(K, V)>, k: K, v: V)
    requires
        forall|j: int| 0 <= j < s.len() ==> s[j].0 != k,
    ensures
        a_set(s, k, v) == s.push((k, v)),
    decreases s.len(),
{
    let t = s.subrange(1, s.len() as int);
    if s.len() == 0 {
        assert(a_set(s, k, v) =~= s.push((k, v)));
    } else {
        assert(forall|j: int| 0 <= j < t.len() ==> #[trigger] t[j].0 != k);
        lemma_set_absent(t, k, v);
        assert(a_set(s, k, v) =~= s.push((k, v)));
    }
}

/// Removing a key present first at index `i` is the index-level removal.
pub proof fn lemma_remove_at<K, V>(s: Seq<(K, V)>, i: int)
    requires
        0 <= i < s.len(),
        forall|j: int| 0 <= j < i ==> s[j].0 != s[i].0,
    ensures
        a_remove(s, s[i].0) == s.remove(i),
    decreases s.len(),
{
    let t = s.subrange(1, s.len() as int);
    if i == 0 {
        assert(a_remove(s, s[0].0) =~= s.remove(0));
    } else {
        lemma_remove_at(t, i - 1);
        assert(a_remove(s, s[i].0) =~= s.remove(i));
    }
}

/// Removing an unbound key changes nothing.
pub proof fn lemma_remove_absent<K, V>(s: Seq<(K, V)>, k: K)
    requires
        forall|j: int| 0 <= j < s.len() ==> s[j].0 != k,
    ensures
        a_remove(s, k) == s,
    decreases s.len(),
{
    let t = s.subrange(1, s.len() as int);
    if s.len() > 0 {
        assert(forall|j: int| 0 <= j < t.len() ==> #[trigger] t[j].0 != k);
        lemma_remove_absent(t, k);
        assert(a_remove(s, k) =~= s);
    }
}

/// Pointwise effect of `a_remove` under distinct keys: the removed key is
/// unbound afterwards and every other key is untouched.
pub proof fn lemma_remove_lookup<K, V>(s: Seq<(K, V)>, k: K, k2: K)
    requires
        a_unique(s),
    ensures
        a_lookup(a_remove(s, k), k2) == if k2 == k {
            None::<V>
        } else {
            a_lookup(s, k2)
        },
    decreases s.len(),
{
    let t = s.subrange(1, s.len() as int);
    if s.len() == 0 {
    } else {
        assert forall|i: int, j: int| 0 <= i < j < t.len() implies t[i].0 != t[j].0 by {
            assert(t[i] == s[i + 1] && t[j] == s[j + 1]);
        }
        if s[0].0 == k {
            if k2 == k {
                lemma_lookup_none_iff(t, k);
                assert forall|j: int| 0 <= j < t.len() implies t[j].0 != k by {
                    assert(t[j] == s[j + 1]);
                }
            }
        } else {
            lemma_remove_lookup(t, k, k2);
            let w = seq![s[0]] + a_remove(t, k);
            assert(w.subrange(1, w.len() as int) =~= a_remove(t, k));
            assert(w[0] == s[0]);
        }
    }
}

/// `a_set` preserves distinct keys.
pub proof fn lemma_set_unique<K, V>(s: Seq<(K, V)>, k: K, v: V)
    requires
        a_unique(s),
    ensures
        a_unique(a_set(s, k, v)),
{
    lemma_lookup_none_iff(s, k);
    if a_has(s, k) {
        lemma_first_occurrence(s, k);
        let i = choose|i: int|
            0 <= i < s.len() && s[i].0 == k && forall|j: int| 0 <= j < i ==> s[j].0 != k;
        lemma_set_at(s, i, v);
        let w = s.update(i, (s[i].0, v));
        assert forall|a: int, b: int| 0 <= a < b < w.len() implies w[a].0 != w[b].0 by {
            assert(w[a].0 == s[a].0 && w[b].0 == s[b].0);
        }
    } else {
        lemma_set_absent(s, k, v);
        assert forall|i: int, j: int|
            0 <= i < j < s.push((k, v)).len() implies s.push((k, v))[i].0 != s.push(
            (k, v),
        )[j].0 by {
            if j < s.len() {
                assert(s.push((k, v))[i] == s[i] && s.push((k, v))[j] == s[j]);
            } else {
                assert(s.push((k, v))[i] == s[i]);
            }
        }
    }
}

/// A bound key has a first occurrence.
pub proof fn lemma_first_occurrence<K, V>(s: Seq<(K, V)>, k: K)
    requires
        a_has(s, k),
    ensures
        exists|i: int|
            0 <= i < s.len() && s[i].0 == k && (forall|j: int| 0 <= j < i ==> s[j].0 != k),
    decreases s.len(),
{
    if s[0].0 == k {
        assert(0 <= 0 < s.len() && s[0].0 == k && (forall|j: int| 0 <= j < 0 ==> s[j].0 != k));
    } else {
        let t = s.subrange(1, s.len() as int);
        lemma_first_occurrence(t, k);
        let i = choose|i: int|
            0 <= i < t.len() && t[i].0 == k && (forall|j: int| 0 <= j < i ==> t[j].0 != k);
        assert(s[i + 1].0 == k);
        assert(forall|j: int| 1 <= j < i + 1 ==> s[j].0 == t[j - 1].0);
        assert(forall|j: int| 0 <= j < i + 1 ==> s[j].0 != k);
    }
}

/// `a_remove` preserves distinct keys.
pub proof fn lemma_remove_unique<K, V>(s: Seq<(K, V)>, k: K)
    requires
        a_unique(s),
    ensures
        a_unique(a_remove(s, k)),
{
    lemma_lookup_none_iff(s, k);
    if a_has(s, k) {
        lemma_first_occurrence(s, k);
        let i = choose|i: int|
            0 <= i < s.len() && s[i].0 == k && forall|j: int| 0 <= j < i ==> s[j].0 != k;
        lemma_remove_at(s, i);
        let w = s.remove(i);
        assert forall|a: int, b: int| 0 <= a < b < w.len() implies w[a].0 != w[b].0 by {
            let a2 = if a < i {
                a
            } else {
                a + 1
            };
            let b2 = if b < i {
                b
            } else {
                b + 1
            };
            assert(w[a] == s[a2] && w[b] == s[b2]);
        }
    } else {
        lemma_remove_absent(s, k);
    }
}

} // verus!
