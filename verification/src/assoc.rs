//! Association lists: sequences of key/value pairs read as finite maps in
//! which a later pair overrides an earlier one with the same key.

use vstd::prelude::*;

verus! {

/// The map a list of pairs stands for; of two pairs with one key the later
/// one counts.
pub open spec fn assoc_map<K, V>(s: Seq<(K, V)>) -> Map<K, V>
    decreases s.len(),
{
    if s.len() == 0 {
        Map::empty()
    } else {
        assoc_map(s.drop_last()).insert(s.last().0, s.last().1)
    }
}

/// Some pair of `s` has the key `k`.
pub open spec fn has_key<K, V>(s: Seq<(K, V)>, k: K) -> bool {
    exists|i: int| 0 <= i < s.len() && (#[trigger] s[i]).0 == k
}

/// No key occurs in two pairs of `s`.
pub open spec fn distinct_keys<K, V>(s: Seq<(K, V)>) -> bool {
    forall|i: int, j: int| 0 <= i < j < s.len() ==> (#[trigger] s[i]).0 != (#[trigger] s[j]).0
}

/// The keys of the map are the keys of the pairs.
pub proof fn lemma_assoc_dom<K, V>(s: Seq<(K, V)>)
    ensures
        forall|k: K| #![trigger assoc_map(s).dom().contains(k)] assoc_map(s).dom().contains(k) <==> has_key(s, k),
    decreases s.len(),
{
    if s.len() > 0 {
        let t = s.drop_last();
        lemma_assoc_dom(t);
        assert(assoc_map(s) == assoc_map(t).insert(s.last().0, s.last().1));
        assert forall|k: K|
            #![trigger assoc_map(s).dom().contains(k)]
            assoc_map(s).dom().contains(k) <==> has_key(s, k) by {
            assert(assoc_map(t).dom().contains(k) <==> has_key(t, k));
            if has_key(s, k) {
                let i = choose|i: int| 0 <= i < s.len() && (#[trigger] s[i]).0 == k;
                if i < s.len() - 1 {
                    assert(t[i].0 == k);
                    assert(has_key(t, k));
                }
            }
            if assoc_map(s).dom().contains(k) {
                if s.last().0 != k {
                    assert(assoc_map(t).dom().contains(k));
                    assert(has_key(t, k));
                    let i = choose|i: int| 0 <= i < t.len() && (#[trigger] t[i]).0 == k;
                    assert(s[i].0 == k);
                } else {
                    assert(s[s.len() - 1].0 == k);
                }
            }
        }
    }
}

/// With distinct keys every pair is an entry of the map.
pub proof fn lemma_assoc_value<K, V>(s: Seq<(K, V)>, i: int)
    requires
        distinct_keys(s),
        0 <= i < s.len(),
    ensures
        assoc_map(s).dom().contains(s[i].0),
        assoc_map(s)[s[i].0] == s[i].1,
    decreases s.len(),
{
    if i < s.len() - 1 {
        let t = s.drop_last();
        assert(distinct_keys(t)) by {
            assert forall|a: int, b: int| 0 <= a < b < t.len() implies (#[trigger] t[a]).0 != (
            #[trigger] t[b]).0 by {
                assert(t[a] == s[a] && t[b] == s[b]);
            }
        }
        lemma_assoc_value(t, i);
        assert(t[i] == s[i]);
        assert(s[i].0 != s[s.len() - 1].0);
    }
}

/// Putting a pair with a fresh key anywhere into a list with distinct keys
/// adds that entry to the map.
pub proof fn lemma_assoc_insert<K, V>(s: Seq<(K, V)>, i: int, k: K, v: V)
    requires
        distinct_keys(s),
        !has_key(s, k),
        0 <= i <= s.len(),
    ensures
        distinct_keys(s.insert(i, (k, v))),
        assoc_map(s.insert(i, (k, v))) == assoc_map(s).insert(k, v),
{
    let s2 = s.insert(i, (k, v));
    assert forall|a: int, b: int| 0 <= a < b < s2.len() implies (#[trigger] s2[a]).0 != (
    #[trigger] s2[b]).0 by {
        let a0 = if a < i { a } else { a - 1 };
        let b0 = if b < i { b } else { b - 1 };
        if a == i {
            assert(s2[b] == s[b0]);
        } else if b == i {
            assert(s2[a] == s[a0]);
        } else {
            assert(s2[a] == s[a0] && s2[b] == s[b0]);
        }
    }
    lemma_assoc_dom(s);
    lemma_assoc_dom(s2);
    let m1 = assoc_map(s).insert(k, v);
    let m2 = assoc_map(s2);
    assert(s2[i] == (k, v));
    assert forall|q: K| m1.dom().contains(q) <==> m2.dom().contains(q) by {
        if has_key(s, q) {
            let j = choose|j: int| 0 <= j < s.len() && (#[trigger] s[j]).0 == q;
            let j2 = if j < i { j } else { j + 1 };
            assert(s2[j2] == s[j]);
            assert(has_key(s2, q));
        }
        if q == k {
            assert(has_key(s2, q));
        }
        if has_key(s2, q) && q != k {
            let j2 = choose|j: int| 0 <= j < s2.len() && (#[trigger] s2[j]).0 == q;
            let j = if j2 < i { j2 } else { j2 - 1 };
            assert(s2[j2] == s[j]);
            assert(has_key(s, q));
        }
    }
    assert forall|q: K| m1.dom().contains(q) implies m1[q] == m2[q] by {
        if q == k {
            lemma_assoc_value(s2, i);
        } else {
            let j = choose|j: int| 0 <= j < s.len() && (#[trigger] s[j]).0 == q;
            let j2 = if j < i { j } else { j + 1 };
            assert(s2[j2] == s[j]);
            lemma_assoc_value(s, j);
            lemma_assoc_value(s2, j2);
        }
    }
    assert(m1 =~= m2);
}

/// Replacing the value of one pair in a list with distinct keys replaces
/// that entry of the map.
pub proof fn lemma_assoc_update<K, V>(s: Seq<(K, V)>, i: int, v: V)
    requires
        distinct_keys(s),
        0 <= i < s.len(),
    ensures
        distinct_keys(s.update(i, (s[i].0, v))),
        assoc_map(s.update(i, (s[i].0, v))) == assoc_map(s).insert(s[i].0, v),
{
    let k = s[i].0;
    let s2 = s.update(i, (k, v));
    assert forall|a: int, b: int| 0 <= a < b < s2.len() implies (#[trigger] s2[a]).0 != (
    #[trigger] s2[b]).0 by {
        assert(s2[a].0 == s[a].0 && s2[b].0 == s[b].0);
    }
    lemma_assoc_dom(s);
    lemma_assoc_dom(s2);
    let m1 = assoc_map(s).insert(k, v);
    let m2 = assoc_map(s2);
    assert forall|q: K| m1.dom().contains(q) <==> m2.dom().contains(q) by {
        if has_key(s, q) {
            let j = choose|j: int| 0 <= j < s.len() && (#[trigger] s[j]).0 == q;
            assert(s2[j].0 == q);
            assert(has_key(s2, q));
        }
        if q == k {
            assert(s2[i].0 == q);
            assert(has_key(s2, q));
        }
        if has_key(s2, q) {
            let j = choose|j: int| 0 <= j < s2.len() && (#[trigger] s2[j]).0 == q;
            assert(s[j].0 == q);
            assert(has_key(s, q));
        }
    }
    assert forall|q: K| m1.dom().contains(q) implies m1[q] == m2[q] by {
        if q == k {
            lemma_assoc_value(s2, i);
        } else {
            let j = choose|j: int| 0 <= j < s.len() && (#[trigger] s[j]).0 == q;
            assert(s2[j] == s[j]);
            lemma_assoc_value(s, j);
            lemma_assoc_value(s2, j);
        }
    }
    assert(m1 =~= m2);
}

} // verus!
