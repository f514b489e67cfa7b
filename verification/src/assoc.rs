//! Ordered association sequences: the mathematical model shared by the
//! metadata block, the variable context and the layout registry.
//!
//! A mapping is modelled as a sequence of key/value pairs with pairwise
//! distinct keys. Inserting a bound key replaces its value in place, so the
//! order of pre-existing keys is preserved; a new key is appended.

use vstd::prelude::*;

verus! {

/// The first value bound to `k`, scanning left to right.
pub open spec fn assoc_get<V>(s: Seq<(Seq<char>, V)>, k: Seq<char>) -> Option<V>
    decreases s.len(),
{
    if s.len() == 0 {
        None
    } else if s[0].0 == k {
        Some(s[0].1)
    } else {
        assoc_get(s.skip(1), k)
    }
}

pub open spec fn assoc_contains<V>(s: Seq<(Seq<char>, V)>, k: Seq<char>) -> bool {
    assoc_get(s, k) is Some
}

/// Mapping insert: replaces the value of a bound key in place, appends a new key.
pub open spec fn assoc_insert<V>(s: Seq<(Seq<char>, V)>, k: Seq<char>, v: V) -> Seq<
    (Seq<char>, V),
>
    decreases s.len(),
{
    if s.len() == 0 {
        seq![(k, v)]
    } else if s[0].0 == k {
        seq![(k, v)] + s.skip(1)
    } else {
        seq![s[0]] + assoc_insert(s.skip(1), k, v)
    }
}

/// Keys are pairwise distinct.
pub open spec fn assoc_wf<V>(s: Seq<(Seq<char>, V)>) -> bool {
    forall|i: int, j: int| 0 <= i < j < s.len() ==> s[i].0 != s[j].0
}

/// Scanning for `k` may start past any prefix free of `k`.
pub proof fn lemma_assoc_get_skip<V>(s: Seq<(Seq<char>, V)>, k: Seq<char>, i: int)
    requires
        0 <= i <= s.len(),
        forall|j: int| 0 <= j < i ==> s[j].0 != k,
    ensures
        assoc_get(s, k) == assoc_get(s.skip(i), k),
    decreases i,
{
    if i == 0 {
        assert(s.skip(0) =~= s);
    } else {
        assert(s[0].0 != k);
        lemma_assoc_get_skip(s.skip(1), k, i - 1);
        assert(s.skip(1).skip(i - 1) =~= s.skip(i));
    }
}

pub proof fn lemma_assoc_get_found<V>(s: Seq<(Seq<char>, V)>, k: Seq<char>, i: int)
    requires
        0 <= i < s.len(),
        s[i].0 == k,
        forall|j: int| 0 <= j < i ==> s[j].0 != k,
    ensures
        assoc_get(s, k) == Some(s[i].1),
{
    lemma_assoc_get_skip(s, k, i);
    assert(s.skip(i)[0] == s[i]);
}

pub proof fn lemma_assoc_get_none<V>(s: Seq<(Seq<char>, V)>, k: Seq<char>)
    requires
        forall|j: int| 0 <= j < s.len() ==> s[j].0 != k,
    ensures
        assoc_get(s, k) is None,
{
    lemma_assoc_get_skip(s, k, s.len() as int);
    assert(s.skip(s.len() as int) =~= Seq::<(Seq<char>, V)>::empty());
}

/// Inserting a key bound at position `i` (the first such position) updates in place.
pub proof fn lemma_assoc_insert_found<V>(s: Seq<(Seq<char>, V)>, k: Seq<char>, v: V, i: int)
    requires
        0 <= i < s.len(),
        s[i].0 == k,
        forall|j: int| 0 <= j < i ==> s[j].0 != k,
    ensures
        assoc_insert(s, k, v) == s.update(i, (k, v)),
    decreases i,
{
    if i == 0 {
        assert(seq![(k, v)] + s.skip(1) =~= s.update(0, (k, v)));
    } else {
        assert(s[0].0 != k);
        lemma_assoc_insert_found(s.skip(1), k, v, i - 1);
        assert(seq![s[0]] + s.skip(1).update(i - 1, (k, v)) =~= s.update(i, (k, v)));
    }
}

/// Inserting an unbound key appends the pair.
pub proof fn lemma_assoc_insert_append<V>(s: Seq<(Seq<char>, V)>, k: Seq<char>, v: V)
    requires
        forall|j: int| 0 <= j < s.len() ==> s[j].0 != k,
    ensures
        assoc_insert(s, k, v) == s.push((k, v)),
    decreases s.len(),
{
    if s.len() == 0 {
        assert(seq![(k, v)] =~= s.push((k, v)));
    } else {
        assert(s[0].0 != k);
        lemma_assoc_insert_append(s.skip(1), k, v);
        assert(seq![s[0]] + s.skip(1).push((k, v)) =~= s.push((k, v)));
    }
}

/// What a lookup sees after an insert.
pub proof fn lemma_assoc_insert_get<V>(s: Seq<(Seq<char>, V)>, k: Seq<char>, v: V, k2: Seq<char>)
    ensures
        assoc_get(assoc_insert(s, k, v), k2) == if k2 == k {
            Some(v)
        } else {
            assoc_get(s, k2)
        },
    decreases s.len(),
{
    let r = assoc_insert(s, k, v);
    if s.len() == 0 {
        assert(r[0] == (k, v));
        assert(r.skip(1) =~= Seq::<(Seq<char>, V)>::empty());
        if k2 == k {
            assert(assoc_get(r, k2) == Some(v));
        } else {
            assert(assoc_get(r, k2) == assoc_get(r.skip(1), k2));
        }
    } else if s[0].0 == k {
        assert(r[0] == (k, v));
        assert(r.skip(1) =~= s.skip(1));
        if k2 == k {
            assert(assoc_get(r, k2) == Some(v));
        } else {
            assert(assoc_get(r, k2) == assoc_get(s.skip(1), k2));
            assert(assoc_get(s, k2) == assoc_get(s.skip(1), k2));
        }
    } else {
        assert(r[0] == s[0]);
        assert(r.skip(1) =~= assoc_insert(s.skip(1), k, v));
        lemma_assoc_insert_get(s.skip(1), k, v, k2);
        if k2 == s[0].0 {
            assert(assoc_get(r, k2) == Some(s[0].1));
            assert(assoc_get(s, k2) == Some(s[0].1));
        } else {
            assert(assoc_get(r, k2) == assoc_get(assoc_insert(s.skip(1), k, v), k2));
            assert(assoc_get(s, k2) == assoc_get(s.skip(1), k2));
        }
    }
}

/// Insert keeps the keys pairwise distinct.
pub proof fn lemma_assoc_insert_wf<V>(s: Seq<(Seq<char>, V)>, k: Seq<char>, v: V)
    requires
        assoc_wf(s),
    ensures
        assoc_wf(assoc_insert(s, k, v)),
    decreases s.len(),
{
    if s.len() == 0 {
    } else if s[0].0 == k {
        let r = assoc_insert(s, k, v);
        assert(r =~= s.update(0, (k, v)));
    } else {
        lemma_assoc_insert_wf(s.skip(1), k, v);
        let r = assoc_insert(s, k, v);
        let r1 = assoc_insert(s.skip(1), k, v);
        assert(r =~= seq![s[0]] + r1);
        assert forall|i: int, j: int| 0 <= i < j < r.len() implies r[i].0 != r[j].0 by {
            if i == 0 {
                if r[j].0 == s[0].0 {
                    lemma_assoc_insert_keys(s.skip(1), k, v, j - 1);
                }
            }
        }
    }
}

/// Every key of an inserted sequence is either `k` or a key that was
/// already bound.
pub proof fn lemma_assoc_insert_keys<V>(s: Seq<(Seq<char>, V)>, k: Seq<char>, v: V, i: int)
    requires
        0 <= i < assoc_insert(s, k, v).len(),
    ensures
        assoc_insert(s, k, v)[i].0 == k || exists|j: int|
            0 <= j < s.len() && s[j].0 == assoc_insert(s, k, v)[i].0,
    decreases s.len(),
{
    if s.len() == 0 {
    } else if s[0].0 == k {
        if i > 0 {
            assert(assoc_insert(s, k, v)[i] == s[i]);
        }
    } else {
        if i > 0 {
            lemma_assoc_insert_keys(s.skip(1), k, v, i - 1);
            assert(assoc_insert(s, k, v)[i] == assoc_insert(s.skip(1), k, v)[i - 1]);
            if assoc_insert(s.skip(1), k, v)[i - 1].0 != k {
                let j = choose|j: int|
                    0 <= j < s.skip(1).len() && s.skip(1)[j].0 == assoc_insert(
                        s.skip(1),
                        k,
                        v,
                    )[i - 1].0;
                assert(s[j + 1].0 == assoc_insert(s, k, v)[i].0);
            }
        }
    }
}

/// A successful lookup names a bound key.
pub proof fn lemma_assoc_get_some_exists<V>(s: Seq<(Seq<char>, V)>, k: Seq<char>)
    requires
        assoc_get(s, k) is Some,
    ensures
        exists|j: int| 0 <= j < s.len() && s[j].0 == k,
    decreases s.len(),
{
    if s.len() == 0 {
    } else if s[0].0 == k {
        assert(s[0].0 == k);
    } else {
        lemma_assoc_get_some_exists(s.skip(1), k);
        let j = choose|j: int| 0 <= j < s.skip(1).len() && s.skip(1)[j].0 == k;
        assert(s[j + 1].0 == k);
    }
}

/// A successful lookup's value stands at some bound position.
pub proof fn lemma_assoc_get_some_index<V>(s: Seq<(Seq<char>, V)>, k: Seq<char>)
    requires
        assoc_get(s, k) is Some,
    ensures
        exists|j: int| 0 <= j < s.len() && s[j].0 == k && s[j].1 == assoc_get(s, k)->Some_0,
    decreases s.len(),
{
    if s.len() == 0 {
    } else if s[0].0 == k {
        assert(s[0].0 == k && s[0].1 == assoc_get(s, k)->Some_0);
    } else {
        lemma_assoc_get_some_index(s.skip(1), k);
        let j = choose|j: int|
            0 <= j < s.skip(1).len() && s.skip(1)[j].0 == k && s.skip(1)[j].1 == assoc_get(
                s.skip(1),
                k,
            )->Some_0;
        assert(s[j + 1].0 == k && s[j + 1].1 == assoc_get(s, k)->Some_0);
    }
}

/// Position of the first pair whose key reads as `key`.
pub fn find_pair_index<V>(pairs: &Vec<(String, V)>, key: &str) -> (r: Option<usize>)
    ensures
        match r {
            Some(i) => i < pairs@.len() && pairs@[i as int].0@ == key@ && forall|j: int|
                0 <= j < i ==> pairs@[j].0@ != key@,
            None => forall|j: int| 0 <= j < pairs@.len() ==> pairs@[j].0@ != key@,
        },
{
    let n = pairs.len();
    let mut i: usize = 0;
    while i < n
        invariant
            i <= n,
            n == pairs@.len(),
            forall|j: int| 0 <= j < i ==> pairs@[j].0@ != key@,
        decreases n - i,
    {
        if crate::text::str_equal(pairs[i].0.as_str(), key) {
            return Some(i);
        }
        i += 1;
    }
    None
}

} // verus!
