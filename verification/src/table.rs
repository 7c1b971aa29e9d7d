//! A table keyed by strings, kept as a vector of entries in strictly
//! increasing key order: the iteration order and the insert-or-replace
//! behaviour of a `BTreeMap<String, T>`. (vstd specifies `BTreeMap` only
//! for keys whose ordering it models, and it models no ordering of
//! `String`, so the table is kept here, with its order proved.)

use vstd::prelude::*;
use crate::text::{lemma_less_eq_antisym, lemma_less_eq_total, lemma_less_eq_trans, seq_less_eq,
    str_eq, str_less_eq};

verus! {

/// Whether the keys of `s` are strictly increasing.
pub open spec fn keys_sorted<T>(s: Seq<(String, T)>) -> bool {
    forall|i: int, j: int|
        0 <= i < j < s.len() ==> seq_less_eq(#[trigger] s[i].0@, #[trigger] s[j].0@) && s[i].0@
            != s[j].0@
}

/// Whether some entry of `s` has the key `k`.
pub open spec fn has_key<T>(s: Seq<(String, T)>, k: Seq<char>) -> bool {
    exists|i: int| 0 <= i < s.len() && #[trigger] s[i].0@ == k
}

/// The value of the entry of `s` with key `k`.
pub open spec fn value_of<T>(s: Seq<(String, T)>, k: Seq<char>) -> T {
    s[choose|i: int| 0 <= i < s.len() && #[trigger] s[i].0@ == k].1
}

/// The entries of `s` as a map from key text to value.
pub open spec fn table<T>(s: Seq<(String, T)>) -> Map<Seq<char>, T> {
    Map::new(|k: Seq<char>| has_key(s, k), |k: Seq<char>| value_of(s, k))
}

/// The sum of `f` over the values of `s`.
pub open spec fn sum_of<T>(s: Seq<(String, T)>, f: spec_fn(T) -> int) -> int
    decreases s.len(),
{
    if s.len() == 0 {
        0
    } else {
        sum_of(s.drop_last(), f) + f(s.last().1)
    }
}

/// In a table with sorted keys, the entry with a given key is unique.
pub proof fn lemma_key_unique<T>(s: Seq<(String, T)>, i: int, k: Seq<char>)
    requires
        keys_sorted(s),
        0 <= i < s.len(),
        s[i].0@ == k,
    ensures
        has_key(s, k),
        value_of(s, k) == s[i].1,
{
    let c = choose|c: int| 0 <= c < s.len() && #[trigger] s[c].0@ == k;
    if c < i {
        assert(s[c].0@ != s[i].0@);
    } else if c > i {
        assert(s[i].0@ != s[c].0@);
    }
}

/// Replacing the value of an existing key keeps the keys sorted and
/// replaces that key's value in the table.
pub proof fn lemma_update<T>(s: Seq<(String, T)>, j: int, x: (String, T))
    requires
        keys_sorted(s),
        0 <= j < s.len(),
        s[j].0@ == x.0@,
    ensures
        keys_sorted(s.update(j, x)),
        table(s.update(j, x)) == table(s).insert(x.0@, x.1),
{
    let t = s.update(j, x);
    assert forall|a: int, b: int| 0 <= a < b < t.len() implies seq_less_eq(
        #[trigger] t[a].0@,
        #[trigger] t[b].0@,
    ) && t[a].0@ != t[b].0@ by {
        assert(seq_less_eq(s[a].0@, s[b].0@) && s[a].0@ != s[b].0@);
    }
    assert forall|k: Seq<char>| #[trigger]
        table(t).contains_key(k) == table(s).insert(x.0@, x.1).contains_key(k) by {
        if has_key(s, k) {
            let i = choose|i: int| 0 <= i < s.len() && #[trigger] s[i].0@ == k;
            assert(t[i].0@ == k);
        }
        if has_key(t, k) {
            let i = choose|i: int| 0 <= i < t.len() && #[trigger] t[i].0@ == k;
            assert(s[i].0@ == k);
        }
    }
    assert forall|k: Seq<char>| #[trigger] table(t).contains_key(k) implies table(t)[k] == table(
        s,
    ).insert(x.0@, x.1)[k] by {
        let i = choose|i: int| 0 <= i < t.len() && #[trigger] t[i].0@ == k;
        lemma_key_unique(t, i, k);
        if i != j {
            assert(s[i].0@ == k);
            lemma_key_unique(s, i, k);
        }
    }
    assert(table(t) =~= table(s).insert(x.0@, x.1));
}

/// Inserting a new key at its place keeps the keys sorted and adds that
/// key to the table.
pub proof fn lemma_insert<T>(s: Seq<(String, T)>, j: int, x: (String, T))
    requires
        keys_sorted(s),
        0 <= j <= s.len(),
        forall|k: int| 0 <= k < j ==> seq_less_eq(#[trigger] s[k].0@, x.0@) && s[k].0@ != x.0@,
        forall|k: int| j <= k < s.len() ==> seq_less_eq(x.0@, #[trigger] s[k].0@) && s[k].0@ != x.0@,
    ensures
        keys_sorted(s.insert(j, x)),
        table(s.insert(j, x)) == table(s).insert(x.0@, x.1),
{
    let t = s.insert(j, x);
    assert forall|a: int, b: int| 0 <= a < b < t.len() implies seq_less_eq(
        #[trigger] t[a].0@,
        #[trigger] t[b].0@,
    ) && t[a].0@ != t[b].0@ by {
        if a < j && b < j {
            assert(seq_less_eq(s[a].0@, s[b].0@) && s[a].0@ != s[b].0@);
        } else if a < j && b > j {
            assert(seq_less_eq(s[a].0@, x.0@));
            assert(seq_less_eq(x.0@, s[b - 1].0@));
            lemma_less_eq_trans(s[a].0@, x.0@, s[b - 1].0@);
            if s[a].0@ == s[b - 1].0@ {
                lemma_less_eq_antisym(s[a].0@, x.0@);
            }
        } else if a > j {
            assert(seq_less_eq(s[a - 1].0@, s[b - 1].0@) && s[a - 1].0@ != s[b - 1].0@);
        }
    }
    assert forall|k: Seq<char>| #[trigger]
        table(t).contains_key(k) == table(s).insert(x.0@, x.1).contains_key(k) by {
        if has_key(s, k) {
            let i = choose|i: int| 0 <= i < s.len() && #[trigger] s[i].0@ == k;
            if i < j {
                assert(t[i].0@ == k);
            } else {
                assert(t[i + 1].0@ == k);
            }
        }
        if k == x.0@ {
            assert(t[j].0@ == k);
        }
        if has_key(t, k) {
            let i = choose|i: int| 0 <= i < t.len() && #[trigger] t[i].0@ == k;
            if i < j {
                assert(s[i].0@ == k);
            } else if i > j {
                assert(s[i - 1].0@ == k);
            }
        }
    }
    assert forall|k: Seq<char>| #[trigger] table(t).contains_key(k) implies table(t)[k] == table(
        s,
    ).insert(x.0@, x.1)[k] by {
        let i = choose|i: int| 0 <= i < t.len() && #[trigger] t[i].0@ == k;
        lemma_key_unique(t, i, k);
        if i < j {
            assert(s[i].0@ == k);
            lemma_key_unique(s, i, k);
        } else if i > j {
            assert(s[i - 1].0@ == k);
            lemma_key_unique(s, i - 1, k);
        }
    }
    assert(table(t) =~= table(s).insert(x.0@, x.1));
}

/// Replacing one value changes the sum by the difference.
pub proof fn lemma_sum_update<T>(s: Seq<(String, T)>, j: int, x: (String, T), f: spec_fn(T) -> int)
    requires
        0 <= j < s.len(),
    ensures
        sum_of(s.update(j, x), f) == sum_of(s, f) - f(s[j].1) + f(x.1),
    decreases s.len(),
{
    if j == s.len() - 1 {
        assert(s.update(j, x).drop_last() =~= s.drop_last());
    } else {
        assert(s.update(j, x).drop_last() =~= s.drop_last().update(j, x));
        lemma_sum_update(s.drop_last(), j, x, f);
    }
}

/// Inserting one value adds it to the sum.
pub proof fn lemma_sum_insert<T>(s: Seq<(String, T)>, j: int, x: (String, T), f: spec_fn(T) -> int)
    requires
        0 <= j <= s.len(),
    ensures
        sum_of(s.insert(j, x), f) == sum_of(s, f) + f(x.1),
    decreases s.len(),
{
    if j == s.len() {
        assert(s.insert(j, x).drop_last() =~= s);
    } else {
        assert(s.insert(j, x).drop_last() =~= s.drop_last().insert(j, x));
        lemma_sum_insert(s.drop_last(), j, x, f);
    }
}

/// With no negative terms, each term is at most the sum.
pub proof fn lemma_term_le_sum<T>(s: Seq<(String, T)>, j: int, f: spec_fn(T) -> int)
    requires
        0 <= j < s.len(),
        forall|i: int| 0 <= i < s.len() ==> f(#[trigger] s[i].1) >= 0,
    ensures
        f(s[j].1) <= sum_of(s, f),
    decreases s.len(),
{
    if j < s.len() - 1 {
        assert forall|i: int| 0 <= i < s.drop_last().len() implies f(
            #[trigger] s.drop_last()[i].1,
        ) >= 0 by {
            assert(s.drop_last()[i] == s[i]);
        }
        lemma_term_le_sum(s.drop_last(), j, f);
        assert(f(s.last().1) >= 0);
    } else {
        lemma_sum_nonneg(s.drop_last(), f);
    }
}

/// With no negative terms the sum is not negative.
pub proof fn lemma_sum_nonneg<T>(s: Seq<(String, T)>, f: spec_fn(T) -> int)
    requires
        forall|i: int| 0 <= i < s.len() ==> f(#[trigger] s[i].1) >= 0,
    ensures
        sum_of(s, f) >= 0,
    decreases s.len(),
{
    if s.len() > 0 {
        assert forall|i: int| 0 <= i < s.drop_last().len() implies f(
            #[trigger] s.drop_last()[i].1,
        ) >= 0 by {
            assert(s.drop_last()[i] == s[i]);
        }
        lemma_sum_nonneg(s.drop_last(), f);
        assert(f(s[s.len() - 1].1) >= 0);
    }
}

/// Where the key `key` is or belongs in `v`: `(true, j)` when entry `j`
/// has that key, else `(false, j)` with `j` the position that keeps the
/// keys sorted.
pub fn find_slot<T>(v: &Vec<(String, T)>, key: &str) -> (r: (bool, usize))
    requires
        keys_sorted(v@),
    ensures
        r.1 <= v@.len(),
        r.0 ==> r.1 < v@.len() && v@[r.1 as int].0@ == key@,
        r.0 == has_key(v@, key@),
        !r.0 ==> forall|k: int|
            0 <= k < r.1 ==> seq_less_eq(#[trigger] v@[k].0@, key@) && v@[k].0@ != key@,
        !r.0 ==> forall|k: int|
            r.1 <= k < v@.len() ==> seq_less_eq(key@, #[trigger] v@[k].0@) && v@[k].0@ != key@,
{
    let mut j: usize = 0;
    while j < v.len() && str_less_eq(v[j].0.as_str(), key) && !str_eq(v[j].0.as_str(), key)
        invariant
            keys_sorted(v@),
            0 <= j <= v@.len(),
            forall|k: int| 0 <= k < j ==> seq_less_eq(#[trigger] v@[k].0@, key@) && v@[k].0@ != key@,
        decreases v.len() - j,
    {
        j = j + 1;
    }
    if j < v.len() && str_eq(v[j].0.as_str(), key) {
        proof {
            lemma_key_unique(v@, j as int, key@);
        }
        return (true, j);
    }
    proof {
        if j < v@.len() {
            lemma_less_eq_total(v@[j as int].0@, key@);
        }
        assert forall|k: int| j <= k < v@.len() implies seq_less_eq(key@, #[trigger] v@[k].0@)
            && v@[k].0@ != key@ by {
            if k > j {
                assert(seq_less_eq(v@[j as int].0@, v@[k].0@));
                lemma_less_eq_trans(key@, v@[j as int].0@, v@[k].0@);
                if v@[k].0@ == key@ {
                    lemma_less_eq_antisym(v@[j as int].0@, key@);
                }
            }
        }
        if has_key(v@, key@) {
            let i = choose|i: int| 0 <= i < v@.len() && #[trigger] v@[i].0@ == key@;
            assert(v@[i].0@ != key@);
        }
    }
    (false, j)
}

/// Sets the value of `key` in `v`, replacing an existing entry with that
/// key or inserting a new one in key order.
pub fn upsert<T>(v: &mut Vec<(String, T)>, key: String, value: T)
    requires
        keys_sorted(old(v)@),
    ensures
        keys_sorted(final(v)@),
        table(final(v)@) == table(old(v)@).insert(key@, value),
        forall|f: spec_fn(T) -> int| #[trigger]
            sum_of(final(v)@, f) == sum_of(old(v)@, f) - (if has_key(old(v)@, key@) {
                f(value_of(old(v)@, key@))
            } else {
                0
            }) + f(value),
{
    let (found, j) = find_slot(v, key.as_str());
    let ghost k = key@;
    let ghost s = v@;
    if found {
        proof {
            lemma_key_unique(s, j as int, k);
            lemma_update(s, j as int, (key, value));
            assert forall|f: spec_fn(T) -> int| #[trigger]
                sum_of(s.update(j as int, (key, value)), f) == sum_of(s, f) - f(value_of(s, k))
                    + f(value) by {
                lemma_sum_update(s, j as int, (key, value), f);
            }
        }
        v.set(j, (key, value));
    } else {
        proof {
            lemma_insert(s, j as int, (key, value));
            assert forall|f: spec_fn(T) -> int| #[trigger]
                sum_of(s.insert(j as int, (key, value)), f) == sum_of(s, f) + f(value) by {
                lemma_sum_insert(s, j as int, (key, value), f);
            }
        }
        v.insert(j, (key, value));
    }
}

} // verus!
