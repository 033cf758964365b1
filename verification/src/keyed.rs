//! Sequences of pairs of a name and a value, and the maps that they spell out
//! where no name occurs twice.

use vstd::prelude::*;

verus! {

/// Whether some pair of `s` has the key `k`.
pub open spec fn has_key<V>(s: Seq<(Seq<char>, V)>, k: Seq<char>) -> bool {
    exists|i: int| 0 <= i < s.len() && (#[trigger] s[i]).0 == k
}

/// Whether no two pairs of `s` have the same key.
pub open spec fn distinct_keys<V>(s: Seq<(Seq<char>, V)>) -> bool {
    forall|i: int, j: int| 0 <= i < j < s.len() ==> (#[trigger] s[i]).0 != (#[trigger] s[j]).0
}

/// The map that the pairs of `s` spell out.
pub open spec fn map_of<V>(s: Seq<(Seq<char>, V)>) -> Map<Seq<char>, V> {
    Map::new(
        |k: Seq<char>| has_key(s, k),
        |k: Seq<char>| s[choose|i: int| 0 <= i < s.len() && (#[trigger] s[i]).0 == k].1,
    )
}

/// With distinct keys, each pair is what the map holds for its key.
pub proof fn lemma_map_of_pair<V>(s: Seq<(Seq<char>, V)>, i: int)
    requires
        distinct_keys(s),
        0 <= i < s.len(),
    ensures
        map_of(s).contains_key(s[i].0),
        map_of(s)[s[i].0] == s[i].1,
{
    let k = s[i].0;
    let j = choose|j: int| 0 <= j < s.len() && (#[trigger] s[j]).0 == k;
    assert(i == j);
}

/// The map of a sequence of pairs has finitely many keys, no more than
/// there are pairs.
pub proof fn lemma_map_of_finite<V>(s: Seq<(Seq<char>, V)>)
    ensures
        map_of(s).dom().finite(),
        map_of(s).dom().len() <= s.len(),
    decreases s.len(),
{
    if s.len() == 0 {
        assert(map_of(s).dom() =~= Set::<Seq<char>>::empty());
    } else {
        let t = s.drop_last();
        lemma_map_of_finite(t);
        assert(map_of(s).dom() =~= map_of(t).dom().insert(s.last().0)) by {
            assert forall|k: Seq<char>| map_of(s).dom().contains(k) implies map_of(t).dom().insert(
                s.last().0,
            ).contains(k) by {
                let i = choose|i: int| 0 <= i < s.len() && (#[trigger] s[i]).0 == k;
                if i < s.len() - 1 {
                    assert(t[i].0 == k);
                }
            }
            assert forall|k: Seq<char>|
                map_of(t).dom().insert(s.last().0).contains(k) implies map_of(s).dom().contains(
                k,
            ) by {
                if k == s.last().0 {
                    assert(s[s.len() - 1].0 == k);
                } else {
                    let i = choose|i: int| 0 <= i < t.len() && (#[trigger] t[i]).0 == k;
                    assert(s[i].0 == k);
                }
            }
        }
    }
}

/// Adding a pair with a new key keeps the keys distinct and adds the key to
/// the map.
pub proof fn lemma_map_of_push<V>(s: Seq<(Seq<char>, V)>, k: Seq<char>, v: V)
    requires
        distinct_keys(s),
        !has_key(s, k),
    ensures
        distinct_keys(s.push((k, v))),
        map_of(s.push((k, v))) == map_of(s).insert(k, v),
{
    let t = s.push((k, v));
    assert(distinct_keys(t)) by {
        assert forall|i: int, j: int| 0 <= i < j < t.len() implies (#[trigger] t[i]).0 != (
        #[trigger] t[j]).0 by {
            if j == s.len() {
                assert(s[i].0 != k);
            } else {
                assert(s[i].0 != s[j].0);
            }
        }
    }
    assert forall|x: Seq<char>| map_of(t).contains_key(x) <==> map_of(s).insert(
        k,
        v,
    ).contains_key(x) by {
        if has_key(t, x) {
            let i = choose|i: int| 0 <= i < t.len() && (#[trigger] t[i]).0 == x;
            if i < s.len() {
                assert(s[i].0 == x);
            }
        }
        if has_key(s, x) {
            let i = choose|i: int| 0 <= i < s.len() && (#[trigger] s[i]).0 == x;
            assert(t[i].0 == x);
        }
        if x == k {
            assert(t[s.len() as int].0 == x);
        }
    }
    assert forall|x: Seq<char>| map_of(t).contains_key(x) implies map_of(t)[x] == map_of(s).insert(
        k,
        v,
    )[x] by {
        let i = choose|i: int| 0 <= i < t.len() && (#[trigger] t[i]).0 == x;
        lemma_map_of_pair(t, i);
        if i < s.len() {
            assert(s[i].0 == x);
            lemma_map_of_pair(s, i);
        }
    }
    assert(map_of(t) =~= map_of(s).insert(k, v));
}

/// Replacing the value of a pair keeps the keys distinct and replaces the
/// value in the map.
pub proof fn lemma_map_of_update<V>(s: Seq<(Seq<char>, V)>, i: int, v: V)
    requires
        distinct_keys(s),
        0 <= i < s.len(),
    ensures
        distinct_keys(s.update(i, (s[i].0, v))),
        map_of(s.update(i, (s[i].0, v))) == map_of(s).insert(s[i].0, v),
{
    let k = s[i].0;
    let t = s.update(i, (k, v));
    assert(distinct_keys(t)) by {
        assert forall|a: int, b: int| 0 <= a < b < t.len() implies (#[trigger] t[a]).0 != (
        #[trigger] t[b]).0 by {
            assert(s[a].0 != s[b].0);
        }
    }
    assert forall|x: Seq<char>| map_of(t).contains_key(x) <==> map_of(s).insert(
        k,
        v,
    ).contains_key(x) by {
        if has_key(t, x) {
            let j = choose|j: int| 0 <= j < t.len() && (#[trigger] t[j]).0 == x;
            assert(s[j].0 == x);
        }
        if has_key(s, x) {
            let j = choose|j: int| 0 <= j < s.len() && (#[trigger] s[j]).0 == x;
            assert(t[j].0 == x);
        }
        if x == k {
            assert(t[i].0 == x);
        }
    }
    assert forall|x: Seq<char>| map_of(t).contains_key(x) implies map_of(t)[x] == map_of(s).insert(
        k,
        v,
    )[x] by {
        let j = choose|j: int| 0 <= j < t.len() && (#[trigger] t[j]).0 == x;
        lemma_map_of_pair(t, j);
        assert(s[j].0 == x);
        lemma_map_of_pair(s, j);
    }
    assert(map_of(t) =~= map_of(s).insert(k, v));
}

/// Taking a pair out keeps the keys distinct and takes its key out of the map.
pub proof fn lemma_map_of_remove<V>(s: Seq<(Seq<char>, V)>, i: int)
    requires
        distinct_keys(s),
        0 <= i < s.len(),
    ensures
        distinct_keys(s.remove(i)),
        map_of(s.remove(i)) == map_of(s).remove(s[i].0),
{
    let k = s[i].0;
    let t = s.remove(i);
    assert(distinct_keys(t)) by {
        assert forall|a: int, b: int| 0 <= a < b < t.len() implies (#[trigger] t[a]).0 != (
        #[trigger] t[b]).0 by {
            let a0 = if a < i { a } else { a + 1 };
            let b0 = if b < i { b } else { b + 1 };
            assert(s[a0].0 != s[b0].0);
        }
    }
    assert forall|x: Seq<char>| map_of(t).contains_key(x) <==> map_of(s).remove(k).contains_key(
        x,
    ) by {
        if has_key(t, x) {
            let j = choose|j: int| 0 <= j < t.len() && (#[trigger] t[j]).0 == x;
            let j0 = if j < i { j } else { j + 1 };
            assert(s[j0].0 == x);
            assert(s[j0].0 != s[i].0);
        }
        if has_key(s, x) && x != k {
            let j = choose|j: int| 0 <= j < s.len() && (#[trigger] s[j]).0 == x;
            let j1 = if j < i { j } else { j - 1 };
            assert(t[j1].0 == x);
        }
    }
    assert forall|x: Seq<char>| map_of(t).contains_key(x) implies map_of(t)[x] == map_of(s).remove(
        k,
    )[x] by {
        let j = choose|j: int| 0 <= j < t.len() && (#[trigger] t[j]).0 == x;
        lemma_map_of_pair(t, j);
        let j0 = if j < i { j } else { j + 1 };
        assert(s[j0].0 == x);
        lemma_map_of_pair(s, j0);
    }
    assert(map_of(t) =~= map_of(s).remove(k));
}

/// The position of the first pair of `s` with the key `k`.
pub open spec fn position_of<V>(s: Seq<(Seq<char>, V)>, k: Seq<char>) -> Option<int> {
    if has_key(s, k) {
        Some(choose|i: int| 0 <= i < s.len() && (#[trigger] s[i]).0 == k
            && forall|j: int| 0 <= j < i ==> (#[trigger] s[j]).0 != k)
    } else {
        None
    }
}

/// `position_of` names a pair with the key and none before it has the key.
pub proof fn lemma_position_of<V>(s: Seq<(Seq<char>, V)>, k: Seq<char>)
    ensures
        position_of(s, k) matches Some(i) ==> 0 <= i < s.len() && s[i].0 == k && forall|j: int|
            0 <= j < i ==> (#[trigger] s[j]).0 != k,
        position_of(s, k) is None ==> forall|j: int| 0 <= j < s.len() ==> (#[trigger] s[j]).0 != k,
    decreases s.len(),
{
    if has_key(s, k) {
        lemma_first_exists(s, k, s.len() as int);
    }
}

/// Among the first `n` pairs, where one has the key, one is the first.
proof fn lemma_first_exists<V>(s: Seq<(Seq<char>, V)>, k: Seq<char>, n: int)
    requires
        0 <= n <= s.len(),
        exists|i: int| 0 <= i < n && (#[trigger] s[i]).0 == k,
    ensures
        exists|i: int|
            0 <= i < n && (#[trigger] s[i]).0 == k && forall|j: int|
                0 <= j < i ==> (#[trigger] s[j]).0 != k,
    decreases n,
{
    if exists|i: int| 0 <= i < n - 1 && (#[trigger] s[i]).0 == k {
        lemma_first_exists(s, k, n - 1);
    } else {
        let i = n - 1;
        assert(s[i].0 == k);
        assert(forall|j: int| 0 <= j < i ==> (#[trigger] s[j]).0 != k);
    }
}

} // verus!
