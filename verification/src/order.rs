//! The dictionary order of texts, and lists of texts kept in that order.
//!
//! Texts are compared character by character, by code point, and a text comes
//! before every longer text that it begins: the order that `str` has.

use vstd::prelude::*;
use crate::text::chars_of;

verus! {

/// Whether `a` and `b` agree before position `k` and `a` is the smaller one
/// there: `a` ends at `k` and `b` goes on, or `a` has the smaller character.
pub open spec fn parts_at(a: Seq<char>, b: Seq<char>, k: int) -> bool {
    &&& 0 <= k <= a.len()
    &&& k < b.len()
    &&& forall|i: int| 0 <= i < k ==> a[i] == b[i]
    &&& (k == a.len() || a[k] < b[k])
}

/// Whether `a` comes before `b` in dictionary order.
pub open spec fn lex_less(a: Seq<char>, b: Seq<char>) -> bool {
    exists|k: int| parts_at(a, b, k)
}

/// Whether each text of `s` comes before the next: ascending, nothing twice.
pub open spec fn ascending(s: Seq<Seq<char>>) -> bool {
    forall|i: int, j: int| 0 <= i < j < s.len() ==> lex_less(#[trigger] s[i], #[trigger] s[j])
}

/// The texts of `v` as sequences of characters.
pub open spec fn texts_of(v: Seq<String>) -> Seq<Seq<char>> {
    Seq::new(v.len(), |i: int| v[i]@)
}

/// No text comes before itself.
pub proof fn lemma_lex_irreflexive(a: Seq<char>)
    ensures
        !lex_less(a, a),
{
    if lex_less(a, a) {
        let k = choose|k: int| parts_at(a, a, k);
        assert(parts_at(a, a, k));
    }
}

/// Of two different texts one comes before the other.
pub proof fn lemma_lex_total(a: Seq<char>, b: Seq<char>)
    ensures
        a == b || lex_less(a, b) || lex_less(b, a),
{
    lemma_lex_total_from(a, b, 0);
}

proof fn lemma_lex_total_from(a: Seq<char>, b: Seq<char>, k: int)
    requires
        0 <= k <= a.len(),
        k <= b.len(),
        forall|i: int| 0 <= i < k ==> a[i] == b[i],
    ensures
        a == b || lex_less(a, b) || lex_less(b, a),
    decreases a.len() - k,
{
    if k == a.len() {
        if k == b.len() {
            assert(a =~= b);
        } else {
            assert(parts_at(a, b, k));
        }
    } else if k == b.len() {
        assert(parts_at(b, a, k));
    } else if a[k] < b[k] {
        assert(parts_at(a, b, k));
    } else if b[k] < a[k] {
        assert(parts_at(b, a, k));
    } else {
        lemma_lex_total_from(a, b, k + 1);
    }
}

/// Where `a` comes before `b` and `b` before `c`, `a` comes before `c`.
pub proof fn lemma_lex_transitive(a: Seq<char>, b: Seq<char>, c: Seq<char>)
    requires
        lex_less(a, b),
        lex_less(b, c),
    ensures
        lex_less(a, c),
{
    let k1 = choose|k: int| parts_at(a, b, k);
    let k2 = choose|k: int| parts_at(b, c, k);
    assert(parts_at(a, b, k1));
    assert(parts_at(b, c, k2));
    let k = if k1 <= k2 { k1 } else { k2 };
    assert(parts_at(a, c, k));
}

/// Where `a` comes before `b`, `b` does not come before `a`.
pub proof fn lemma_lex_asymmetric(a: Seq<char>, b: Seq<char>)
    requires
        lex_less(a, b),
    ensures
        !lex_less(b, a),
        a != b,
{
    if lex_less(b, a) {
        lemma_lex_transitive(a, b, a);
    }
    lemma_lex_irreflexive(a);
}

/// An ascending list is determined by the texts that it holds: two
/// ascending lists of the same texts are the same list.
pub proof fn lemma_ascending_determined(a: Seq<Seq<char>>, b: Seq<Seq<char>>)
    requires
        ascending(a),
        ascending(b),
        forall|t: Seq<char>| a.contains(t) <==> b.contains(t),
    ensures
        a == b,
    decreases a.len(),
{
    if a.len() == 0 {
        if b.len() > 0 {
            assert(b.contains(b[0]));
        }
        assert(a =~= b);
    } else {
        assert(a.contains(a[0]));
        let j = choose|j: int| 0 <= j < b.len() && b[j] == a[0];
        assert(b.contains(b[0]));
        let i = choose|i: int| 0 <= i < a.len() && a[i] == b[0];
        if j > 0 {
            assert(lex_less(b[0], b[j]));
            if i > 0 {
                assert(lex_less(a[0], a[i]));
            }
            lemma_lex_asymmetric(b[0], a[0]);
        }
        let x = a.skip(1);
        let y = b.skip(1);
        assert forall|t: Seq<char>| x.contains(t) <==> y.contains(t) by {
            if x.contains(t) {
                let k = choose|k: int| 0 <= k < x.len() && x[k] == t;
                assert(a[k + 1] == t);
                assert(a.contains(t));
                let m = choose|m: int| 0 <= m < b.len() && b[m] == t;
                if m == 0 {
                    assert(lex_less(a[0], a[k + 1]));
                    lemma_lex_irreflexive(t);
                }
                assert(y[m - 1] == t);
            }
            if y.contains(t) {
                let k = choose|k: int| 0 <= k < y.len() && y[k] == t;
                assert(b[k + 1] == t);
                assert(b.contains(t));
                let m = choose|m: int| 0 <= m < a.len() && a[m] == t;
                if m == 0 {
                    assert(lex_less(b[0], b[k + 1]));
                    lemma_lex_irreflexive(t);
                }
                assert(x[m - 1] == t);
            }
        }
        assert(ascending(x)) by {
            assert forall|p: int, q: int| 0 <= p < q < x.len() implies lex_less(
                #[trigger] x[p],
                #[trigger] x[q],
            ) by {
                assert(lex_less(a[p + 1], a[q + 1]));
            }
        }
        assert(ascending(y)) by {
            assert forall|p: int, q: int| 0 <= p < q < y.len() implies lex_less(
                #[trigger] y[p],
                #[trigger] y[q],
            ) by {
                assert(lex_less(b[p + 1], b[q + 1]));
            }
        }
        lemma_ascending_determined(x, y);
        assert(a =~= seq![a[0]] + x);
        assert(b =~= seq![b[0]] + y);
    }
}

/// Whether `a` comes before `b` in dictionary order.
pub fn chars_less(a: &Vec<char>, b: &Vec<char>) -> (r: bool)
    ensures
        r == lex_less(a@, b@),
{
    let mut k: usize = 0;
    while k < a.len() && k < b.len() && a[k] == b[k]
        invariant
            0 <= k <= a@.len(),
            k <= b@.len(),
            forall|i: int| 0 <= i < k ==> a@[i] == b@[i],
        decreases a@.len() - k,
    {
        k += 1;
    }
    let r = k < b.len() && (k == a.len() || a[k] < b[k]);
    proof {
        if r {
            assert(parts_at(a@, b@, k as int));
        } else {
            if lex_less(a@, b@) {
                let j = choose|j: int| parts_at(a@, b@, j);
                assert(parts_at(a@, b@, j));
                if j < k {
                    assert(a@[j] == b@[j]);
                } else if j > k {
                    assert(a@[k as int] == b@[k as int]);
                }
            }
        }
    }
    r
}

/// Whether `a` comes before `b` in dictionary order.
pub fn str_less(a: &str, b: &str) -> (r: bool)
    ensures
        r == lex_less(a@, b@),
{
    let x = chars_of(a);
    let y = chars_of(b);
    chars_less(&x, &y)
}

/// Puts `text` into the ascending list `list`, at its place in the order;
/// a text that is there already is not put in again.
pub fn insert_ascending(list: &mut Vec<String>, text: String)
    requires
        ascending(texts_of(old(list)@)),
    ensures
        ascending(texts_of(final(list)@)),
        forall|t: Seq<char>|
            texts_of(final(list)@).contains(t) <==> (texts_of(old(list)@).contains(t) || t
                == text@),
{
    let ghost before = texts_of(list@);
    let mut p: usize = 0;
    while p < list.len() && str_less(list[p].as_str(), text.as_str())
        invariant
            0 <= p <= list@.len(),
            texts_of(list@) == before,
            forall|i: int| 0 <= i < p ==> lex_less(#[trigger] before[i], text@),
        decreases list@.len() - p,
    {
        assert(before[p as int] == list@[p as int]@);
        p += 1;
    }
    if p < list.len() && list[p].as_str().eq(text.as_str()) {
        proof {
            assert(before[p as int] == text@);
            assert(before.contains(text@));
        }
    } else {
        list.insert(p, text);
        proof {
            let after = texts_of(list@);
            assert(after =~= before.insert(p as int, text@));
            assert forall|i: int, j: int| 0 <= i < j < after.len() implies lex_less(
                #[trigger] after[i],
                #[trigger] after[j],
            ) by {
                if j < p {
                    assert(lex_less(before[i], before[j]));
                } else if j == p {
                    assert(lex_less(before[i], text@));
                } else {
                    // j > p: after[j] == before[j - 1], which is at or after position p
                    assert(p < before.len());
                    assert(!lex_less(before[p as int], text@));
                    lemma_lex_total(before[p as int], text@);
                    assert(lex_less(text@, before[p as int]));
                    if j - 1 > p {
                        assert(lex_less(before[p as int], before[j - 1]));
                        lemma_lex_transitive(text@, before[p as int], before[j - 1]);
                    }
                    if i < p {
                        assert(lex_less(before[i], text@));
                        lemma_lex_transitive(before[i], text@, before[j - 1]);
                    } else if i > p {
                        assert(lex_less(before[i - 1], before[j - 1]));
                    }
                }
            }
            assert forall|t: Seq<char>| after.contains(t) <==> (before.contains(t) || t
                == text@) by {
                if after.contains(t) {
                    let i = choose|i: int| 0 <= i < after.len() && after[i] == t;
                    if i < p {
                        assert(before[i] == t);
                    } else if i > p {
                        assert(before[i - 1] == t);
                    }
                }
                if before.contains(t) {
                    let i = choose|i: int| 0 <= i < before.len() && before[i] == t;
                    if i < p {
                        assert(after[i] == t);
                    } else {
                        assert(after[i + 1] == t);
                    }
                }
                if t == text@ {
                    assert(after[p as int] == t);
                }
            }
        }
    }
}

} // verus!
