//! Quantities as people type them: a decimal number followed by a unit, as in
//! `"250 g"`, `"3.5"` or `"-2e1 kg"`.
//!
//! The number is kept as text. Its grammar is the one of a decimal
//! floating-point literal: an optional sign, digits with an optional decimal
//! point among them (at least one digit before or after the point), and an
//! optional exponent made of `e` or `E`, an optional sign and digits.

use vstd::prelude::*;
use crate::text::{char_is_digit, chars_of, is_digit, is_whitespace, string_of, trim_from, trimmed, trim_start, trim_end};

verus! {

/// Whether `c` is `+` or `-`.
pub open spec fn is_sign(c: char) -> bool {
    c == '+' || c == '-'
}

/// Whether `c` is `e` or `E`.
pub open spec fn is_exponent_mark(c: char) -> bool {
    c == 'e' || c == 'E'
}

/// Whether `s[i..j]` holds digits only.
pub open spec fn digits_between(s: Seq<char>, i: int, j: int) -> bool {
    forall|k: int| i <= k < j ==> is_digit(#[trigger] s[k])
}

/// Whether `s[c..n]` is an exponent: the mark, an optional sign, and at least
/// one digit.
pub open spec fn exponent_between(s: Seq<char>, c: int, n: int) -> bool {
    &&& c + 2 <= n
    &&& is_exponent_mark(s[c])
    &&& if is_sign(s[c + 1]) {
        c + 2 < n && digits_between(s, c + 2, n)
    } else {
        digits_between(s, c + 1, n)
    }
}

/// Whether `s[..n]` is a number whose sign ends at `a`, whose digits before the
/// point end at `b`, and whose mantissa ends at `c`.
pub open spec fn number_parts(s: Seq<char>, n: int, a: int, b: int, c: int) -> bool {
    &&& 0 <= a <= b <= c <= n <= s.len()
    &&& a == 0 || (a == 1 && is_sign(s[0]))
    &&& digits_between(s, a, b)
    &&& c == b || (s[b] == '.' && digits_between(s, b + 1, c))
    &&& a < b || b + 1 < c
    &&& c == n || exponent_between(s, c, n)
}

/// Whether the first `n` characters of `s` are a number.
pub open spec fn number_prefix(s: Seq<char>, n: int) -> bool {
    exists|a: int, b: int, c: int| number_parts(s, n, a, b, c)
}

/// Whether the whole of `s` is a number.
pub open spec fn is_number(s: Seq<char>) -> bool {
    number_prefix(s, s.len() as int)
}

/// Whether `s[..n]` is a number and no longer prefix of `s` is one.
pub open spec fn longest_number_prefix(s: Seq<char>, n: int) -> bool {
    &&& number_prefix(s, n)
    &&& forall|m: int| number_prefix(s, m) ==> m <= n
}

/// The length of the longest prefix of `s` that is a number, if there is one.
pub open spec fn number_len(s: Seq<char>) -> Option<int> {
    if exists|n: int| number_prefix(s, n) {
        Some(choose|n: int| longest_number_prefix(s, n))
    } else {
        None
    }
}

/// What a quantity text says: the number that it begins with and, after any
/// white space, the rest as the unit, trimmed. `None` where the text does not
/// begin with a number.
pub open spec fn parsed(s: Seq<char>) -> Option<(Seq<char>, Seq<char>)> {
    match number_len(s) {
        Some(n) => Some((s.take(n), trimmed(s.skip(n)))),
        None => None,
    }
}

/// A quantity split into its number and its unit.
pub struct Quantity {
    /// The number, as written.
    pub number: String,
    /// The unit, without surrounding white space; empty where none was given.
    pub unit: String,
}

impl Quantity {
    /// The number and the unit as sequences of characters.
    pub open spec fn view(&self) -> (Seq<char>, Seq<char>) {
        (self.number@, self.unit@)
    }
}

/// The quantity of `q`, if there is one, as sequences of characters.
pub open spec fn quantity_view(q: Option<Quantity>) -> Option<(Seq<char>, Seq<char>)> {
    match q {
        Some(q) => Some(q@),
        None => None,
    }
}

/// The end of the run of digits that starts at `i`.
fn digits_end(v: &Vec<char>, i: usize) -> (j: usize)
    requires
        i <= v@.len(),
    ensures
        i <= j <= v@.len(),
        digits_between(v@, i as int, j as int),
        j == v@.len() || !is_digit(v@[j as int]),
{
    let mut j: usize = i;
    while j < v.len() && char_is_digit(v[j])
        invariant
            i <= j <= v@.len(),
            digits_between(v@, i as int, j as int),
        decreases v@.len() - j,
    {
        j += 1;
    }
    j
}

/// The end of the exponent that starts at `c`, or `c` where none starts there.
fn exponent_end(v: &Vec<char>, c: usize) -> (n: usize)
    requires
        c <= v@.len(),
    ensures
        c <= n <= v@.len(),
        n == c || exponent_between(v@, c as int, n as int),
        forall|m: int| c < m <= v@.len() && exponent_between(v@, c as int, m) ==> m <= n,
{
    if c < v.len() && (v[c] == 'e' || v[c] == 'E') {
        let d: usize = if c + 1 < v.len() && (v[c + 1] == '+' || v[c + 1] == '-') {
            c + 2
        } else {
            c + 1
        };
        let f = digits_end(v, d);
        if f > d {
            f
        } else {
            c
        }
    } else {
        c
    }
}

/// The length of the longest prefix of `v` that is a number.
fn scan_number(v: &Vec<char>) -> (r: Option<usize>)
    ensures
        r matches Some(n) ==> longest_number_prefix(v@, n as int),
        r is None ==> forall|m: int| !number_prefix(v@, m),
{
    let a: usize = if v.len() > 0 && (v[0] == '+' || v[0] == '-') {
        1
    } else {
        0
    };
    let b = digits_end(v, a);
    let c: usize = if b < v.len() && v[b] == '.' {
        digits_end(v, b + 1)
    } else {
        b
    };
    if a < b || b + 1 < c {
        let n = exponent_end(v, c);
        proof {
            assert(number_parts(v@, n as int, a as int, b as int, c as int));
            assert forall|m: int| number_prefix(v@, m) implies m <= n by {
                let (a1, b1, c1) = choose|a1: int, b1: int, c1: int|
                    number_parts(v@, m, a1, b1, c1);
                lemma_parts_agree(v@, m, a1, b1, c1, a as int, b as int, c as int);
            }
        }
        Some(n)
    } else {
        proof {
            assert forall|m: int| !number_prefix(v@, m) by {
                if number_prefix(v@, m) {
                    let (a1, b1, c1) = choose|a1: int, b1: int, c1: int|
                        number_parts(v@, m, a1, b1, c1);
                    lemma_parts_agree(v@, m, a1, b1, c1, a as int, b as int, c as int);
                }
            }
        }
        None
    }
}

/// Any reading of a prefix of `s` as a number follows the greedy reading:
/// `a`, `b` and `c` are where the sign, the digits before the point and the
/// mantissa end when each is taken as long as it can be. The prefix then
/// either stops within the greedy mantissa or shares it.
proof fn lemma_parts_agree(s: Seq<char>, m: int, a1: int, b1: int, c1: int, a: int, b: int, c: int)
    requires
        number_parts(s, m, a1, b1, c1),
        0 <= a <= b <= c <= s.len(),
        a == (if s.len() > 0 && is_sign(s[0]) { 1int } else { 0int }),
        digits_between(s, a, b),
        b == s.len() || !is_digit(s[b]),
        if b < s.len() && s[b] == '.' {
            b + 1 <= c && digits_between(s, b + 1, c) && (c == s.len() || !is_digit(s[c]))
        } else {
            c == b
        },
    ensures
        a < b || b + 1 < c,
        m <= c || (c1 == c && exponent_between(s, c, m)),
{
    assert(a1 == a) by {
        if a1 == 0 && a == 1 {
            if b1 > 0 {
                assert(is_digit(s[0]));
            }
        }
    }
    assert(b1 <= b) by {
        if b1 > b {
            assert(is_digit(s[b]));
        }
    }
    if b1 < b {
        assert(is_digit(s[b1]));
        assert(c1 == b1);
        assert(m == c1);
    } else {
        if c1 > b1 {
            assert(c1 <= c) by {
                if c1 > c {
                    assert(is_digit(s[c]));
                }
            }
            if c1 < c {
                assert(is_digit(s[c1]));
                assert(m == c1);
            }
        } else {
            if m > c1 {
                assert(is_exponent_mark(s[b]));
                assert(c == b);
            }
        }
    }
}

/// Splits a quantity text into the number that it begins with and its unit.
///
/// The number is the longest prefix of `text` that is a number. White space
/// may follow it. What remains is the unit, taken as it stands but for white
/// space at its ends; it may be empty. A text that does not begin with a
/// number has no quantity.
pub fn parse_quantity(text: &str) -> (r: Option<Quantity>)
    ensures
        quantity_view(r) == parsed(text@),
        r is Some <==> exists|n: int| number_prefix(text@, n),
        r matches Some(q) ==> {
            &&& longest_number_prefix(text@, q.number@.len() as int)
            &&& q.number@ == text@.take(q.number@.len() as int)
            &&& q.unit@ == trimmed(text@.skip(q.number@.len() as int))
        },
{
    let v = chars_of(text);
    match scan_number(&v) {
        Some(n) => {
            let number = string_of(&v, 0, n);
            let unit = trim_from(&v, n);
            proof {
                lemma_longest_is_number_len(text@, n as int);
                assert(v@.subrange(0, n as int) =~= text@.take(n as int));
            }
            Some(Quantity { number, unit })
        },
        None => None,
    }
}

/// The longest number prefix is unique, so it is the one that `number_len`
/// names.
pub proof fn lemma_longest_is_number_len(s: Seq<char>, n: int)
    requires
        longest_number_prefix(s, n),
    ensures
        number_len(s) == Some(n),
{
    let k = choose|k: int| longest_number_prefix(s, k);
    assert(longest_number_prefix(s, k));
    assert(k <= n && n <= k);
}

/// Whether `c` can occur in a number.
pub open spec fn is_number_char(c: char) -> bool {
    is_digit(c) || is_sign(c) || is_exponent_mark(c) || c == '.'
}

/// A number is written with digits, signs, the point and the exponent mark
/// only: in particular it holds no white space.
pub proof fn lemma_number_chars(s: Seq<char>, n: int, i: int)
    requires
        number_prefix(s, n),
        0 <= i < n,
    ensures
        is_number_char(s[i]),
        !is_whitespace(s[i]),
{
    let (a, b, c) = choose|a: int, b: int, c: int| number_parts(s, n, a, b, c);
    if i < a {
    } else if i < b {
        assert(is_digit(s[i]));
    } else if i < c {
        if i > b {
            assert(is_digit(s[i]));
        }
    } else {
        if i > c {
            if i > c + 1 || !is_sign(s[c + 1]) {
                assert(is_digit(s[i]));
            }
        }
    }
}

/// Whether a number read in `s` is read in `t` too, where the two agree on
/// their first `n` characters.
pub proof fn lemma_number_prefix_agrees(s: Seq<char>, t: Seq<char>, n: int)
    requires
        number_prefix(s, n),
        n <= t.len(),
        forall|i: int| 0 <= i < n ==> s[i] == t[i],
    ensures
        number_prefix(t, n),
{
    let (a, b, c) = choose|a: int, b: int, c: int| number_parts(s, n, a, b, c);
    assert(digits_between(t, a, b)) by {
        assert forall|k: int| a <= k < b implies is_digit(#[trigger] t[k]) by {
            assert(is_digit(s[k]));
        }
    }
    if c > b {
        assert(digits_between(t, b + 1, c)) by {
            assert forall|k: int| b + 1 <= k < c implies is_digit(#[trigger] t[k]) by {
                assert(is_digit(s[k]));
            }
        }
    }
    if c < n {
        let d = if is_sign(s[c + 1]) { c + 2 } else { c + 1 };
        assert(digits_between(t, d, n)) by {
            assert forall|k: int| d <= k < n implies is_digit(#[trigger] t[k]) by {
                assert(is_digit(s[k]));
            }
        }
    }
    assert(number_parts(t, n, a, b, c));
}

/// What trimming leaves neither begins nor ends with white space, and
/// trimming it again changes nothing.
pub proof fn lemma_trimmed_is_trimmed(s: Seq<char>)
    ensures
        trimmed(trimmed(s)) == trimmed(s),
        trimmed(s).len() > 0 ==> !is_whitespace(trimmed(s)[0]) && !is_whitespace(
            trimmed(s).last(),
        ),
{
    let t = trim_start(s);
    lemma_trim_start_shape(s);
    lemma_trim_end_shape(t);
    let w = trim_end(t);
    if w.len() > 0 {
        assert(w[0] == t[0]);
    }
}

/// What `trim_start` leaves is empty or begins with something else than
/// white space.
pub proof fn lemma_trim_start_shape(s: Seq<char>)
    ensures
        trim_start(s).len() == 0 || !is_whitespace(trim_start(s)[0]),
    decreases s.len(),
{
    if s.len() > 0 && is_whitespace(s[0]) {
        lemma_trim_start_shape(s.skip(1));
    }
}

/// What `trim_end` leaves is a prefix of `s` that is empty or ends with
/// something else than white space.
pub proof fn lemma_trim_end_shape(s: Seq<char>)
    ensures
        trim_end(s).len() <= s.len(),
        trim_end(s) == s.take(trim_end(s).len() as int),
        trim_end(s).len() == 0 || !is_whitespace(trim_end(s).last()),
    decreases s.len(),
{
    if s.len() > 0 && is_whitespace(s.last()) {
        lemma_trim_end_shape(s.drop_last());
        let k = trim_end(s).len() as int;
        assert(s.drop_last().take(k) =~= s.take(k));
    } else {
        assert(s.take(s.len() as int) =~= s);
    }
}

/// A number, then white space, then a unit: the text is read as that number
/// and that unit, trimmed.
pub proof fn lemma_parsed_number_gap_unit(number: Seq<char>, gap: Seq<char>, unit: Seq<char>)
    requires
        is_number(number),
        gap.len() > 0,
        forall|i: int| 0 <= i < gap.len() ==> is_whitespace(#[trigger] gap[i]),
    ensures
        parsed(number + gap + unit) == Some((number, trimmed(unit))),
{
    let s = number + gap + unit;
    let n = number.len() as int;
    lemma_number_prefix_agrees(number, s, n);
    assert forall|m: int| number_prefix(s, m) implies m <= n by {
        if m > n {
            lemma_number_chars(s, m, n);
            assert(s[n] == gap[0]);
        }
    }
    lemma_longest_is_number_len(s, n);
    assert(s.take(n) =~= number);
    let rest = s.skip(n);
    assert(rest =~= gap + unit);
    crate::text::lemma_trim_start_skips(rest, gap.len() as int);
    assert(rest.skip(gap.len() as int) =~= unit);
}

/// The unit of a quantity survives redisplay: where `text` reads as a
/// quantity and `shown` is any number (the magnitude as it is displayed
/// again, say with two decimals), `shown`, a space and the unit read as a
/// quantity with `shown` as its number and the very same unit.
pub proof fn lemma_unit_survives_redisplay(text: Seq<char>, shown: Seq<char>)
    requires
        parsed(text) is Some,
        is_number(shown),
    ensures
        parsed(shown + seq![' '] + parsed(text).unwrap().1) == Some(
            (shown, parsed(text).unwrap().1),
        ),
{
    let n = number_len(text).unwrap();
    lemma_trimmed_is_trimmed(text.skip(n));
    lemma_parsed_number_gap_unit(shown, seq![' '], parsed(text).unwrap().1);
}

/// Whether `s` is a decimal with two digits after the point: an optional
/// minus sign, at least one digit, the point, two digits.
pub open spec fn is_two_decimals(s: Seq<char>) -> bool {
    let a: int = if s.len() > 0 && s[0] == '-' { 1 } else { 0 };
    &&& a + 4 <= s.len()
    &&& digits_between(s, a, s.len() - 3)
    &&& s[s.len() - 3] == '.'
    &&& digits_between(s, s.len() - 2, s.len() as int)
}

/// A decimal with two digits after the point is a number.
pub proof fn lemma_two_decimals_is_number(s: Seq<char>)
    requires
        is_two_decimals(s),
    ensures
        is_number(s),
{
    let a: int = if s.len() > 0 && s[0] == '-' { 1 } else { 0 };
    assert(number_parts(s, s.len() as int, a, s.len() - 3, s.len() as int));
}

} // verus!
